//! The host's term heaps, as the native side sees them: a heap is an arena
//! of immutable values, and a raw term is the number of a slot in it.
//!
//! Nothing here knows which environment a heap belongs to. The checks of
//! identity and lifetime are made one level up, on `NifEnv` and `NifTerm`.

use vstd::prelude::*;

pub mod atom;
pub mod list;
pub mod map;
pub mod pid;
pub mod tuple;

verus! {

/// The identity of a process of the host.
#[derive(Debug, Clone, Copy, PartialEq, Eq, Structural)]
pub struct ErlNifPid {
    pub pid: usize,
}

/// The identity of one allocation that the host's collector owns.
#[derive(Debug, Clone, Copy, PartialEq, Eq, Structural)]
pub struct ResourceId {
    /// The tag of the resource type the allocation was wrapped as.
    pub kind: usize,
    /// The place of the allocation in its arena.
    pub index: usize,
    /// How often that place had been reused when the allocation was made.
    pub generation: u64,
}

/// A value of the host, as mathematics.
pub enum Value {
    Int(int),
    Atom(Seq<u8>),
    Binary(Seq<u8>),
    Tuple(Seq<Value>),
    List(Seq<Value>),
    /// A map. Its keys are atoms, given by their names.
    Mapping(Map<Seq<u8>, Value>),
    Pid(ErlNifPid),
    Resource(ResourceId),
}

/// One stored value. A compound value names its parts by their slots, which
/// are always earlier slots of the same heap.
#[derive(Debug, PartialEq, Eq)]
pub enum Node {
    Int(i64),
    Atom(Vec<u8>),
    Binary(Vec<u8>),
    Tuple(Vec<usize>),
    List(Vec<usize>),
    Mapping(Vec<(Vec<u8>, usize)>),
    Pid(ErlNifPid),
    Resource(ResourceId),
}

/// The map that a list of entries stands for. Where a key occurs twice the
/// later entry counts.
pub open spec fn map_of(entries: Seq<(Seq<u8>, Value)>) -> Map<Seq<u8>, Value>
    decreases entries.len(),
{
    if entries.len() == 0 {
        Map::empty()
    } else {
        map_of(entries.drop_last()).insert(entries.last().0, entries.last().1)
    }
}

/// Whether every part of `node` lies in a slot below `bound`.
pub open spec fn parts_below(node: Node, bound: int) -> bool {
    match node {
        Node::Tuple(parts) => forall|k: int| 0 <= k < parts@.len() ==> #[trigger] parts@[k] < bound,
        Node::List(parts) => forall|k: int| 0 <= k < parts@.len() ==> #[trigger] parts@[k] < bound,
        Node::Mapping(entries) => forall|k: int|
            0 <= k < entries@.len() ==> (#[trigger] entries@[k]).1 < bound,
        _ => true,
    }
}

/// Whether every compound value among `nodes` is made of values stored
/// before it.
spec fn nodes_wf(nodes: Seq<Node>) -> bool {
    forall|i: int| 0 <= i < nodes.len() ==> parts_below(#[trigger] nodes[i], i)
}

/// The values of the parts of a tuple stored in slot `slot`.
spec fn part_values(nodes: Seq<Node>, slot: int, parts: Seq<usize>) -> Seq<Value>
    decreases slot, 0int,
{
    Seq::new(
        parts.len(),
        |k: int|
            if parts[k] < slot {
                value_at(nodes, parts[k] as int)
            } else {
                Value::Int(0)
            },
    )
}

/// The entries of a map stored in slot `slot`, with their values.
spec fn entry_values_at(
    nodes: Seq<Node>,
    slot: int,
    entries: Seq<(Vec<u8>, usize)>,
) -> Seq<(Seq<u8>, Value)>
    decreases slot, 0int,
{
    Seq::new(
        entries.len(),
        |k: int|
            (
                entries[k].0@,
                if entries[k].1 < slot {
                    value_at(nodes, entries[k].1 as int)
                } else {
                    Value::Int(0)
                },
            ),
    )
}

/// The value stored in slot `slot` of `nodes`.
spec fn value_at(nodes: Seq<Node>, slot: int) -> Value
    decreases slot, 1int,
{
    if 0 <= slot < nodes.len() {
        match nodes[slot] {
            Node::Int(n) => Value::Int(n as int),
            Node::Atom(name) => Value::Atom(name@),
            Node::Binary(bytes) => Value::Binary(bytes@),
            Node::Tuple(parts) => Value::Tuple(part_values(nodes, slot, parts@)),
            Node::List(parts) => Value::List(part_values(nodes, slot, parts@)),
            Node::Mapping(entries) => Value::Mapping(
                map_of(entry_values_at(nodes, slot, entries@)),
            ),
            Node::Pid(pid) => Value::Pid(pid),
            Node::Resource(id) => Value::Resource(id),
        }
    } else {
        Value::Int(0)
    }
}

/// One heap of the host.
#[derive(Debug)]
pub struct Heap {
    nodes: Vec<Node>,
}

impl Heap {
    /// Every compound value is made of values stored before it.
    #[verifier::type_invariant]
    spec fn inv(self) -> bool {
        nodes_wf(self.nodes@)
    }

    /// The number of slots in use.
    pub closed spec fn size(&self) -> nat {
        self.nodes@.len()
    }

    /// Whether `slot` holds a value.
    pub open spec fn contains(&self, slot: usize) -> bool {
        slot < self.size()
    }

    /// The value that `slot` holds.
    pub closed spec fn value(&self, slot: usize) -> Value {
        value_at(self.nodes@, slot as int)
    }

    /// The values that `slots` hold, in order.
    pub open spec fn values(&self, slots: Seq<usize>) -> Seq<Value> {
        Seq::new(slots.len(), |k: int| self.value(slots[k]))
    }

    /// The keys of `entries` with the values that their slots hold.
    pub open spec fn entry_values(&self, entries: Seq<(Vec<u8>, usize)>) -> Seq<
        (Seq<u8>, Value),
    > {
        Seq::new(entries.len(), |k: int| (entries[k].0@, self.value(entries[k].1)))
    }

    /// The value that `node` stands for, its parts being read in this heap.
    pub open spec fn value_of(&self, node: Node) -> Value {
        match node {
            Node::Int(n) => Value::Int(n as int),
            Node::Atom(name) => Value::Atom(name@),
            Node::Binary(bytes) => Value::Binary(bytes@),
            Node::Tuple(parts) => Value::Tuple(self.values(parts@)),
            Node::List(parts) => Value::List(self.values(parts@)),
            Node::Mapping(entries) => Value::Mapping(map_of(self.entry_values(entries@))),
            Node::Pid(pid) => Value::Pid(pid),
            Node::Resource(id) => Value::Resource(id),
        }
    }

    /// Whether this heap is `before` with values added: every slot of
    /// `before` still holds what it held.
    pub open spec fn extends(&self, before: &Heap) -> bool {
        &&& before.size() <= self.size()
        &&& forall|slot: usize|
            before.contains(slot) ==> #[trigger] self.value(slot) == before.value(slot)
    }

    /// An empty heap.
    pub fn new() -> (heap: Heap)
        ensures
            heap.size() == 0,
    {
        Heap { nodes: Vec::new() }
    }

    /// The number of slots in use.
    pub fn len(&self) -> (n: usize)
        ensures
            n == self.size(),
    {
        self.nodes.len()
    }

    /// Forgets every value. Slots are numbered from 0 again.
    pub fn clear(&mut self)
        ensures
            final(self).size() == 0,
    {
        let mut nodes: Vec<Node> = Vec::new();
        std::mem::swap(&mut nodes, &mut self.nodes);
    }

    /// Stores `node` in the next free slot.
    pub fn store(&mut self, node: Node) -> (slot: usize)
        requires
            parts_below(node, old(self).size() as int),
        ensures
            slot == old(self).size(),
            final(self).size() == old(self).size() + 1,
            final(self).value(slot) == old(self).value_of(node),
            final(self).extends(old(self)),
    {
        proof {
            use_type_invariant(&*self);
        }
        let slot: usize = self.nodes.len();
        let ghost before = self.nodes@;
        let ghost stored = node;
        // The nodes are taken out while they change and put back whole.
        let mut nodes: Vec<Node> = Vec::new();
        std::mem::swap(&mut nodes, &mut self.nodes);
        nodes.push(node);
        std::mem::swap(&mut nodes, &mut self.nodes);
        proof {
            assert forall|s: usize| s < before.len() implies value_at(self.nodes@, s as int)
                == value_at(before, s as int) by {
                lemma_value_at_prefix(before, self.nodes@, s as int);
            }
            lemma_value_of_node(self.nodes@, slot as int);
            match stored {
                Node::Tuple(parts) => {
                    assert(part_values(self.nodes@, slot as int, parts@) =~= old(self).values(
                        parts@,
                    ));
                },
                Node::List(parts) => {
                    assert(part_values(self.nodes@, slot as int, parts@) =~= old(self).values(
                        parts@,
                    ));
                },
                Node::Mapping(entries) => {
                    assert(entry_values_at(self.nodes@, slot as int, entries@) =~= old(
                        self,
                    ).entry_values(entries@));
                },
                _ => {},
            }
        }
        slot
    }

    /// The node stored in `slot`.
    pub fn read(&self, slot: usize) -> (node: &Node)
        requires
            self.contains(slot),
        ensures
            parts_below(*node, slot as int),
            self.value(slot) == self.value_of(*node),
    {
        proof {
            use_type_invariant(self);
            lemma_value_of_node(self.nodes@, slot as int);
            match self.nodes@[slot as int] {
                Node::Tuple(parts) => {
                    assert(part_values(self.nodes@, slot as int, parts@) =~= self.values(parts@));
                },
                Node::List(parts) => {
                    assert(part_values(self.nodes@, slot as int, parts@) =~= self.values(parts@));
                },
                Node::Mapping(entries) => {
                    assert(entry_values_at(self.nodes@, slot as int, entries@)
                        =~= self.entry_values(entries@));
                },
                _ => {},
            }
        }
        &self.nodes[slot]
    }
}

/// The parts of a compound value, read off its node, are the values in the
/// slots that the node names.
proof fn lemma_value_of_node(nodes: Seq<Node>, slot: int)
    requires
        nodes_wf(nodes),
        0 <= slot < nodes.len(),
    ensures
        parts_below(nodes[slot], slot),
        match nodes[slot] {
            Node::Tuple(parts) => forall|k: int|
                0 <= k < parts@.len() ==> #[trigger] part_values(nodes, slot, parts@)[k]
                    == value_at(nodes, parts@[k] as int),
            Node::List(parts) => forall|k: int|
                0 <= k < parts@.len() ==> #[trigger] part_values(nodes, slot, parts@)[k]
                    == value_at(nodes, parts@[k] as int),
            Node::Mapping(entries) => forall|k: int|
                0 <= k < entries@.len() ==> #[trigger] entry_values_at(nodes, slot, entries@)[k]
                    == (entries@[k].0@, value_at(nodes, entries@[k].1 as int)),
            _ => true,
        },
{
    assert(parts_below(nodes[slot], slot));
}

/// Copies the value in slot `term` of `src`, with all its parts, into `dest`.
///
/// The copy does not depend on `src` afterwards: it stays what it is when
/// `src` is cleared or gone.
pub fn copy_term(dest: &mut Heap, src: &Heap, term: usize) -> (copy: usize)
    requires
        src.contains(term),
    ensures
        final(dest).contains(copy),
        final(dest).value(copy) == src.value(term),
        final(dest).extends(old(dest)),
    decreases term,
{
    match src.read(term) {
        Node::Int(n) => dest.store(Node::Int(*n)),
        Node::Atom(name) => dest.store(Node::Atom(copy_bytes(name.as_slice()))),
        Node::Binary(bytes) => dest.store(Node::Binary(copy_bytes(bytes.as_slice()))),
        Node::Pid(pid) => dest.store(Node::Pid(*pid)),
        Node::Resource(id) => dest.store(Node::Resource(*id)),
        Node::Tuple(parts) => {
            let mut copies: Vec<usize> = Vec::new();
            let mut k: usize = 0;
            while k < parts.len()
                invariant
                    k <= parts.len(),
                    dest.extends(old(dest)),
                    forall|j: int| 0 <= j < parts@.len() ==> #[trigger] parts@[j] < term,
                    src.contains(term),
                    copies@.len() == k,
                    forall|j: int|
                        0 <= j < k ==> dest.contains(#[trigger] copies@[j]) && dest.value(
                            copies@[j],
                        ) == src.value(parts@[j]),
                decreases parts.len() - k,
            {
                let part = copy_term(dest, src, parts[k]);
                copies.push(part);
                k += 1;
            }
            let ghost held = dest.values(copies@);
            let copy = dest.store(Node::Tuple(copies));
            proof {
                assert(held =~= src.values(parts@));
            }
            copy
        },
        Node::List(parts) => {
            let mut copies: Vec<usize> = Vec::new();
            let mut k: usize = 0;
            while k < parts.len()
                invariant
                    k <= parts.len(),
                    dest.extends(old(dest)),
                    forall|j: int| 0 <= j < parts@.len() ==> #[trigger] parts@[j] < term,
                    src.contains(term),
                    copies@.len() == k,
                    forall|j: int|
                        0 <= j < k ==> dest.contains(#[trigger] copies@[j]) && dest.value(
                            copies@[j],
                        ) == src.value(parts@[j]),
                decreases parts.len() - k,
            {
                let part = copy_term(dest, src, parts[k]);
                copies.push(part);
                k += 1;
            }
            let ghost held = dest.values(copies@);
            let copy = dest.store(Node::List(copies));
            proof {
                assert(held =~= src.values(parts@));
            }
            copy
        },
        Node::Mapping(entries) => {
            let mut copies: Vec<(Vec<u8>, usize)> = Vec::new();
            let mut k: usize = 0;
            while k < entries.len()
                invariant
                    k <= entries.len(),
                    dest.extends(old(dest)),
                    forall|j: int| 0 <= j < entries@.len() ==> (#[trigger] entries@[j]).1 < term,
                    src.contains(term),
                    copies@.len() == k,
                    forall|j: int|
                        0 <= j < k ==> dest.contains((#[trigger] copies@[j]).1) && dest.value(
                            copies@[j].1,
                        ) == src.value(entries@[j].1) && copies@[j].0@ == entries@[j].0@,
                decreases entries.len() - k,
            {
                let key = copy_bytes(entries[k].0.as_slice());
                let part = copy_term(dest, src, entries[k].1);
                copies.push((key, part));
                k += 1;
            }
            let ghost held = dest.entry_values(copies@);
            let copy = dest.store(Node::Mapping(copies));
            proof {
                assert(held =~= src.entry_values(entries@));
            }
            copy
        },
    }
}

/// A copy of `bytes` that the caller owns.
pub fn copy_bytes(bytes: &[u8]) -> (owned: Vec<u8>)
    ensures
        owned@ == bytes@,
{
    let mut owned: Vec<u8> = Vec::new();
    let mut k: usize = 0;
    while k < bytes.len()
        invariant
            k <= bytes.len(),
            owned@ == bytes@.take(k as int),
        decreases bytes.len() - k,
    {
        owned.push(bytes[k]);
        proof {
            assert(bytes@.take(k + 1) =~= bytes@.take(k as int).push(bytes@[k as int]));
        }
        k += 1;
    }
    proof {
        assert(bytes@.take(k as int) =~= bytes@);
    }
    owned
}

/// A slot of a well-formed heap holds the same value in every heap that
/// begins with the same nodes.
proof fn lemma_value_at_prefix(before: Seq<Node>, after: Seq<Node>, slot: int)
    requires
        nodes_wf(before),
        before.len() <= after.len(),
        forall|i: int| 0 <= i < before.len() ==> after[i] == before[i],
        0 <= slot < before.len(),
    ensures
        value_at(after, slot) == value_at(before, slot),
    decreases slot,
{
    assert(parts_below(before[slot], slot));
    match before[slot] {
        Node::Tuple(parts) => {
            let old_parts = part_values(before, slot, parts@);
            let new_parts = part_values(after, slot, parts@);
            assert forall|k: int| 0 <= k < parts@.len() implies new_parts[k] == old_parts[k] by {
                lemma_value_at_prefix(before, after, parts@[k] as int);
            }
            assert(new_parts =~= old_parts);
        },
        Node::List(parts) => {
            let old_parts = part_values(before, slot, parts@);
            let new_parts = part_values(after, slot, parts@);
            assert forall|k: int| 0 <= k < parts@.len() implies new_parts[k] == old_parts[k] by {
                lemma_value_at_prefix(before, after, parts@[k] as int);
            }
            assert(new_parts =~= old_parts);
        },
        Node::Mapping(entries) => {
            let old_entries = entry_values_at(before, slot, entries@);
            let new_entries = entry_values_at(after, slot, entries@);
            assert forall|k: int| 0 <= k < entries@.len() implies new_entries[k]
                == old_entries[k] by {
                lemma_value_at_prefix(before, after, entries@[k].1 as int);
            }
            assert(new_entries =~= old_entries);
        },
        _ => {},
    }
}

} // verus!
