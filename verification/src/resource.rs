//! Native objects that the host's collector owns.
//!
//! A resource type is registered while the module loads and is given a
//! descriptor. The objects of one type live in an arena. A term refers to
//! an object by its place in the arena and the generation of that place, so
//! that a term that outlives its object is told apart and never read as
//! another object. An object leaves the arena when it is collected, which
//! is when its destructor runs: at most once, and not before the last
//! reference to it was released.
//!
//! The references are counted by those who hold them: `wrap` counts one for
//! the term it makes, `keep` counts another for who copies that term, and
//! `release` gives one up.

use vstd::prelude::*;
use vstd::string::StringExecFns;

use crate::error::NifError;
use crate::types::{NifEnv, NifTerm};
use crate::wrapper::{ResourceId, Value};

verus! {

/// What a registered resource type is known by.
#[derive(Debug, Clone, Copy, PartialEq, Eq, Structural)]
pub struct Descriptor {
    kind: usize,
}

impl Descriptor {
    /// The tag that tells the resource type from all others of its
    /// registry.
    pub closed spec fn kind(self) -> usize {
        self.kind
    }

    /// The tag that tells the resource type from all others of its
    /// registry.
    pub fn tag(&self) -> (kind: usize)
        ensures
            kind == self.kind(),
    {
        self.kind
    }
}

/// Why a resource type was not registered.
#[derive(Debug, Clone, Copy, PartialEq, Eq, Structural)]
pub enum RegistryError {
    /// The module has finished loading; types are registered before.
    NotLoading,
}

/// One registered resource type.
#[derive(Debug)]
struct Registered {
    name: String,
    claimed: bool,
}

/// The resource types of one loaded module.
#[derive(Debug)]
pub struct Registry {
    types: Vec<Registered>,
    loading: bool,
}

/// The resource types of one loaded module, as mathematics.
pub struct RegistryView {
    /// The names of the registered types; the tag of a type is its place.
    pub names: Seq<Seq<char>>,
    /// For each registered type, whether its arena has been handed out.
    pub claimed: Seq<bool>,
    /// Whether the module is still loading.
    pub loading: bool,
}

/// The first place at which `name` stands in `names`, if it stands there.
pub open spec fn place_of(names: Seq<Seq<char>>, name: Seq<char>) -> Option<int>
    decreases names.len(),
{
    if names.len() == 0 {
        None
    } else {
        match place_of(names.drop_last(), name) {
            Some(at) => Some(at),
            None => if names.last() == name {
                Some(names.len() - 1)
            } else {
                None
            },
        }
    }
}

impl View for Registry {
    type V = RegistryView;

    closed spec fn view(&self) -> RegistryView {
        RegistryView {
            names: Seq::new(self.types@.len(), |k: int| self.types@[k].name@),
            claimed: Seq::new(self.types@.len(), |k: int| self.types@[k].claimed),
            loading: self.loading,
        }
    }
}

impl Registry {
    /// The registry of a module that begins to load: no type is registered.
    pub fn new() -> (registry: Registry)
        ensures
            registry@.loading,
            registry@.names.len() == 0,
            registry@.claimed.len() == 0,
    {
        Registry { types: Vec::new(), loading: true }
    }

    /// Ends the loading of the module. No type can be registered after.
    pub fn finish_load(&mut self)
        ensures
            final(self)@.names == old(self)@.names,
            final(self)@.claimed == old(self)@.claimed,
            !final(self)@.loading,
    {
        self.loading = false;
        proof {
            assert(final(self)@.names =~= old(self)@.names);
            assert(final(self)@.claimed =~= old(self)@.claimed);
        }
    }

    /// The descriptor of the type registered as `name`, if there is
    /// one.
    pub fn descriptor_of(&self, name: &str) -> (found: Option<Descriptor>)
        ensures
            match place_of(self@.names, name@) {
                Some(at) => found is Some && found->Some_0.kind() == at,
                None => found is None,
            },
    {
        let wanted = String::from_str(name);
        let ghost names = self@.names;
        let mut k: usize = 0;
        while k < self.types.len()
            invariant
                k <= self.types.len(),
                names == self@.names,
                names.len() == self.types@.len(),
                wanted@ == name@,
                forall|j: int| 0 <= j < k ==> #[trigger] names[j] != name@,
            decreases self.types.len() - k,
        {
            proof {
                assert(names[k as int] == self.types@[k as int].name@);
            }
            if self.types[k].name == wanted {
                proof {
                    lemma_place_first(names, name@, k as int);
                }
                return Some(Descriptor { kind: k });
            }
            k += 1;
        }
        proof {
            lemma_place_none(names, name@);
        }
        None
    }

    /// Hands out the arena of the resource type that `descriptor` stands
    /// for. It is handed out once: the objects of one type live in one
    /// arena, so that a handle of the type always names an object of that
    /// arena.
    ///
    /// Returns `None` where the arena was handed out before, or where
    /// `descriptor` is of no type of this registry.
    pub fn arena<T>(&mut self, descriptor: Descriptor) -> (arena: Option<Arena<T>>)
        ensures
            final(self)@.names == old(self)@.names,
            final(self)@.loading == old(self)@.loading,
            arena is Some <==> descriptor.kind() < old(self)@.claimed.len() && !old(
                self,
            )@.claimed[descriptor.kind() as int],
            arena is None ==> final(self)@ == old(self)@,
            arena matches Some(made) ==> {
                &&& made@.kind == descriptor.kind()
                &&& made@.slots.len() == 0
                &&& final(self)@.claimed == old(self)@.claimed.update(
                    descriptor.kind() as int,
                    true,
                )
            },
    {
        let at: usize = descriptor.kind;
        if at >= self.types.len() {
            return None;
        }
        if self.types[at].claimed {
            return None;
        }
        self.types[at].claimed = true;
        proof {
            assert(final(self)@.names =~= old(self)@.names);
            assert(final(self)@.claimed =~= old(self)@.claimed.update(at as int, true));
        }
        Some(Arena::new(descriptor))
    }

    /// Registers the resource type named `name`.
    ///
    /// Registering a name again changes nothing and gives the descriptor
    /// that the name was given before.
    ///
    /// # Errors
    ///
    /// `RegistryError::NotLoading` if the module has finished loading.
    pub fn register(&mut self, name: &str) -> (registered: Result<Descriptor, RegistryError>)
        ensures
            !old(self)@.loading ==> registered == Err::<Descriptor, RegistryError>(
                RegistryError::NotLoading,
            ) && final(self)@ == old(self)@,
            old(self)@.loading ==> match place_of(old(self)@.names, name@) {
                Some(at) => {
                    &&& registered is Ok
                    &&& registered->Ok_0.kind() == at
                    &&& final(self)@ == old(self)@
                },
                None => {
                    &&& registered is Ok
                    &&& registered->Ok_0.kind() == old(self)@.names.len()
                    &&& final(self)@.names == old(self)@.names.push(name@)
                    &&& final(self)@.claimed == old(self)@.claimed.push(false)
                    &&& final(self)@.loading
                },
            },
    {
        if !self.loading {
            return Err(RegistryError::NotLoading);
        }
        match self.descriptor_of(name) {
            Some(descriptor) => Ok(descriptor),
            None => {
                let at: usize = self.types.len();
                self.types.push(Registered { name: String::from_str(name), claimed: false });
                proof {
                    assert(final(self)@.names =~= old(self)@.names.push(name@));
                    assert(final(self)@.claimed =~= old(self)@.claimed.push(false));
                }
                Ok(Descriptor { kind: at })
            },
        }
    }
}

/// One place of an arena.
#[derive(Debug)]
struct Slot<T> {
    generation: u64,
    refs: u64,
    value: Option<T>,
}

/// One place of an arena, as mathematics.
pub struct SlotView<T> {
    /// How often an object was put in this place after the first.
    pub generation: u64,
    /// How many references to the object are held.
    pub refs: u64,
    /// The object, until it is collected.
    pub value: Option<T>,
}

/// The objects of one resource type.
#[derive(Debug)]
pub struct Arena<T> {
    descriptor: Descriptor,
    slots: Vec<Slot<T>>,
}

/// The objects of one resource type, as mathematics.
pub struct ArenaView<T> {
    /// The tag of the resource type.
    pub kind: usize,
    /// The places of the arena.
    pub slots: Seq<SlotView<T>>,
}

impl<T> ArenaView<T> {
    /// Whether `id` names an object that is in the arena now.
    pub open spec fn is_live(self, id: ResourceId) -> bool {
        &&& id.kind == self.kind
        &&& id.index < self.slots.len()
        &&& self.slots[id.index as int].generation == id.generation
        &&& self.slots[id.index as int].value is Some
    }

    /// Whether `id` names an object that was in the arena and has been
    /// collected.
    pub open spec fn is_retired(self, id: ResourceId) -> bool {
        &&& id.kind == self.kind
        &&& id.index < self.slots.len()
        &&& {
            ||| id.generation < self.slots[id.index as int].generation
            ||| id.generation == self.slots[id.index as int].generation
                && self.slots[id.index as int].value is None
        }
    }

    /// Whether the arena can have come from `before` by putting objects in
    /// and taking objects out: no place is lost, no generation goes back,
    /// and a place whose object was taken out gets its next object only in
    /// the next generation.
    pub open spec fn follows(self, before: ArenaView<T>) -> bool {
        &&& self.kind == before.kind
        &&& self.slots.len() >= before.slots.len()
        &&& forall|k: int|
            0 <= k < before.slots.len() ==> {
                &&& (#[trigger] self.slots[k]).generation >= before.slots[k].generation
                &&& self.slots[k].generation == before.slots[k].generation
                    && before.slots[k].value is None ==> self.slots[k].value is None
            }
    }

    /// The object that `id` names.
    pub open spec fn value(self, id: ResourceId) -> T {
        self.slots[id.index as int].value->Some_0
    }

    /// The number of references held to the object that `id` names.
    pub open spec fn refs(self, id: ResourceId) -> u64 {
        self.slots[id.index as int].refs
    }
}

/// What a place is after a collection: an object without references is
/// gone from it.
pub open spec fn swept<T>(slot: SlotView<T>) -> SlotView<T> {
    if slot.value is Some && slot.refs == 0 {
        SlotView { value: None, ..slot }
    } else {
        slot
    }
}

/// The objects that a collection takes out of `slots`, in the order of
/// their places.
pub open spec fn garbage<T>(slots: Seq<SlotView<T>>) -> Seq<T>
    decreases slots.len(),
{
    if slots.len() == 0 {
        Seq::empty()
    } else if slots.last().value is Some && slots.last().refs == 0 {
        garbage(slots.drop_last()).push(slots.last().value->Some_0)
    } else {
        garbage(slots.drop_last())
    }
}

impl<T> View for Slot<T> {
    type V = SlotView<T>;

    closed spec fn view(&self) -> SlotView<T> {
        SlotView { generation: self.generation, refs: self.refs, value: self.value }
    }
}

impl<T> View for Arena<T> {
    type V = ArenaView<T>;

    closed spec fn view(&self) -> ArenaView<T> {
        ArenaView {
            kind: self.descriptor.kind(),
            slots: Seq::new(self.slots@.len(), |k: int| self.slots@[k]@),
        }
    }
}

impl<T> Arena<T> {
    /// The arena of the resource type that `descriptor` stands for, without
    /// objects.
    fn new(descriptor: Descriptor) -> (arena: Arena<T>)
        ensures
            arena@.kind == descriptor.kind(),
            arena@.slots.len() == 0,
    {
        Arena { descriptor, slots: Vec::new() }
    }

    /// The descriptor of the resource type.
    pub fn descriptor(&self) -> (descriptor: Descriptor)
        ensures
            descriptor.kind() == self@.kind,
    {
        self.descriptor
    }

    /// The first place that can take an object again, if there is one.
    fn free_place(&self) -> (found: Option<usize>)
        ensures
            match found {
                Some(at) => at < self@.slots.len() && self@.slots[at as int].value is None
                    && self@.slots[at as int].generation < u64::MAX,
                None => forall|k: int|
                    0 <= k < self@.slots.len() ==> !((#[trigger] self@.slots[k]).value is None
                        && self@.slots[k].generation < u64::MAX),
            },
    {
        let mut k: usize = 0;
        while k < self.slots.len()
            invariant
                k <= self.slots.len(),
                self@.slots.len() == self.slots@.len(),
                forall|j: int|
                    0 <= j < k ==> !((#[trigger] self@.slots[j]).value is None
                        && self@.slots[j].generation < u64::MAX),
            decreases self.slots.len() - k,
        {
            proof {
                assert(self@.slots[k as int] == self.slots@[k as int]@);
            }
            if self.slots[k].value.is_none() && self.slots[k].generation < u64::MAX {
                return Some(k);
            }
            k += 1;
        }
        None
    }

    /// Moves `value` into the arena and makes the term that refers to it in
    /// the heap of `env`. The term holds the one reference to the object.
    ///
    /// The object is named as no object was named before: by a new place,
    /// or by a place whose object was collected, in its next generation.
    pub fn wrap(&mut self, env: &mut NifEnv, value: T) -> (term: NifTerm)
        requires
            old(env).alive(),
        ensures
            final(env).owns(term),
            final(env).extends(old(env)),
            final(self)@.follows(old(self)@),
            final(env).value(term) matches Value::Resource(id) && {
                &&& id.kind == old(self)@.kind
                &&& !old(self)@.is_live(id)
                &&& !old(self)@.is_retired(id)
                &&& final(self)@.is_live(id)
                &&& final(self)@.value(id) == value
                &&& final(self)@.refs(id) == 1
                &&& id.index <= old(self)@.slots.len()
                &&& id.index == old(self)@.slots.len() ==> final(self)@.slots == old(
                    self,
                )@.slots.push(SlotView { generation: id.generation, refs: 1, value: Some(value) })
                &&& id.index < old(self)@.slots.len() ==> final(self)@.slots == old(
                    self,
                )@.slots.update(
                    id.index as int,
                    SlotView { generation: id.generation, refs: 1, value: Some(value) },
                )
            },
    {
        let ghost stored = value;
        let id = match self.free_place() {
            Some(at) => {
                let generation: u64 = self.slots[at].generation + 1;
                self.slots[at].generation = generation;
                self.slots[at].refs = 1;
                self.slots[at].value = Some(value);
                proof {
                    assert(final(self)@.slots =~= old(self)@.slots.update(
                        at as int,
                        SlotView { generation, refs: 1, value: Some(stored) },
                    ));
                }
                ResourceId { kind: self.descriptor.tag(), index: at, generation }
            },
            None => {
                let at: usize = self.slots.len();
                self.slots.push(Slot { generation: 0, refs: 1, value: Some(value) });
                proof {
                    assert(final(self)@.slots =~= old(self)@.slots.push(
                        SlotView { generation: 0, refs: 1, value: Some(stored) },
                    ));
                }
                ResourceId { kind: self.descriptor.tag(), index: at, generation: 0 }
            },
        };
        crate::types::resource::make_resource(env, id)
    }

    /// The object that `term` refers to, for reading.
    ///
    /// # Errors
    ///
    /// `NifError::BadArg` if `term` is no handle to a resource, if the
    /// resource is of another type than this arena holds, or if the object
    /// has been collected.
    pub fn unwrap(&self, env: &NifEnv, term: NifTerm) -> (object: Result<&T, NifError>)
        requires
            env.owns(term),
        ensures
            match env.value(term) {
                Value::Resource(id) => if self@.is_live(id) {
                    object is Ok && *object->Ok_0 == self@.value(id)
                } else {
                    object == Err::<&T, NifError>(NifError::BadArg)
                },
                _ => object == Err::<&T, NifError>(NifError::BadArg),
            },
    {
        let id = match crate::types::resource::get_resource(env, term) {
            Ok(id) => id,
            Err(e) => {
                return Err(e);
            },
        };
        if id.kind != self.descriptor.tag() || id.index >= self.slots.len() {
            return Err(NifError::BadArg);
        }
        proof {
            assert(self@.slots[id.index as int] == self.slots@[id.index as int]@);
        }
        if self.slots[id.index].generation != id.generation {
            return Err(NifError::BadArg);
        }
        match &self.slots[id.index].value {
            Some(value) => Ok(value),
            None => Err(NifError::BadArg),
        }
    }

    /// Counts one more reference to the object that `id` names. Returns
    /// whether it was counted: the object has to be in the arena, and the
    /// count must not run over.
    pub fn keep(&mut self, id: ResourceId) -> (kept: bool)
        ensures
            final(self)@.follows(old(self)@),
            kept == (old(self)@.is_live(id) && old(self)@.refs(id) < u64::MAX),
            !kept ==> final(self)@ == old(self)@,
            kept ==> final(self)@.slots == old(self)@.slots.update(
                id.index as int,
                SlotView {
                    refs: (old(self)@.refs(id) + 1) as u64,
                    ..old(self)@.slots[id.index as int]
                },
            ),
    {
        if id.kind != self.descriptor.tag() || id.index >= self.slots.len() {
            return false;
        }
        proof {
            assert(self@.slots[id.index as int] == self.slots@[id.index as int]@);
        }
        if self.slots[id.index].generation != id.generation || self.slots[id.index].value.is_none()
            || self.slots[id.index].refs == u64::MAX {
            return false;
        }
        let refs: u64 = self.slots[id.index].refs + 1;
        self.slots[id.index].refs = refs;
        proof {
            assert(final(self)@.slots =~= old(self)@.slots.update(
                id.index as int,
                SlotView { refs, ..old(self)@.slots[id.index as int] },
            ));
        }
        true
    }

    /// Gives up one reference to the object that `id` names. Returns
    /// whether one was given up: the object has to be in the arena and a
    /// reference to it has to be held.
    ///
    /// The object stays in the arena until it is collected.
    pub fn release(&mut self, id: ResourceId) -> (released: bool)
        ensures
            final(self)@.follows(old(self)@),
            released == (old(self)@.is_live(id) && old(self)@.refs(id) > 0),
            !released ==> final(self)@ == old(self)@,
            released ==> final(self)@.slots == old(self)@.slots.update(
                id.index as int,
                SlotView {
                    refs: (old(self)@.refs(id) - 1) as u64,
                    ..old(self)@.slots[id.index as int]
                },
            ),
    {
        if id.kind != self.descriptor.tag() || id.index >= self.slots.len() {
            return false;
        }
        proof {
            assert(self@.slots[id.index as int] == self.slots@[id.index as int]@);
        }
        if self.slots[id.index].generation != id.generation || self.slots[id.index].value.is_none()
            || self.slots[id.index].refs == 0 {
            return false;
        }
        let refs: u64 = self.slots[id.index].refs - 1;
        self.slots[id.index].refs = refs;
        proof {
            assert(final(self)@.slots =~= old(self)@.slots.update(
                id.index as int,
                SlotView { refs, ..old(self)@.slots[id.index as int] },
            ));
        }
        true
    }

    /// Collects: takes every object to which no reference is held out of
    /// the arena and hands it to the caller, whose dropping it is the run
    /// of its destructor.
    ///
    /// An object that is handed out is in the arena no more, so no later
    /// collection hands it out again; no object with a reference is
    /// touched.
    pub fn collect(&mut self) -> (collected: Vec<T>)
        ensures
            final(self)@.follows(old(self)@),
            final(self)@.slots.len() == old(self)@.slots.len(),
            forall|k: int|
                0 <= k < old(self)@.slots.len() ==> #[trigger] final(self)@.slots[k] == swept(
                    old(self)@.slots[k],
                ),
            collected@ == garbage(old(self)@.slots),
    {
        let mut collected: Vec<T> = Vec::new();
        let ghost before = self@.slots;
        let mut k: usize = 0;
        proof {
            assert(before.take(0) =~= Seq::empty());
        }
        while k < self.slots.len()
            invariant
                k <= self.slots.len(),
                self@.kind == old(self)@.kind,
                before == old(self)@.slots,
                self@.slots.len() == before.len(),
                self.slots@.len() == before.len(),
                forall|j: int| 0 <= j < k ==> #[trigger] self@.slots[j] == swept(before[j]),
                forall|j: int| k <= j < before.len() ==> #[trigger] self@.slots[j] == before[j],
                collected@ == garbage(before.take(k as int)),
            decreases self.slots.len() - k,
        {
            proof {
                assert(before.take(k + 1).drop_last() =~= before.take(k as int));
                assert(self@.slots[k as int] == self.slots@[k as int]@);
            }
            let ghost now = self@.slots;
            if self.slots[k].value.is_some() && self.slots[k].refs == 0 {
                let taken = self.slots[k].value.take();
                match taken {
                    Some(value) => {
                        collected.push(value);
                    },
                    None => {},
                }
                proof {
                    assert(self@.slots =~= now.update(k as int, swept(before[k as int])));
                }
            }
            k += 1;
        }
        proof {
            assert(before.take(k as int) =~= before);
        }
        collected
    }
}

/// No object is in the arena and collected at once.
pub proof fn lemma_live_or_retired<T>(arena: ArenaView<T>, id: ResourceId)
    ensures
        !(arena.is_live(id) && arena.is_retired(id)),
{
}

/// What was collected stays collected: however objects are put in and taken
/// out afterwards, the object is never in the arena again, so that no later
/// collection hands it out a second time.
pub proof fn lemma_retired_for_good<T>(before: ArenaView<T>, after: ArenaView<T>, id: ResourceId)
    requires
        after.follows(before),
        before.is_retired(id),
    ensures
        after.is_retired(id),
        !after.is_live(id),
{
    assert(after.slots[id.index as int].generation >= before.slots[id.index as int].generation);
}

/// Putting objects in and taking them out can be done one after the other.
pub proof fn lemma_follows_transitive<T>(
    first: ArenaView<T>,
    second: ArenaView<T>,
    third: ArenaView<T>,
)
    requires
        second.follows(first),
        third.follows(second),
    ensures
        third.follows(first),
{
    assert forall|k: int| 0 <= k < first.slots.len() implies {
        &&& (#[trigger] third.slots[k]).generation >= first.slots[k].generation
        &&& third.slots[k].generation == first.slots[k].generation && first.slots[k].value
            is None ==> third.slots[k].value is None
    } by {
        assert(second.slots[k].generation >= first.slots[k].generation);
    }
}

/// A collection takes out every object without references, and only those:
/// after it, what was in the arena with a reference is there as before, and
/// what was there without one is collected.
pub proof fn lemma_collection<T>(before: ArenaView<T>, after: ArenaView<T>, id: ResourceId)
    requires
        after.kind == before.kind,
        after.slots.len() == before.slots.len(),
        forall|k: int|
            0 <= k < before.slots.len() ==> #[trigger] after.slots[k] == swept(before.slots[k]),
    ensures
        before.is_live(id) && before.refs(id) > 0 ==> after.is_live(id) && after.value(id)
            == before.value(id),
        before.is_live(id) && before.refs(id) == 0 ==> after.is_retired(id),
        before.is_retired(id) ==> after.is_retired(id),
        after.is_live(id) ==> before.is_live(id),
{
    if id.kind == before.kind && id.index < before.slots.len() {
        assert(after.slots[id.index as int] == swept(before.slots[id.index as int]));
    }
}

/// Where a name stands at `at` and nowhere before, `at` is its place.
pub proof fn lemma_place_first(names: Seq<Seq<char>>, name: Seq<char>, at: int)
    requires
        0 <= at < names.len(),
        names[at] == name,
        forall|k: int| 0 <= k < at ==> #[trigger] names[k] != name,
    ensures
        place_of(names, name) == Some(at),
    decreases names.len(),
{
    if at < names.len() - 1 {
        lemma_place_first(names.drop_last(), name, at);
    } else {
        lemma_place_none(names.drop_last(), name);
    }
}

/// A name that stands nowhere has no place.
pub proof fn lemma_place_none(names: Seq<Seq<char>>, name: Seq<char>)
    requires
        forall|k: int| 0 <= k < names.len() ==> #[trigger] names[k] != name,
    ensures
        place_of(names, name) is None,
    decreases names.len(),
{
    if names.len() > 0 {
        lemma_place_none(names.drop_last(), name);
    }
}

} // verus!
