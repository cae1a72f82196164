//! Maps on a raw heap. The keys of a map are atoms, given by their names.

use vstd::prelude::*;

use crate::error::{NifError, NifResult};
use super::{map_of, Heap, Node, Value};

verus! {

/// Whether two byte strings are the same.
pub fn same_bytes(a: &[u8], b: &[u8]) -> (same: bool)
    ensures
        same == (a@ == b@),
{
    if a.len() != b.len() {
        return false;
    }
    let mut i: usize = 0;
    while i < a.len()
        invariant
            i <= a.len(),
            a.len() == b.len(),
            forall|k: int| 0 <= k < i ==> a@[k] == b@[k],
        decreases a.len() - i,
    {
        if a[i] != b[i] {
            return false;
        }
        i += 1;
    }
    proof {
        assert(a@ =~= b@);
    }
    true
}

/// Stores the map with the entries given. Where a key occurs twice the
/// later entry counts.
pub fn make_map(env: &mut Heap, entries: Vec<(Vec<u8>, usize)>) -> (term: usize)
    requires
        forall|k: int| 0 <= k < entries@.len() ==> old(env).contains((#[trigger] entries@[k]).1),
    ensures
        final(env).contains(term),
        final(env).value(term) == Value::Mapping(map_of(old(env).entry_values(entries@))),
        final(env).extends(old(env)),
        final(env).size() == old(env).size() + 1,
{
    env.store(Node::Mapping(entries))
}

/// The slot of the value under `key` in the map in `term`, if the map has
/// that key.
///
/// # Errors
///
/// `NifError::BadArg` if `term` is not a map.
pub fn get_map_value(env: &Heap, term: usize, key: &[u8]) -> (found: NifResult<Option<usize>>)
    requires
        env.contains(term),
    ensures
        match env.value(term) {
            Value::Mapping(map) => found is Ok && match found->Ok_0 {
                Some(slot) => map.dom().contains(key@) && slot < term && env.value(slot)
                    == map[key@],
                None => !map.dom().contains(key@),
            },
            _ => found == Err::<Option<usize>, NifError>(NifError::BadArg),
        },
{
    match env.read(term) {
        Node::Mapping(entries) => {
            let ghost pairs = env.entry_values(entries@);
            let mut i: usize = entries.len();
            while i > 0
                invariant
                    i <= entries.len(),
                    pairs == env.entry_values(entries@),
                    env.value(term) == Value::Mapping(map_of(pairs)),
                    forall|k: int| 0 <= k < entries@.len() ==> (#[trigger] entries@[k]).1 < term,
                    forall|k: int| i <= k < entries@.len() ==> pairs[k].0 != key@,
                decreases i,
            {
                i -= 1;
                if same_bytes(entries[i].0.as_slice(), key) {
                    proof {
                        lemma_map_of_last(pairs, i as int, key@);
                        assert(entries@[i as int].1 < term);
                        assert(pairs[i as int].1 == env.value(entries@[i as int].1));
                    }
                    return Ok(Some(entries[i].1));
                }
            }
            proof {
                lemma_map_of_absent(pairs, key@);
            }
            Ok(None)
        },
        _ => Err(NifError::BadArg),
    }
}

/// A key that no entry has is not a key of the map.
pub proof fn lemma_map_of_absent(entries: Seq<(Seq<u8>, Value)>, key: Seq<u8>)
    requires
        forall|k: int| 0 <= k < entries.len() ==> entries[k].0 != key,
    ensures
        !map_of(entries).dom().contains(key),
    decreases entries.len(),
{
    if entries.len() > 0 {
        lemma_map_of_absent(entries.drop_last(), key);
    }
}

/// The value under a key is that of the last entry with the key.
pub proof fn lemma_map_of_last(entries: Seq<(Seq<u8>, Value)>, at: int, key: Seq<u8>)
    requires
        0 <= at < entries.len(),
        entries[at].0 == key,
        forall|k: int| at < k < entries.len() ==> entries[k].0 != key,
    ensures
        map_of(entries).dom().contains(key),
        map_of(entries)[key] == entries[at].1,
    decreases entries.len(),
{
    if at < entries.len() - 1 {
        lemma_map_of_last(entries.drop_last(), at, key);
    }
}

} // verus!
