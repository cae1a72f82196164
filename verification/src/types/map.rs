//! Maps. The keys of a map are atoms, given by their names.

use vstd::prelude::*;

use crate::error::NifError;
use crate::wrapper::{copy_bytes, map_of, Node, Value};
use super::{NifEnv, NifTerm};

verus! {

/// The entries that `keys` and `terms` make, pair by pair.
pub open spec fn entries_of(env: &NifEnv, keys: Seq<Vec<u8>>, terms: Seq<NifTerm>) -> Seq<
    (Seq<u8>, Value),
> {
    Seq::new(keys.len(), |k: int| (keys[k]@, env.value(terms[k])))
}

/// Makes the map that has each of `keys` with the term at the same place in
/// `values`. Where a key occurs twice the later one counts.
///
/// # Errors
///
/// `NifError::BadArg` if there are not as many keys as values.
pub fn map_from_arrays(env: &mut NifEnv, keys: &[Vec<u8>], values: &[NifTerm]) -> (term: Result<
    NifTerm,
    NifError,
>)
    requires
        old(env).alive(),
        old(env).owns_all(values@),
    ensures
        final(env).extends(old(env)),
        keys@.len() != values@.len() ==> term == Err::<NifTerm, NifError>(NifError::BadArg),
        keys@.len() == values@.len() ==> term is Ok && final(env).owns(term->Ok_0)
            && final(env).value(term->Ok_0) == Value::Mapping(
            map_of(entries_of(old(env), keys@, values@)),
        ),
{
    if keys.len() != values.len() {
        return Err(NifError::BadArg);
    }
    let mut entries: Vec<(Vec<u8>, usize)> = Vec::new();
    let mut k: usize = 0;
    while k < keys.len()
        invariant
            k <= keys.len(),
            keys@.len() == values@.len(),
            entries@.len() == k,
            forall|j: int|
                0 <= j < k ==> (#[trigger] entries@[j]).0@ == keys@[j]@ && entries@[j].1
                    == values@[j].slot(),
        decreases keys.len() - k,
    {
        entries.push((copy_bytes(keys[k].as_slice()), values[k].as_c_arg()));
        k += 1;
    }
    proof {
        assert forall|j: int| 0 <= j < entries@.len() implies env.heap().contains(
            (#[trigger] entries@[j]).1,
        ) by {
            assert(env.owns(values@[j]));
        }
        assert(env.heap().entry_values(entries@) =~= entries_of(env, keys@, values@));
    }
    let slot = crate::wrapper::map::make_map(&mut env.heap, entries);
    Ok(NifTerm::new(env, slot))
}

/// Whether `term` refers to a map.
pub fn is_map(env: &NifEnv, term: NifTerm) -> (is: bool)
    requires
        env.owns(term),
    ensures
        is == env.value(term) is Mapping,
{
    match env.heap.read(term.term) {
        Node::Mapping(_) => true,
        _ => false,
    }
}

/// The term under `key` in the map that `term` refers to, if the map has
/// that key.
///
/// # Errors
///
/// `NifError::BadArg` if `term` is not a map.
pub fn map_get(env: &NifEnv, term: NifTerm, key: &[u8]) -> (found: Result<
    Option<NifTerm>,
    NifError,
>)
    requires
        env.owns(term),
    ensures
        match env.value(term) {
            Value::Mapping(map) => found is Ok && match found->Ok_0 {
                Some(held) => map.dom().contains(key@) && env.owns(held) && env.value(held)
                    == map[key@],
                None => !map.dom().contains(key@),
            },
            _ => found == Err::<Option<NifTerm>, NifError>(NifError::BadArg),
        },
{
    match crate::wrapper::map::get_map_value(&env.heap, term.term, key) {
        Ok(Some(slot)) => Ok(Some(NifTerm::new(env, slot))),
        Ok(None) => Ok(None),
        Err(_) => Err(NifError::BadArg),
    }
}

} // verus!
