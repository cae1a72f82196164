//! Tuples on a raw heap.

use vstd::prelude::*;

use crate::error::{NifError, NifResult};
use super::{Heap, Node, Value};

verus! {

/// A copy of `slots` that the caller owns.
pub fn copy_slots(slots: &[usize]) -> (owned: Vec<usize>)
    ensures
        owned@ == slots@,
{
    let mut owned: Vec<usize> = Vec::new();
    let mut k: usize = 0;
    while k < slots.len()
        invariant
            k <= slots.len(),
            owned@ == slots@.take(k as int),
        decreases slots.len() - k,
    {
        owned.push(slots[k]);
        proof {
            assert(slots@.take(k + 1) =~= slots@.take(k as int).push(slots@[k as int]));
        }
        k += 1;
    }
    proof {
        assert(slots@.take(k as int) =~= slots@);
    }
    owned
}

/// The slots of the elements of the tuple in `term`, in order.
///
/// # Errors
///
/// `NifError::BadArg` if `term` is not a tuple.
pub fn get_tuple(env: &Heap, term: usize) -> (parts: NifResult<Vec<usize>>)
    requires
        env.contains(term),
    ensures
        match env.value(term) {
            Value::Tuple(elements) => parts is Ok && env.values(parts->Ok_0@) == elements
                && forall|k: int|
                0 <= k < parts->Ok_0@.len() ==> #[trigger] parts->Ok_0@[k] < term,
            _ => parts == Err::<Vec<usize>, NifError>(NifError::BadArg),
        },
{
    match env.read(term) {
        Node::Tuple(parts) => Ok(copy_slots(parts.as_slice())),
        _ => Err(NifError::BadArg),
    }
}

/// Stores the tuple of the values in `parts`, in order.
pub fn make_tuple(env: &mut Heap, parts: &[usize]) -> (term: usize)
    requires
        forall|k: int| 0 <= k < parts@.len() ==> old(env).contains(#[trigger] parts@[k]),
    ensures
        final(env).contains(term),
        final(env).value(term) == Value::Tuple(old(env).values(parts@)),
        final(env).extends(old(env)),
        final(env).size() == old(env).size() + 1,
{
    env.store(Node::Tuple(copy_slots(parts)))
}

} // verus!
