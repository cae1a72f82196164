//! Lists on a raw heap.

use vstd::prelude::*;

use crate::error::{NifError, NifResult};
use super::{Heap, Node, Value};
use super::tuple::copy_slots;

verus! {

/// The slots of the elements of the list in `term`, in order.
///
/// # Errors
///
/// `NifError::BadArg` if `term` is not a list.
pub fn get_list(env: &Heap, term: usize) -> (parts: NifResult<Vec<usize>>)
    requires
        env.contains(term),
    ensures
        match env.value(term) {
            Value::List(elements) => parts is Ok && env.values(parts->Ok_0@) == elements
                && forall|k: int|
                0 <= k < parts->Ok_0@.len() ==> #[trigger] parts->Ok_0@[k] < term,
            _ => parts == Err::<Vec<usize>, NifError>(NifError::BadArg),
        },
{
    match env.read(term) {
        Node::List(parts) => Ok(copy_slots(parts.as_slice())),
        _ => Err(NifError::BadArg),
    }
}

/// Stores the list of the values in `parts`, in order.
pub fn make_list(env: &mut Heap, parts: &[usize]) -> (term: usize)
    requires
        forall|k: int| 0 <= k < parts@.len() ==> old(env).contains(#[trigger] parts@[k]),
    ensures
        final(env).contains(term),
        final(env).value(term) == Value::List(old(env).values(parts@)),
        final(env).extends(old(env)),
        final(env).size() == old(env).size() + 1,
{
    env.store(Node::List(copy_slots(parts)))
}

} // verus!
