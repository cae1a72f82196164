//! Handles to resources.

use vstd::prelude::*;

use crate::error::NifError;
use crate::wrapper::{Node, ResourceId, Value};
use super::{NifEnv, NifTerm};

verus! {

/// Makes the term that refers to the resource `id`.
pub fn make_resource(env: &mut NifEnv, id: ResourceId) -> (term: NifTerm)
    requires
        old(env).alive(),
    ensures
        final(env).owns(term),
        final(env).value(term) == Value::Resource(id),
        final(env).extends(old(env)),
{
    let slot = env.heap.store(Node::Resource(id));
    NifTerm::new(env, slot)
}

/// The resource that `term` refers to.
///
/// # Errors
///
/// `NifError::BadArg` if `term` is no handle to a resource.
pub fn get_resource(env: &NifEnv, term: NifTerm) -> (id: Result<ResourceId, NifError>)
    requires
        env.owns(term),
    ensures
        match env.value(term) {
            Value::Resource(held) => id == Ok::<ResourceId, NifError>(held),
            _ => id == Err::<ResourceId, NifError>(NifError::BadArg),
        },
{
    match env.heap.read(term.term) {
        Node::Resource(id) => Ok(*id),
        _ => Err(NifError::BadArg),
    }
}

} // verus!
