//! Binaries.

use vstd::prelude::*;

use crate::error::NifError;
use crate::wrapper::{copy_bytes, Node, Value};
use super::{NifEnv, NifTerm};

verus! {

/// Makes the binary that holds `bytes`.
pub fn make_binary(env: &mut NifEnv, bytes: &[u8]) -> (term: NifTerm)
    requires
        old(env).alive(),
    ensures
        final(env).owns(term),
        final(env).value(term) == Value::Binary(bytes@),
        final(env).extends(old(env)),
{
    let slot = env.heap.store(Node::Binary(copy_bytes(bytes)));
    NifTerm::new(env, slot)
}

/// The bytes of the binary that `term` refers to.
///
/// # Errors
///
/// `NifError::BadArg` if `term` is not a binary.
pub fn get_binary(env: &NifEnv, term: NifTerm) -> (bytes: Result<Vec<u8>, NifError>)
    requires
        env.owns(term),
    ensures
        match env.value(term) {
            Value::Binary(held) => bytes is Ok && bytes->Ok_0@ == held,
            _ => bytes == Err::<Vec<u8>, NifError>(NifError::BadArg),
        },
{
    match env.heap.read(term.term) {
        Node::Binary(bytes) => Ok(copy_bytes(bytes.as_slice())),
        _ => Err(NifError::BadArg),
    }
}

} // verus!
