//! Atoms.

use vstd::prelude::*;

use crate::error::NifError;
use crate::wrapper::{copy_bytes, Node, Value};
use crate::wrapper::atom::latin1;
use super::{NifEnv, NifTerm};

verus! {

/// Makes the atom whose name is `name`.
pub fn make_atom(env: &mut NifEnv, name: &[u8]) -> (term: NifTerm)
    requires
        old(env).alive(),
    ensures
        final(env).owns(term),
        final(env).value(term) == Value::Atom(name@),
        final(env).extends(old(env)),
{
    let slot = env.heap.store(Node::Atom(copy_bytes(name)));
    NifTerm::new(env, slot)
}

/// The name of the atom that `term` refers to, as the host keeps it.
///
/// # Errors
///
/// `NifError::BadArg` if `term` is not an atom.
pub fn atom_name(env: &NifEnv, term: NifTerm) -> (name: Result<Vec<u8>, NifError>)
    requires
        env.owns(term),
    ensures
        match env.value(term) {
            Value::Atom(held) => name is Ok && name->Ok_0@ == held,
            _ => name == Err::<Vec<u8>, NifError>(NifError::BadArg),
        },
{
    match env.heap.read(term.term) {
        Node::Atom(name) => Ok(copy_bytes(name.as_slice())),
        _ => Err(NifError::BadArg),
    }
}

/// The name of the atom that `term` refers to, as a string.
///
/// # Errors
///
/// `NifError::BadArg` if `term` is not an atom.
pub fn atom_to_string(env: &NifEnv, term: NifTerm) -> (name: Result<String, NifError>)
    requires
        env.owns(term),
    ensures
        match env.value(term) {
            Value::Atom(held) => name is Ok && name->Ok_0@ == latin1(held),
            _ => name == Err::<String, NifError>(NifError::BadArg),
        },
{
    crate::wrapper::atom::get_atom(&env.heap, term.term)
}

} // verus!
