//! Atoms: making one from a name, and reading the name of one.

use vstd::prelude::*;
use vstd::string::StringSliceAdditionalSpecFns;

use crate::error::{NifError, NifResult};
use super::{Heap, Node, Value};

verus! {

/// `String::push` of std appends one character to the string.
pub assume_specification[ String::push ](text: &mut String, ch: char)
    ensures
        final(text)@ == old(text)@.push(ch),
;

/// The text that Latin-1 bytes stand for: each byte is the character with
/// that code point.
pub open spec fn latin1(bytes: Seq<u8>) -> Seq<char> {
    Seq::new(bytes.len(), |i: int| bytes[i] as char)
}

/// Stores the atom whose name is made of the bytes of `name`.
pub fn make_atom(env: &mut Heap, name: &str) -> (term: usize)
    ensures
        final(env).contains(term),
        final(env).value(term) == Value::Atom(name.spec_bytes()),
        final(env).extends(old(env)),
        final(env).size() == old(env).size() + 1,
{
    let bytes = super::copy_bytes(name.as_bytes());
    env.store(Node::Atom(bytes))
}

/// Get the contents of this atom as a string.
///
/// The host keeps the name of an atom in Latin-1; the string holds the same
/// characters.
///
/// # Errors
///
/// `NifError::BadArg` if `term` is not an atom.
pub fn get_atom(env: &Heap, term: usize) -> (name: NifResult<String>)
    requires
        env.contains(term),
    ensures
        match env.value(term) {
            Value::Atom(bytes) => name is Ok && name->Ok_0@ == latin1(bytes),
            _ => name == Err::<String, NifError>(NifError::BadArg),
        },
{
    match env.read(term) {
        Node::Atom(bytes) => {
            let mut out = String::new();
            let mut i: usize = 0;
            while i < bytes.len()
                invariant
                    i <= bytes.len(),
                    out@ == latin1(bytes@.take(i as int)),
                decreases bytes.len() - i,
            {
                let b: u8 = bytes[i];
                out.push(b as char);
                proof {
                    assert(latin1(bytes@.take(i + 1)) =~= latin1(bytes@.take(i as int)).push(
                        b as char,
                    ));
                }
                i += 1;
            }
            proof {
                assert(bytes@.take(i as int) =~= bytes@);
            }
            Ok(out)
        },
        _ => Err(NifError::BadArg),
    }
}

/// The name of an atom made from ASCII text reads back as that text.
pub proof fn lemma_ascii_atom_name(name: &str)
    requires
        vstd::string::is_ascii(name),
    ensures
        latin1(name.spec_bytes()) == name@,
{
    vstd::string::is_ascii_spec_bytes(name);
    let bytes = name.spec_bytes();
    assert forall|i: int| 0 <= i < bytes.len() implies latin1(bytes)[i] == name@[i] by {
        assert(bytes[i] == name@[i] as u8);
    }
    assert(latin1(bytes) =~= name@);
}

} // verus!
