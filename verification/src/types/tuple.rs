//! Tuples.

use vstd::prelude::*;

use crate::error::NifError;
use crate::wrapper::Value;
use super::{NifEnv, NifTerm};

verus! {

/// The raw terms of `terms`, in order.
pub fn raw_terms(terms: &[NifTerm]) -> (raw: Vec<usize>)
    ensures
        raw@.len() == terms@.len(),
        forall|k: int| 0 <= k < terms@.len() ==> #[trigger] raw@[k] == terms@[k].slot(),
{
    let mut raw: Vec<usize> = Vec::new();
    let mut k: usize = 0;
    while k < terms.len()
        invariant
            k <= terms.len(),
            raw@.len() == k,
            forall|j: int| 0 <= j < k ==> #[trigger] raw@[j] == terms@[j].slot(),
        decreases terms.len() - k,
    {
        raw.push(terms[k].as_c_arg());
        k += 1;
    }
    raw
}

/// The elements of the tuple that `term` refers to, in order.
///
/// # Errors
///
/// `NifError::BadArg` if `term` is not a tuple.
pub fn get_tuple(env: &NifEnv, term: NifTerm) -> (parts: Result<Vec<NifTerm>, NifError>)
    requires
        env.owns(term),
    ensures
        match env.value(term) {
            Value::Tuple(elements) => parts is Ok && env.owns_all(parts->Ok_0@) && env.values(
                parts->Ok_0@,
            ) == elements,
            _ => parts == Err::<Vec<NifTerm>, NifError>(NifError::BadArg),
        },
{
    match crate::wrapper::tuple::get_tuple(&env.heap, term.term) {
        Ok(raw) => {
            let mut parts: Vec<NifTerm> = Vec::new();
            let mut k: usize = 0;
            while k < raw.len()
                invariant
                    k <= raw.len(),
                    parts@.len() == k,
                    forall|j: int|
                        0 <= j < k ==> (#[trigger] parts@[j]).slot() == raw@[j] && parts@[j].env_id()
                            == env.id() && parts@[j].generation() == env.generation(),
                decreases raw.len() - k,
            {
                parts.push(NifTerm::new(env, raw[k]));
                k += 1;
            }
            proof {
                assert(env.values(parts@) =~= env.heap().values(raw@));
                assert forall|j: int| 0 <= j < parts@.len() implies env.owns(
                    #[trigger] parts@[j],
                ) by {
                    assert(raw@[j] < term.slot());
                }
            }
            Ok(parts)
        },
        Err(_) => Err(NifError::BadArg),
    }
}

/// Makes the tuple of `terms`, in order.
pub fn make_tuple(env: &mut NifEnv, terms: &[NifTerm]) -> (term: NifTerm)
    requires
        old(env).alive(),
        old(env).owns_all(terms@),
    ensures
        final(env).owns(term),
        final(env).value(term) == Value::Tuple(old(env).values(terms@)),
        final(env).extends(old(env)),
{
    let raw = raw_terms(terms);
    proof {
        assert forall|k: int| 0 <= k < raw@.len() implies env.heap().contains(
            #[trigger] raw@[k],
        ) by {
            assert(env.owns(terms@[k]));
        }
        assert(env.heap().values(raw@) =~= env.values(terms@));
    }
    let slot = crate::wrapper::tuple::make_tuple(&mut env.heap, raw.as_slice());
    NifTerm::new(env, slot)
}

} // verus!
