//! Lists.

use vstd::prelude::*;

use crate::error::NifError;
use crate::wrapper::Value;
use super::{NifEnv, NifTerm};
use super::tuple::raw_terms;

verus! {

/// The elements of the list that `term` refers to, in order.
///
/// # Errors
///
/// `NifError::BadArg` if `term` is not a list.
pub fn get_list(env: &NifEnv, term: NifTerm) -> (parts: Result<Vec<NifTerm>, NifError>)
    requires
        env.owns(term),
    ensures
        match env.value(term) {
            Value::List(elements) => parts is Ok && env.owns_all(parts->Ok_0@) && env.values(
                parts->Ok_0@,
            ) == elements,
            _ => parts == Err::<Vec<NifTerm>, NifError>(NifError::BadArg),
        },
{
    match crate::wrapper::list::get_list(&env.heap, term.term) {
        Ok(raw) => {
            let mut parts: Vec<NifTerm> = Vec::new();
            let mut k: usize = 0;
            while k < raw.len()
                invariant
                    k <= raw.len(),
                    parts@.len() == k,
                    forall|j: int|
                        0 <= j < k ==> (#[trigger] parts@[j]).slot() == raw@[j] && parts@[j].env_id()
                            == env.id() && parts@[j].generation() == env.generation(),
                decreases raw.len() - k,
            {
                parts.push(NifTerm::new(env, raw[k]));
                k += 1;
            }
            proof {
                assert(env.values(parts@) =~= env.heap().values(raw@));
                assert forall|j: int| 0 <= j < parts@.len() implies env.owns(
                    #[trigger] parts@[j],
                ) by {
                    assert(raw@[j] < term.slot());
                }
            }
            Ok(parts)
        },
        Err(_) => Err(NifError::BadArg),
    }
}

/// Makes the list of `terms`, in order.
pub fn make_list(env: &mut NifEnv, terms: &[NifTerm]) -> (term: NifTerm)
    requires
        old(env).alive(),
        old(env).owns_all(terms@),
    ensures
        final(env).owns(term),
        final(env).value(term) == Value::List(old(env).values(terms@)),
        final(env).extends(old(env)),
{
    let raw = raw_terms(terms);
    proof {
        assert forall|k: int| 0 <= k < raw@.len() implies env.heap().contains(
            #[trigger] raw@[k],
        ) by {
            assert(env.owns(terms@[k]));
        }
        assert(env.heap().values(raw@) =~= env.values(terms@));
    }
    let slot = crate::wrapper::list::make_list(&mut env.heap, raw.as_slice());
    NifTerm::new(env, slot)
}

} // verus!
