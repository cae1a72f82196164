//! Process identifiers.

use vstd::prelude::*;

use crate::error::NifError;
use crate::wrapper::{ErlNifPid, Value};
use crate::wrapper::pid;
use super::{NifDecoder, NifEncoder, NifEnv, NifTerm};

verus! {

/// The identity of a process of the host.
#[derive(Debug, Clone, Copy, PartialEq, Eq, Structural)]
pub struct NifPid {
    c: ErlNifPid,
}

impl NifPid {
    /// The raw identifier.
    pub closed spec fn raw(self) -> ErlNifPid {
        self.c
    }

    /// Wraps a raw identifier.
    pub fn new(c: ErlNifPid) -> (pid: NifPid)
        ensures
            pid.raw() == c,
    {
        NifPid { c }
    }

    /// The raw identifier.
    pub fn as_c_arg(&self) -> (c: &ErlNifPid)
        ensures
            *c == self.raw(),
    {
        &self.c
    }
}

impl NifDecoder for NifPid {
    closed spec fn decoding(value: Value) -> Result<NifPid, NifError> {
        match value {
            Value::Pid(c) => Ok(NifPid { c }),
            _ => Err(NifError::BadArg),
        }
    }

    fn decode(env: &NifEnv, term: NifTerm) -> (decoded: Result<NifPid, NifError>) {
        match pid::get_local_pid(&env.heap, term.term) {
            Some(c) => Ok(NifPid { c }),
            None => Err(NifError::BadArg),
        }
    }
}

impl NifEncoder for NifPid {
    closed spec fn encoding(&self) -> Value {
        Value::Pid(self.c)
    }

    fn encode(&self, env: &mut NifEnv) -> (term: NifTerm) {
        let slot = pid::make_pid(&mut env.heap, self.c);
        NifTerm::new(env, slot)
    }
}

/// A process identifier is encoded as the term of its raw identifier.
pub proof fn lemma_pid_encoding(pid: NifPid)
    ensures
        pid.encoding() == Value::Pid(pid.raw()),
        NifPid::decoding(pid.encoding()) == Ok::<NifPid, NifError>(pid),
{
}

/// The terms that decode to a process identifier are the terms of process
/// identifiers, and each decodes to its own.
pub proof fn lemma_pid_decoding(value: Value)
    ensures
        NifPid::decoding(value) is Ok <==> value is Pid,
        NifPid::decoding(value) is Ok ==> NifPid::decoding(value)->Ok_0.raw() == value->Pid_0,
        NifPid::decoding(value) is Err ==> NifPid::decoding(value)->Err_0 == NifError::BadArg,
{
}

impl NifEnv {
    /// Return the calling process's pid.
    ///
    /// An environment that is process-independent has none: it must not be
    /// asked. The environment that a call is given always has one; one of
    /// the owned kind has none.
    pub fn pid(&self) -> (pid: NifPid)
        requires
            self.caller() is Some,
        ensures
            pid.raw() == self.caller()->Some_0,
    {
        match self.caller {
            Some(c) => NifPid { c },
            None => vstd::pervasive::unreached(),
        }
    }

    /// Whether the environment belongs to a call of some process.
    pub fn has_pid(&self) -> (has: bool)
        ensures
            has == self.caller() is Some,
    {
        self.caller.is_some()
    }
}

} // verus!
