//! Environments that native code owns: they live across calls, and what is
//! built in them can be sent to a process.

use vstd::prelude::*;

use crate::codec::{decoding, ShapeView};
use crate::host::{Host, ProcessView};
use crate::types::{EnvKind, NifEnv, NifTerm};
use crate::wrapper::ErlNifPid;

verus! {

/// Why a term was not sent.
#[derive(Debug, Clone, Copy, PartialEq, Eq, Structural)]
pub enum SendError {
    /// The process that the term was sent to no longer exists.
    NoSuchProcess,
}

/// A process-independent environment that native code creates and clears.
///
/// Terms made in it stay valid until it is cleared, by `clear` or by a
/// `send` that succeeds.
#[derive(Debug)]
pub struct OwnedEnv {
    pub env: NifEnv,
}

impl OwnedEnv {
    /// The environment is usable, of the owned kind, and belongs to no
    /// process.
    pub open spec fn wf(&self) -> bool {
        &&& self.env.alive()
        &&& self.env.kind() == EnvKind::Owned
        &&& self.env.caller() is None
    }

    /// Whether this environment is `before` after its heap was cleared: the
    /// same environment, one generation on, with an empty heap and none of
    /// the terms issued before.
    pub open spec fn cleared_from(&self, before: &OwnedEnv) -> bool {
        &&& self.wf()
        &&& self.env.id() == before.env.id()
        &&& self.env.generation() == before.env.generation() + 1
        &&& self.env.heap().size() == 0
        &&& forall|term: NifTerm| !self.env.owns(term)
    }

    /// Creates a new environment with an empty heap.
    pub fn new(host: &mut Host) -> (owned: OwnedEnv)
        requires
            old(host)@.envs < u64::MAX,
        ensures
            final(host)@.envs == old(host)@.envs + 1,
            final(host)@.processes == old(host)@.processes,
            owned.wf(),
            owned.env.id() == old(host)@.envs,
            owned.env.generation() == 0,
            owned.env.heap().size() == 0,
    {
        OwnedEnv { env: host.issue_owned() }
    }

    /// Whether the heap can be cleared once more: the count of generations
    /// has not run out.
    pub fn can_clear(&self) -> (can: bool)
        ensures
            can == (self.env.generation() < u64::MAX),
    {
        self.env.generation_count() < u64::MAX
    }

    /// Clears the heap. Every term made in this environment so far is no
    /// longer valid.
    pub fn clear(&mut self)
        requires
            old(self).wf(),
            old(self).env.generation() < u64::MAX,
        ensures
            final(self).cleared_from(old(self)),
    {
        self.env.clear();
    }

    /// Sends the value of `term` to the process `to` and clears the heap.
    ///
    /// The value is copied into the mailbox of the process as a whole. The
    /// clearing is a change of state that the caller sees: every term made
    /// in this environment so far is no longer valid.
    ///
    /// # Errors
    ///
    /// `SendError::NoSuchProcess` if the process no longer exists. Nothing
    /// is sent and nothing is cleared then.
    pub fn send(&mut self, host: &mut Host, to: ErlNifPid, term: NifTerm) -> (sent: Result<
        (),
        SendError,
    >)
        requires
            old(self).wf(),
            old(self).env.owns(term),
            old(self).env.generation() < u64::MAX,
        ensures
            final(host)@.envs == old(host)@.envs,
            sent is Ok <==> old(host)@.is_alive(to),
            sent is Err ==> {
                &&& sent == Err::<(), SendError>(SendError::NoSuchProcess)
                &&& final(host)@ == old(host)@
                &&& *final(self) == *old(self)
            },
            sent is Ok ==> {
                &&& final(self).cleared_from(old(self))
                &&& final(host)@.processes == old(host)@.processes.update(
                    to.pid as int,
                    ProcessView {
                        inbox: old(host)@.processes[to.pid as int].inbox.push(
                            old(self).env.value(term),
                        ),
                        ..old(host)@.processes[to.pid as int]
                    },
                )
            },
    {
        if host.deliver(to, self.env.as_c_arg(), term.as_c_arg()) {
            self.env.clear();
            Ok(())
        } else {
            Err(SendError::NoSuchProcess)
        }
    }
}

/// A term that was copied into another environment outlives the call it
/// came from: once the environment of the call is gone, the term in it can
/// be read no more, and the copy is read as before and decodes to what the
/// term decoded to.
pub proof fn lemma_copy_outlives_call(
    shape: ShapeView,
    call: NifEnv,
    returned: NifEnv,
    keeper: NifEnv,
    term: NifTerm,
    copy: NifTerm,
)
    requires
        call.owns(term),
        keeper.owns(copy),
        keeper.value(copy) == call.value(term),
        returned.id() == call.id(),
        !returned.alive(),
    ensures
        !returned.owns(term),
        keeper.owns(copy),
        decoding(shape, keeper.value(copy)) == decoding(shape, call.value(term)),
{
}

} // verus!
