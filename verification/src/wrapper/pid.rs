//! Process identifiers on a raw heap.

use vstd::prelude::*;

use crate::host::Host;
use super::{ErlNifPid, Heap, Node, Value};

verus! {

/// The process identifier in `term`, if `term` is one.
pub fn get_local_pid(env: &Heap, term: usize) -> (pid: Option<ErlNifPid>)
    requires
        env.contains(term),
    ensures
        match env.value(term) {
            Value::Pid(held) => pid == Some(held),
            _ => pid is None,
        },
{
    match env.read(term) {
        Node::Pid(pid) => Some(*pid),
        _ => None,
    }
}

/// Stores the term of a process identifier.
pub fn make_pid(env: &mut Heap, pid: ErlNifPid) -> (term: usize)
    ensures
        final(env).contains(term),
        final(env).value(term) == Value::Pid(pid),
        final(env).extends(old(env)),
        final(env).size() == old(env).size() + 1,
{
    env.store(Node::Pid(pid))
}

/// Look up a local process by its registered name.
///
/// `name` is the slot of the atom that names the process. Where it is no
/// atom, or no living process is registered under it, there is none.
pub fn whereis(host: &Host, env: &Heap, name: usize) -> (pid: Option<ErlNifPid>)
    requires
        env.contains(name),
    ensures
        match env.value(name) {
            Value::Atom(held) => pid == host@.whereis(held),
            _ => pid is None,
        },
{
    match env.read(name) {
        Node::Atom(held) => host.whereis_name(held.as_slice()),
        _ => None,
    }
}

} // verus!
