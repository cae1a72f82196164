//! The host, as far as native code deals with it: the processes that run
//! on it, with their mailboxes, and the environments it issues.

use vstd::prelude::*;

use crate::types::{EnvKind, NifEnv, NifTerm};
use crate::wrapper::{copy_bytes, copy_term, ErlNifPid, Heap, Value};
use crate::wrapper::map::same_bytes;

verus! {

/// One process of the host.
#[derive(Debug)]
pub struct Process {
    alive: bool,
    name: Option<Vec<u8>>,
    heap: Heap,
    inbox: Vec<usize>,
}

/// One process of the host, as mathematics.
pub struct ProcessView {
    /// Whether the process still exists.
    pub alive: bool,
    /// The name under which the process is registered, if any.
    pub name: Option<Seq<u8>>,
    /// The messages delivered to the process and not yet received, oldest
    /// first.
    pub inbox: Seq<Value>,
}

/// The host.
#[derive(Debug)]
pub struct Host {
    envs: u64,
    processes: Vec<Process>,
}

/// The host, as mathematics.
pub struct HostView {
    /// The number of environments issued so far.
    pub envs: nat,
    /// The processes ever spawned; a process identifier is a place here.
    pub processes: Seq<ProcessView>,
}

/// The first living process among `processes` that is registered under
/// `name`, if there is one.
pub open spec fn lookup(processes: Seq<ProcessView>, name: Seq<u8>) -> Option<int>
    decreases processes.len(),
{
    if processes.len() == 0 {
        None
    } else {
        match lookup(processes.drop_last(), name) {
            Some(at) => Some(at),
            None => if processes.last().alive && processes.last().name == Some(name) {
                Some(processes.len() - 1)
            } else {
                None
            },
        }
    }
}

impl HostView {
    /// The living process that is registered under `name`, if there is one.
    pub open spec fn whereis(self, name: Seq<u8>) -> Option<ErlNifPid> {
        match lookup(self.processes, name) {
            Some(at) => Some(ErlNifPid { pid: at as usize }),
            None => None,
        }
    }

    /// Whether `pid` is a process that still exists.
    pub open spec fn is_alive(self, pid: ErlNifPid) -> bool {
        pid.pid < self.processes.len() && self.processes[pid.pid as int].alive
    }
}

impl Process {
    /// The messages of the process lie in its own heap.
    #[verifier::type_invariant]
    spec fn inv(self) -> bool {
        forall|k: int| 0 <= k < self.inbox@.len() ==> self.heap.contains(#[trigger] self.inbox@[k])
    }

    /// A living process without a name and without messages.
    fn new() -> (process: Process)
        ensures
            process@ == (ProcessView { alive: true, name: None, inbox: Seq::empty() }),
    {
        let process = Process { alive: true, name: None, heap: Heap::new(), inbox: Vec::new() };
        proof {
            assert(process@.inbox =~= Seq::empty());
        }
        process
    }

    /// The process under the name `name`.
    fn with_name(self, name: Vec<u8>) -> (process: Process)
        ensures
            process@ == (ProcessView { name: Some(name@), ..self@ }),
    {
        proof {
            use_type_invariant(&self);
        }
        let ghost before = self@.inbox;
        let Process { alive, name: _, heap, inbox } = self;
        let process = Process { alive, name: Some(name), heap, inbox };
        proof {
            assert(process@.inbox =~= before);
        }
        process
    }

    /// The process once it has ended.
    fn ended(self) -> (process: Process)
        ensures
            process@ == (ProcessView { alive: false, ..self@ }),
    {
        proof {
            use_type_invariant(&self);
        }
        let ghost before = self@.inbox;
        let Process { alive: _, name, heap, inbox } = self;
        let process = Process { alive: false, name, heap, inbox };
        proof {
            assert(process@.inbox =~= before);
        }
        process
    }

    /// The process with a copy of the value in slot `term` of `src` as its
    /// newest message.
    fn with_message(self, src: &Heap, term: usize) -> (process: Process)
        requires
            src.contains(term),
        ensures
            process@ == (ProcessView { inbox: self@.inbox.push(src.value(term)), ..self@ }),
    {
        proof {
            use_type_invariant(&self);
        }
        let ghost before = self@.inbox;
        let Process { alive, name, mut heap, mut inbox } = self;
        let slot = copy_term(&mut heap, src, term);
        inbox.push(slot);
        let process = Process { alive, name, heap, inbox };
        proof {
            assert(process@.inbox =~= before.push(src.value(term)));
        }
        process
    }

    /// The process without its oldest message, and that message copied into
    /// the heap of `env`.
    fn without_message(self, env: &mut NifEnv) -> (taken: (Process, NifTerm))
        requires
            self@.inbox.len() > 0,
            old(env).alive(),
        ensures
            taken.0@ == (ProcessView { inbox: self@.inbox.drop_first(), ..self@ }),
            final(env).owns(taken.1),
            final(env).value(taken.1) == self@.inbox[0],
            final(env).extends(old(env)),
    {
        proof {
            use_type_invariant(&self);
        }
        let ghost before = self@.inbox;
        let Process { alive, name, heap, mut inbox } = self;
        let slot = inbox.remove(0);
        let term = env.copy_raw(&heap, slot);
        let process = Process { alive, name, heap, inbox };
        proof {
            assert(process@.inbox =~= before.drop_first());
        }
        (process, term)
    }
}

impl View for Process {
    type V = ProcessView;

    closed spec fn view(&self) -> ProcessView {
        ProcessView {
            alive: self.alive,
            name: match self.name {
                Some(name) => Some(name@),
                None => None,
            },
            inbox: self.heap.values(self.inbox@),
        }
    }
}

impl View for Host {
    type V = HostView;

    closed spec fn view(&self) -> HostView {
        HostView {
            envs: self.envs as nat,
            processes: Seq::new(self.processes@.len(), |k: int| self.processes@[k]@),
        }
    }
}

impl Host {
    /// A host without processes that has issued no environment.
    pub fn new() -> (host: Host)
        ensures
            host@.envs == 0,
            host@.processes.len() == 0,
    {
        Host { envs: 0, processes: Vec::new() }
    }

    /// Whether `pid` is a process that still exists.
    pub fn is_process_alive(&self, pid: ErlNifPid) -> (alive: bool)
        ensures
            alive == self@.is_alive(pid),
    {
        if pid.pid >= self.processes.len() {
            return false;
        }
        self.processes[pid.pid].alive
    }

    /// Starts a process. It has no name and no message.
    pub fn spawn(&mut self) -> (pid: ErlNifPid)
        ensures
            pid.pid == old(self)@.processes.len(),
            final(self)@.envs == old(self)@.envs,
            final(self)@.processes == old(self)@.processes.push(
                ProcessView { alive: true, name: None, inbox: Seq::empty() },
            ),
    {
        let at: usize = self.processes.len();
        self.processes.push(Process::new());
        proof {
            assert(final(self)@.processes =~= old(self)@.processes.push(
                ProcessView { alive: true, name: None, inbox: Seq::empty() },
            ));
        }
        ErlNifPid { pid: at }
    }

    /// The living process that is registered under `name`, if there is one.
    pub fn whereis_name(&self, name: &[u8]) -> (found: Option<ErlNifPid>)
        ensures
            found == self@.whereis(name@),
    {
        let mut k: usize = 0;
        let ghost all = self@.processes;
        while k < self.processes.len()
            invariant
                k <= self.processes.len(),
                all == self@.processes,
                all.len() == self.processes@.len(),
                forall|j: int|
                    0 <= j < k ==> !((#[trigger] all[j]).alive && all[j].name == Some(name@)),
            decreases self.processes.len() - k,
        {
            let process = &self.processes[k];
            let named = match &process.name {
                Some(held) => same_bytes(held.as_slice(), name),
                None => false,
            };
            proof {
                assert(all[k as int] == self.processes@[k as int]@);
            }
            if process.alive && named {
                proof {
                    lemma_lookup_first(all, name@, k as int);
                }
                return Some(ErlNifPid { pid: k });
            }
            k += 1;
        }
        proof {
            lemma_lookup_none(all, name@);
        }
        None
    }

    /// Registers the living process `pid` under `name`.
    ///
    /// The process must not have a name yet and no living process may have
    /// this one. Returns whether the process was registered.
    pub fn register(&mut self, pid: ErlNifPid, name: &[u8]) -> (registered: bool)
        ensures
            final(self)@.envs == old(self)@.envs,
            registered == (old(self)@.is_alive(pid) && old(self)@.processes[pid.pid as int].name
                is None && old(self)@.whereis(name@) is None),
            !registered ==> final(self)@ == old(self)@,
            registered ==> final(self)@.processes == old(self)@.processes.update(
                pid.pid as int,
                ProcessView { name: Some(name@), ..old(self)@.processes[pid.pid as int] },
            ),
    {
        if pid.pid >= self.processes.len() {
            return false;
        }
        let at: usize = pid.pid;
        if !self.processes[at].alive {
            return false;
        }
        if self.processes[at].name.is_some() {
            return false;
        }
        if self.whereis_name(name).is_some() {
            return false;
        }
        let mut process = Process::new();
        std::mem::swap(&mut process, &mut self.processes[at]);
        let mut process = process.with_name(copy_bytes(name));
        std::mem::swap(&mut process, &mut self.processes[at]);
        proof {
            assert(final(self)@.processes =~= old(self)@.processes.update(
                pid.pid as int,
                ProcessView { name: Some(name@), ..old(self)@.processes[pid.pid as int] },
            ));
        }
        true
    }

    /// Issues the environment of one call that the process `caller` makes.
    pub fn enter(&mut self, caller: ErlNifPid) -> (env: NifEnv)
        requires
            old(self)@.envs < u64::MAX,
        ensures
            final(self)@.envs == old(self)@.envs + 1,
            final(self)@.processes == old(self)@.processes,
            env.alive(),
            env.id() == old(self)@.envs,
            env.kind() == EnvKind::CallScoped,
            env.generation() == 0,
            env.caller() == Some(caller),
            env.heap().size() == 0,
    {
        let id: u64 = self.envs;
        self.envs = self.envs + 1;
        proof {
            assert(final(self)@.processes =~= old(self)@.processes);
        }
        NifEnv::new(id, EnvKind::CallScoped, Some(caller))
    }

    /// Issues an environment of the owned kind.
    pub(crate) fn issue_owned(&mut self) -> (env: NifEnv)
        requires
            old(self)@.envs < u64::MAX,
        ensures
            final(self)@.envs == old(self)@.envs + 1,
            final(self)@.processes == old(self)@.processes,
            env.alive(),
            env.id() == old(self)@.envs,
            env.kind() == EnvKind::Owned,
            env.generation() == 0,
            env.caller() is None,
            env.heap().size() == 0,
    {
        let id: u64 = self.envs;
        self.envs = self.envs + 1;
        proof {
            assert(final(self)@.processes =~= old(self)@.processes);
        }
        NifEnv::new(id, EnvKind::Owned, None)
    }

    /// Whether another environment can be issued: the count of identities
    /// has not run out.
    pub fn can_issue(&self) -> (can: bool)
        ensures
            can == (self@.envs < u64::MAX),
    {
        self.envs < u64::MAX
    }

    /// Takes back the environment of a call that returns. Nothing can be
    /// read through it afterwards.
    pub fn leave(&self, env: &mut NifEnv)
        ensures
            final(env).id() == old(env).id(),
            !final(env).alive(),
            forall|term: NifTerm| !final(env).owns(term),
    {
        env.kill();
    }

    /// Delivers a copy of the value in slot `term` of `src` to the process
    /// `to`, if it still exists. Returns whether it was delivered.
    pub fn deliver(&mut self, to: ErlNifPid, src: &Heap, term: usize) -> (delivered: bool)
        requires
            src.contains(term),
        ensures
            final(self)@.envs == old(self)@.envs,
            delivered == old(self)@.is_alive(to),
            !delivered ==> final(self)@ == old(self)@,
            delivered ==> final(self)@.processes == old(self)@.processes.update(
                to.pid as int,
                ProcessView {
                    inbox: old(self)@.processes[to.pid as int].inbox.push(src.value(term)),
                    ..old(self)@.processes[to.pid as int]
                },
            ),
    {
        if to.pid >= self.processes.len() {
            return false;
        }
        let at: usize = to.pid;
        if !self.processes[at].alive {
            return false;
        }
        let mut process = Process::new();
        std::mem::swap(&mut process, &mut self.processes[at]);
        let mut process = process.with_message(src, term);
        std::mem::swap(&mut process, &mut self.processes[at]);
        proof {
            assert(final(self)@.processes =~= old(self)@.processes.update(
                to.pid as int,
                ProcessView {
                    inbox: old(self)@.processes[to.pid as int].inbox.push(src.value(term)),
                    ..old(self)@.processes[to.pid as int]
                },
            ));
        }
        true
    }

    /// Takes the oldest message out of the mailbox of `pid` and copies it
    /// into the heap of `env`. Returns `None` where there is no such
    /// process or its mailbox is empty.
    pub fn receive(&mut self, pid: ErlNifPid, env: &mut NifEnv) -> (message: Option<NifTerm>)
        requires
            old(env).alive(),
        ensures
            final(self)@.envs == old(self)@.envs,
            final(env).extends(old(env)),
            message is Some <==> pid.pid < old(self)@.processes.len() && old(
                self,
            )@.processes[pid.pid as int].inbox.len() > 0,
            message is None ==> final(self)@ == old(self)@,
            message matches Some(term) ==> {
                &&& final(env).owns(term)
                &&& final(env).value(term) == old(self)@.processes[pid.pid as int].inbox[0]
                &&& final(self)@.processes == old(self)@.processes.update(
                    pid.pid as int,
                    ProcessView {
                        inbox: old(self)@.processes[pid.pid as int].inbox.drop_first(),
                        ..old(self)@.processes[pid.pid as int]
                    },
                )
            },
    {
        if pid.pid >= self.processes.len() {
            return None;
        }
        let at: usize = pid.pid;
        if self.processes[at].inbox.len() == 0 {
            proof {
                assert(self.processes@[at as int]@.inbox.len() == 0);
            }
            return None;
        }
        proof {
            assert(self@.processes[at as int] == self.processes@[at as int]@);
        }
        let mut process = Process::new();
        std::mem::swap(&mut process, &mut self.processes[at]);
        let (mut process, term) = process.without_message(env);
        std::mem::swap(&mut process, &mut self.processes[at]);
        proof {
            assert(final(self)@.processes =~= old(self)@.processes.update(
                pid.pid as int,
                ProcessView {
                    inbox: old(self)@.processes[pid.pid as int].inbox.drop_first(),
                    ..old(self)@.processes[pid.pid as int]
                },
            ));
        }
        Some(term)
    }

    /// Ends a process. Its name is free again and nothing can be sent to it.
    pub fn exit(&mut self, pid: ErlNifPid)
        ensures
            final(self)@.envs == old(self)@.envs,
            !old(self)@.is_alive(pid) ==> final(self)@ == old(self)@,
            old(self)@.is_alive(pid) ==> final(self)@.processes == old(self)@.processes.update(
                pid.pid as int,
                ProcessView { alive: false, ..old(self)@.processes[pid.pid as int] },
            ),
    {
        if pid.pid >= self.processes.len() {
            return;
        }
        let at: usize = pid.pid;
        if !self.processes[at].alive {
            return;
        }
        let mut process = Process::new();
        std::mem::swap(&mut process, &mut self.processes[at]);
        let mut process = process.ended();
        std::mem::swap(&mut process, &mut self.processes[at]);
        proof {
            assert(final(self)@.processes =~= old(self)@.processes.update(
                pid.pid as int,
                ProcessView { alive: false, ..old(self)@.processes[pid.pid as int] },
            ));
        }
    }
}

/// Where a living process has the name at `at` and none before has it, `at`
/// is what a lookup of the name finds.
pub proof fn lemma_lookup_first(processes: Seq<ProcessView>, name: Seq<u8>, at: int)
    requires
        0 <= at < processes.len(),
        processes[at].alive && processes[at].name == Some(name),
        forall|k: int|
            0 <= k < at ==> !((#[trigger] processes[k]).alive && processes[k].name == Some(name)),
    ensures
        lookup(processes, name) == Some(at),
    decreases processes.len(),
{
    if at < processes.len() - 1 {
        lemma_lookup_first(processes.drop_last(), name, at);
    } else {
        lemma_lookup_none(processes.drop_last(), name);
    }
}

/// Where no living process has the name, a lookup of it finds none.
pub proof fn lemma_lookup_none(processes: Seq<ProcessView>, name: Seq<u8>)
    requires
        forall|k: int|
            0 <= k < processes.len() ==> !((#[trigger] processes[k]).alive && processes[k].name
                == Some(name)),
    ensures
        lookup(processes, name) is None,
    decreases processes.len(),
{
    if processes.len() > 0 {
        lemma_lookup_none(processes.drop_last(), name);
    }
}

} // verus!
