//! Environments and the terms that live in them.
//!
//! An environment stands for one heap of the host. A term is a slot of that
//! heap together with the identity of the environment and the generation of
//! its heap at the time the term was issued. Every operation on a term is
//! given the environment explicitly, and is only defined where the
//! environment still owns the term.

use vstd::prelude::*;

use crate::error::{LifetimeError, NifError};
use crate::wrapper::{ErlNifPid, Heap, Value};

pub mod atom;
pub mod binary;
pub mod integer;
pub mod list;
pub mod map;
pub mod pid;
pub mod resource;
pub mod tuple;

verus! {

/// The two kinds of environment.
#[derive(Debug, Clone, Copy, PartialEq, Eq, Structural)]
pub enum EnvKind {
    /// Supplied by the host for the duration of one call.
    CallScoped,
    /// Created and destroyed by native code; lives across calls.
    Owned,
}

/// An opaque, copyable reference to a value in the heap of one environment.
#[derive(Debug, Clone, Copy, PartialEq, Eq, Structural)]
pub struct NifTerm {
    term: usize,
    env: u64,
    generation: u64,
}

/// One heap of the host, with its identity.
#[derive(Debug)]
pub struct NifEnv {
    id: u64,
    kind: EnvKind,
    alive: bool,
    generation: u64,
    caller: Option<ErlNifPid>,
    heap: Heap,
}

/// A native type whose values can be made into terms.
///
/// Encoding never fails: it turns native data, which is valid already, into
/// the host's one representation of everything.
pub trait NifEncoder {
    /// The value of the host that stands for this native value.
    spec fn encoding(&self) -> Value;

    /// Makes the term that stands for this value in the heap of `env`.
    fn encode(&self, env: &mut NifEnv) -> (term: NifTerm)
        requires
            old(env).alive(),
        ensures
            final(env).owns(term),
            final(env).value(term) == self.encoding(),
            final(env).extends(old(env)),
    ;
}

/// A native type whose values can be read off terms.
pub trait NifDecoder: Sized {
    /// The native value that `value` stands for, or why it stands for none.
    spec fn decoding(value: Value) -> Result<Self, NifError>;

    /// Reads the native value off `term`.
    fn decode(env: &NifEnv, term: NifTerm) -> (decoded: Result<Self, NifError>)
        requires
            env.owns(term),
        ensures
            decoded == Self::decoding(env.value(term)),
    ;
}

impl NifTerm {
    /// The slot of the term in the heap of its environment.
    pub closed spec fn slot(self) -> usize {
        self.term
    }

    /// The identity of the environment that issued the term.
    pub closed spec fn env_id(self) -> u64 {
        self.env
    }

    /// The generation of the environment's heap when the term was issued.
    pub closed spec fn generation(self) -> u64 {
        self.generation
    }

    /// Wraps the raw term in slot `inner` of the heap of `env`. The result
    /// is tagged with the identity of `env`.
    pub fn new(env: &NifEnv, inner: usize) -> (term: NifTerm)
        ensures
            term.slot() == inner,
            term.env_id() == env.id(),
            term.generation() == env.generation(),
    {
        NifTerm { term: inner, env: env.id, generation: env.generation }
    }

    /// The raw term.
    pub fn as_c_arg(&self) -> (inner: usize)
        ensures
            inner == self.slot(),
    {
        self.term
    }
}

impl NifEnv {
    /// The identity of the environment.
    pub closed spec fn id(&self) -> u64 {
        self.id
    }

    /// The kind of the environment.
    pub closed spec fn kind(&self) -> EnvKind {
        self.kind
    }

    /// Whether the heap of the environment still exists.
    pub closed spec fn alive(&self) -> bool {
        self.alive
    }

    /// How often the heap of the environment has been cleared.
    pub closed spec fn generation(&self) -> u64 {
        self.generation
    }

    /// The process on whose behalf the environment exists, if any.
    pub closed spec fn caller(&self) -> Option<ErlNifPid> {
        self.caller
    }

    /// The heap of the environment.
    pub closed spec fn heap(&self) -> Heap {
        self.heap
    }

    /// Whether `term` may be read through this environment: the environment
    /// is alive, it issued the term, and has not been cleared since.
    pub open spec fn owns(&self, term: NifTerm) -> bool {
        &&& self.alive()
        &&& term.env_id() == self.id()
        &&& term.generation() == self.generation()
        &&& self.heap().contains(term.slot())
    }

    /// Whether the environment owns every term of `terms`.
    pub open spec fn owns_all(&self, terms: Seq<NifTerm>) -> bool {
        forall|k: int| 0 <= k < terms.len() ==> self.owns(#[trigger] terms[k])
    }

    /// The value that `term` refers to.
    pub open spec fn value(&self, term: NifTerm) -> Value {
        self.heap().value(term.slot())
    }

    /// The values that `terms` refer to, in order.
    pub open spec fn values(&self, terms: Seq<NifTerm>) -> Seq<Value> {
        Seq::new(terms.len(), |k: int| self.value(terms[k]))
    }

    /// Whether this environment is `before` with values added to its heap:
    /// it is the same environment in the same generation, and every term
    /// that `before` owned is still owned and refers to the same value.
    pub open spec fn extends(&self, before: &NifEnv) -> bool {
        &&& self.id() == before.id()
        &&& self.kind() == before.kind()
        &&& self.alive() == before.alive()
        &&& self.generation() == before.generation()
        &&& self.caller() == before.caller()
        &&& self.heap().extends(&before.heap())
    }

    /// A fresh environment with the identity `id` and an empty heap.
    pub(crate) fn new(id: u64, kind: EnvKind, caller: Option<ErlNifPid>) -> (env: NifEnv)
        ensures
            env.alive(),
            env.id() == id,
            env.kind() == kind,
            env.generation() == 0,
            env.caller() == caller,
            env.heap().size() == 0,
    {
        NifEnv { id, kind, alive: true, generation: 0, caller, heap: Heap::new() }
    }

    /// The raw heap of the environment, for reading.
    pub fn as_c_arg(&self) -> (heap: &Heap)
        ensures
            *heap == self.heap(),
    {
        &self.heap
    }

    /// Whether this environment is of the owned kind.
    pub fn is_owned(&self) -> (owned: bool)
        ensures
            owned == (self.kind() == EnvKind::Owned),
    {
        match self.kind {
            EnvKind::Owned => true,
            EnvKind::CallScoped => false,
        }
    }

    /// How often the heap of the environment has been cleared.
    pub fn generation_count(&self) -> (generation: u64)
        ensures
            generation == self.generation(),
    {
        self.generation
    }

    /// Whether the heap of the environment still exists.
    pub fn is_alive(&self) -> (alive: bool)
        ensures
            alive == self.alive(),
    {
        self.alive
    }

    /// Whether `term` may be read through this environment. A term of
    /// another environment, or one issued before the heap was last cleared,
    /// is told apart here and not by reading the heap.
    pub fn holds(&self, term: NifTerm) -> (held: bool)
        ensures
            held == self.owns(term),
    {
        self.alive && term.env == self.id && term.generation == self.generation && term.term
            < self.heap.len()
    }

    /// Checks that `term` may be read through this environment, and says
    /// why where it may not.
    pub fn check(&self, term: NifTerm) -> (checked: Result<(), LifetimeError>)
        ensures
            checked is Ok <==> self.owns(term),
            checked == Err::<(), LifetimeError>(LifetimeError::DeadEnvironment)
                <==> !self.alive(),
            checked == Err::<(), LifetimeError>(LifetimeError::WrongEnvironment)
                <==> self.alive() && term.env_id() != self.id(),
            checked == Err::<(), LifetimeError>(LifetimeError::StaleTerm) <==> self.alive()
                && term.env_id() == self.id() && !(term.generation() == self.generation()
                && self.heap().contains(term.slot())),
    {
        if !self.alive {
            Err(LifetimeError::DeadEnvironment)
        } else if term.env != self.id {
            Err(LifetimeError::WrongEnvironment)
        } else if term.generation != self.generation || term.term >= self.heap.len() {
            Err(LifetimeError::StaleTerm)
        } else {
            Ok(())
        }
    }

    /// Copies the value in slot `term` of the raw heap `src` into the heap
    /// of this environment.
    pub fn copy_raw(&mut self, src: &Heap, term: usize) -> (copy: NifTerm)
        requires
            old(self).alive(),
            src.contains(term),
        ensures
            final(self).owns(copy),
            final(self).value(copy) == src.value(term),
            final(self).extends(old(self)),
    {
        let slot = crate::wrapper::copy_term(&mut self.heap, src, term);
        NifTerm::new(self, slot)
    }

    /// Copies the value of `term`, which lives in `src`, into the heap of
    /// this environment. The copy stays valid when `src` is cleared or its
    /// call returns.
    pub fn copy_in(&mut self, src: &NifEnv, term: NifTerm) -> (copy: NifTerm)
        requires
            old(self).alive(),
            src.owns(term),
        ensures
            final(self).owns(copy),
            final(self).value(copy) == src.value(term),
            final(self).extends(old(self)),
    {
        let slot = crate::wrapper::copy_term(&mut self.heap, &src.heap, term.term);
        NifTerm::new(self, slot)
    }

    /// Clears the heap. Every term issued before is no longer owned.
    pub(crate) fn clear(&mut self)
        requires
            old(self).generation() < u64::MAX,
        ensures
            final(self).id() == old(self).id(),
            final(self).kind() == old(self).kind(),
            final(self).alive() == old(self).alive(),
            final(self).caller() == old(self).caller(),
            final(self).generation() == old(self).generation() + 1,
            final(self).heap().size() == 0,
            forall|term: NifTerm| !final(self).owns(term),
    {
        self.heap.clear();
        self.generation = self.generation + 1;
    }

    /// Ends the life of the environment. Nothing can be read through it
    /// afterwards.
    pub(crate) fn kill(&mut self)
        ensures
            final(self).id() == old(self).id(),
            !final(self).alive(),
            forall|term: NifTerm| !final(self).owns(term),
    {
        self.alive = false;
    }
}

} // verus!
