//! The error types of the library.

use vstd::prelude::*;

verus! {

/// Why a type declaration cannot be given a transcoder.
///
/// These are found while the transcoder is generated and never while terms
/// are transcoded.
#[derive(Debug, PartialEq, Eq)]
pub enum DeclarationError {
    /// The arguments of a `rustler` attribute could not be read at all.
    UnparsableMeta,
    /// A `rustler` attribute is not of the form `rustler(...)`.
    UnexpectedMeta,
    /// An argument of `rustler(...)` is a bare literal.
    UnexpectedLit,
    /// A bare argument of `rustler(...)` has a name that is not known; the
    /// name.
    UnexpectedPath(String),
    /// An argument of `rustler(...)` that is given a value has a name that
    /// is not known; the name.
    UnexpectedKey(String),
    /// `module = ...` is not given a string literal.
    CannotParseModule,
    /// `tag = ...` is not given a string literal.
    CannotParseTag,
    /// An argument of `rustler(...)` is itself a list.
    UnexpectedList,
    /// The shape is for structs and the declaration is not one.
    NotAStruct,
    /// The shape is for enums and the declaration is not one.
    NotAnEnum,
    /// The declaration has more than one lifetime parameter.
    TooManyLifetimes,
    /// A variant of a unit enumeration carries fields.
    NonUnitVariant,
    /// A variant of an untagged sum does not carry exactly one field.
    NotNewtypeVariant,
    /// A struct transcoded as a map has a field without a name.
    UnnamedField,
    /// The shape needs a module name and the declaration gives none.
    MissingModule,
    /// The shape needs a tag and the declaration gives none.
    MissingTag,
    /// Two fields or variants would share one name on the host's side.
    DuplicateName,
}

/// Why a term could not be decoded.
#[derive(Debug, Clone, Copy, PartialEq, Eq, Structural)]
pub enum NifError {
    /// The term is not of the kind that the decoder reads.
    BadArg,
    /// A tuple has another number of elements than the type has fields.
    ArityMismatch,
    /// The first element of a tagged tuple, or the module of a struct, is
    /// not the declared one.
    TagMismatch,
    /// A map lacks a declared key.
    MissingField,
    /// No variant of an untagged sum decodes the term.
    NoMatchingVariant,
}

/// Why a term must not be read through an environment.
///
/// These are errors of the program and not of its data: who meets one has
/// to stop, because the heap that the term lived in may hold other values
/// by now.
#[derive(Debug, Clone, Copy, PartialEq, Eq, Structural)]
pub enum LifetimeError {
    /// The heap of the environment exists no more.
    DeadEnvironment,
    /// The term was issued by another environment.
    WrongEnvironment,
    /// The term was issued before the heap of the environment was last
    /// cleared, or was never issued by it.
    StaleTerm,
}

/// What reading or decoding a term gives.
pub type NifResult<T> = Result<T, NifError>;

} // verus!
