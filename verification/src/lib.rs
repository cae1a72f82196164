//! Transcoding between statically typed native values and the dynamically
//! typed terms of a host virtual machine, with a lifetime-checked model of
//! the host's term heaps and of the native resources its collector owns.
//!
//! A type declaration is given one of five container protocols. For each
//! there is a function here that generates the decoder and the encoder of
//! the declared type.
//!
//! Everything here is proved but for two things that are believed of code
//! from outside: that `String::push` of std appends the character it is
//! given, and that `to_snake_case` of the crate `heck` gives one result for
//! one name.

use vstd::prelude::*;

pub mod ast;
pub mod codec;
pub mod context;
pub mod env;
pub mod error;
pub mod ex_struct;
pub mod host;
pub mod init;
pub mod laws;
pub mod map;
pub mod record;
pub mod resource;
pub mod shape;
pub mod transcoder;
pub mod tuple;
pub mod types;
pub mod unit_enum;
pub mod untagged_enum;
pub mod wrapper;

use crate::ast::DeriveInput;
use crate::codec::ShapeView;
use crate::error::DeclarationError;
use crate::ex_struct::struct_shape_of;
use crate::map::map_shape_of;
use crate::record::record_shape_of;
use crate::transcoder::Transcoder;
use crate::tuple::tuple_shape_of;
use crate::unit_enum::unit_enum_shape_of;
use crate::untagged_enum::untagged_shape_of;

verus! {

/// The derives.
#[derive(Debug, Clone, Copy, PartialEq, Eq, Structural)]
pub enum Derive {
    NifStruct,
    NifMap,
    NifTuple,
    NifRecord,
    NifUnitEnum,
    NifUntaggedEnum,
}

/// How the values of the type that `input` declares are transcoded under
/// the derive `kind`, or why they cannot be.
pub open spec fn shape_of(kind: Derive, input: DeriveInput) -> Result<
    ShapeView,
    DeclarationError,
> {
    match kind {
        Derive::NifStruct => struct_shape_of(input),
        Derive::NifMap => map_shape_of(input),
        Derive::NifTuple => tuple_shape_of(input),
        Derive::NifRecord => record_shape_of(input),
        Derive::NifUnitEnum => unit_enum_shape_of(input),
        Derive::NifUntaggedEnum => untagged_shape_of(input),
    }
}

/// Checks that the derive `kind` can be given the declaration `input`,
/// and says why where it cannot. Who is not held to prove it calls this
/// before the derive, and stops where it gives an error.
pub fn check(kind: Derive, input: &DeriveInput) -> (checked: Result<(), DeclarationError>)
    ensures
        match shape_of(kind, *input) {
            Err(e) => checked == Err::<(), DeclarationError>(e),
            Ok(_) => checked is Ok,
        },
{
    let generated = match kind {
        Derive::NifStruct => ex_struct::try_transcoder_decorator(input),
        Derive::NifMap => map::try_transcoder_decorator(input),
        Derive::NifTuple => tuple::try_transcoder_decorator(input),
        Derive::NifRecord => record::try_transcoder_decorator(input),
        Derive::NifUnitEnum => unit_enum::try_transcoder_decorator(input),
        Derive::NifUntaggedEnum => untagged_enum::try_transcoder_decorator(input),
    };
    match generated {
        Ok(_) => Ok(()),
        Err(e) => Err(e),
    }
}

/// Runs the derive `kind` on the declaration `input` where it can be
/// given it, and says why where it cannot.
pub fn generate(kind: Derive, input: &DeriveInput) -> (generated: Result<
    Transcoder,
    DeclarationError,
>)
    ensures
        match shape_of(kind, *input) {
            Err(e) => generated == Err::<Transcoder, DeclarationError>(e),
            Ok(shape) => generated is Ok && generated->Ok_0.generated_for(*input, shape),
        },
{
    match check(kind, input) {
        Err(e) => Err(e),
        Ok(()) => Ok(
            match kind {
                Derive::NifStruct => nif_struct(input),
                Derive::NifMap => nif_map(input),
                Derive::NifTuple => nif_tuple(input),
                Derive::NifRecord => nif_record(input),
                Derive::NifUnitEnum => nif_unit_enum(input),
                Derive::NifUntaggedEnum => nif_untagged_enum(input),
            },
        ),
    }
}

/// Lets a struct be transcoded as a struct of the host.
/// For example, the following struct, annotated as such:
///
/// ```text
/// #[derive(Debug, NifStruct)]
/// #[module = "AddStruct"]
/// struct AddStruct {
///    lhs: i32,
///    rhs: i32,
/// }
/// ```
///
/// is seen by the host as the map `%AddStruct{lhs: 33, rhs: 21}`, which
/// carries the name of its module under `__struct__`.
///
/// The declaration has to be one that the derive can be given; `check`
/// tells whether it is.
pub fn nif_struct(input: &DeriveInput) -> (generated: Transcoder)
    requires
        struct_shape_of(*input) is Ok,
    ensures
        generated.generated_for(*input, struct_shape_of(*input)->Ok_0),
{
    ex_struct::transcoder_decorator(input)
}

/// Lets a struct be encoded as and decoded from a map of the host. Given
/// the values 33 and 21 for the struct
///
/// ```text
/// #[derive(NifMap)]
/// struct AddMap {
///     lhs: i32,
///     rhs: i32,
/// }
/// ```
///
/// the host sees the map `%{lhs: 33, rhs: 21}`.
///
/// The declaration has to be one that the derive can be given; `check`
/// tells whether it is.
pub fn nif_map(input: &DeriveInput) -> (generated: Transcoder)
    requires
        map_shape_of(*input) is Ok,
    ensures
        generated.generated_for(*input, map_shape_of(*input)->Ok_0),
{
    map::transcoder_decorator(input)
}

/// Lets a struct be encoded as and decoded from a tuple of the host. Given
/// the values 33 and 21 for the struct
///
/// ```text
/// #[derive(NifTuple)]
/// struct AddTuple {
///     lhs: i32,
///     rhs: i32,
/// }
/// ```
///
/// the host sees the tuple `{33, 21}`. The size of the tuple is the number
/// of fields of the struct.
///
/// The declaration has to be one that the derive can be given; `check`
/// tells whether it is.
pub fn nif_tuple(input: &DeriveInput) -> (generated: Transcoder)
    requires
        tuple_shape_of(*input) is Ok,
    ensures
        generated.generated_for(*input, tuple_shape_of(*input)->Ok_0),
{
    tuple::transcoder_decorator(input)
}

/// Lets a struct be transcoded as a record of the host.
/// For example, the following struct, annotated as such:
///
/// ```text
/// #[derive(Debug, NifRecord)]
/// #[tag = "record"]
/// struct AddRecord {
///    lhs: i32,
///    rhs: i32,
/// }
/// ```
///
/// is seen by the host as the tuple `{:record, 33, 21}`.
///
/// The declaration has to be one that the derive can be given; `check`
/// tells whether it is.
pub fn nif_record(input: &DeriveInput) -> (generated: Transcoder)
    requires
        record_shape_of(*input) is Ok,
    ensures
        generated.generated_for(*input, record_shape_of(*input)->Ok_0),
{
    record::transcoder_decorator(input)
}

/// Lets an enum without fields be encoded as atoms of the host.
///
/// ```text
/// #[derive(NifUnitEnum)]
/// enum UnitEnum {
///    FooBar,
///    Baz,
/// }
/// ```
///
/// The host sees `:foo_bar` and `:baz`. An atom that names no variant
/// decodes to what stands for an unrecognized variant, not to a failure.
///
/// The declaration has to be one that the derive can be given; `check`
/// tells whether it is.
pub fn nif_unit_enum(input: &DeriveInput) -> (generated: Transcoder)
    requires
        unit_enum_shape_of(*input) is Ok,
    ensures
        generated.generated_for(*input, unit_enum_shape_of(*input)->Ok_0),
{
    unit_enum::transcoder_decorator(input)
}

/// Lets an enum whose variants hold data be encoded as that data alone.
///
/// ```text
/// #[derive(NifUntaggedEnum)]
/// enum UntaggedEnum {
///     Foo(u32),
///     Bar(String),
///     Baz(AddStruct),
/// }
/// ```
///
/// What the host sees depends on the data in the enum; which variant held
/// it is lost, because the host has no such notion. A term is decoded as
/// the first variant, in declaration order, that decodes it.
///
/// The declaration has to be one that the derive can be given; `check`
/// tells whether it is.
pub fn nif_untagged_enum(input: &DeriveInput) -> (generated: Transcoder)
    requires
        untagged_shape_of(*input) is Ok,
    ensures
        generated.generated_for(*input, untagged_shape_of(*input)->Ok_0),
{
    untagged_enum::transcoder_decorator(input)
}

} // verus!
