//! What the transcoder generator reads of a type declaration, as plain data.

use vstd::prelude::*;

use crate::codec::Shape;

verus! {

/// A literal in an attribute. Only string literals are told apart.
#[derive(Debug, PartialEq, Eq)]
pub enum Lit {
    Str(String),
    Other,
}

/// One argument of an attribute list, as in `rustler(encode, tag = "t")`.
///
/// A name here is the leading identifier of the argument's path.
#[derive(Debug, PartialEq, Eq)]
pub enum NestedMeta {
    /// A bare literal.
    Lit(Lit),
    /// A bare name, such as `encode`.
    Path(String),
    /// A name with a value, such as `tag = "t"`.
    NameValue(String, Lit),
    /// A name with a list of its own.
    List(String),
}

/// The arguments of one attribute.
#[derive(Debug, PartialEq, Eq)]
pub enum Meta {
    /// `#[name]`
    Path,
    /// `#[name = literal]`
    NameValue(Lit),
    /// `#[name(arguments)]`
    List(Vec<NestedMeta>),
}

/// One attribute of a declaration.
#[derive(Debug, PartialEq, Eq)]
pub struct Attribute {
    /// The identifiers of the attribute's path, in order.
    pub path: Vec<String>,
    /// The attribute's arguments, if they can be read as a `Meta`.
    pub meta: Option<Meta>,
}

/// One field of a struct or of a variant.
#[derive(Debug, PartialEq, Eq)]
pub struct Field {
    /// The identifier of the field; a field of a tuple struct has none.
    pub ident: Option<String>,
    /// The key under which the host sees the field, where the declaration
    /// gives one of its own.
    pub key: Option<String>,
    /// How the type of the field is transcoded.
    pub ty: Shape,
}

/// The fields of a struct or of a variant.
#[derive(Debug, PartialEq, Eq)]
pub enum Fields {
    /// `{ a: A, b: B }`
    Named(Vec<Field>),
    /// `(A, B)`
    Unnamed(Vec<Field>),
    /// No fields at all.
    Unit,
}

/// One variant of an enum.
#[derive(Debug, PartialEq, Eq)]
pub struct Variant {
    pub ident: String,
    pub fields: Fields,
}

/// What is declared.
#[derive(Debug, PartialEq, Eq)]
pub enum Data {
    Struct(Fields),
    Enum(Vec<Variant>),
    Union,
}

/// One type declaration, as a derive is handed it.
#[derive(Debug, PartialEq, Eq)]
pub struct DeriveInput {
    pub attrs: Vec<Attribute>,
    /// The name of the type.
    pub ident: String,
    /// The number of lifetime parameters of the type.
    pub lifetimes: usize,
    pub data: Data,
}

/// The fields that `fields` holds, in declaration order.
pub open spec fn fields_of(fields: Fields) -> Seq<Field> {
    match fields {
        Fields::Named(fields) => fields@,
        Fields::Unnamed(fields) => fields@,
        Fields::Unit => Seq::empty(),
    }
}

/// The fields of a declared struct, in declaration order; `None` where the
/// declaration is not a struct.
pub open spec fn struct_fields_of(data: Data) -> Option<Seq<Field>> {
    match data {
        Data::Struct(fields) => Some(fields_of(fields)),
        _ => None,
    }
}

/// The variants of a declared enum, in declaration order; `None` where the
/// declaration is not an enum.
pub open spec fn variants_of(data: Data) -> Option<Seq<Variant>> {
    match data {
        Data::Enum(variants) => Some(variants@),
        _ => None,
    }
}

/// Whether a declared struct is a tuple struct.
pub open spec fn is_tuple_struct(data: Data) -> bool {
    data matches Data::Struct(Fields::Unnamed(_))
}

impl Fields {
    /// The number of fields.
    pub fn len(&self) -> (n: usize)
        ensures
            n == fields_of(*self).len(),
    {
        match self {
            Fields::Named(fields) => fields.len(),
            Fields::Unnamed(fields) => fields.len(),
            Fields::Unit => 0,
        }
    }

    /// The field at place `k` of the declaration.
    pub fn get(&self, k: usize) -> (field: &Field)
        requires
            k < fields_of(*self).len(),
        ensures
            *field == fields_of(*self)[k as int],
    {
        match self {
            Fields::Named(fields) => &fields[k],
            Fields::Unnamed(fields) => &fields[k],
            Fields::Unit => vstd::pervasive::unreached(),
        }
    }
}

} // verus!
