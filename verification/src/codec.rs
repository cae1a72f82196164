//! The container protocols: what a native value of a declared shape looks
//! like as a term, and which native value a term stands for.
//!
//! A `Shape` describes the transcoding of one native type. The two spec
//! functions `encoding` and `decoding` say, over mathematical values, what
//! the encoder and the decoder of a shape compute.

use vstd::prelude::*;

use crate::error::NifError;
use crate::wrapper::{map_of, ErlNifPid, Value};

verus! {

/// The integer types that are transcoded as leaves.
#[derive(Debug, Clone, Copy, PartialEq, Eq, Structural)]
pub enum IntKind {
    U8,
    U32,
    I32,
    I64,
}

/// The smallest value of an integer type.
pub open spec fn int_min(kind: IntKind) -> int {
    match kind {
        IntKind::U8 => 0,
        IntKind::U32 => 0,
        IntKind::I32 => -0x8000_0000,
        IntKind::I64 => -0x8000_0000_0000_0000,
    }
}

/// The largest value of an integer type.
pub open spec fn int_max(kind: IntKind) -> int {
    match kind {
        IntKind::U8 => 0xff,
        IntKind::U32 => 0xffff_ffff,
        IntKind::I32 => 0x7fff_ffff,
        IntKind::I64 => 0x7fff_ffff_ffff_ffff,
    }
}

/// One field of a type that is transcoded as a map.
#[derive(Debug, PartialEq, Eq)]
pub struct MapField {
    /// The name of the atom under which the host sees the field.
    pub key: Vec<u8>,
    /// How the field itself is transcoded.
    pub shape: Shape,
}

/// How the values of one native type are transcoded.
#[derive(Debug, PartialEq, Eq)]
pub enum Shape {
    /// An integer of the kind given; the term is an integer.
    Int(IntKind),
    /// A byte string; the term is a binary.
    Binary,
    /// The name of an atom; the term is that atom.
    Atom,
    /// A process identifier.
    Pid,
    /// A sequence of values of one type; the term is a list.
    List(Box<Shape>),
    /// A struct as a tuple of its fields, in declaration order.
    Tuple(Vec<Shape>),
    /// A struct as a tuple of a tag atom and then its fields, in
    /// declaration order.
    Record(Vec<u8>, Vec<Shape>),
    /// A struct as a map from the keys of its fields to the fields. With a
    /// module name, the map also has that name under `__struct__`.
    Struct(Option<Vec<u8>>, Vec<MapField>),
    /// An enumeration without fields; each variant is the atom named.
    UnitEnum(Vec<Vec<u8>>),
    /// An enumeration whose variants each hold one value, transcoded as
    /// that value alone.
    Untagged(Vec<Shape>),
}

/// How the values of one native type are transcoded, as mathematics.
pub enum ShapeView {
    Int(IntKind),
    Binary,
    Atom,
    Pid,
    List(Box<ShapeView>),
    Tuple(Seq<ShapeView>),
    Record(Seq<u8>, Seq<ShapeView>),
    /// The module name, if any, and then each field by its key and shape.
    Struct(Option<Seq<u8>>, Seq<(Seq<u8>, ShapeView)>),
    UnitEnum(Seq<Seq<u8>>),
    Untagged(Seq<ShapeView>),
}

/// The names in `atoms`, in order.
pub open spec fn atom_views(atoms: Vec<Vec<u8>>) -> Seq<Seq<u8>> {
    Seq::new(atoms@.len(), |k: int| atoms[k]@)
}

/// The mathematical shapes of `shapes`, in order.
pub open spec fn shape_views(shapes: Vec<Shape>) -> Seq<ShapeView>
    decreases shapes, 0int,
{
    Seq::new(
        shapes@.len(),
        |k: int|
            if 0 <= k < shapes@.len() {
                shape_view(shapes[k])
            } else {
                ShapeView::Binary
            },
    )
}

/// The keys and mathematical shapes of `fields`, in order.
pub open spec fn field_views(fields: Vec<MapField>) -> Seq<(Seq<u8>, ShapeView)>
    decreases fields, 0int,
{
    Seq::new(
        fields@.len(),
        |k: int|
            if 0 <= k < fields@.len() {
                (fields[k].key@, shape_view(fields[k].shape))
            } else {
                (Seq::empty(), ShapeView::Binary)
            },
    )
}

/// The name that `module` gives, as mathematics.
pub open spec fn module_view(module: Option<Vec<u8>>) -> Option<Seq<u8>> {
    match module {
        Some(name) => Some(name@),
        None => None,
    }
}

/// The mathematical shape of a shape.
pub open spec fn shape_view(shape: Shape) -> ShapeView
    decreases shape, 1int,
{
    match shape {
        Shape::Int(kind) => ShapeView::Int(kind),
        Shape::Binary => ShapeView::Binary,
        Shape::Atom => ShapeView::Atom,
        Shape::Pid => ShapeView::Pid,
        Shape::List(element) => ShapeView::List(Box::new(shape_view(*element))),
        Shape::Tuple(fields) => ShapeView::Tuple(shape_views(fields)),
        Shape::Record(tag, fields) => ShapeView::Record(tag@, shape_views(fields)),
        Shape::Struct(module, fields) => ShapeView::Struct(
            module_view(module),
            field_views(fields),
        ),
        Shape::UnitEnum(atoms) => ShapeView::UnitEnum(atom_views(atoms)),
        Shape::Untagged(variants) => ShapeView::Untagged(shape_views(variants)),
    }
}

impl View for Shape {
    type V = ShapeView;

    open spec fn view(&self) -> ShapeView {
        shape_view(*self)
    }
}

/// The view of a list of shapes is the views of the shapes, one by one.
pub proof fn lemma_shape_views(shapes: Vec<Shape>)
    ensures
        shape_views(shapes).len() == shapes@.len(),
        forall|k: int|
            0 <= k < shapes@.len() ==> #[trigger] shape_views(shapes)[k] == shape_view(
                shapes[k],
            ),
{
}

/// The view of a list of fields is the keys and the views of the shapes.
pub proof fn lemma_field_views(fields: Vec<MapField>)
    ensures
        field_views(fields).len() == fields@.len(),
        forall|k: int|
            0 <= k < fields@.len() ==> #[trigger] field_views(fields)[k] == (
                fields[k].key@,
                shape_view(fields[k].shape),
            ),
{
}

/// A native value, as far as transcoding sees it.
#[derive(Debug, PartialEq, Eq)]
pub enum Native {
    Int(i64),
    Binary(Vec<u8>),
    /// An atom, by its name.
    Atom(Vec<u8>),
    Pid(ErlNifPid),
    List(Vec<Native>),
    /// A struct, by its fields in declaration order.
    Struct(Vec<Native>),
    /// A variant of a unit enumeration, by its place in the declaration.
    Unit(usize),
    /// What an atom decodes to that names no variant of a unit enumeration.
    Unrecognized,
    /// A variant of an untagged sum, by its place in the declaration, with
    /// the value it holds.
    Variant(usize, Box<Native>),
}

/// A native value, as mathematics.
pub enum NativeView {
    Int(int),
    Binary(Seq<u8>),
    Atom(Seq<u8>),
    Pid(ErlNifPid),
    List(Seq<NativeView>),
    Struct(Seq<NativeView>),
    Unit(int),
    Unrecognized,
    Variant(int, Box<NativeView>),
}

/// The mathematical values of the fields of a struct, or of the elements of
/// a list, in order.
pub open spec fn native_views(fields: Vec<Native>) -> Seq<NativeView>
    decreases fields, 0int,
{
    Seq::new(
        fields@.len(),
        |k: int|
            if 0 <= k < fields@.len() {
                native_view(fields[k])
            } else {
                NativeView::Unrecognized
            },
    )
}

/// The mathematical value of a native value.
pub open spec fn native_view(value: Native) -> NativeView
    decreases value, 1int,
{
    match value {
        Native::Int(n) => NativeView::Int(n as int),
        Native::Binary(bytes) => NativeView::Binary(bytes@),
        Native::Atom(name) => NativeView::Atom(name@),
        Native::Pid(pid) => NativeView::Pid(pid),
        Native::List(items) => NativeView::List(native_views(items)),
        Native::Struct(fields) => NativeView::Struct(native_views(fields)),
        Native::Unit(index) => NativeView::Unit(index as int),
        Native::Unrecognized => NativeView::Unrecognized,
        Native::Variant(index, held) => NativeView::Variant(
            index as int,
            Box::new(native_view(*held)),
        ),
    }
}

/// The view of a struct or of a list is the views of its fields or
/// elements, one by one.
pub proof fn lemma_struct_view(fields: Vec<Native>)
    ensures
        native_view(Native::Struct(fields)) == NativeView::Struct(native_views(fields)),
        native_view(Native::List(fields)) == NativeView::List(native_views(fields)),
        native_views(fields).len() == fields@.len(),
        forall|k: int|
            0 <= k < fields@.len() ==> #[trigger] native_views(fields)[k] == native_view(
                fields[k],
            ),
{
}

impl View for Native {
    type V = NativeView;

    open spec fn view(&self) -> NativeView {
        native_view(*self)
    }
}

/// The name of the key under which a struct carries its module name.
pub open spec fn struct_key() -> Seq<u8> {
    seq![95u8, 95u8, 115u8, 116u8, 114u8, 117u8, 99u8, 116u8, 95u8, 95u8]
}

/// The name of the atom that the host is shown for what is no variant:
/// `invalid_variant`.
pub open spec fn invalid_variant() -> Seq<u8> {
    seq![
        105u8, 110u8, 118u8, 97u8, 108u8, 105u8, 100u8, 95u8, 118u8, 97u8, 114u8, 105u8, 97u8,
        110u8, 116u8,
    ]
}

/// The first place at which `name` stands in `atoms`, if it stands there.
pub open spec fn position(atoms: Seq<Seq<u8>>, name: Seq<u8>) -> Option<int>
    decreases atoms.len(),
{
    if atoms.len() == 0 {
        None
    } else {
        match position(atoms.drop_last(), name) {
            Some(at) => Some(at),
            None => if atoms.last() == name {
                Some(atoms.len() - 1)
            } else {
                None
            },
        }
    }
}

/// The values of `results` if all are `Ok`, else the first error.
pub open spec fn collect(results: Seq<Result<NativeView, NifError>>) -> Result<
    Seq<NativeView>,
    NifError,
>
    decreases results.len(),
{
    if results.len() == 0 {
        Ok(Seq::empty())
    } else {
        match collect(results.drop_last()) {
            Err(e) => Err(e),
            Ok(front) => match results.last() {
                Err(e) => Err(e),
                Ok(value) => Ok(front.push(value)),
            },
        }
    }
}

/// The first place at which `results` holds an `Ok`, if it holds one.
pub open spec fn first_ok(results: Seq<Result<NativeView, NifError>>) -> Option<int>
    decreases results.len(),
{
    if results.len() == 0 {
        None
    } else {
        match first_ok(results.drop_last()) {
            Some(at) => Some(at),
            None => if results.last() is Ok {
                Some(results.len() - 1)
            } else {
                None
            },
        }
    }
}

/// Whether `value` is a value of the native type that `shape` describes.
pub open spec fn admits(shape: ShapeView, value: NativeView) -> bool
    decreases shape,
{
    match shape {
        ShapeView::Int(kind) => value matches NativeView::Int(n) && int_min(kind) <= n
            <= int_max(kind),
        ShapeView::Binary => value is Binary,
        ShapeView::Atom => value is Atom,
        ShapeView::Pid => value is Pid,
        ShapeView::List(element) => value matches NativeView::List(held) && forall|k: int|
            0 <= k < held.len() ==> admits(*element, #[trigger] held[k]),
        ShapeView::Tuple(fields) => value matches NativeView::Struct(held) && held.len()
            == fields.len() && forall|k: int|
            0 <= k < fields.len() ==> admits(fields[k], #[trigger] held[k]),
        ShapeView::Record(_, fields) => value matches NativeView::Struct(held) && held.len()
            == fields.len() && forall|k: int|
            0 <= k < fields.len() ==> admits(fields[k], #[trigger] held[k]),
        ShapeView::Struct(_, fields) => value matches NativeView::Struct(held) && held.len()
            == fields.len() && forall|k: int|
            0 <= k < fields.len() ==> admits(fields[k].1, #[trigger] held[k]),
        ShapeView::UnitEnum(atoms) => value matches NativeView::Unit(index) && 0 <= index
            < atoms.len(),
        ShapeView::Untagged(variants) => value matches NativeView::Variant(index, held) && 0
            <= index < variants.len() && admits(variants[index], *held),
    }
}

/// Whether no two of `names` are the same.
pub open spec fn distinct(names: Seq<Seq<u8>>) -> bool {
    forall|i: int, j: int| 0 <= i < j < names.len() ==> #[trigger] names[i] != #[trigger] names[j]
}

/// Whether no two of `fields` have the same key.
pub open spec fn distinct_keys(fields: Seq<(Seq<u8>, ShapeView)>) -> bool {
    forall|i: int, j: int|
        0 <= i < j < fields.len() ==> (#[trigger] fields[i]).0 != (#[trigger] fields[j]).0
}

/// Whether `shape` can be told apart on the host's side: throughout it, the
/// variants of a unit enumeration have different atoms, the fields of a
/// struct have different keys, and none of them is the key of the module
/// name where the struct has one.
pub open spec fn well_formed(shape: ShapeView) -> bool
    decreases shape,
{
    match shape {
        ShapeView::Int(_) => true,
        ShapeView::Binary => true,
        ShapeView::Atom => true,
        ShapeView::Pid => true,
        ShapeView::List(element) => well_formed(*element),
        ShapeView::Tuple(fields) => forall|k: int|
            0 <= k < fields.len() ==> well_formed(#[trigger] fields[k]),
        ShapeView::Record(_, fields) => forall|k: int|
            0 <= k < fields.len() ==> well_formed(#[trigger] fields[k]),
        ShapeView::Struct(module, fields) => {
            &&& distinct_keys(fields)
            &&& module is Some ==> forall|k: int|
                0 <= k < fields.len() ==> (#[trigger] fields[k]).0 != struct_key()
            &&& forall|k: int| 0 <= k < fields.len() ==> well_formed((#[trigger] fields[k]).1)
        },
        ShapeView::UnitEnum(atoms) => distinct(atoms),
        ShapeView::Untagged(variants) => forall|k: int|
            0 <= k < variants.len() ==> well_formed(#[trigger] variants[k]),
    }
}

/// Whether `value`, a value of the native type that `shape` describes, can
/// be told from its term: wherever it holds a variant of an untagged sum,
/// no earlier variant of that sum decodes the term of the variant.
pub open spec fn unambiguous(shape: ShapeView, value: NativeView) -> bool
    decreases shape,
{
    match shape {
        ShapeView::List(element) => forall|k: int|
            0 <= k < value->List_0.len() ==> unambiguous(*element, #[trigger] value->List_0[k]),
        ShapeView::Tuple(fields) => forall|k: int|
            0 <= k < fields.len() ==> unambiguous(fields[k], #[trigger] value->Struct_0[k]),
        ShapeView::Record(_, fields) => forall|k: int|
            0 <= k < fields.len() ==> unambiguous(fields[k], #[trigger] value->Struct_0[k]),
        ShapeView::Struct(_, fields) => forall|k: int|
            0 <= k < fields.len() ==> unambiguous(fields[k].1, #[trigger] value->Struct_0[k]),
        ShapeView::Untagged(variants) => {
            let index = value->Variant_0;
            let held = *value->Variant_1;
            0 <= index < variants.len() ==> {
                &&& unambiguous(variants[index], held)
                &&& forall|j: int|
                    0 <= j < index ==> #[trigger] decoding(
                        variants[j],
                        encoding(variants[index], held),
                    ) is Err
            }
        },
        _ => true,
    }
}

/// The terms of the elements of a list, in order.
pub open spec fn element_encodings(element: ShapeView, held: Seq<NativeView>) -> Seq<Value>
    decreases element, 2int,
{
    Seq::new(held.len(), |k: int| encoding(element, held[k]))
}

/// The terms of the fields of a struct, in declaration order.
pub open spec fn field_encodings(fields: Seq<ShapeView>, held: Seq<NativeView>) -> Seq<Value>
    decreases fields, 0int,
{
    Seq::new(
        fields.len(),
        |k: int|
            if 0 <= k < fields.len() {
                encoding(fields[k], held[k])
            } else {
                Value::Int(0)
            },
    )
}

/// The entries of the map of a struct, in declaration order.
pub open spec fn entry_encodings(fields: Seq<(Seq<u8>, ShapeView)>, held: Seq<NativeView>) -> Seq<
    (Seq<u8>, Value),
>
    decreases fields, 0int,
{
    Seq::new(
        fields.len(),
        |k: int|
            if 0 <= k < fields.len() {
                (fields[k].0, encoding(fields[k].1, held[k]))
            } else {
                (Seq::empty(), Value::Int(0))
            },
    )
}

/// The value of the host that stands for `value`, a value of the native
/// type that `shape` describes.
pub open spec fn encoding(shape: ShapeView, value: NativeView) -> Value
    decreases shape, 1int,
{
    match shape {
        ShapeView::Int(_) => Value::Int(value->Int_0),
        ShapeView::Binary => Value::Binary(value->Binary_0),
        ShapeView::Atom => Value::Atom(value->Atom_0),
        ShapeView::Pid => Value::Pid(value->Pid_0),
        ShapeView::List(element) => Value::List(element_encodings(*element, value->List_0)),
        ShapeView::Tuple(fields) => Value::Tuple(field_encodings(fields, value->Struct_0)),
        ShapeView::Record(tag, fields) => Value::Tuple(
            seq![Value::Atom(tag)] + field_encodings(fields, value->Struct_0),
        ),
        ShapeView::Struct(module, fields) => Value::Mapping(
            map_of(
                match module {
                    Some(name) => seq![(struct_key(), Value::Atom(name))],
                    None => Seq::empty(),
                } + entry_encodings(fields, value->Struct_0),
            ),
        ),
        ShapeView::UnitEnum(atoms) => Value::Atom(atoms[value->Unit_0]),
        ShapeView::Untagged(variants) => if 0 <= value->Variant_0 < variants.len() {
            encoding(variants[value->Variant_0], *value->Variant_1)
        } else {
            Value::Int(0)
        },
    }
}

/// The value that the host is shown for `value`, which a decoder of `shape`
/// gave or which is a value of `shape`: for what is no variant the atom
/// `invalid_variant`, and else the value that stands for it.
pub open spec fn shown(shape: ShapeView, value: NativeView) -> Value {
    if value is Unrecognized {
        Value::Atom(invalid_variant())
    } else {
        encoding(shape, value)
    }
}

/// What each element of a list decodes to.
pub open spec fn element_decodings(element: ShapeView, elements: Seq<Value>) -> Seq<
    Result<NativeView, NifError>,
>
    decreases element, 2int,
{
    Seq::new(elements.len(), |k: int| decoding(element, elements[k]))
}

/// What each field of a struct decodes to, element by element.
pub open spec fn field_decodings(fields: Seq<ShapeView>, elements: Seq<Value>) -> Seq<
    Result<NativeView, NifError>,
>
    decreases fields, 0int,
{
    Seq::new(
        fields.len(),
        |k: int|
            if 0 <= k < fields.len() {
                decoding(fields[k], elements[k])
            } else {
                Err(NifError::BadArg)
            },
    )
}

/// Whether `map` has the key of every field.
pub open spec fn has_all_keys(fields: Seq<(Seq<u8>, ShapeView)>, map: Map<Seq<u8>, Value>) -> bool {
    forall|k: int| 0 <= k < fields.len() ==> map.dom().contains((#[trigger] fields[k]).0)
}

/// What each field of a struct decodes to, looked up by its key.
pub open spec fn entry_decodings(
    fields: Seq<(Seq<u8>, ShapeView)>,
    map: Map<Seq<u8>, Value>,
) -> Seq<Result<NativeView, NifError>>
    decreases fields, 0int,
{
    Seq::new(
        fields.len(),
        |k: int|
            if 0 <= k < fields.len() {
                decoding(fields[k].1, map[fields[k].0])
            } else {
                Err(NifError::BadArg)
            },
    )
}

/// What each variant of an untagged sum decodes `value` to.
pub open spec fn variant_decodings(variants: Seq<ShapeView>, value: Value) -> Seq<
    Result<NativeView, NifError>,
>
    decreases variants, 0int,
{
    Seq::new(
        variants.len(),
        |k: int|
            if 0 <= k < variants.len() {
                decoding(variants[k], value)
            } else {
                Err(NifError::BadArg)
            },
    )
}

/// The native value that `value` stands for under `shape`, or why it stands
/// for none.
///
/// The container is checked before any field is decoded: the arity of a
/// tuple, the tag and then the arity of a record, the keys and then the
/// module name of a struct. Fields are then decoded in declaration order,
/// and the elements of a list in their order, and the first failure is the
/// failure of the whole. An untagged sum is the
/// first variant, in declaration order, that decodes the value. An atom that
/// names no variant of a unit enumeration decodes to `Unrecognized`, which
/// is no failure.
pub open spec fn decoding(shape: ShapeView, value: Value) -> Result<NativeView, NifError>
    decreases shape, 1int,
{
    match shape {
        ShapeView::Int(kind) => match value {
            Value::Int(n) => if int_min(kind) <= n <= int_max(kind) {
                Ok(NativeView::Int(n))
            } else {
                Err(NifError::BadArg)
            },
            _ => Err(NifError::BadArg),
        },
        ShapeView::Binary => match value {
            Value::Binary(bytes) => Ok(NativeView::Binary(bytes)),
            _ => Err(NifError::BadArg),
        },
        ShapeView::Atom => match value {
            Value::Atom(name) => Ok(NativeView::Atom(name)),
            _ => Err(NifError::BadArg),
        },
        ShapeView::Pid => match value {
            Value::Pid(pid) => Ok(NativeView::Pid(pid)),
            _ => Err(NifError::BadArg),
        },
        ShapeView::List(element) => match value {
            Value::List(elements) => match collect(element_decodings(*element, elements)) {
                Ok(held) => Ok(NativeView::List(held)),
                Err(e) => Err(e),
            },
            _ => Err(NifError::BadArg),
        },
        ShapeView::Tuple(fields) => match value {
            Value::Tuple(elements) => if elements.len() != fields.len() {
                Err(NifError::ArityMismatch)
            } else {
                match collect(field_decodings(fields, elements)) {
                    Ok(held) => Ok(NativeView::Struct(held)),
                    Err(e) => Err(e),
                }
            },
            _ => Err(NifError::BadArg),
        },
        ShapeView::Record(tag, fields) => match value {
            Value::Tuple(elements) => if elements.len() == 0 || elements[0] != Value::Atom(tag) {
                Err(NifError::TagMismatch)
            } else if elements.len() != fields.len() + 1 {
                Err(NifError::ArityMismatch)
            } else {
                match collect(field_decodings(fields, elements.drop_first())) {
                    Ok(held) => Ok(NativeView::Struct(held)),
                    Err(e) => Err(e),
                }
            },
            _ => Err(NifError::BadArg),
        },
        ShapeView::Struct(module, fields) => match value {
            Value::Mapping(map) => if module is Some && !map.dom().contains(struct_key()) {
                Err(NifError::MissingField)
            } else if !has_all_keys(fields, map) {
                Err(NifError::MissingField)
            } else if module is Some && map[struct_key()] != Value::Atom(module->Some_0) {
                Err(NifError::TagMismatch)
            } else {
                match collect(entry_decodings(fields, map)) {
                    Ok(held) => Ok(NativeView::Struct(held)),
                    Err(e) => Err(e),
                }
            },
            _ => Err(NifError::BadArg),
        },
        ShapeView::UnitEnum(atoms) => match value {
            Value::Atom(name) => match position(atoms, name) {
                Some(index) => Ok(NativeView::Unit(index)),
                None => Ok(NativeView::Unrecognized),
            },
            _ => Err(NifError::BadArg),
        },
        ShapeView::Untagged(variants) => {
            let tried = variant_decodings(variants, value);
            match first_ok(tried) {
                Some(index) => Ok(NativeView::Variant(index, Box::new(tried[index]->Ok_0))),
                None => Err(NifError::NoMatchingVariant),
            }
        },
    }
}

/// An error among the first `n` results is the error of all of them.
pub proof fn lemma_collect_error(results: Seq<Result<NativeView, NifError>>, n: int)
    requires
        0 <= n <= results.len(),
        collect(results.take(n)) is Err,
    ensures
        collect(results) == collect(results.take(n)),
    decreases results.len() - n,
{
    if n < results.len() {
        assert(results.take(n + 1).drop_last() =~= results.take(n));
        lemma_collect_error(results, n + 1);
    } else {
        assert(results.take(n) =~= results);
    }
}

/// Results that are all `Ok` collect to their values.
pub proof fn lemma_collect_all_ok(
    results: Seq<Result<NativeView, NifError>>,
    values: Seq<NativeView>,
)
    requires
        results.len() == values.len(),
        forall|k: int| 0 <= k < results.len() ==> #[trigger] results[k] == Ok::<
            NativeView,
            NifError,
        >(values[k]),
    ensures
        collect(results) == Ok::<Seq<NativeView>, NifError>(values),
    decreases results.len(),
{
    if results.len() > 0 {
        lemma_collect_all_ok(results.drop_last(), values.drop_last());
        assert(values.drop_last().push(values.last()) =~= values);
    } else {
        assert(values =~= Seq::empty());
    }
}

/// Where a name stands at `at` and nowhere before, `at` is its position.
pub proof fn lemma_position_first(atoms: Seq<Seq<u8>>, name: Seq<u8>, at: int)
    requires
        0 <= at < atoms.len(),
        atoms[at] == name,
        forall|k: int| 0 <= k < at ==> #[trigger] atoms[k] != name,
    ensures
        position(atoms, name) == Some(at),
    decreases atoms.len(),
{
    if at < atoms.len() - 1 {
        lemma_position_first(atoms.drop_last(), name, at);
    } else {
        lemma_position_none(atoms.drop_last(), name);
    }
}

/// A name that stands nowhere has no position.
pub proof fn lemma_position_none(atoms: Seq<Seq<u8>>, name: Seq<u8>)
    requires
        forall|k: int| 0 <= k < atoms.len() ==> #[trigger] atoms[k] != name,
    ensures
        position(atoms, name) is None,
    decreases atoms.len(),
{
    if atoms.len() > 0 {
        lemma_position_none(atoms.drop_last(), name);
    }
}

/// Where a result is `Ok` at `at` and none is before, `at` is the first.
pub proof fn lemma_first_ok_at(results: Seq<Result<NativeView, NifError>>, at: int)
    requires
        0 <= at < results.len(),
        results[at] is Ok,
        forall|k: int| 0 <= k < at ==> #[trigger] results[k] is Err,
    ensures
        first_ok(results) == Some(at),
    decreases results.len(),
{
    if at < results.len() - 1 {
        lemma_first_ok_at(results.drop_last(), at);
    } else {
        lemma_first_ok_none(results.drop_last());
    }
}

/// Where no result is `Ok` there is no first.
pub proof fn lemma_first_ok_none(results: Seq<Result<NativeView, NifError>>)
    requires
        forall|k: int| 0 <= k < results.len() ==> #[trigger] results[k] is Err,
    ensures
        first_ok(results) is None,
    decreases results.len(),
{
    if results.len() > 0 {
        lemma_first_ok_none(results.drop_last());
    }
}

} // verus!
