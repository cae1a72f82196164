//! What is computed of a shape alone: copies of it, whether a value is of
//! it, and whether its names can be told apart.

use vstd::prelude::*;
use vstd::string::StringExecFns;

use crate::codec::{
    admits, atom_views, distinct, distinct_keys, field_views, int_max, int_min, invalid_variant,
    lemma_field_views,
    lemma_position_first, lemma_position_none, lemma_shape_views, lemma_struct_view,
    native_views, position, shape_view, shape_views, struct_key, well_formed, IntKind,
    MapField, Native, Shape, ShapeView,
};
use crate::context::same_text;
use crate::wrapper::copy_bytes;
use crate::wrapper::map::same_bytes;

verus! {

/// The name of the key under which a struct carries its module name.
pub fn struct_key_bytes() -> (key: Vec<u8>)
    ensures
        key@ == struct_key(),
{
    let mut key: Vec<u8> = Vec::new();
    key.push(95u8);
    key.push(95u8);
    key.push(115u8);
    key.push(116u8);
    key.push(114u8);
    key.push(117u8);
    key.push(99u8);
    key.push(116u8);
    key.push(95u8);
    key.push(95u8);
    proof {
        assert(key@ =~= struct_key());
    }
    key
}

/// The name of the atom that the host is shown for what is no variant.
pub fn invalid_variant_bytes() -> (name: Vec<u8>)
    ensures
        name@ == invalid_variant(),
{
    let mut name: Vec<u8> = Vec::new();
    name.push(105u8);
    name.push(110u8);
    name.push(118u8);
    name.push(97u8);
    name.push(108u8);
    name.push(105u8);
    name.push(100u8);
    name.push(95u8);
    name.push(118u8);
    name.push(97u8);
    name.push(114u8);
    name.push(105u8);
    name.push(97u8);
    name.push(110u8);
    name.push(116u8);
    proof {
        assert(name@ =~= invalid_variant());
    }
    name
}

/// How a type is transcoded that is known by its name alone: the integer
/// types, byte strings, atoms and process identifiers.
pub open spec fn leaf_shape_of(name: Seq<char>) -> Option<ShapeView> {
    if name == "u8"@ {
        Some(ShapeView::Int(IntKind::U8))
    } else if name == "u32"@ {
        Some(ShapeView::Int(IntKind::U32))
    } else if name == "i32"@ {
        Some(ShapeView::Int(IntKind::I32))
    } else if name == "i64"@ {
        Some(ShapeView::Int(IntKind::I64))
    } else if name == "Vec<u8>"@ || name == "String"@ {
        Some(ShapeView::Binary)
    } else if name == "Atom"@ {
        Some(ShapeView::Atom)
    } else if name == "NifPid"@ {
        Some(ShapeView::Pid)
    } else {
        None
    }
}

/// How the type named `name` is transcoded, if it is known by its name
/// alone.
pub fn leaf_shape(name: &str) -> (shape: Option<Shape>)
    ensures
        match leaf_shape_of(name@) {
            Some(view) => shape is Some && shape->Some_0@ == view,
            None => shape is None,
        },
{
    let name = String::from_str(name);
    if same_text(&name, "u8") {
        Some(Shape::Int(IntKind::U8))
    } else if same_text(&name, "u32") {
        Some(Shape::Int(IntKind::U32))
    } else if same_text(&name, "i32") {
        Some(Shape::Int(IntKind::I32))
    } else if same_text(&name, "i64") {
        Some(Shape::Int(IntKind::I64))
    } else if same_text(&name, "Vec<u8>") || same_text(&name, "String") {
        Some(Shape::Binary)
    } else if same_text(&name, "Atom") {
        Some(Shape::Atom)
    } else if same_text(&name, "NifPid") {
        Some(Shape::Pid)
    } else {
        None
    }
}

/// Whether `n` is a value of the integer type `kind`.
pub fn fits(kind: IntKind, n: i64) -> (within: bool)
    ensures
        within == (int_min(kind) <= n <= int_max(kind)),
{
    match kind {
        IntKind::U8 => 0 <= n && n <= 0xff,
        IntKind::U32 => 0 <= n && n <= 0xffff_ffff,
        IntKind::I32 => -0x8000_0000 <= n && n <= 0x7fff_ffff,
        IntKind::I64 => true,
    }
}

/// The first place at which `name` stands in `atoms`, if it stands there.
pub fn find_atom(atoms: &Vec<Vec<u8>>, name: &[u8]) -> (found: Option<usize>)
    ensures
        match position(atom_views(*atoms), name@) {
            Some(at) => found is Some && found->Some_0 == at && 0 <= at < atoms@.len(),
            None => found is None,
        },
{
    let mut k: usize = 0;
    while k < atoms.len()
        invariant
            k <= atoms.len(),
            forall|j: int| 0 <= j < k ==> (#[trigger] atoms@[j])@ != name@,
        decreases atoms.len() - k,
    {
        if same_bytes(atoms[k].as_slice(), name) {
            proof {
                lemma_position_first(atom_views(*atoms), name@, k as int);
            }
            return Some(k);
        }
        k += 1;
    }
    proof {
        lemma_position_none(atom_views(*atoms), name@);
    }
    None
}

/// A copy of a list of shapes.
pub fn copy_shapes(shapes: &Vec<Shape>) -> (copies: Vec<Shape>)
    ensures
        shape_views(copies) == shape_views(*shapes),
    decreases shapes, 0int,
{
    let mut copies: Vec<Shape> = Vec::new();
    let mut k: usize = 0;
    while k < shapes.len()
        invariant
            k <= shapes.len(),
            copies@.len() == k,
            forall|j: int| 0 <= j < k ==> shape_view(#[trigger] copies@[j]) == shape_view(shapes[j]),
        decreases shapes.len() - k,
    {
        copies.push(copy_shape(&shapes[k]));
        k += 1;
    }
    proof {
        assert(shape_views(copies) =~= shape_views(*shapes));
    }
    copies
}

/// A copy of the fields of a map shape.
fn copy_fields(fields: &Vec<MapField>) -> (copies: Vec<MapField>)
    ensures
        field_views(copies) == field_views(*fields),
    decreases fields, 0int,
{
    let mut copies: Vec<MapField> = Vec::new();
    let mut k: usize = 0;
    while k < fields.len()
        invariant
            k <= fields.len(),
            copies@.len() == k,
            forall|j: int|
                0 <= j < k ==> (#[trigger] copies@[j]).key@ == fields[j].key@ && shape_view(
                    copies@[j].shape,
                ) == shape_view(fields[j].shape),
        decreases fields.len() - k,
    {
        copies.push(
            MapField {
                key: copy_bytes(fields[k].key.as_slice()),
                shape: copy_shape(&fields[k].shape),
            },
        );
        k += 1;
    }
    proof {
        assert(field_views(copies) =~= field_views(*fields));
    }
    copies
}

/// A copy of a list of byte strings.
pub fn copy_names(names: &Vec<Vec<u8>>) -> (copies: Vec<Vec<u8>>)
    ensures
        atom_views(copies) == atom_views(*names),
{
    let mut copies: Vec<Vec<u8>> = Vec::new();
    let mut k: usize = 0;
    while k < names.len()
        invariant
            k <= names.len(),
            copies@.len() == k,
            forall|j: int| 0 <= j < k ==> (#[trigger] copies@[j])@ == names[j]@,
        decreases names.len() - k,
    {
        copies.push(copy_bytes(names[k].as_slice()));
        k += 1;
    }
    proof {
        assert(atom_views(copies) =~= atom_views(*names));
    }
    copies
}

/// A copy of `shape`: a shape of its own with the same view.
pub fn copy_shape(shape: &Shape) -> (copy: Shape)
    ensures
        copy@ == shape@,
    decreases shape, 1int,
{
    match shape {
        Shape::Int(kind) => Shape::Int(*kind),
        Shape::Binary => Shape::Binary,
        Shape::Atom => Shape::Atom,
        Shape::Pid => Shape::Pid,
        Shape::List(element) => Shape::List(Box::new(copy_shape(element))),
        Shape::Tuple(fields) => Shape::Tuple(copy_shapes(fields)),
        Shape::Record(tag, fields) => Shape::Record(
            copy_bytes(tag.as_slice()),
            copy_shapes(fields),
        ),
        Shape::Struct(module, fields) => {
            let copies = copy_fields(fields);
            let name = match module {
                Some(name) => Some(copy_bytes(name.as_slice())),
                None => None,
            };
            Shape::Struct(name, copies)
        },
        Shape::UnitEnum(atoms) => Shape::UnitEnum(copy_names(atoms)),
        Shape::Untagged(variants) => Shape::Untagged(copy_shapes(variants)),
    }
}

/// Whether `value` is a value of the native type that `shape` describes.
pub fn conforms(shape: &Shape, value: &Native) -> (admitted: bool)
    ensures
        admitted == admits(shape@, value@),
    decreases shape, 1int,
{
    match shape {
        Shape::Int(kind) => match value {
            Native::Int(n) => fits(*kind, *n),
            _ => false,
        },
        Shape::Binary => match value {
            Native::Binary(_) => true,
            _ => false,
        },
        Shape::Atom => match value {
            Native::Atom(_) => true,
            _ => false,
        },
        Shape::Pid => match value {
            Native::Pid(_) => true,
            _ => false,
        },
        Shape::List(element) => match value {
            Native::List(held) => {
                proof {
                    lemma_struct_view(*held);
                    assert(shape@ is List && *shape@->List_0 == element@);
                    assert(value@ is List && value@->List_0 == native_views(*held));
                }
                conform_elements(element, held)
            },
            _ => false,
        },
        Shape::Tuple(fields) => match value {
            Native::Struct(held) => {
                proof {
                    lemma_struct_view(*held);
                    lemma_shape_views(*fields);
                }
                conform_all(fields, held)
            },
            _ => false,
        },
        Shape::Record(_, fields) => match value {
            Native::Struct(held) => {
                proof {
                    lemma_struct_view(*held);
                    lemma_shape_views(*fields);
                }
                conform_all(fields, held)
            },
            _ => false,
        },
        Shape::Struct(module, fields) => match value {
            Native::Struct(held) => {
                proof {
                    lemma_struct_view(*held);
                    lemma_field_views(*fields);
                }
                conform_entries(fields, held)
            },
            _ => false,
        },
        Shape::UnitEnum(atoms) => match value {
            Native::Unit(index) => *index < atoms.len(),
            _ => false,
        },
        Shape::Untagged(variants) => match value {
            Native::Variant(index, held) => {
                proof {
                    lemma_shape_views(*variants);
                }
                *index < variants.len() && conforms(&variants[*index], held)
            },
            _ => false,
        },
    }
}

/// Whether `held` are values of the fields of a map shape, one by one.
fn conform_entries(fields: &Vec<MapField>, held: &Vec<Native>) -> (admitted: bool)
    ensures
        admitted == (native_views(*held).len() == field_views(*fields).len() && forall|k: int|
            0 <= k < field_views(*fields).len() ==> admits(
                field_views(*fields)[k].1,
                #[trigger] native_views(*held)[k],
            )),
    decreases fields, 0int,
{
    if held.len() != fields.len() {
        return false;
    }
    let mut k: usize = 0;
    while k < fields.len()
        invariant
            k <= fields.len(),
            held@.len() == fields@.len(),
            forall|j: int|
                0 <= j < k ==> admits(
                    field_views(*fields)[j].1,
                    #[trigger] native_views(*held)[j],
                ),
        decreases fields.len() - k,
    {
        if !conforms(&fields[k].shape, &held[k]) {
            proof {
                assert(!admits(field_views(*fields)[k as int].1, native_views(*held)[k as int]));
            }
            return false;
        }
        k += 1;
    }
    true
}

/// Whether each of `held` is a value of the shape `element`.
fn conform_elements(element: &Shape, held: &Vec<Native>) -> (admitted: bool)
    ensures
        admitted ==> forall|k: int|
            0 <= k < native_views(*held).len() ==> admits(
                element@,
                #[trigger] native_views(*held)[k],
            ),
        !admitted ==> exists|k: int|
            0 <= k < native_views(*held).len() && !admits(
                element@,
                #[trigger] native_views(*held)[k],
            ),
    decreases element, 2int,
{
    let mut k: usize = 0;
    while k < held.len()
        invariant
            k <= held.len(),
            forall|j: int| 0 <= j < k ==> admits(element@, #[trigger] native_views(*held)[j]),
        decreases held.len() - k,
    {
        if !conforms(element, &held[k]) {
            proof {
                assert(!admits(element@, native_views(*held)[k as int]));
            }
            return false;
        }
        k += 1;
    }
    true
}

/// Whether `held` are values of the shapes `fields`, one by one.
fn conform_all(fields: &Vec<Shape>, held: &Vec<Native>) -> (admitted: bool)
    ensures
        admitted == (native_views(*held).len() == shape_views(*fields).len() && forall|k: int|
            0 <= k < shape_views(*fields).len() ==> admits(
                shape_views(*fields)[k],
                #[trigger] native_views(*held)[k],
            )),
    decreases fields, 0int,
{
    if held.len() != fields.len() {
        return false;
    }
    let mut k: usize = 0;
    while k < fields.len()
        invariant
            k <= fields.len(),
            held@.len() == fields@.len(),
            forall|j: int|
                0 <= j < k ==> admits(shape_views(*fields)[j], #[trigger] native_views(*held)[j]),
        decreases fields.len() - k,
    {
        if !conforms(&fields[k], &held[k]) {
            proof {
                assert(!admits(shape_views(*fields)[k as int], native_views(*held)[k as int]));
            }
            return false;
        }
        k += 1;
    }
    true
}

/// Whether no two of `names` are the same.
pub fn all_distinct(names: &Vec<Vec<u8>>) -> (differ: bool)
    ensures
        differ == distinct(atom_views(*names)),
{
    let mut j: usize = 0;
    while j < names.len()
        invariant
            j <= names.len(),
            forall|a: int, b: int|
                0 <= a < b < j ==> (#[trigger] atom_views(*names)[a]) != (#[trigger] atom_views(
                    *names,
                )[b]),
        decreases names.len() - j,
    {
        let mut i: usize = 0;
        while i < j
            invariant
                i <= j,
                j < names.len(),
                forall|a: int| 0 <= a < i ==> (#[trigger] atom_views(*names)[a]) != atom_views(
                    *names,
                )[j as int],
            decreases j - i,
        {
            if same_bytes(names[i].as_slice(), names[j].as_slice()) {
                proof {
                    assert(atom_views(*names)[i as int] == atom_views(*names)[j as int]);
                }
                return false;
            }
            i += 1;
        }
        j += 1;
    }
    true
}

/// Whether each of `shapes` is well formed.
fn all_well_formed(shapes: &Vec<Shape>) -> (formed: bool)
    ensures
        formed ==> forall|k: int|
            0 <= k < shape_views(*shapes).len() ==> well_formed(#[trigger] shape_views(*shapes)[k]),
        !formed ==> exists|k: int|
            0 <= k < shape_views(*shapes).len() && !well_formed(#[trigger] shape_views(*shapes)[k]),
    decreases shapes, 0int,
{
    let mut k: usize = 0;
    while k < shapes.len()
        invariant
            k <= shapes.len(),
            forall|j: int| 0 <= j < k ==> well_formed(#[trigger] shape_views(*shapes)[j]),
        decreases shapes.len() - k,
    {
        if !is_well_formed(&shapes[k]) {
            proof {
                assert(!well_formed(shape_views(*shapes)[k as int]));
            }
            return false;
        }
        k += 1;
    }
    true
}

/// Whether the shape of each of `fields` is well formed.
fn fields_well_formed(fields: &Vec<MapField>) -> (formed: bool)
    ensures
        formed ==> forall|k: int|
            0 <= k < field_views(*fields).len() ==> well_formed(
                (#[trigger] field_views(*fields)[k]).1,
            ),
        !formed ==> exists|k: int|
            0 <= k < field_views(*fields).len() && !well_formed(
                (#[trigger] field_views(*fields)[k]).1,
            ),
    decreases fields, 0int,
{
    let mut k: usize = 0;
    while k < fields.len()
        invariant
            k <= fields.len(),
            forall|j: int| 0 <= j < k ==> well_formed((#[trigger] field_views(*fields)[j]).1),
        decreases fields.len() - k,
    {
        if !is_well_formed(&fields[k].shape) {
            proof {
                assert(!well_formed(field_views(*fields)[k as int].1));
            }
            return false;
        }
        k += 1;
    }
    true
}

/// Whether the keys of `fields` differ pairwise and, where `reserved` is
/// given, from it.
fn keys_differ(fields: &Vec<MapField>, reserved: Option<&Vec<u8>>) -> (differ: bool)
    ensures
        differ ==> distinct_keys(field_views(*fields)),
        differ && reserved is Some ==> forall|k: int|
            0 <= k < field_views(*fields).len() ==> (#[trigger] field_views(*fields)[k]).0
                != reserved->Some_0@,
        !differ ==> {
            ||| exists|i: int, j: int|
                0 <= i < j < field_views(*fields).len() && (#[trigger] field_views(*fields)[i]).0
                    == (#[trigger] field_views(*fields)[j]).0
            ||| reserved is Some && exists|k: int|
                0 <= k < field_views(*fields).len() && (#[trigger] field_views(*fields)[k]).0
                    == reserved->Some_0@
        },
{
    let mut j: usize = 0;
    while j < fields.len()
        invariant
            j <= fields.len(),
            forall|a: int, b: int|
                0 <= a < b < j ==> (#[trigger] field_views(*fields)[a]).0 != (
                #[trigger] field_views(*fields)[b]).0,
            reserved is Some ==> forall|k: int|
                0 <= k < j ==> (#[trigger] field_views(*fields)[k]).0 != reserved->Some_0@,
        decreases fields.len() - j,
    {
        if let Some(name) = reserved {
            if same_bytes(fields[j].key.as_slice(), name.as_slice()) {
                proof {
                    assert(field_views(*fields)[j as int].0 == reserved->Some_0@);
                }
                return false;
            }
        }
        let mut i: usize = 0;
        while i < j
            invariant
                i <= j,
                j < fields.len(),
                forall|a: int|
                    0 <= a < i ==> (#[trigger] field_views(*fields)[a]).0 != field_views(
                        *fields,
                    )[j as int].0,
            decreases j - i,
        {
            if same_bytes(fields[i].key.as_slice(), fields[j].key.as_slice()) {
                proof {
                    assert(field_views(*fields)[i as int].0 == field_views(*fields)[j as int].0);
                }
                return false;
            }
            i += 1;
        }
        j += 1;
    }
    true
}

/// Whether `shape` can be told apart on the host's side: throughout it, the
/// variants of a unit enumeration have different atoms, the fields of a
/// struct have different keys, and none of them is the key of the module
/// name where the struct has one.
pub fn is_well_formed(shape: &Shape) -> (formed: bool)
    ensures
        formed == well_formed(shape@),
    decreases shape, 1int,
{
    match shape {
        Shape::Int(_) => true,
        Shape::Binary => true,
        Shape::Atom => true,
        Shape::Pid => true,
        Shape::List(element) => is_well_formed(element),
        Shape::Tuple(fields) => {
            let formed = all_well_formed(fields);
            proof {
                assert(shape@ is Tuple && shape@->Tuple_0 == shape_views(*fields));
            }
            formed
        },
        Shape::Record(tag, fields) => {
            let formed = all_well_formed(fields);
            proof {
                assert(shape@ is Record && shape@->Record_1 == shape_views(*fields));
            }
            formed
        },
        Shape::Struct(module, fields) => {
            let differ = match module {
                Some(_) => {
                    let reserved = struct_key_bytes();
                    keys_differ(fields, Some(&reserved))
                },
                None => keys_differ(fields, None),
            };
            let formed = differ && fields_well_formed(fields);
            proof {
                assert(shape@ is Struct && shape@->Struct_1 == field_views(*fields) && (
                shape@->Struct_0 is Some <==> module is Some));
            }
            formed
        },
        Shape::UnitEnum(atoms) => {
            let formed = all_distinct(atoms);
            proof {
                assert(shape@ is UnitEnum && shape@->UnitEnum_0 == atom_views(*atoms));
            }
            formed
        },
        Shape::Untagged(variants) => {
            let formed = all_well_formed(variants);
            proof {
                assert(shape@ is Untagged && shape@->Untagged_0 == shape_views(*variants));
            }
            formed
        },
    }
}

} // verus!
