//! What holds of the container protocols for every shape and every value.

use vstd::prelude::*;

use crate::codec::{
    admits, collect, decoding, element_decodings, element_encodings, encoding,
    invalid_variant, shown,
    entry_decodings, entry_encodings, field_decodings,
    field_encodings, first_ok, has_all_keys, lemma_collect_all_ok, lemma_first_ok_at,
    lemma_position_first, lemma_position_none, struct_key, unambiguous, variant_decodings,
    well_formed, NativeView, ShapeView,
};
use crate::context::RustlerAttr;
use crate::error::NifError;
use crate::transcoder::Transcoder;
use crate::wrapper::{map_of, Value};
use crate::wrapper::map::lemma_map_of_last;

verus! {

/// Round trip of the elements of a list.
proof fn lemma_elements_round_trip(element: ShapeView, held: Seq<NativeView>)
    requires
        well_formed(element),
        forall|k: int| 0 <= k < held.len() ==> admits(element, #[trigger] held[k]),
        forall|k: int| 0 <= k < held.len() ==> unambiguous(element, #[trigger] held[k]),
    ensures
        collect(element_decodings(element, element_encodings(element, held))) == Ok::<
            Seq<NativeView>,
            NifError,
        >(held),
    decreases element, 2int,
{
    let results = element_decodings(element, element_encodings(element, held));
    assert forall|k: int| 0 <= k < results.len() implies #[trigger] results[k] == Ok::<
        NativeView,
        NifError,
    >(held[k]) by {
        assert(admits(element, held[k]));
        assert(unambiguous(element, held[k]));
        lemma_round_trip(element, held[k]);
    }
    lemma_collect_all_ok(results, held);
}

/// Round trip of the fields of a tuple or of a record.
proof fn lemma_fields_round_trip(fields: Seq<ShapeView>, held: Seq<NativeView>)
    requires
        held.len() == fields.len(),
        forall|k: int| 0 <= k < fields.len() ==> well_formed(#[trigger] fields[k]),
        forall|k: int| 0 <= k < fields.len() ==> admits(fields[k], #[trigger] held[k]),
        forall|k: int| 0 <= k < fields.len() ==> unambiguous(fields[k], #[trigger] held[k]),
    ensures
        collect(field_decodings(fields, field_encodings(fields, held))) == Ok::<
            Seq<NativeView>,
            NifError,
        >(held),
    decreases fields, 0int,
{
    let results = field_decodings(fields, field_encodings(fields, held));
    assert forall|k: int| 0 <= k < results.len() implies #[trigger] results[k] == Ok::<
        NativeView,
        NifError,
    >(held[k]) by {
        assert(well_formed(fields[k]));
        assert(admits(fields[k], held[k]));
        assert(unambiguous(fields[k], held[k]));
        lemma_round_trip(fields[k], held[k]);
    }
    lemma_collect_all_ok(results, held);
}

/// Round trip of a struct that is transcoded as a map.
proof fn lemma_entries_round_trip(
    module: Option<Seq<u8>>,
    fields: Seq<(Seq<u8>, ShapeView)>,
    held: Seq<NativeView>,
)
    requires
        well_formed(ShapeView::Struct(module, fields)),
        admits(ShapeView::Struct(module, fields), NativeView::Struct(held)),
        unambiguous(ShapeView::Struct(module, fields), NativeView::Struct(held)),
    ensures
        decoding(
            ShapeView::Struct(module, fields),
            encoding(ShapeView::Struct(module, fields), NativeView::Struct(held)),
        ) == Ok::<NativeView, NifError>(NativeView::Struct(held)),
    decreases fields, 0int,
{
    let head = match module {
        Some(name) => seq![(struct_key(), Value::Atom(name))],
        None => Seq::empty(),
    };
    let entries = entry_encodings(fields, held);
    let all = head + entries;
    let map = map_of(all);
    assert forall|k: int| 0 <= k < fields.len() implies map.dom().contains(
        #[trigger] fields[k].0,
    ) && map[fields[k].0] == encoding(fields[k].1, held[k]) by {
        assert(all[head.len() + k] == entries[k]);
        assert forall|j: int| head.len() + k < j < all.len() implies all[j].0
            != fields[k].0 by {
            assert(all[j] == entries[j - head.len()]);
            assert(fields[k].0 != fields[j - head.len()].0);
        }
        lemma_map_of_last(all, head.len() + k, fields[k].0);
    }
    if module is Some {
        assert forall|j: int| 0 < j < all.len() implies all[j].0 != struct_key() by {
            assert(all[j] == entries[j - 1]);
            assert(fields[j - 1].0 != struct_key());
        }
        lemma_map_of_last(all, 0, struct_key());
    }
    let results = entry_decodings(fields, map);
    assert forall|k: int| 0 <= k < results.len() implies #[trigger] results[k] == Ok::<
        NativeView,
        NifError,
    >(held[k]) by {
        assert(well_formed(fields[k].1));
        assert(admits(fields[k].1, held[k]));
        assert(unambiguous(fields[k].1, held[k]));
        lemma_round_trip(fields[k].1, held[k]);
    }
    lemma_collect_all_ok(results, held);
}

/// Round trip: a value that is encoded and then decoded is the value again.
///
/// This holds of every value of a well-formed shape that can be told from
/// its term. It cannot hold of a variant of an untagged sum whose term an
/// earlier variant decodes as well: the decoder takes the earlier one.
pub proof fn lemma_round_trip(shape: ShapeView, value: NativeView)
    requires
        well_formed(shape),
        admits(shape, value),
        unambiguous(shape, value),
    ensures
        decoding(shape, encoding(shape, value)) == Ok::<NativeView, NifError>(value),
    decreases shape, 1int,
{
    match shape {
        ShapeView::Int(_) => {},
        ShapeView::Binary => {},
        ShapeView::Atom => {},
        ShapeView::Pid => {},
        ShapeView::List(element) => {
            lemma_elements_round_trip(*element, value->List_0);
        },
        ShapeView::Tuple(fields) => {
            lemma_fields_round_trip(fields, value->Struct_0);
        },
        ShapeView::Record(tag, fields) => {
            let held = value->Struct_0;
            let elements = seq![Value::Atom(tag)] + field_encodings(fields, held);
            assert(elements.drop_first() =~= field_encodings(fields, held));
            lemma_fields_round_trip(fields, held);
        },
        ShapeView::Struct(module, fields) => {
            lemma_entries_round_trip(module, fields, value->Struct_0);
        },
        ShapeView::UnitEnum(atoms) => {
            let index = value->Unit_0;
            assert forall|k: int| 0 <= k < index implies #[trigger] atoms[k]
                != atoms[index] by {}
            lemma_position_first(atoms, atoms[index], index);
        },
        ShapeView::Untagged(variants) => {
            let index = value->Variant_0;
            let held = *value->Variant_1;
            let term = encoding(variants[index], held);
            let tried = variant_decodings(variants, term);
            assert(well_formed(variants[index]));
            lemma_round_trip(variants[index], held);
            assert forall|j: int| 0 <= j < index implies #[trigger] tried[j] is Err by {
                assert(decoding(variants[j], encoding(variants[index], held)) is Err);
            }
            lemma_first_ok_at(tried, index);
        },
    }
}

/// Round trip of what is generated: where a declaration is given both a
/// decoder and an encoder, the decoder reads off what the encoder made the
/// value that was encoded.
///
/// As `lemma_round_trip`, this holds of every value of the declared type
/// that can be told from its term, where the shape is well formed.
pub proof fn lemma_generated_round_trip(
    generated: Transcoder,
    attrs: Seq<RustlerAttr>,
    ident: String,
    has_lifetime: bool,
    shape: ShapeView,
    value: NativeView,
)
    requires
        generated.made_with(attrs, ident, has_lifetime, shape),
        generated.decoder is Some,
        generated.encoder is Some,
        well_formed(shape),
        admits(shape, value),
        unambiguous(shape, value),
    ensures
        decoding(
            generated.decoder->Some_0.shape@,
            encoding(generated.encoder->Some_0.shape@, value),
        ) == Ok::<NativeView, NifError>(value),
{
    lemma_round_trip(shape, value);
}

/// Arity: a tuple with fewer or more elements than the struct has fields
/// never decodes; the failure is `ArityMismatch`.
pub proof fn lemma_tuple_arity(fields: Seq<ShapeView>, elements: Seq<Value>)
    requires
        elements.len() != fields.len(),
    ensures
        decoding(ShapeView::Tuple(fields), Value::Tuple(elements)) == Err::<NativeView, NifError>(
            NifError::ArityMismatch,
        ),
{
}

/// Tag: a tuple whose first element is not the declared tag, or that has no
/// element at all, never decodes as the record; the failure is `TagMismatch`.
pub proof fn lemma_record_tag(tag: Seq<u8>, fields: Seq<ShapeView>, elements: Seq<Value>)
    requires
        elements.len() == 0 || elements[0] != Value::Atom(tag),
    ensures
        decoding(ShapeView::Record(tag, fields), Value::Tuple(elements)) == Err::<
            NativeView,
            NifError,
        >(NifError::TagMismatch),
{
}

/// Arity of a record: a tuple that begins with the declared tag and then
/// has fewer or more elements than the struct has fields never decodes; the
/// failure is `ArityMismatch`.
pub proof fn lemma_record_arity(tag: Seq<u8>, fields: Seq<ShapeView>, elements: Seq<Value>)
    requires
        elements.len() > 0,
        elements[0] == Value::Atom(tag),
        elements.len() != fields.len() + 1,
    ensures
        decoding(ShapeView::Record(tag, fields), Value::Tuple(elements)) == Err::<
            NativeView,
            NifError,
        >(NifError::ArityMismatch),
{
}

/// Missing key: a map that lacks the key of a declared field never decodes
/// as the struct; the failure is `MissingField`.
pub proof fn lemma_missing_key(
    module: Option<Seq<u8>>,
    fields: Seq<(Seq<u8>, ShapeView)>,
    map: Map<Seq<u8>, Value>,
    k: int,
)
    requires
        0 <= k < fields.len(),
        !map.dom().contains(fields[k].0),
    ensures
        decoding(ShapeView::Struct(module, fields), Value::Mapping(map)) == Err::<
            NativeView,
            NifError,
        >(NifError::MissingField),
{
}

/// Unknown keys are ignored: a map decodes as a struct to what it decodes
/// to without a key that the struct does not declare.
pub proof fn lemma_extra_key_ignored(
    module: Option<Seq<u8>>,
    fields: Seq<(Seq<u8>, ShapeView)>,
    map: Map<Seq<u8>, Value>,
    key: Seq<u8>,
    extra: Value,
)
    requires
        forall|k: int| 0 <= k < fields.len() ==> (#[trigger] fields[k]).0 != key,
        module is Some ==> key != struct_key(),
    ensures
        decoding(ShapeView::Struct(module, fields), Value::Mapping(map.insert(key, extra)))
            == decoding(ShapeView::Struct(module, fields), Value::Mapping(map)),
{
    let more = map.insert(key, extra);
    assert(has_all_keys(fields, more) == has_all_keys(fields, map)) by {
        if has_all_keys(fields, map) {
            assert forall|k: int| 0 <= k < fields.len() implies more.dom().contains(
                #[trigger] fields[k].0,
            ) by {
                assert(map.dom().contains(fields[k].0));
            }
        }
        if has_all_keys(fields, more) {
            assert forall|k: int| 0 <= k < fields.len() implies map.dom().contains(
                #[trigger] fields[k].0,
            ) by {
                assert(more.dom().contains(fields[k].0));
                assert(fields[k].0 != key);
            }
        }
    }
    assert forall|k: int| 0 <= k < fields.len() implies #[trigger] entry_decodings(
        fields,
        more,
    )[k] == entry_decodings(fields, map)[k] by {
        assert(fields[k].0 != key);
    }
    assert(entry_decodings(fields, more) =~= entry_decodings(fields, map));
}

/// The variants of a unit enumeration are encoded as atoms that differ
/// pairwise.
pub proof fn lemma_unit_atoms_differ(atoms: Seq<Seq<u8>>, i: int, j: int)
    requires
        well_formed(ShapeView::UnitEnum(atoms)),
        0 <= i < atoms.len(),
        0 <= j < atoms.len(),
        i != j,
    ensures
        encoding(ShapeView::UnitEnum(atoms), NativeView::Unit(i)) != encoding(
            ShapeView::UnitEnum(atoms),
            NativeView::Unit(j),
        ),
{
    if i < j {
        assert(atoms[i] != atoms[j]);
    } else {
        assert(atoms[j] != atoms[i]);
    }
}

/// An atom that names no variant of a unit enumeration decodes to
/// `Unrecognized`; it is no failure.
pub proof fn lemma_unknown_atom(atoms: Seq<Seq<u8>>, name: Seq<u8>)
    requires
        forall|k: int| 0 <= k < atoms.len() ==> #[trigger] atoms[k] != name,
    ensures
        decoding(ShapeView::UnitEnum(atoms), Value::Atom(name)) == Ok::<NativeView, NifError>(
            NativeView::Unrecognized,
        ),
{
    lemma_position_none(atoms, name);
}

/// The echo of an atom that names no variant of a unit enumeration: what it
/// decodes to is shown to the host as the atom `invalid_variant`.
pub proof fn lemma_unknown_atom_shown(atoms: Seq<Seq<u8>>, name: Seq<u8>)
    requires
        forall|k: int| 0 <= k < atoms.len() ==> #[trigger] atoms[k] != name,
    ensures
        decoding(ShapeView::UnitEnum(atoms), Value::Atom(name)) is Ok,
        shown(
            ShapeView::UnitEnum(atoms),
            decoding(ShapeView::UnitEnum(atoms), Value::Atom(name))->Ok_0,
        ) == Value::Atom(invalid_variant()),
{
    lemma_position_none(atoms, name);
}

/// The first `Ok` among results is an `Ok` with none before it.
pub proof fn lemma_first_ok_is_first(results: Seq<Result<NativeView, NifError>>)
    ensures
        match first_ok(results) {
            Some(at) => 0 <= at < results.len() && results[at] is Ok && forall|j: int|
                0 <= j < at ==> #[trigger] results[j] is Err,
            None => forall|j: int| 0 <= j < results.len() ==> #[trigger] results[j] is Err,
        },
    decreases results.len(),
{
    if results.len() > 0 {
        lemma_first_ok_is_first(results.drop_last());
        let front = results.drop_last();
        match first_ok(front) {
            Some(at) => {
                assert(results[at] == front[at]);
                assert forall|j: int| 0 <= j < at implies #[trigger] results[j] is Err by {
                    assert(results[j] == front[j]);
                }
            },
            None => {
                assert forall|j: int| 0 <= j < results.len() - 1 implies #[trigger] results[j]
                    is Err by {
                    assert(results[j] == front[j]);
                }
            },
        }
    }
}

/// Order dependence: an untagged sum decodes a value as the first variant,
/// in declaration order, that decodes it; every earlier variant fails on
/// it. Where no variant decodes the value the failure is
/// `NoMatchingVariant`.
pub proof fn lemma_untagged_takes_first(variants: Seq<ShapeView>, value: Value)
    ensures
        match decoding(ShapeView::Untagged(variants), value) {
            Ok(decoded) => {
                &&& decoded is Variant
                &&& 0 <= decoded->Variant_0 < variants.len()
                &&& decoding(variants[decoded->Variant_0], value) == Ok::<NativeView, NifError>(
                    *decoded->Variant_1,
                )
                &&& forall|j: int|
                    0 <= j < decoded->Variant_0 ==> #[trigger] decoding(variants[j], value)
                        is Err
            },
            Err(e) => {
                &&& e == NifError::NoMatchingVariant
                &&& forall|j: int|
                    0 <= j < variants.len() ==> #[trigger] decoding(variants[j], value) is Err
            },
        },
{
    let tried = variant_decodings(variants, value);
    lemma_first_ok_is_first(tried);
    match first_ok(tried) {
        Some(at) => {
            assert forall|j: int| 0 <= j < at implies #[trigger] decoding(variants[j], value)
                is Err by {
                assert(tried[j] is Err);
            }
        },
        None => {
            assert forall|j: int| 0 <= j < variants.len() implies #[trigger] decoding(
                variants[j],
                value,
            ) is Err by {
                assert(tried[j] is Err);
            }
        },
    }
}

/// Where two variants of an untagged sum both decode a value, the sum
/// decodes it as a variant that is not later than either.
pub proof fn lemma_untagged_tie_break(variants: Seq<ShapeView>, value: Value, i: int)
    requires
        0 <= i < variants.len(),
        decoding(variants[i], value) is Ok,
    ensures
        decoding(ShapeView::Untagged(variants), value) is Ok,
        decoding(ShapeView::Untagged(variants), value)->Ok_0 is Variant,
        decoding(ShapeView::Untagged(variants), value)->Ok_0->Variant_0 <= i,
{
    lemma_untagged_takes_first(variants, value);
}

} // verus!
