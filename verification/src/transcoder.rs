//! The transcoding engine: one encoder and one decoder that work for every
//! shape, and what is generated for a declared type.

use vstd::pervasive::unreached;
use vstd::prelude::*;

use crate::ast::DeriveInput;
use crate::codec::{
    admits, collect, decoding, element_decodings, element_encodings, encoding,
    entry_decodings, entry_encodings, field_decodings, field_encodings, field_views,
    has_all_keys, lemma_collect_error, lemma_field_views, lemma_first_ok_at,
    lemma_first_ok_none, lemma_shape_views, lemma_struct_view, module_view, native_view,
    native_views, shape_view, shape_views, shown, struct_key, variant_decodings, MapField,
    Native, NativeView, Shape, ShapeView,
};
use crate::context::{has_decode, has_encode, wanted_attrs, RustlerAttr};
use crate::error::NifError;
use crate::shape::{conforms, find_atom, fits, invalid_variant_bytes, struct_key_bytes};
use crate::types::{NifDecoder, NifEncoder, NifEnv, NifTerm};
use crate::types::atom::{atom_name, make_atom};
use crate::types::binary::{get_binary, make_binary};
use crate::types::integer::{get_int, make_int};
use crate::types::list::{get_list, make_list};
use crate::types::map::{entries_of, is_map, map_from_arrays, map_get};
use crate::types::pid::{lemma_pid_decoding, lemma_pid_encoding, NifPid};
use crate::types::tuple::{get_tuple, make_tuple};
use crate::wrapper::{copy_bytes, Value};
use crate::wrapper::map::same_bytes;

verus! {

/// Makes the terms of the elements of a list, in order.
fn encode_elements(element: &Shape, held: &Vec<Native>, env: &mut NifEnv) -> (terms: Vec<
    NifTerm,
>)
    requires
        old(env).alive(),
        forall|k: int|
            0 <= k < held@.len() ==> admits(element@, #[trigger] native_views(*held)[k]),
    ensures
        final(env).extends(old(env)),
        final(env).alive(),
        final(env).owns_all(terms@),
        final(env).values(terms@) == element_encodings(element@, native_views(*held)),
    decreases element, 2int,
{
    let mut terms: Vec<NifTerm> = Vec::new();
    let mut k: usize = 0;
    while k < held.len()
        invariant
            k <= held.len(),
            env.alive(),
            env.extends(old(env)),
            terms@.len() == k,
            forall|j: int|
                0 <= j < held@.len() ==> admits(element@, #[trigger] native_views(*held)[j]),
            forall|j: int|
                0 <= j < k ==> env.owns(#[trigger] terms@[j]) && env.value(terms@[j]) == encoding(
                    element@,
                    native_view(held[j]),
                ),
        decreases held.len() - k,
    {
        proof {
            assert(admits(element@, native_views(*held)[k as int]));
        }
        let term = encode(element, &held[k], env);
        terms.push(term);
        k += 1;
    }
    proof {
        assert(env.values(terms@) =~= element_encodings(element@, native_views(*held)));
    }
    terms
}

/// Makes the terms of the fields of a struct, in declaration order.
fn encode_fields(fields: &Vec<Shape>, held: &Vec<Native>, env: &mut NifEnv) -> (terms: Vec<
    NifTerm,
>)
    requires
        old(env).alive(),
        held@.len() == fields@.len(),
        forall|k: int|
            0 <= k < fields@.len() ==> admits(
                shape_views(*fields)[k],
                #[trigger] native_views(*held)[k],
            ),
    ensures
        final(env).extends(old(env)),
        final(env).alive(),
        final(env).owns_all(terms@),
        final(env).values(terms@) == field_encodings(shape_views(*fields), native_views(*held)),
    decreases fields, 0int,
{
    let mut terms: Vec<NifTerm> = Vec::new();
    let mut k: usize = 0;
    while k < fields.len()
        invariant
            k <= fields.len(),
            held@.len() == fields@.len(),
            env.alive(),
            env.extends(old(env)),
            terms@.len() == k,
            forall|j: int|
                0 <= j < fields@.len() ==> admits(
                    shape_views(*fields)[j],
                    #[trigger] native_views(*held)[j],
                ),
            forall|j: int|
                0 <= j < k ==> env.owns(#[trigger] terms@[j]) && env.value(terms@[j]) == encoding(
                    shape_view(fields[j]),
                    native_view(held[j]),
                ),
        decreases fields.len() - k,
    {
        proof {
            assert(admits(shape_views(*fields)[k as int], native_views(*held)[k as int]));
        }
        let term = encode(&fields[k], &held[k], env);
        terms.push(term);
        k += 1;
    }
    proof {
        assert(env.values(terms@) =~= field_encodings(
            shape_views(*fields),
            native_views(*held),
        ));
    }
    terms
}

/// Makes the keys and the terms of the fields of a struct that is
/// transcoded as a map, in declaration order.
fn encode_entries(fields: &Vec<MapField>, held: &Vec<Native>, env: &mut NifEnv) -> (made: (
    Vec<Vec<u8>>,
    Vec<NifTerm>,
))
    requires
        old(env).alive(),
        held@.len() == fields@.len(),
        forall|k: int|
            0 <= k < fields@.len() ==> admits(
                field_views(*fields)[k].1,
                #[trigger] native_views(*held)[k],
            ),
    ensures
        final(env).extends(old(env)),
        final(env).alive(),
        final(env).owns_all(made.1@),
        made.0@.len() == made.1@.len(),
        entries_of(final(env), made.0@, made.1@) == entry_encodings(
            field_views(*fields),
            native_views(*held),
        ),
    decreases fields, 0int,
{
    let mut keys: Vec<Vec<u8>> = Vec::new();
    let mut terms: Vec<NifTerm> = Vec::new();
    let mut k: usize = 0;
    while k < fields.len()
        invariant
            k <= fields.len(),
            held@.len() == fields@.len(),
            env.alive(),
            env.extends(old(env)),
            terms@.len() == k,
            keys@.len() == k,
            forall|j: int|
                0 <= j < fields@.len() ==> admits(
                    field_views(*fields)[j].1,
                    #[trigger] native_views(*held)[j],
                ),
            forall|j: int|
                0 <= j < k ==> env.owns(#[trigger] terms@[j]) && env.value(terms@[j]) == encoding(
                    shape_view(fields[j].shape),
                    native_view(held[j]),
                ),
            forall|j: int| 0 <= j < k ==> (#[trigger] keys@[j])@ == fields[j].key@,
        decreases fields.len() - k,
    {
        proof {
            assert(admits(field_views(*fields)[k as int].1, native_views(*held)[k as int]));
        }
        let term = encode(&fields[k].shape, &held[k], env);
        terms.push(term);
        keys.push(copy_bytes(fields[k].key.as_slice()));
        k += 1;
    }
    proof {
        assert(entries_of(env, keys@, terms@) =~= entry_encodings(
            field_views(*fields),
            native_views(*held),
        ));
    }
    (keys, terms)
}

/// Makes the term that stands for `value`, a value of the native type that
/// `shape` describes, in the heap of `env`.
pub fn encode(shape: &Shape, value: &Native, env: &mut NifEnv) -> (term: NifTerm)
    requires
        old(env).alive(),
        admits(shape@, value@),
    ensures
        final(env).owns(term),
        final(env).value(term) == encoding(shape@, value@),
        final(env).extends(old(env)),
    decreases shape, 1int,
{
    match shape {
        Shape::Int(_) => match value {
            Native::Int(n) => make_int(env, *n),
            _ => unreached(),
        },
        Shape::Binary => match value {
            Native::Binary(bytes) => make_binary(env, bytes.as_slice()),
            _ => unreached(),
        },
        Shape::Atom => match value {
            Native::Atom(name) => make_atom(env, name.as_slice()),
            _ => unreached(),
        },
        Shape::List(element) => match value {
            Native::List(held) => {
                proof {
                    lemma_struct_view(*held);
                }
                let terms = encode_elements(element, held, env);
                make_list(env, terms.as_slice())
            },
            _ => unreached(),
        },
        Shape::Pid => match value {
            Native::Pid(pid) => {
                let pid = NifPid::new(*pid);
                proof {
                    lemma_pid_encoding(pid);
                }
                pid.encode(env)
            },
            _ => unreached(),
        },
        Shape::Tuple(fields) => match value {
            Native::Struct(held) => {
                proof {
                    lemma_struct_view(*held);
                    lemma_shape_views(*fields);
                }
                let terms = encode_fields(fields, held, env);
                make_tuple(env, terms.as_slice())
            },
            _ => unreached(),
        },
        Shape::Record(tag, fields) => match value {
            Native::Struct(held) => {
                proof {
                    lemma_struct_view(*held);
                    lemma_shape_views(*fields);
                }
                let mut terms = encode_fields(fields, held, env);
                let ghost encoded = env.values(terms@);
                let atom = make_atom(env, tag.as_slice());
                terms.insert(0, atom);
                proof {
                    assert(env.values(terms@) =~= seq![Value::Atom(tag@)] + encoded);
                }
                make_tuple(env, terms.as_slice())
            },
            _ => unreached(),
        },
        Shape::Struct(module, fields) => match value {
            Native::Struct(held) => {
                proof {
                    lemma_struct_view(*held);
                    lemma_field_views(*fields);
                }
                let (mut keys, mut terms) = encode_entries(fields, held, env);
                let ghost encoded = entries_of(env, keys@, terms@);
                match module {
                    Some(name) => {
                        let atom = make_atom(env, name.as_slice());
                        keys.insert(0, struct_key_bytes());
                        terms.insert(0, atom);
                        proof {
                            assert(entries_of(env, keys@, terms@) =~= seq![
                                (struct_key(), Value::Atom(name@)),
                            ] + encoded);
                        }
                    },
                    None => {
                        proof {
                            assert(entries_of(env, keys@, terms@) =~= Seq::empty() + encoded);
                        }
                    },
                }
                match map_from_arrays(env, keys.as_slice(), terms.as_slice()) {
                    Ok(term) => term,
                    Err(_) => unreached(),
                }
            },
            _ => unreached(),
        },
        Shape::UnitEnum(atoms) => match value {
            Native::Unit(index) => make_atom(env, atoms[*index].as_slice()),
            _ => unreached(),
        },
        Shape::Untagged(variants) => match value {
            Native::Variant(index, held) => {
                proof {
                    lemma_shape_views(*variants);
                }
                encode(&variants[*index], held, env)
            },
            _ => unreached(),
        },
    }
}

/// Decodes the elements of a list, in order, up to the first that fails.
/// Makes the term that the host is shown for `value`, which a decoder of
/// `shape` gave or which is a value of `shape`: for what is no variant the
/// atom `invalid_variant`, and else the term that stands for the value.
pub fn encode_outcome(shape: &Shape, value: &Native, env: &mut NifEnv) -> (term: NifTerm)
    requires
        old(env).alive(),
        value@ is Unrecognized || admits(shape@, value@),
    ensures
        final(env).owns(term),
        final(env).value(term) == shown(shape@, value@),
        final(env).extends(old(env)),
{
    match value {
        Native::Unrecognized => {
            let name = invalid_variant_bytes();
            make_atom(env, name.as_slice())
        },
        _ => encode(shape, value, env),
    }
}

fn decode_elements(element: &Shape, env: &NifEnv, parts: &Vec<NifTerm>) -> (held: Result<
    Vec<Native>,
    NifError,
>)
    requires
        env.owns_all(parts@),
    ensures
        match collect(element_decodings(element@, env.values(parts@))) {
            Ok(values) => held is Ok && native_views(held->Ok_0) == values,
            Err(e) => held == Err::<Vec<Native>, NifError>(e),
        },
    decreases element, 2int,
{
    let ghost results = element_decodings(element@, env.values(parts@));
    let mut held: Vec<Native> = Vec::new();
    let mut k: usize = 0;
    proof {
        assert(results.take(0) =~= Seq::empty());
        assert(native_views(held) =~= Seq::empty());
    }
    while k < parts.len()
        invariant
            k <= parts.len(),
            env.owns_all(parts@),
            results == element_decodings(element@, env.values(parts@)),
            collect(results.take(k as int)) == Ok::<Seq<NativeView>, NifError>(
                native_views(held),
            ),
        decreases parts.len() - k,
    {
        proof {
            assert(results.take(k + 1).drop_last() =~= results.take(k as int));
            assert(env.owns(parts@[k as int]));
        }
        let ghost before = held;
        match decode(element, env, parts[k]) {
            Err(e) => {
                proof {
                    lemma_collect_error(results, k + 1);
                }
                return Err(e);
            },
            Ok(value) => {
                held.push(value);
                proof {
                    assert(native_views(held) =~= native_views(before).push(native_view(value)));
                }
            },
        }
        k += 1;
    }
    proof {
        assert(results.take(k as int) =~= results);
    }
    Ok(held)
}

/// Decodes the fields of a struct off `parts`, leaving out the first
/// `skip` of them, in declaration order, up to the first that fails.
fn decode_fields(fields: &Vec<Shape>, env: &NifEnv, parts: &Vec<NifTerm>, skip: usize) -> (held:
    Result<Vec<Native>, NifError>)
    requires
        env.owns_all(parts@),
        parts@.len() == fields@.len() + skip,
    ensures
        match collect(
            field_decodings(shape_views(*fields), env.values(parts@).skip(skip as int)),
        ) {
            Ok(values) => held is Ok && native_views(held->Ok_0) == values,
            Err(e) => held == Err::<Vec<Native>, NifError>(e),
        },
    decreases fields, 0int,
{
    let ghost results = field_decodings(
        shape_views(*fields),
        env.values(parts@).skip(skip as int),
    );
    let mut held: Vec<Native> = Vec::new();
    let mut k: usize = 0;
    let total: usize = parts.len();
    proof {
        assert(results.take(0) =~= Seq::empty());
        assert(native_views(held) =~= Seq::empty());
    }
    while k < fields.len()
        invariant
            k <= fields.len(),
            env.owns_all(parts@),
            total == parts@.len(),
            parts@.len() == fields@.len() + skip,
            results == field_decodings(
                shape_views(*fields),
                env.values(parts@).skip(skip as int),
            ),
            collect(results.take(k as int)) == Ok::<Seq<NativeView>, NifError>(
                native_views(held),
            ),
        decreases fields.len() - k,
    {
        proof {
            assert(results.take(k + 1).drop_last() =~= results.take(k as int));
            assert(env.owns(parts@[k + skip]));
        }
        let ghost before = held;
        match decode(&fields[k], env, parts[k + skip]) {
            Err(e) => {
                proof {
                    lemma_collect_error(results, k + 1);
                }
                return Err(e);
            },
            Ok(value) => {
                held.push(value);
                proof {
                    assert(native_views(held) =~= native_views(before).push(native_view(value)));
                }
            },
        }
        k += 1;
    }
    proof {
        assert(results.take(k as int) =~= results);
    }
    Ok(held)
}

/// Decodes the fields of a struct off the terms found under their keys,
/// in declaration order, up to the first that fails.
fn decode_entries(fields: &Vec<MapField>, env: &NifEnv, parts: &Vec<NifTerm>, Ghost(map): Ghost<
    Map<Seq<u8>, Value>,
>) -> (held: Result<Vec<Native>, NifError>)
    requires
        env.owns_all(parts@),
        parts@.len() == fields@.len(),
        forall|k: int|
            0 <= k < fields@.len() ==> env.value(#[trigger] parts@[k]) == map[fields[k].key@],
    ensures
        match collect(entry_decodings(field_views(*fields), map)) {
            Ok(values) => held is Ok && native_views(held->Ok_0) == values,
            Err(e) => held == Err::<Vec<Native>, NifError>(e),
        },
    decreases fields, 0int,
{
    let ghost results = entry_decodings(field_views(*fields), map);
    let mut held: Vec<Native> = Vec::new();
    let mut k: usize = 0;
    proof {
        assert(results.take(0) =~= Seq::empty());
        assert(native_views(held) =~= Seq::empty());
    }
    while k < fields.len()
        invariant
            k <= fields.len(),
            env.owns_all(parts@),
            parts@.len() == fields@.len(),
            forall|j: int|
                0 <= j < fields@.len() ==> env.value(#[trigger] parts@[j]) == map[fields[j].key@],
            results == entry_decodings(field_views(*fields), map),
            collect(results.take(k as int)) == Ok::<Seq<NativeView>, NifError>(
                native_views(held),
            ),
        decreases fields.len() - k,
    {
        proof {
            assert(results.take(k + 1).drop_last() =~= results.take(k as int));
            assert(env.owns(parts@[k as int]));
        }
        let ghost before = held;
        match decode(&fields[k].shape, env, parts[k]) {
            Err(e) => {
                proof {
                    lemma_collect_error(results, k + 1);
                }
                return Err(e);
            },
            Ok(value) => {
                held.push(value);
                proof {
                    assert(native_views(held) =~= native_views(before).push(native_view(value)));
                }
            },
        }
        k += 1;
    }
    proof {
        assert(results.take(k as int) =~= results);
    }
    Ok(held)
}

/// The terms under the keys of `fields` in the map that `term` refers to,
/// in declaration order, if the map has them all.
fn lookup_entries(fields: &Vec<MapField>, env: &NifEnv, term: NifTerm) -> (found: Option<
    Vec<NifTerm>,
>)
    requires
        env.owns(term),
        env.value(term) is Mapping,
    ensures
        found is Some <==> has_all_keys(field_views(*fields), env.value(term)->Mapping_0),
        found is Some ==> {
            &&& env.owns_all(found->Some_0@)
            &&& found->Some_0@.len() == fields@.len()
            &&& forall|k: int|
                0 <= k < fields@.len() ==> env.value(#[trigger] found->Some_0@[k]) == env.value(
                    term,
                )->Mapping_0[fields[k].key@]
        },
{
    let ghost map = env.value(term)->Mapping_0;
    let mut parts: Vec<NifTerm> = Vec::new();
    let mut k: usize = 0;
    while k < fields.len()
        invariant
            k <= fields.len(),
            env.owns(term),
            env.value(term) == Value::Mapping(map),
            parts@.len() == k,
            forall|j: int| 0 <= j < k ==> map.dom().contains(#[trigger] fields[j].key@),
            forall|j: int|
                0 <= j < k ==> env.owns(#[trigger] parts@[j]) && env.value(parts@[j])
                    == map[fields[j].key@],
        decreases fields.len() - k,
    {
        match map_get(env, term, fields[k].key.as_slice()) {
            Ok(Some(part)) => {
                parts.push(part);
            },
            _ => {
                proof {
                    assert(!map.dom().contains(field_views(*fields)[k as int].0));
                }
                return None;
            },
        }
        k += 1;
    }
    proof {
        assert forall|j: int| 0 <= j < fields@.len() implies map.dom().contains(
            (#[trigger] field_views(*fields)[j]).0,
        ) by {
            assert(map.dom().contains(fields[j].key@));
        }
    }
    Some(parts)
}

/// Reads a struct off a tuple of its fields.
fn decode_tuple(fields: &Vec<Shape>, env: &NifEnv, term: NifTerm) -> (decoded: Result<
    Native,
    NifError,
>)
    requires
        env.owns(term),
    ensures
        match decoding(ShapeView::Tuple(shape_views(*fields)), env.value(term)) {
            Ok(value) => decoded is Ok && decoded->Ok_0@ == value,
            Err(e) => decoded == Err::<Native, NifError>(e),
        },
    decreases fields, 1int,
{
    proof {
        lemma_shape_views(*fields);
    }
    match get_tuple(env, term) {
        Err(e) => Err(e),
        Ok(parts) => {
            if parts.len() != fields.len() {
                Err(NifError::ArityMismatch)
            } else {
                proof {
                    assert(env.values(parts@).skip(0) =~= env.values(parts@));
                }
                match decode_fields(fields, env, &parts, 0) {
                    Ok(held) => {
                        proof {
                            lemma_struct_view(held);
                        }
                        Ok(Native::Struct(held))
                    },
                    Err(e) => Err(e),
                }
            }
        },
    }
}

/// Reads a struct off a tuple that begins with its tag.
fn decode_record(tag: &Vec<u8>, fields: &Vec<Shape>, env: &NifEnv, term: NifTerm) -> (decoded:
    Result<Native, NifError>)
    requires
        env.owns(term),
    ensures
        match decoding(ShapeView::Record(tag@, shape_views(*fields)), env.value(term)) {
            Ok(value) => decoded is Ok && decoded->Ok_0@ == value,
            Err(e) => decoded == Err::<Native, NifError>(e),
        },
    decreases fields, 1int,
{
    proof {
        lemma_shape_views(*fields);
    }
    match get_tuple(env, term) {
        Err(e) => Err(e),
        Ok(parts) => {
            if parts.len() == 0 {
                return Err(NifError::TagMismatch);
            }
            proof {
                assert(env.owns(parts@[0]));
                assert(env.values(parts@)[0] == env.value(parts@[0]));
            }
            let tagged = match atom_name(env, parts[0]) {
                Ok(name) => same_bytes(name.as_slice(), tag.as_slice()),
                Err(_) => false,
            };
            if !tagged {
                Err(NifError::TagMismatch)
            } else if parts.len() - 1 != fields.len() {
                Err(NifError::ArityMismatch)
            } else {
                proof {
                    assert(env.values(parts@).skip(1) =~= env.values(parts@).drop_first());
                }
                match decode_fields(fields, env, &parts, 1) {
                    Ok(held) => {
                        proof {
                            lemma_struct_view(held);
                        }
                        Ok(Native::Struct(held))
                    },
                    Err(e) => Err(e),
                }
            }
        },
    }
}

/// Reads a struct off a map.
fn decode_struct(
    module: &Option<Vec<u8>>,
    fields: &Vec<MapField>,
    env: &NifEnv,
    term: NifTerm,
) -> (decoded: Result<Native, NifError>)
    requires
        env.owns(term),
    ensures
        match decoding(
            ShapeView::Struct(module_view(*module), field_views(*fields)),
            env.value(term),
        ) {
            Ok(value) => decoded is Ok && decoded->Ok_0@ == value,
            Err(e) => decoded == Err::<Native, NifError>(e),
        },
    decreases fields, 1int,
{
    proof {
        lemma_field_views(*fields);
    }
    if !is_map(env, term) {
        return Err(NifError::BadArg);
    }
    let ghost map = env.value(term)->Mapping_0;
    let named = match module {
        Some(_) => {
            let key = struct_key_bytes();
            match map_get(env, term, key.as_slice()) {
                Ok(Some(part)) => Some(part),
                _ => {
                    return Err(NifError::MissingField);
                },
            }
        },
        None => None,
    };
    let parts = match lookup_entries(fields, env, term) {
        Some(parts) => parts,
        None => {
            return Err(NifError::MissingField);
        },
    };
    match module {
        Some(name) => {
            let tagged = match named {
                Some(part) => match atom_name(env, part) {
                    Ok(held) => same_bytes(held.as_slice(), name.as_slice()),
                    Err(_) => false,
                },
                None => false,
            };
            if !tagged {
                return Err(NifError::TagMismatch);
            }
        },
        None => {},
    }
    match decode_entries(fields, env, &parts, Ghost(map)) {
        Ok(held) => {
            proof {
                lemma_struct_view(held);
            }
            Ok(Native::Struct(held))
        },
        Err(e) => Err(e),
    }
}

/// Reads a variant of an untagged sum: the first that decodes the term.
fn decode_untagged(variants: &Vec<Shape>, env: &NifEnv, term: NifTerm) -> (decoded: Result<
    Native,
    NifError,
>)
    requires
        env.owns(term),
    ensures
        match decoding(ShapeView::Untagged(shape_views(*variants)), env.value(term)) {
            Ok(value) => decoded is Ok && decoded->Ok_0@ == value,
            Err(e) => decoded == Err::<Native, NifError>(e),
        },
    decreases variants, 0int,
{
    let ghost tried = variant_decodings(shape_views(*variants), env.value(term));
    let mut k: usize = 0;
    while k < variants.len()
        invariant
            k <= variants.len(),
            env.owns(term),
            tried == variant_decodings(shape_views(*variants), env.value(term)),
            forall|j: int| 0 <= j < k ==> #[trigger] tried[j] is Err,
        decreases variants.len() - k,
    {
        match decode(&variants[k], env, term) {
            Ok(value) => {
                proof {
                    lemma_first_ok_at(tried, k as int);
                }
                return Ok(Native::Variant(k, Box::new(value)));
            },
            Err(_) => {},
        }
        k += 1;
    }
    proof {
        lemma_first_ok_none(tried);
    }
    Err(NifError::NoMatchingVariant)
}

/// Reads off `term` the value of the native type that `shape` describes.
pub fn decode(shape: &Shape, env: &NifEnv, term: NifTerm) -> (decoded: Result<Native, NifError>)
    requires
        env.owns(term),
    ensures
        match decoding(shape@, env.value(term)) {
            Ok(value) => decoded is Ok && decoded->Ok_0@ == value,
            Err(e) => decoded == Err::<Native, NifError>(e),
        },
    decreases shape, 1int,
{
    match shape {
        Shape::Int(kind) => match get_int(env, term) {
            Ok(n) => if fits(*kind, n) {
                Ok(Native::Int(n))
            } else {
                Err(NifError::BadArg)
            },
            Err(e) => Err(e),
        },
        Shape::Binary => match get_binary(env, term) {
            Ok(bytes) => Ok(Native::Binary(bytes)),
            Err(e) => Err(e),
        },
        Shape::Atom => match atom_name(env, term) {
            Ok(name) => Ok(Native::Atom(name)),
            Err(e) => Err(e),
        },
        Shape::Pid => {
            proof {
                lemma_pid_decoding(env.value(term));
            }
            match NifPid::decode(env, term) {
                Ok(pid) => Ok(Native::Pid(*pid.as_c_arg())),
                Err(e) => Err(e),
            }
        },
        Shape::List(element) => match get_list(env, term) {
            Err(e) => Err(e),
            Ok(parts) => match decode_elements(element, env, &parts) {
                Ok(held) => {
                    proof {
                        lemma_struct_view(held);
                    }
                    Ok(Native::List(held))
                },
                Err(e) => Err(e),
            },
        },
        Shape::Tuple(fields) => {
            proof {
                assert(shape@ == ShapeView::Tuple(shape_views(*fields)));
            }
            decode_tuple(fields, env, term)
        },
        Shape::Record(tag, fields) => {
            proof {
                assert(shape@ == ShapeView::Record(tag@, shape_views(*fields)));
            }
            decode_record(tag, fields, env, term)
        },
        Shape::Struct(module, fields) => {
            proof {
                assert(shape@ == ShapeView::Struct(module_view(*module), field_views(*fields)));
            }
            decode_struct(module, fields, env, term)
        },
        Shape::UnitEnum(atoms) => match atom_name(env, term) {
            Err(e) => Err(e),
            Ok(name) => match find_atom(atoms, name.as_slice()) {
                Some(index) => Ok(Native::Unit(index)),
                None => Ok(Native::Unrecognized),
            },
        },
        Shape::Untagged(variants) => {
            proof {
                assert(shape@ == ShapeView::Untagged(shape_views(*variants)));
            }
            decode_untagged(variants, env, term)
        },
    }
}

/// The decoder of one declared type.
#[derive(Debug)]
pub struct Decoder {
    /// The name of the type.
    pub ident: String,
    /// Whether the type has a lifetime parameter.
    pub has_lifetime: bool,
    /// How the values of the type are transcoded.
    pub shape: Shape,
}

/// The encoder of one declared type.
#[derive(Debug)]
pub struct Encoder {
    /// The name of the type.
    pub ident: String,
    /// Whether the type has a lifetime parameter.
    pub has_lifetime: bool,
    /// How the values of the type are transcoded.
    pub shape: Shape,
}

/// What is generated for one declared type: a decoder, an encoder, both or
/// neither.
#[derive(Debug)]
pub struct Transcoder {
    pub decoder: Option<Decoder>,
    pub encoder: Option<Encoder>,
}

impl Transcoder {
    /// Whether this holds a decoder and an encoder as far as `attrs` wants
    /// them, each for the type named `ident` and the shape `shape`.
    pub open spec fn made_with(
        &self,
        attrs: Seq<RustlerAttr>,
        ident: String,
        has_lifetime: bool,
        shape: ShapeView,
    ) -> bool {
        &&& self.decoder is Some <==> has_decode(attrs)
        &&& self.encoder is Some <==> has_encode(attrs)
        &&& self.decoder matches Some(decoder) ==> {
            &&& decoder.shape@ == shape
            &&& decoder.ident == ident
            &&& decoder.has_lifetime == has_lifetime
        }
        &&& self.encoder matches Some(encoder) ==> {
            &&& encoder.shape@ == shape
            &&& encoder.ident == ident
            &&& encoder.has_lifetime == has_lifetime
        }
    }

    /// Whether this is what is generated for the declaration `ast` where
    /// its values are transcoded as `shape`: a decoder and an encoder as
    /// far as the options of the declaration want them, each for the type
    /// declared and that shape.
    pub open spec fn generated_for(&self, ast: DeriveInput, shape: ShapeView) -> bool {
        self.made_with(wanted_attrs(ast), ast.ident, ast.lifetimes == 1, shape)
    }
}

impl Decoder {
    /// Reads a value of the type off `term`.
    pub fn decode(&self, env: &NifEnv, term: NifTerm) -> (decoded: Result<Native, NifError>)
        requires
            env.owns(term),
        ensures
            match decoding(self.shape@, env.value(term)) {
                Ok(value) => decoded is Ok && decoded->Ok_0@ == value,
                Err(e) => decoded == Err::<Native, NifError>(e),
            },
    {
        decode(&self.shape, env, term)
    }
}

impl Encoder {
    /// Whether `value` is a value of the type.
    pub fn accepts(&self, value: &Native) -> (admitted: bool)
        ensures
            admitted == admits(self.shape@, value@),
    {
        conforms(&self.shape, value)
    }

    /// Makes the term that the host is shown for `value`, which a decoder of
    /// the type gave or which is a value of the type: for what is no
    /// variant the atom `invalid_variant`.
    pub fn encode_outcome(&self, value: &Native, env: &mut NifEnv) -> (term: NifTerm)
        requires
            old(env).alive(),
            value@ is Unrecognized || admits(self.shape@, value@),
        ensures
            final(env).owns(term),
            final(env).value(term) == shown(self.shape@, value@),
            final(env).extends(old(env)),
    {
        encode_outcome(&self.shape, value, env)
    }

    /// Makes the term of `value`, a value of the type, in the heap of `env`.
    pub fn encode(&self, value: &Native, env: &mut NifEnv) -> (term: NifTerm)
        requires
            old(env).alive(),
            admits(self.shape@, value@),
        ensures
            final(env).owns(term),
            final(env).value(term) == encoding(self.shape@, value@),
            final(env).extends(old(env)),
    {
        encode(&self.shape, value, env)
    }
}

} // verus!
