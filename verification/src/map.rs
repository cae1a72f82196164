//! Structs that are transcoded as maps from the keys of their fields.

use vstd::pervasive::unreached;
use vstd::prelude::*;
use vstd::utf8::encode_utf8;

use crate::ast::{fields_of, struct_fields_of, Data, DeriveInput, Field, Fields};
use crate::codec::{
    atom_views, distinct, distinct_keys, field_views, well_formed, MapField, Shape, ShapeView,
};
use crate::context::{atom_bytes, declared_attrs_of, Context};
use crate::error::DeclarationError;
use crate::shape::{all_distinct, copy_shape};
use crate::transcoder::{Decoder, Encoder, Transcoder};
use crate::wrapper::copy_bytes;

verus! {

/// The key under which the host sees `field`: the one that the declaration
/// gives, or else the identifier of the field as it is written. A field
/// with neither has no key.
pub open spec fn field_key(field: Field) -> Option<Seq<u8>> {
    match field.key {
        Some(key) => Some(encode_utf8(key@)),
        None => match field.ident {
            Some(ident) => Some(encode_utf8(ident@)),
            None => None,
        },
    }
}

/// Whether every one of `fields` has a key.
pub open spec fn all_named(fields: Seq<Field>) -> bool {
    forall|k: int| 0 <= k < fields.len() ==> field_key(#[trigger] fields[k]) is Some
}

/// The keys of `fields`, in declaration order.
pub open spec fn field_keys(fields: Seq<Field>) -> Seq<Seq<u8>> {
    Seq::new(fields.len(), |k: int| field_key(fields[k])->Some_0)
}

/// The keys of `fields` with how their types are transcoded, in
/// declaration order.
pub open spec fn map_fields_of(fields: Seq<Field>) -> Seq<(Seq<u8>, ShapeView)> {
    Seq::new(fields.len(), |k: int| (field_key(fields[k])->Some_0, fields[k].ty@))
}

/// How the values of the struct that `ast` declares are transcoded as
/// maps, or why they cannot be.
pub open spec fn map_shape_of(ast: DeriveInput) -> Result<ShapeView, DeclarationError> {
    match declared_attrs_of(ast.attrs@) {
        Err(e) => Err(e),
        Ok(_) => match struct_fields_of(ast.data) {
            None => Err(DeclarationError::NotAStruct),
            Some(fields) => if ast.lifetimes > 1 {
                Err(DeclarationError::TooManyLifetimes)
            } else if !all_named(fields) {
                Err(DeclarationError::UnnamedField)
            } else if !distinct(field_keys(fields)) {
                Err(DeclarationError::DuplicateName)
            } else {
                Ok(ShapeView::Struct(None, map_fields_of(fields)))
            },
        },
    }
}

/// The key under which the host sees `field`, if it has one.
pub fn key_of(field: &Field) -> (key: Option<Vec<u8>>)
    ensures
        match field_key(*field) {
            Some(bytes) => key is Some && key->Some_0@ == bytes,
            None => key is None,
        },
{
    match &field.key {
        Some(key) => Some(atom_bytes(key)),
        None => match &field.ident {
            Some(ident) => Some(atom_bytes(ident)),
            None => None,
        },
    }
}

/// The keys of `fields`, in declaration order, if every field has one.
pub fn keys_of(fields: &Fields) -> (keys: Option<Vec<Vec<u8>>>)
    ensures
        keys is Some <==> all_named(fields_of(*fields)),
        keys is Some ==> atom_views(keys->Some_0) == field_keys(fields_of(*fields)),
{
    let mut keys: Vec<Vec<u8>> = Vec::new();
    let mut k: usize = 0;
    while k < fields.len()
        invariant
            k <= fields_of(*fields).len(),
            keys@.len() == k,
            forall|j: int| 0 <= j < k ==> field_key(#[trigger] fields_of(*fields)[j]) is Some,
            forall|j: int|
                0 <= j < k ==> (#[trigger] keys@[j])@ == field_key(fields_of(*fields)[j])->Some_0,
        decreases fields_of(*fields).len() - k,
    {
        match key_of(fields.get(k)) {
            Some(key) => {
                keys.push(key);
            },
            None => {
                proof {
                    assert(field_key(fields_of(*fields)[k as int]) is None);
                }
                return None;
            },
        }
        k += 1;
    }
    proof {
        assert(atom_views(keys) =~= field_keys(fields_of(*fields)));
    }
    Some(keys)
}

/// The fields of a map shape: each of `keys` with how the type of the field
/// at the same place is transcoded.
pub fn map_fields(keys: &Vec<Vec<u8>>, fields: &Fields) -> (made: Vec<MapField>)
    requires
        all_named(fields_of(*fields)),
        atom_views(*keys) == field_keys(fields_of(*fields)),
    ensures
        field_views(made) == map_fields_of(fields_of(*fields)),
{
    let mut made: Vec<MapField> = Vec::new();
    let mut k: usize = 0;
    proof {
        assert(atom_views(*keys).len() == keys@.len());
    }
    while k < fields.len()
        invariant
            k <= fields_of(*fields).len(),
            keys@.len() == fields_of(*fields).len(),
            atom_views(*keys) == field_keys(fields_of(*fields)),
            made@.len() == k,
            forall|j: int|
                0 <= j < k ==> (#[trigger] made@[j]).key@ == field_key(
                    fields_of(*fields)[j],
                )->Some_0 && made@[j].shape@ == fields_of(*fields)[j].ty@,
        decreases fields_of(*fields).len() - k,
    {
        proof {
            assert(atom_views(*keys)[k as int] == keys@[k as int]@);
        }
        made.push(
            MapField { key: copy_bytes(keys[k].as_slice()), shape: copy_shape(&fields.get(k).ty) },
        );
        k += 1;
    }
    proof {
        assert(field_views(made) =~= map_fields_of(fields_of(*fields)));
    }
    made
}

/// Generates what transcodes the struct that `ast` declares as a map from
/// the keys of its fields to the fields.
///
/// The key of a field is its identifier as it is written, unless the
/// declaration gives the field another key. Every field needs a key and no
/// two fields may share one.
///
/// The declaration has to be one that can be transcoded so;
/// `try_transcoder_decorator` tells whether it is.
pub fn transcoder_decorator(ast: &DeriveInput) -> (generated: Transcoder)
    requires
        map_shape_of(*ast) is Ok,
    ensures
        generated.generated_for(*ast, map_shape_of(*ast)->Ok_0),
{
    match try_transcoder_decorator(ast) {
        Ok(generated) => generated,
        Err(_) => unreached(),
    }
}

/// Generates as `transcoder_decorator` does, or says why the declaration
/// cannot be transcoded so.
pub fn try_transcoder_decorator(ast: &DeriveInput) -> (generated: Result<
    Transcoder,
    DeclarationError,
>)
    ensures
        match map_shape_of(*ast) {
            Err(e) => generated == Err::<Transcoder, DeclarationError>(e),
            Ok(shape) => generated is Ok && generated->Ok_0.generated_for(*ast, shape),
        },
{
    let ctx = match Context::try_from_ast(ast) {
        Ok(ctx) => ctx,
        Err(e) => {
            return Err(e);
        },
    };
    let struct_fields = match &ast.data {
        Data::Struct(fields) => fields,
        _ => {
            return Err(DeclarationError::NotAStruct);
        },
    };
    if ast.lifetimes > 1 {
        return Err(DeclarationError::TooManyLifetimes);
    }
    let keys = match keys_of(struct_fields) {
        Some(keys) => keys,
        None => {
            return Err(DeclarationError::UnnamedField);
        },
    };
    if !all_distinct(&keys) {
        return Err(DeclarationError::DuplicateName);
    }
    let decoder = if ctx.decode() {
        Some(gen_decoder(&ctx, &keys, struct_fields))
    } else {
        None
    };
    let encoder = if ctx.encode() {
        Some(gen_encoder(&ctx, &keys, struct_fields))
    } else {
        None
    };
    Ok(Transcoder { decoder, encoder })
}

/// The decoder of the struct, read off a map.
fn gen_decoder(ctx: &Context, keys: &Vec<Vec<u8>>, fields: &Fields) -> (decoder: Decoder)
    requires
        all_named(fields_of(*fields)),
        atom_views(*keys) == field_keys(fields_of(*fields)),
    ensures
        decoder.shape@ == ShapeView::Struct(None, map_fields_of(fields_of(*fields))),
        decoder.ident == ctx.ident,
        decoder.has_lifetime == ctx.has_lifetime,
{
    Decoder {
        ident: ctx.ident.clone(),
        has_lifetime: ctx.has_lifetime,
        shape: Shape::Struct(None, map_fields(keys, fields)),
    }
}

/// The encoder of the struct, which makes a map.
fn gen_encoder(ctx: &Context, keys: &Vec<Vec<u8>>, fields: &Fields) -> (encoder: Encoder)
    requires
        all_named(fields_of(*fields)),
        atom_views(*keys) == field_keys(fields_of(*fields)),
    ensures
        encoder.shape@ == ShapeView::Struct(None, map_fields_of(fields_of(*fields))),
        encoder.ident == ctx.ident,
        encoder.has_lifetime == ctx.has_lifetime,
{
    Encoder {
        ident: ctx.ident.clone(),
        has_lifetime: ctx.has_lifetime,
        shape: Shape::Struct(None, map_fields(keys, fields)),
    }
}

/// The shape generated for a struct is well formed where the shapes of its
/// fields are: no two of its fields share a key.
pub proof fn lemma_map_shape_well_formed(ast: DeriveInput)
    requires
        map_shape_of(ast) is Ok,
        forall|k: int|
            0 <= k < struct_fields_of(ast.data)->Some_0.len() ==> well_formed(
                (#[trigger] struct_fields_of(ast.data)->Some_0[k]).ty@,
            ),
    ensures
        well_formed(map_shape_of(ast)->Ok_0),
{
    let fields = struct_fields_of(ast.data)->Some_0;
    lemma_map_fields_well_formed(fields);
}

/// Fields with keys that differ pairwise and shapes that are well formed
/// make the fields of a well-formed map shape.
pub proof fn lemma_map_fields_well_formed(fields: Seq<Field>)
    requires
        distinct(field_keys(fields)),
        forall|k: int| 0 <= k < fields.len() ==> well_formed((#[trigger] fields[k]).ty@),
    ensures
        distinct_keys(map_fields_of(fields)),
        forall|k: int|
            0 <= k < fields.len() ==> well_formed((#[trigger] map_fields_of(fields)[k]).1),
        forall|k: int|
            0 <= k < fields.len() ==> (#[trigger] map_fields_of(fields)[k]).0 == field_keys(
                fields,
            )[k],
{
    let made = map_fields_of(fields);
    assert forall|i: int, j: int| 0 <= i < j < made.len() implies (#[trigger] made[i]).0 != (
    #[trigger] made[j]).0 by {
        assert(field_keys(fields)[i] != field_keys(fields)[j]);
    }
    assert forall|k: int| 0 <= k < fields.len() implies well_formed(
        (#[trigger] map_fields_of(fields)[k]).1,
    ) by {
        assert(well_formed(fields[k].ty@));
    }
}

} // verus!
