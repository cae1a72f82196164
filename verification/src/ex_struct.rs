//! Structs that are transcoded as structs of the host: maps that carry the
//! name of their module under `__struct__`.

use vstd::pervasive::unreached;
use vstd::prelude::*;
use vstd::utf8::encode_utf8;

use crate::ast::{fields_of, struct_fields_of, Data, DeriveInput, Fields};
use crate::codec::{atom_views, distinct, struct_key, well_formed, Shape, ShapeView};
use crate::context::{atom_bytes, declared_attrs_of, find_named_value, module_name_of, Context};
use crate::error::DeclarationError;
use crate::map::{
    all_named, field_keys, keys_of, lemma_map_fields_well_formed, map_fields, map_fields_of,
};
use crate::shape::{all_distinct, struct_key_bytes};
use crate::transcoder::{Decoder, Encoder, Transcoder};
use crate::wrapper::map::same_bytes;

verus! {

/// How the values of the struct that `ast` declares are transcoded as
/// structs of the host, or why they cannot be.
pub open spec fn struct_shape_of(ast: DeriveInput) -> Result<ShapeView, DeclarationError> {
    match declared_attrs_of(ast.attrs@) {
        Err(e) => Err(e),
        Ok(_) => match struct_fields_of(ast.data) {
            None => Err(DeclarationError::NotAStruct),
            Some(fields) => if ast.lifetimes > 1 {
                Err(DeclarationError::TooManyLifetimes)
            } else {
                match module_name_of(ast) {
                    None => Err(DeclarationError::MissingModule),
                    Some(module) => if !all_named(fields) {
                        Err(DeclarationError::UnnamedField)
                    } else if !distinct(field_keys(fields)) || field_keys(fields).contains(
                        struct_key(),
                    ) {
                        Err(DeclarationError::DuplicateName)
                    } else {
                        Ok(ShapeView::Struct(Some(encode_utf8(module@)), map_fields_of(fields)))
                    },
                }
            },
        },
    }
}

/// Whether one of `names` is `name`.
pub fn has_name(names: &Vec<Vec<u8>>, name: &[u8]) -> (has: bool)
    ensures
        has == atom_views(*names).contains(name@),
{
    let mut k: usize = 0;
    while k < names.len()
        invariant
            k <= names.len(),
            forall|j: int| 0 <= j < k ==> #[trigger] atom_views(*names)[j] != name@,
        decreases names.len() - k,
    {
        if same_bytes(names[k].as_slice(), name) {
            proof {
                assert(atom_views(*names)[k as int] == name@);
            }
            return true;
        }
        k += 1;
    }
    false
}

/// Generates what transcodes the struct that `ast` declares as a struct of
/// the host: a map from the keys of its fields to the fields, with the name
/// of the module under `__struct__`.
///
/// The module name has to be declared; there is no default. The key of a
/// field is its identifier as it is written, unless the declaration gives
/// the field another key. No two fields may share a key, and none may have
/// the key `__struct__`.
///
/// The declaration has to be one that can be transcoded so;
/// `try_transcoder_decorator` tells whether it is.
pub fn transcoder_decorator(ast: &DeriveInput) -> (generated: Transcoder)
    requires
        struct_shape_of(*ast) is Ok,
    ensures
        generated.generated_for(*ast, struct_shape_of(*ast)->Ok_0),
{
    match try_transcoder_decorator(ast) {
        Ok(generated) => generated,
        Err(_) => unreached(),
    }
}

/// Generates as `transcoder_decorator` does, or says why the declaration
/// cannot be transcoded so.
pub fn try_transcoder_decorator(ast: &DeriveInput) -> (generated: Result<
    Transcoder,
    DeclarationError,
>)
    ensures
        match struct_shape_of(*ast) {
            Err(e) => generated == Err::<Transcoder, DeclarationError>(e),
            Ok(shape) => generated is Ok && generated->Ok_0.generated_for(*ast, shape),
        },
{
    let ctx = match Context::try_from_ast(ast) {
        Ok(ctx) => ctx,
        Err(e) => {
            return Err(e);
        },
    };
    let struct_fields = match &ast.data {
        Data::Struct(fields) => fields,
        _ => {
            return Err(DeclarationError::NotAStruct);
        },
    };
    if ast.lifetimes > 1 {
        return Err(DeclarationError::TooManyLifetimes);
    }
    let module = match ctx.module() {
        Some(module) => module,
        None => match find_named_value(&ast.attrs, "module") {
            Some(module) => module,
            None => {
                return Err(DeclarationError::MissingModule);
            },
        },
    };
    let keys = match keys_of(struct_fields) {
        Some(keys) => keys,
        None => {
            return Err(DeclarationError::UnnamedField);
        },
    };
    let reserved = struct_key_bytes();
    if !all_distinct(&keys) || has_name(&keys, reserved.as_slice()) {
        return Err(DeclarationError::DuplicateName);
    }
    let decoder = if ctx.decode() {
        Some(gen_decoder(&ctx, &module, &keys, struct_fields))
    } else {
        None
    };
    let encoder = if ctx.encode() {
        Some(gen_encoder(&ctx, &module, &keys, struct_fields))
    } else {
        None
    };
    Ok(Transcoder { decoder, encoder })
}

/// The decoder of the struct, read off a map that carries `module`.
fn gen_decoder(ctx: &Context, module: &String, keys: &Vec<Vec<u8>>, fields: &Fields) -> (decoder:
    Decoder)
    requires
        all_named(fields_of(*fields)),
        atom_views(*keys) == field_keys(fields_of(*fields)),
    ensures
        decoder.shape@ == ShapeView::Struct(
            Some(encode_utf8(module@)),
            map_fields_of(fields_of(*fields)),
        ),
        decoder.ident == ctx.ident,
        decoder.has_lifetime == ctx.has_lifetime,
{
    Decoder {
        ident: ctx.ident.clone(),
        has_lifetime: ctx.has_lifetime,
        shape: Shape::Struct(Some(atom_bytes(module)), map_fields(keys, fields)),
    }
}

/// The encoder of the struct, which makes a map that carries `module`.
fn gen_encoder(ctx: &Context, module: &String, keys: &Vec<Vec<u8>>, fields: &Fields) -> (encoder:
    Encoder)
    requires
        all_named(fields_of(*fields)),
        atom_views(*keys) == field_keys(fields_of(*fields)),
    ensures
        encoder.shape@ == ShapeView::Struct(
            Some(encode_utf8(module@)),
            map_fields_of(fields_of(*fields)),
        ),
        encoder.ident == ctx.ident,
        encoder.has_lifetime == ctx.has_lifetime,
{
    Encoder {
        ident: ctx.ident.clone(),
        has_lifetime: ctx.has_lifetime,
        shape: Shape::Struct(Some(atom_bytes(module)), map_fields(keys, fields)),
    }
}

/// The shape generated for a struct is well formed where the shapes of its
/// fields are: no two of its fields share a key, and none has the key of
/// the module name.
pub proof fn lemma_struct_shape_well_formed(ast: DeriveInput)
    requires
        struct_shape_of(ast) is Ok,
        forall|k: int|
            0 <= k < struct_fields_of(ast.data)->Some_0.len() ==> well_formed(
                (#[trigger] struct_fields_of(ast.data)->Some_0[k]).ty@,
            ),
    ensures
        well_formed(struct_shape_of(ast)->Ok_0),
{
    let fields = struct_fields_of(ast.data)->Some_0;
    lemma_map_fields_well_formed(fields);
    assert forall|k: int| 0 <= k < fields.len() implies (#[trigger] map_fields_of(fields)[k]).0
        != struct_key() by {
        assert(field_keys(fields)[k] == map_fields_of(fields)[k].0);
    }
}

} // verus!
