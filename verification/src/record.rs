//! Structs that are transcoded as records: tuples that begin with a tag.

use vstd::pervasive::unreached;
use vstd::prelude::*;
use vstd::utf8::encode_utf8;

use crate::ast::{fields_of, struct_fields_of, Data, DeriveInput, Fields};
use crate::codec::{well_formed, Shape, ShapeView};
use crate::context::{
    declared_attrs_of, field_shapes, field_types, find_named_value, atom_bytes, tag_name_of,
    Context,
};
use crate::error::DeclarationError;
use crate::transcoder::{Decoder, Encoder, Transcoder};

verus! {

/// How the values of the struct that `ast` declares are transcoded as
/// records, or why they cannot be.
pub open spec fn record_shape_of(ast: DeriveInput) -> Result<ShapeView, DeclarationError> {
    match declared_attrs_of(ast.attrs@) {
        Err(e) => Err(e),
        Ok(_) => match struct_fields_of(ast.data) {
            None => Err(DeclarationError::NotAStruct),
            Some(fields) => if ast.lifetimes > 1 {
                Err(DeclarationError::TooManyLifetimes)
            } else {
                match tag_name_of(ast) {
                    None => Err(DeclarationError::MissingTag),
                    Some(tag) => Ok(ShapeView::Record(encode_utf8(tag@), field_shapes(fields))),
                }
            },
        },
    }
}

/// Generates what transcodes the struct that `ast` declares as a record:
/// a tuple of the tag atom and then the fields, in declaration order.
///
/// The tag has to be declared; there is no default.
///
/// The declaration has to be one that can be transcoded so;
/// `try_transcoder_decorator` tells whether it is.
pub fn transcoder_decorator(ast: &DeriveInput) -> (generated: Transcoder)
    requires
        record_shape_of(*ast) is Ok,
    ensures
        generated.generated_for(*ast, record_shape_of(*ast)->Ok_0),
{
    match try_transcoder_decorator(ast) {
        Ok(generated) => generated,
        Err(_) => unreached(),
    }
}

/// Generates as `transcoder_decorator` does, or says why the declaration
/// cannot be transcoded so.
pub fn try_transcoder_decorator(ast: &DeriveInput) -> (generated: Result<
    Transcoder,
    DeclarationError,
>)
    ensures
        match record_shape_of(*ast) {
            Err(e) => generated == Err::<Transcoder, DeclarationError>(e),
            Ok(shape) => generated is Ok && generated->Ok_0.generated_for(*ast, shape),
        },
{
    let ctx = match Context::try_from_ast(ast) {
        Ok(ctx) => ctx,
        Err(e) => {
            return Err(e);
        },
    };
    let struct_fields = match &ast.data {
        Data::Struct(fields) => fields,
        _ => {
            return Err(DeclarationError::NotAStruct);
        },
    };
    if ast.lifetimes > 1 {
        return Err(DeclarationError::TooManyLifetimes);
    }
    let tag = match ctx.tag() {
        Some(tag) => tag,
        None => match find_named_value(&ast.attrs, "tag") {
            Some(tag) => tag,
            None => {
                return Err(DeclarationError::MissingTag);
            },
        },
    };
    let decoder = if ctx.decode() {
        Some(gen_decoder(&ctx, &tag, struct_fields))
    } else {
        None
    };
    let encoder = if ctx.encode() {
        Some(gen_encoder(&ctx, &tag, struct_fields))
    } else {
        None
    };
    Ok(Transcoder { decoder, encoder })
}

/// The decoder of the struct, read off a tuple that begins with `tag`.
fn gen_decoder(ctx: &Context, tag: &String, fields: &Fields) -> (decoder: Decoder)
    ensures
        decoder.shape@ == ShapeView::Record(encode_utf8(tag@), field_shapes(fields_of(*fields))),
        decoder.ident == ctx.ident,
        decoder.has_lifetime == ctx.has_lifetime,
{
    Decoder {
        ident: ctx.ident.clone(),
        has_lifetime: ctx.has_lifetime,
        shape: Shape::Record(atom_bytes(tag), field_types(fields)),
    }
}

/// The encoder of the struct, which makes a tuple that begins with `tag`.
fn gen_encoder(ctx: &Context, tag: &String, fields: &Fields) -> (encoder: Encoder)
    ensures
        encoder.shape@ == ShapeView::Record(encode_utf8(tag@), field_shapes(fields_of(*fields))),
        encoder.ident == ctx.ident,
        encoder.has_lifetime == ctx.has_lifetime,
{
    Encoder {
        ident: ctx.ident.clone(),
        has_lifetime: ctx.has_lifetime,
        shape: Shape::Record(atom_bytes(tag), field_types(fields)),
    }
}

/// The shape generated for a struct is well formed where the shapes of its
/// fields are.
pub proof fn lemma_record_shape_well_formed(ast: DeriveInput)
    requires
        record_shape_of(ast) is Ok,
        forall|k: int|
            0 <= k < struct_fields_of(ast.data)->Some_0.len() ==> well_formed(
                (#[trigger] struct_fields_of(ast.data)->Some_0[k]).ty@,
            ),
    ensures
        well_formed(record_shape_of(ast)->Ok_0),
{
    let fields = struct_fields_of(ast.data)->Some_0;
    assert forall|k: int| 0 <= k < field_shapes(fields).len() implies well_formed(
        #[trigger] field_shapes(fields)[k],
    ) by {
        assert(well_formed(fields[k].ty@));
    }
}

} // verus!
