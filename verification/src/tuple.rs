//! Structs that are transcoded as tuples of their fields.

use vstd::pervasive::unreached;
use vstd::prelude::*;

use crate::ast::{fields_of, struct_fields_of, Data, DeriveInput, Fields};
use crate::codec::{well_formed, Shape, ShapeView};
use crate::context::{declared_attrs_of, field_shapes, field_types, Context};
use crate::error::DeclarationError;
use crate::transcoder::{Decoder, Encoder, Transcoder};

verus! {

/// How the values of the struct that `ast` declares are transcoded as
/// tuples, or why they cannot be.
pub open spec fn tuple_shape_of(ast: DeriveInput) -> Result<ShapeView, DeclarationError> {
    match declared_attrs_of(ast.attrs@) {
        Err(e) => Err(e),
        Ok(_) => match struct_fields_of(ast.data) {
            None => Err(DeclarationError::NotAStruct),
            Some(fields) => if ast.lifetimes > 1 {
                Err(DeclarationError::TooManyLifetimes)
            } else {
                Ok(ShapeView::Tuple(field_shapes(fields)))
            },
        },
    }
}

/// Generates what transcodes the struct that `ast` declares as a tuple of
/// its fields, in declaration order.
///
/// The declaration has to be one that can be transcoded so;
/// `try_transcoder_decorator` tells whether it is.
pub fn transcoder_decorator(ast: &DeriveInput) -> (generated: Transcoder)
    requires
        tuple_shape_of(*ast) is Ok,
    ensures
        generated.generated_for(*ast, tuple_shape_of(*ast)->Ok_0),
{
    match try_transcoder_decorator(ast) {
        Ok(generated) => generated,
        Err(_) => unreached(),
    }
}

/// Generates as `transcoder_decorator` does, or says why the declaration
/// cannot be transcoded so.
pub fn try_transcoder_decorator(ast: &DeriveInput) -> (generated: Result<
    Transcoder,
    DeclarationError,
>)
    ensures
        match tuple_shape_of(*ast) {
            Err(e) => generated == Err::<Transcoder, DeclarationError>(e),
            Ok(shape) => generated is Ok && generated->Ok_0.generated_for(*ast, shape),
        },
{
    let ctx = match Context::try_from_ast(ast) {
        Ok(ctx) => ctx,
        Err(e) => {
            return Err(e);
        },
    };
    let struct_fields = match &ast.data {
        Data::Struct(fields) => fields,
        _ => {
            return Err(DeclarationError::NotAStruct);
        },
    };
    if ast.lifetimes > 1 {
        return Err(DeclarationError::TooManyLifetimes);
    }
    let decoder = if ctx.decode() {
        Some(gen_decoder(&ctx, struct_fields))
    } else {
        None
    };
    let encoder = if ctx.encode() {
        Some(gen_encoder(&ctx, struct_fields))
    } else {
        None
    };
    Ok(Transcoder { decoder, encoder })
}

/// The decoder of the struct, read off a tuple of its fields.
fn gen_decoder(ctx: &Context, fields: &Fields) -> (decoder: Decoder)
    ensures
        decoder.shape@ == ShapeView::Tuple(field_shapes(fields_of(*fields))),
        decoder.ident == ctx.ident,
        decoder.has_lifetime == ctx.has_lifetime,
{
    Decoder {
        ident: ctx.ident.clone(),
        has_lifetime: ctx.has_lifetime,
        shape: Shape::Tuple(field_types(fields)),
    }
}

/// The encoder of the struct, which makes a tuple of its fields.
fn gen_encoder(ctx: &Context, fields: &Fields) -> (encoder: Encoder)
    ensures
        encoder.shape@ == ShapeView::Tuple(field_shapes(fields_of(*fields))),
        encoder.ident == ctx.ident,
        encoder.has_lifetime == ctx.has_lifetime,
{
    Encoder {
        ident: ctx.ident.clone(),
        has_lifetime: ctx.has_lifetime,
        shape: Shape::Tuple(field_types(fields)),
    }
}

/// The shape generated for a struct is well formed where the shapes of its
/// fields are.
pub proof fn lemma_tuple_shape_well_formed(ast: DeriveInput)
    requires
        tuple_shape_of(ast) is Ok,
        forall|k: int|
            0 <= k < struct_fields_of(ast.data)->Some_0.len() ==> well_formed(
                (#[trigger] struct_fields_of(ast.data)->Some_0[k]).ty@,
            ),
    ensures
        well_formed(tuple_shape_of(ast)->Ok_0),
{
    let fields = struct_fields_of(ast.data)->Some_0;
    assert forall|k: int| 0 <= k < field_shapes(fields).len() implies well_formed(
        #[trigger] field_shapes(fields)[k],
    ) by {
        assert(well_formed(fields[k].ty@));
    }
}

} // verus!
