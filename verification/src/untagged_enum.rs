//! Enums that are transcoded as whatever their variant holds.

use vstd::pervasive::unreached;
use vstd::prelude::*;

use crate::ast::{fields_of, variants_of, Data, DeriveInput, Fields, Variant};
use crate::codec::{shape_view, shape_views, well_formed, Shape, ShapeView};
use crate::context::{declared_attrs_of, Context};
use crate::error::DeclarationError;
use crate::shape::{copy_shape, copy_shapes};
use crate::transcoder::{Decoder, Encoder, Transcoder};

verus! {

/// Whether a variant holds exactly one value, without a name.
pub open spec fn is_newtype(variant: Variant) -> bool {
    variant.fields is Unnamed && fields_of(variant.fields).len() == 1
}

/// Whether every one of `variants` holds exactly one value, without a name.
pub open spec fn all_newtype(variants: Seq<Variant>) -> bool {
    forall|k: int| 0 <= k < variants.len() ==> is_newtype(#[trigger] variants[k])
}

/// How what each of `variants` holds is transcoded, in declaration order.
pub open spec fn variant_shapes(variants: Seq<Variant>) -> Seq<ShapeView> {
    Seq::new(variants.len(), |k: int| fields_of(variants[k].fields)[0].ty@)
}

/// How the values of the enum that `ast` declares are transcoded as an
/// untagged sum, or why they cannot be.
pub open spec fn untagged_shape_of(ast: DeriveInput) -> Result<ShapeView, DeclarationError> {
    match declared_attrs_of(ast.attrs@) {
        Err(e) => Err(e),
        Ok(_) => match variants_of(ast.data) {
            None => Err(DeclarationError::NotAnEnum),
            Some(variants) => if ast.lifetimes > 1 {
                Err(DeclarationError::TooManyLifetimes)
            } else if !all_newtype(variants) {
                Err(DeclarationError::NotNewtypeVariant)
            } else {
                Ok(ShapeView::Untagged(variant_shapes(variants)))
            },
        },
    }
}

/// How what each of `variants` holds is transcoded, in declaration order,
/// if every variant holds exactly one value without a name.
pub fn variant_types(variants: &Vec<Variant>) -> (types: Option<Vec<Shape>>)
    ensures
        types is Some <==> all_newtype(variants@),
        types is Some ==> shape_views(types->Some_0) == variant_shapes(variants@),
{
    let mut types: Vec<Shape> = Vec::new();
    let mut k: usize = 0;
    while k < variants.len()
        invariant
            k <= variants.len(),
            types@.len() == k,
            forall|j: int| 0 <= j < k ==> is_newtype(#[trigger] variants@[j]),
            forall|j: int|
                0 <= j < k ==> shape_view(#[trigger] types@[j]) == fields_of(
                    variants@[j].fields,
                )[0].ty@,
        decreases variants.len() - k,
    {
        match &variants[k].fields {
            Fields::Unnamed(held) => {
                if held.len() != 1 {
                    proof {
                        assert(!is_newtype(variants@[k as int]));
                    }
                    return None;
                }
                types.push(copy_shape(&held[0].ty));
            },
            _ => {
                proof {
                    assert(!is_newtype(variants@[k as int]));
                }
                return None;
            },
        }
        k += 1;
    }
    proof {
        assert(shape_views(types) =~= variant_shapes(variants@));
    }
    Some(types)
}

/// Generates what transcodes the enum that `ast` declares as an untagged
/// sum: a value is encoded as what its variant holds, and a term is decoded
/// as the first variant, in declaration order, that decodes it.
///
/// The declaration has to be one that can be transcoded so;
/// `try_transcoder_decorator` tells whether it is.
pub fn transcoder_decorator(ast: &DeriveInput) -> (generated: Transcoder)
    requires
        untagged_shape_of(*ast) is Ok,
    ensures
        generated.generated_for(*ast, untagged_shape_of(*ast)->Ok_0),
{
    match try_transcoder_decorator(ast) {
        Ok(generated) => generated,
        Err(_) => unreached(),
    }
}

/// Generates as `transcoder_decorator` does, or says why the declaration
/// cannot be transcoded so.
pub fn try_transcoder_decorator(ast: &DeriveInput) -> (generated: Result<
    Transcoder,
    DeclarationError,
>)
    ensures
        match untagged_shape_of(*ast) {
            Err(e) => generated == Err::<Transcoder, DeclarationError>(e),
            Ok(shape) => generated is Ok && generated->Ok_0.generated_for(*ast, shape),
        },
{
    let ctx = match Context::try_from_ast(ast) {
        Ok(ctx) => ctx,
        Err(e) => {
            return Err(e);
        },
    };
    let variants = match &ast.data {
        Data::Enum(variants) => variants,
        _ => {
            return Err(DeclarationError::NotAnEnum);
        },
    };
    if ast.lifetimes > 1 {
        return Err(DeclarationError::TooManyLifetimes);
    }
    let types = match variant_types(variants) {
        Some(types) => types,
        None => {
            return Err(DeclarationError::NotNewtypeVariant);
        },
    };
    let decoder = if ctx.decode() {
        Some(gen_decoder(&ctx, &types))
    } else {
        None
    };
    let encoder = if ctx.encode() {
        Some(gen_encoder(&ctx, &types))
    } else {
        None
    };
    Ok(Transcoder { decoder, encoder })
}

/// The decoder of the enum, which tries the variants in declaration order.
fn gen_decoder(ctx: &Context, types: &Vec<Shape>) -> (decoder: Decoder)
    ensures
        decoder.shape@ == ShapeView::Untagged(shape_views(*types)),
        decoder.ident == ctx.ident,
        decoder.has_lifetime == ctx.has_lifetime,
{
    Decoder {
        ident: ctx.ident.clone(),
        has_lifetime: ctx.has_lifetime,
        shape: Shape::Untagged(copy_shapes(types)),
    }
}

/// The encoder of the enum, which encodes what the variant holds.
fn gen_encoder(ctx: &Context, types: &Vec<Shape>) -> (encoder: Encoder)
    ensures
        encoder.shape@ == ShapeView::Untagged(shape_views(*types)),
        encoder.ident == ctx.ident,
        encoder.has_lifetime == ctx.has_lifetime,
{
    Encoder {
        ident: ctx.ident.clone(),
        has_lifetime: ctx.has_lifetime,
        shape: Shape::Untagged(copy_shapes(types)),
    }
}

/// The shape generated for an enum is well formed where the shapes of what
/// its variants hold are.
pub proof fn lemma_untagged_shape_well_formed(ast: DeriveInput)
    requires
        untagged_shape_of(ast) is Ok,
        forall|k: int|
            0 <= k < variants_of(ast.data)->Some_0.len() ==> well_formed(
                fields_of((#[trigger] variants_of(ast.data)->Some_0[k]).fields)[0].ty@,
            ),
    ensures
        well_formed(untagged_shape_of(ast)->Ok_0),
{
    let variants = variants_of(ast.data)->Some_0;
    assert forall|k: int| 0 <= k < variant_shapes(variants).len() implies well_formed(
        #[trigger] variant_shapes(variants)[k],
    ) by {
        assert(well_formed(fields_of(variants[k].fields)[0].ty@));
    }
}

} // verus!
