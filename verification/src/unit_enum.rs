//! Enums without fields, transcoded as atoms.

use heck::SnakeCase;
use vstd::pervasive::unreached;
use vstd::prelude::*;
use vstd::utf8::encode_utf8;

use crate::ast::{variants_of, Data, DeriveInput, Fields, Variant};
use crate::codec::{atom_views, distinct, well_formed, Shape, ShapeView};
use crate::context::{atom_bytes, declared_attrs_of, Context};
use crate::error::DeclarationError;
use crate::shape::{all_distinct, copy_names};
use crate::transcoder::{Decoder, Encoder, Transcoder};

verus! {

/// The snake-case form of a name, as the crate `heck` computes it.
pub uninterp spec fn snake_case_of(name: Seq<char>) -> Seq<char>;

/// `to_snake_case` of the crate `heck`, on a string slice: it splits the
/// name into words and joins their lower-case forms with underscores. The
/// result depends on the name alone; what it is on a given name is not
/// stated here.
#[verifier::external_body]
fn snake_case(name: &str) -> (snake: String)
    ensures
        snake@ == snake_case_of(name@),
{
    name.to_snake_case()
}

/// The name of the atom of a variant: its identifier in snake case.
pub open spec fn variant_atom(variant: Variant) -> Seq<u8> {
    encode_utf8(snake_case_of(variant.ident@))
}

/// The names of the atoms of `variants`, in declaration order.
pub open spec fn variant_atoms(variants: Seq<Variant>) -> Seq<Seq<u8>> {
    Seq::new(variants.len(), |k: int| variant_atom(variants[k]))
}

/// Whether none of `variants` has fields.
pub open spec fn all_unit(variants: Seq<Variant>) -> bool {
    forall|k: int| 0 <= k < variants.len() ==> (#[trigger] variants[k]).fields is Unit
}

/// How the values of the enum that `ast` declares are transcoded as atoms,
/// or why they cannot be.
pub open spec fn unit_enum_shape_of(ast: DeriveInput) -> Result<ShapeView, DeclarationError> {
    match declared_attrs_of(ast.attrs@) {
        Err(e) => Err(e),
        Ok(_) => match variants_of(ast.data) {
            None => Err(DeclarationError::NotAnEnum),
            Some(variants) => if ast.lifetimes > 1 {
                Err(DeclarationError::TooManyLifetimes)
            } else if !all_unit(variants) {
                Err(DeclarationError::NonUnitVariant)
            } else if !distinct(variant_atoms(variants)) {
                Err(DeclarationError::DuplicateName)
            } else {
                Ok(ShapeView::UnitEnum(variant_atoms(variants)))
            },
        },
    }
}

/// Whether none of `variants` has fields.
pub fn none_has_fields(variants: &Vec<Variant>) -> (none: bool)
    ensures
        none == all_unit(variants@),
{
    let mut k: usize = 0;
    while k < variants.len()
        invariant
            k <= variants.len(),
            forall|j: int| 0 <= j < k ==> (#[trigger] variants@[j]).fields is Unit,
        decreases variants.len() - k,
    {
        match &variants[k].fields {
            Fields::Unit => {},
            _ => {
                return false;
            },
        }
        k += 1;
    }
    true
}

/// The names of the atoms of `variants`, in declaration order: each is the
/// identifier of the variant in snake case.
pub fn atoms_of(variants: &Vec<Variant>) -> (atoms: Vec<Vec<u8>>)
    ensures
        atom_views(atoms) == variant_atoms(variants@),
{
    let mut atoms: Vec<Vec<u8>> = Vec::new();
    let mut k: usize = 0;
    while k < variants.len()
        invariant
            k <= variants.len(),
            atoms@.len() == k,
            forall|j: int| 0 <= j < k ==> (#[trigger] atoms@[j])@ == variant_atom(variants@[j]),
        decreases variants.len() - k,
    {
        let atom_str = snake_case(variants[k].ident.as_str());
        atoms.push(atom_bytes(&atom_str));
        k += 1;
    }
    proof {
        assert(atom_views(atoms) =~= variant_atoms(variants@));
    }
    atoms
}

/// Generates what transcodes the enum that `ast` declares as atoms: each
/// variant is the atom named by its identifier in snake case.
///
/// Every variant has to be without fields, and no two variants may come to
/// the same atom.
///
/// The declaration has to be one that can be transcoded so;
/// `try_transcoder_decorator` tells whether it is.
pub fn transcoder_decorator(ast: &DeriveInput) -> (generated: Transcoder)
    requires
        unit_enum_shape_of(*ast) is Ok,
    ensures
        generated.generated_for(*ast, unit_enum_shape_of(*ast)->Ok_0),
{
    match try_transcoder_decorator(ast) {
        Ok(generated) => generated,
        Err(_) => unreached(),
    }
}

/// Generates as `transcoder_decorator` does, or says why the declaration
/// cannot be transcoded so.
pub fn try_transcoder_decorator(ast: &DeriveInput) -> (generated: Result<
    Transcoder,
    DeclarationError,
>)
    ensures
        match unit_enum_shape_of(*ast) {
            Err(e) => generated == Err::<Transcoder, DeclarationError>(e),
            Ok(shape) => generated is Ok && generated->Ok_0.generated_for(*ast, shape),
        },
{
    let ctx = match Context::try_from_ast(ast) {
        Ok(ctx) => ctx,
        Err(e) => {
            return Err(e);
        },
    };
    let variants = match &ast.data {
        Data::Enum(variants) => variants,
        _ => {
            return Err(DeclarationError::NotAnEnum);
        },
    };
    if ast.lifetimes > 1 {
        return Err(DeclarationError::TooManyLifetimes);
    }
    if !none_has_fields(variants) {
        return Err(DeclarationError::NonUnitVariant);
    }
    let atoms = atoms_of(variants);
    with_atoms(&ctx, &atoms)
}

/// Generates what transcodes an enum without fields whose variants are, in
/// declaration order, the atoms named `atoms`.
///
/// # Errors
///
/// `DeclarationError::DuplicateName` if two of the atoms are the same.
pub fn with_atoms(ctx: &Context, atoms: &Vec<Vec<u8>>) -> (generated: Result<
    Transcoder,
    DeclarationError,
>)
    ensures
        !distinct(atom_views(*atoms)) ==> generated == Err::<Transcoder, DeclarationError>(
            DeclarationError::DuplicateName,
        ),
        distinct(atom_views(*atoms)) ==> generated is Ok && generated->Ok_0.made_with(
            ctx.attrs@,
            ctx.ident,
            ctx.has_lifetime,
            ShapeView::UnitEnum(atom_views(*atoms)),
        ),
{
    if !all_distinct(atoms) {
        return Err(DeclarationError::DuplicateName);
    }
    let decoder = if ctx.decode() {
        Some(gen_decoder(&ctx.ident, atoms, ctx.has_lifetime))
    } else {
        None
    };
    let encoder = if ctx.encode() {
        Some(gen_encoder(&ctx.ident, atoms, ctx.has_lifetime))
    } else {
        None
    };
    Ok(Transcoder { decoder, encoder })
}

/// The decoder of the enum named `enum_name` whose variants are, in
/// declaration order, the atoms named `atoms`.
///
/// It decodes an atom to the variant of that name, and an atom of no such
/// name to what stands for an unrecognized variant; that is no failure.
pub fn gen_decoder(enum_name: &String, atoms: &Vec<Vec<u8>>, has_lifetime: bool) -> (decoder:
    Decoder)
    ensures
        decoder.shape@ == ShapeView::UnitEnum(atom_views(*atoms)),
        decoder.ident == *enum_name,
        decoder.has_lifetime == has_lifetime,
{
    Decoder { ident: enum_name.clone(), has_lifetime, shape: Shape::UnitEnum(copy_names(atoms)) }
}

/// The encoder of the enum named `enum_name` whose variants are, in
/// declaration order, the atoms named `atoms`.
pub fn gen_encoder(enum_name: &String, atoms: &Vec<Vec<u8>>, has_lifetime: bool) -> (encoder:
    Encoder)
    ensures
        encoder.shape@ == ShapeView::UnitEnum(atom_views(*atoms)),
        encoder.ident == *enum_name,
        encoder.has_lifetime == has_lifetime,
{
    Encoder { ident: enum_name.clone(), has_lifetime, shape: Shape::UnitEnum(copy_names(atoms)) }
}

/// The shape generated for an enum without fields is well formed: no two
/// of its variants are the same atom.
pub proof fn lemma_unit_enum_shape_well_formed(ast: DeriveInput)
    requires
        unit_enum_shape_of(ast) is Ok,
    ensures
        well_formed(unit_enum_shape_of(ast)->Ok_0),
{
}

} // verus!
