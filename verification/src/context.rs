//! The options of a type declaration: which directions of transcoding are
//! wanted, and the module name or tag that the host sees.

use vstd::pervasive::unreached;
use vstd::prelude::*;
use vstd::string::StringExecFns;
use vstd::utf8::encode_utf8;

use crate::ast::{
    fields_of, is_tuple_struct, Attribute, Data, DeriveInput, Field, Fields, Lit, Meta,
    NestedMeta,
};
use crate::codec::{shape_view, shape_views, Shape, ShapeView};
use crate::error::DeclarationError;
use crate::shape::copy_shape;
use crate::wrapper::copy_bytes;

verus! {

/// One option given in a `rustler(...)` attribute.
#[derive(Debug, PartialEq, Eq)]
pub enum RustlerAttr {
    /// Generate the encoder.
    Encode,
    /// Generate the decoder.
    Decode,
    /// The host-side module name of a struct.
    Module(String),
    /// The tag of a record.
    Tag(String),
}

/// Whether `attrs` asks for an encoder.
pub open spec fn has_encode(attrs: Seq<RustlerAttr>) -> bool {
    exists|i: int| 0 <= i < attrs.len() && attrs[i] is Encode
}

/// Whether `attrs` asks for a decoder.
pub open spec fn has_decode(attrs: Seq<RustlerAttr>) -> bool {
    exists|i: int| 0 <= i < attrs.len() && attrs[i] is Decode
}

/// The options as they hold once the default is applied: with neither
/// direction asked for, both are generated.
pub open spec fn with_default_directions(attrs: Seq<RustlerAttr>) -> Seq<RustlerAttr> {
    if has_encode(attrs) || has_decode(attrs) {
        attrs
    } else {
        attrs.push(RustlerAttr::Encode).push(RustlerAttr::Decode)
    }
}

/// The option that one argument of `rustler(...)` stands for.
pub open spec fn attribute_of(meta: NestedMeta) -> Result<RustlerAttr, DeclarationError> {
    match meta {
        NestedMeta::Lit(_) => Err(DeclarationError::UnexpectedLit),
        NestedMeta::Path(name) => if name@ == "encode"@ {
            Ok(RustlerAttr::Encode)
        } else if name@ == "decode"@ {
            Ok(RustlerAttr::Decode)
        } else {
            Err(DeclarationError::UnexpectedPath(name))
        },
        NestedMeta::NameValue(name, lit) => if name@ == "module"@ {
            match lit {
                Lit::Str(module) => Ok(RustlerAttr::Module(module)),
                Lit::Other => Err(DeclarationError::CannotParseModule),
            }
        } else if name@ == "tag"@ {
            match lit {
                Lit::Str(tag) => Ok(RustlerAttr::Tag(tag)),
                Lit::Other => Err(DeclarationError::CannotParseTag),
            }
        } else {
            Err(DeclarationError::UnexpectedKey(name))
        },
        NestedMeta::List(_) => Err(DeclarationError::UnexpectedList),
    }
}

/// The options that a list of arguments stands for, in order, or the error
/// of the first argument that stands for none.
pub open spec fn attribute_list_of(list: Seq<NestedMeta>) -> Result<
    Seq<RustlerAttr>,
    DeclarationError,
>
    decreases list.len(),
{
    if list.len() == 0 {
        Ok(Seq::empty())
    } else {
        match attribute_list_of(list.drop_last()) {
            Err(e) => Err(e),
            Ok(front) => match attribute_of(list.last()) {
                Err(e) => Err(e),
                Ok(attr) => Ok(front.push(attr)),
            },
        }
    }
}

/// Whether an attribute is written `rustler`.
pub open spec fn is_rustler(attr: Attribute) -> bool {
    attr.path@.len() == 1 && attr.path@[0]@ == "rustler"@
}

/// The options that one attribute of a declaration gives: `None` for an
/// attribute that is not `rustler`.
pub open spec fn rustler_attrs_of(attr: Attribute) -> Option<
    Result<Seq<RustlerAttr>, DeclarationError>,
> {
    if is_rustler(attr) {
        Some(
            match attr.meta {
                None => Err(DeclarationError::UnparsableMeta),
                Some(Meta::List(list)) => attribute_list_of(list@),
                Some(_) => Err(DeclarationError::UnexpectedMeta),
            },
        )
    } else {
        None
    }
}

/// The options that all attributes of a declaration give, in order, or the
/// first error met.
pub open spec fn declared_attrs_of(attrs: Seq<Attribute>) -> Result<
    Seq<RustlerAttr>,
    DeclarationError,
>
    decreases attrs.len(),
{
    if attrs.len() == 0 {
        Ok(Seq::empty())
    } else {
        match declared_attrs_of(attrs.drop_last()) {
            Err(e) => Err(e),
            Ok(front) => match rustler_attrs_of(attrs.last()) {
                None => Ok(front),
                Some(Err(e)) => Err(e),
                Some(Ok(more)) => Ok(front + more),
            },
        }
    }
}

/// The module name that `attrs` gives: that of the first `Module` option.
pub open spec fn module_of(attrs: Seq<RustlerAttr>) -> Option<String>
    decreases attrs.len(),
{
    if attrs.len() == 0 {
        None
    } else {
        match attrs[0] {
            RustlerAttr::Module(name) => Some(name),
            _ => module_of(attrs.drop_first()),
        }
    }
}

/// The tag that `attrs` gives: that of the first `Tag` option.
pub open spec fn tag_of(attrs: Seq<RustlerAttr>) -> Option<String>
    decreases attrs.len(),
{
    if attrs.len() == 0 {
        None
    } else {
        match attrs[0] {
            RustlerAttr::Tag(name) => Some(name),
            _ => tag_of(attrs.drop_first()),
        }
    }
}

/// Whether `name` is the text `text`.
pub fn same_text(name: &String, text: &str) -> (same: bool)
    ensures
        same == (name@ == text@),
{
    let other = String::from_str(text);
    *name == other
}

/// The value of the first attribute `#[name = "value"]` of a declaration.
pub open spec fn named_value_of(attrs: Seq<Attribute>, name: Seq<char>) -> Option<String>
    decreases attrs.len(),
{
    if attrs.len() == 0 {
        None
    } else {
        match named_value(attrs[0], name) {
            Some(value) => Some(value),
            None => named_value_of(attrs.drop_first(), name),
        }
    }
}

/// The value of `attr` where it is written `#[name = "value"]`.
pub open spec fn named_value(attr: Attribute, name: Seq<char>) -> Option<String> {
    if attr.path@.len() == 1 && attr.path@[0]@ == name {
        match attr.meta {
            Some(Meta::NameValue(Lit::Str(value))) => Some(value),
            _ => None,
        }
    } else {
        None
    }
}

/// The options of a declaration once the default is applied. It is only
/// meant where the options can be read.
pub open spec fn wanted_attrs(ast: DeriveInput) -> Seq<RustlerAttr> {
    with_default_directions(declared_attrs_of(ast.attrs@)->Ok_0)
}

/// The module name of a declaration: that of the first `module` option, or
/// else of the first attribute `#[module = "..."]`.
pub open spec fn module_name_of(ast: DeriveInput) -> Option<String> {
    match module_of(wanted_attrs(ast)) {
        Some(name) => Some(name),
        None => named_value_of(ast.attrs@, "module"@),
    }
}

/// The tag of a declaration: that of the first `tag` option, or else of the
/// first attribute `#[tag = "..."]`.
pub open spec fn tag_name_of(ast: DeriveInput) -> Option<String> {
    match tag_of(wanted_attrs(ast)) {
        Some(name) => Some(name),
        None => named_value_of(ast.attrs@, "tag"@),
    }
}

/// The value of the first attribute `#[name = "value"]` among `attrs`.
pub fn find_named_value(attrs: &Vec<Attribute>, name: &str) -> (value: Option<String>)
    ensures
        value == named_value_of(attrs@, name@),
{
    let mut i: usize = 0;
    proof {
        assert(attrs@.skip(0) =~= attrs@);
    }
    while i < attrs.len()
        invariant
            i <= attrs.len(),
            named_value_of(attrs@, name@) == named_value_of(attrs@.skip(i as int), name@),
        decreases attrs.len() - i,
    {
        proof {
            assert(attrs@.skip(i as int).drop_first() =~= attrs@.skip(i + 1));
        }
        let attr = &attrs[i];
        if attr.path.len() == 1 && same_text(&attr.path[0], name) {
            if let Some(Meta::NameValue(Lit::Str(value))) = &attr.meta {
                return Some(value.clone());
            }
        }
        i += 1;
    }
    None
}

/// How the types of `fields` are transcoded, in declaration order.
pub open spec fn field_shapes(fields: Seq<Field>) -> Seq<ShapeView> {
    Seq::new(fields.len(), |k: int| fields[k].ty@)
}

/// How the types of `fields` are transcoded, in declaration order.
pub fn field_types(fields: &Fields) -> (types: Vec<Shape>)
    ensures
        shape_views(types) == field_shapes(fields_of(*fields)),
{
    let mut types: Vec<Shape> = Vec::new();
    let mut k: usize = 0;
    while k < fields.len()
        invariant
            k <= fields_of(*fields).len(),
            types@.len() == k,
            forall|j: int|
                0 <= j < k ==> shape_view(#[trigger] types@[j]) == fields_of(*fields)[j].ty@,
        decreases fields_of(*fields).len() - k,
    {
        types.push(copy_shape(&fields.get(k).ty));
        k += 1;
    }
    proof {
        assert(shape_views(types) =~= field_shapes(fields_of(*fields)));
    }
    types
}

/// The name of the atom that the host sees for `name`: the bytes of the
/// text.
pub fn atom_bytes(name: &String) -> (bytes: Vec<u8>)
    ensures
        bytes@ == encode_utf8(name@),
{
    copy_bytes(name.as_str().as_bytes())
}

/// The options of one declaration, with what else the generated code names.
#[derive(Debug)]
pub struct Context {
    pub attrs: Vec<RustlerAttr>,
    /// The name of the declared type.
    pub ident: String,
    /// Whether the declared type has a lifetime parameter.
    pub has_lifetime: bool,
    /// Whether the declaration is a tuple struct.
    pub is_tuple_struct: bool,
}

impl Context {
    /// Reads the options off the attributes of a declaration and applies the
    /// default: with neither `encode` nor `decode` given, both are generated.
    ///
    /// The attributes have to be such that their options can be read;
    /// `try_from_ast` tells whether they are.
    pub fn from_ast(ast: &DeriveInput) -> (ctx: Context)
        requires
            declared_attrs_of(ast.attrs@) is Ok,
        ensures
            ctx.attrs@ == wanted_attrs(*ast),
            ctx.ident == ast.ident,
            ctx.has_lifetime == (ast.lifetimes == 1),
            ctx.is_tuple_struct == is_tuple_struct(ast.data),
    {
        match Context::try_from_ast(ast) {
            Ok(ctx) => ctx,
            Err(_) => unreached(),
        }
    }

    /// Reads the options off the attributes of a declaration, as `from_ast`
    /// does, or says why they cannot be read.
    pub fn try_from_ast(ast: &DeriveInput) -> (ctx: Result<Context, DeclarationError>)
        ensures
            match declared_attrs_of(ast.attrs@) {
                Err(e) => ctx == Err::<Context, DeclarationError>(e),
                Ok(declared) => {
                    &&& ctx is Ok
                    &&& ctx->Ok_0.attrs@ == with_default_directions(declared)
                    &&& ctx->Ok_0.ident == ast.ident
                    &&& ctx->Ok_0.has_lifetime == (ast.lifetimes == 1)
                    &&& ctx->Ok_0.is_tuple_struct == is_tuple_struct(ast.data)
                },
            },
    {
        let attrs = &ast.attrs;
        let mut found: Vec<RustlerAttr> = Vec::new();
        let mut i: usize = 0;
        while i < attrs.len()
            invariant
                i <= attrs.len(),
                attrs@ == ast.attrs@,
                declared_attrs_of(attrs@.take(i as int)) == Ok::<
                    Seq<RustlerAttr>,
                    DeclarationError,
                >(found@),
            decreases attrs.len() - i,
        {
            proof {
                assert(attrs@.take(i + 1).drop_last() =~= attrs@.take(i as int));
            }
            match Context::try_get_rustler_attrs(&attrs[i]) {
                None => {},
                Some(Err(e)) => {
                    proof {
                        lemma_declared_attrs_error(attrs@, i + 1);
                    }
                    return Err(e);
                },
                Some(Ok(mut more)) => {
                    found.append(&mut more);
                },
            }
            i += 1;
        }
        proof {
            assert(attrs@.take(i as int) =~= attrs@);
        }
        if !Context::encode_decode_attr_set(found.as_slice()) {
            found.push(RustlerAttr::Encode);
            found.push(RustlerAttr::Decode);
        }
        let is_tuple_struct = match &ast.data {
            Data::Struct(Fields::Unnamed(_)) => true,
            _ => false,
        };
        Ok(
            Context {
                attrs: found,
                ident: ast.ident.clone(),
                has_lifetime: ast.lifetimes == 1,
                is_tuple_struct,
            },
        )
    }

    /// Whether an encoder is to be generated.
    pub fn encode(&self) -> (wanted: bool)
        ensures
            wanted == has_encode(self.attrs@),
    {
        let mut i: usize = 0;
        while i < self.attrs.len()
            invariant
                i <= self.attrs.len(),
                forall|k: int| 0 <= k < i ==> !(self.attrs@[k] is Encode),
            decreases self.attrs.len() - i,
        {
            if let RustlerAttr::Encode = self.attrs[i] {
                return true;
            }
            i += 1;
        }
        false
    }

    /// Whether a decoder is to be generated.
    pub fn decode(&self) -> (wanted: bool)
        ensures
            wanted == has_decode(self.attrs@),
    {
        let mut i: usize = 0;
        while i < self.attrs.len()
            invariant
                i <= self.attrs.len(),
                forall|k: int| 0 <= k < i ==> !(self.attrs@[k] is Decode),
            decreases self.attrs.len() - i,
        {
            if let RustlerAttr::Decode = self.attrs[i] {
                return true;
            }
            i += 1;
        }
        false
    }

    /// Whether `attrs` names a direction at all.
    pub fn encode_decode_attr_set(attrs: &[RustlerAttr]) -> (set: bool)
        ensures
            set == (has_encode(attrs@) || has_decode(attrs@)),
    {
        let mut i: usize = 0;
        while i < attrs.len()
            invariant
                i <= attrs.len(),
                forall|k: int| 0 <= k < i ==> !(attrs@[k] is Encode) && !(attrs@[k] is Decode),
            decreases attrs.len() - i,
        {
            match attrs[i] {
                RustlerAttr::Encode => {
                    return true;
                },
                RustlerAttr::Decode => {
                    return true;
                },
                _ => {},
            }
            i += 1;
        }
        false
    }

    /// The module name given by the first `module = "..."` option.
    pub fn module(&self) -> (name: Option<String>)
        ensures
            name == module_of(self.attrs@),
    {
        let mut i: usize = 0;
        proof {
            assert(self.attrs@.skip(0) =~= self.attrs@);
        }
        while i < self.attrs.len()
            invariant
                i <= self.attrs.len(),
                module_of(self.attrs@) == module_of(self.attrs@.skip(i as int)),
            decreases self.attrs.len() - i,
        {
            proof {
                assert(self.attrs@.skip(i as int).drop_first() =~= self.attrs@.skip(i + 1));
            }
            if let RustlerAttr::Module(name) = &self.attrs[i] {
                return Some(name.clone());
            }
            i += 1;
        }
        None
    }

    /// The tag given by the first `tag = "..."` option.
    pub fn tag(&self) -> (name: Option<String>)
        ensures
            name == tag_of(self.attrs@),
    {
        let mut i: usize = 0;
        proof {
            assert(self.attrs@.skip(0) =~= self.attrs@);
        }
        while i < self.attrs.len()
            invariant
                i <= self.attrs.len(),
                tag_of(self.attrs@) == tag_of(self.attrs@.skip(i as int)),
            decreases self.attrs.len() - i,
        {
            proof {
                assert(self.attrs@.skip(i as int).drop_first() =~= self.attrs@.skip(i + 1));
            }
            if let RustlerAttr::Tag(name) = &self.attrs[i] {
                return Some(name.clone());
            }
            i += 1;
        }
        None
    }

    /// The options of one attribute, if it is a `rustler` attribute.
    ///
    /// The attribute has to be another one or such that its options can be
    /// read; `try_get_rustler_attrs` tells whether it is.
    pub fn get_rustler_attrs(attr: &Attribute) -> (found: Option<Vec<RustlerAttr>>)
        requires
            !(rustler_attrs_of(*attr) matches Some(Err(_))),
        ensures
            match rustler_attrs_of(*attr) {
                Some(Ok(list)) => found is Some && found->Some_0@ == list,
                _ => found is None,
            },
    {
        match Context::try_get_rustler_attrs(attr) {
            None => None,
            Some(Ok(list)) => Some(list),
            Some(Err(_)) => unreached(),
        }
    }

    /// The options of one attribute, if it is a `rustler` attribute, or why
    /// they cannot be read.
    pub fn try_get_rustler_attrs(attr: &Attribute) -> (found: Option<
        Result<Vec<RustlerAttr>, DeclarationError>,
    >)
        ensures
            match rustler_attrs_of(*attr) {
                None => found is None,
                Some(Err(e)) => found == Some(Err::<Vec<RustlerAttr>, DeclarationError>(e)),
                Some(Ok(list)) => found is Some && found->Some_0 is Ok
                    && found->Some_0->Ok_0@ == list,
            },
    {
        if attr.path.len() == 1 && same_text(&attr.path[0], "rustler") {
            match &attr.meta {
                None => Some(Err(DeclarationError::UnparsableMeta)),
                Some(Meta::List(list)) => Some(Context::try_parse_attribute_list(list)),
                Some(_) => Some(Err(DeclarationError::UnexpectedMeta)),
            }
        } else {
            None
        }
    }

    /// The options of the arguments of one `rustler(...)`, in order.
    ///
    /// Every argument has to stand for an option; `try_parse_attribute_list`
    /// tells whether each does.
    pub fn parse_attribute_list(list: &Vec<NestedMeta>) -> (parsed: Vec<RustlerAttr>)
        requires
            attribute_list_of(list@) is Ok,
        ensures
            parsed@ == attribute_list_of(list@)->Ok_0,
    {
        match Context::try_parse_attribute_list(list) {
            Ok(parsed) => parsed,
            Err(_) => unreached(),
        }
    }

    /// The options of the arguments of one `rustler(...)`, in order, or the
    /// error of the first argument that stands for none.
    pub fn try_parse_attribute_list(list: &Vec<NestedMeta>) -> (parsed: Result<
        Vec<RustlerAttr>,
        DeclarationError,
    >)
        ensures
            match attribute_list_of(list@) {
                Err(e) => parsed == Err::<Vec<RustlerAttr>, DeclarationError>(e),
                Ok(attrs) => parsed is Ok && parsed->Ok_0@ == attrs,
            },
    {
        let mut out: Vec<RustlerAttr> = Vec::new();
        let mut i: usize = 0;
        while i < list.len()
            invariant
                i <= list.len(),
                attribute_list_of(list@.take(i as int)) == Ok::<
                    Seq<RustlerAttr>,
                    DeclarationError,
                >(out@),
            decreases list.len() - i,
        {
            proof {
                assert(list@.take(i + 1).drop_last() =~= list@.take(i as int));
            }
            match Context::try_parse_attribute(&list[i]) {
                Err(e) => {
                    proof {
                        lemma_attribute_list_error(list@, i + 1);
                    }
                    return Err(e);
                },
                Ok(attr) => {
                    out.push(attr);
                },
            }
            i += 1;
        }
        proof {
            assert(list@.take(i as int) =~= list@);
        }
        Ok(out)
    }

    /// The option that one argument of `rustler(...)` stands for.
    ///
    /// The argument has to stand for one: `encode`, `decode`, or `module`
    /// or `tag` with a string. `try_parse_attribute` tells whether it does.
    pub fn parse_attribute(meta: &NestedMeta) -> (parsed: RustlerAttr)
        requires
            attribute_of(*meta) is Ok,
        ensures
            parsed == attribute_of(*meta)->Ok_0,
    {
        match Context::try_parse_attribute(meta) {
            Ok(parsed) => parsed,
            Err(_) => unreached(),
        }
    }

    /// The option that one argument of `rustler(...)` stands for, or why it
    /// stands for none.
    pub fn try_parse_attribute(meta: &NestedMeta) -> (parsed: Result<
        RustlerAttr,
        DeclarationError,
    >)
        ensures
            parsed == attribute_of(*meta),
    {
        match meta {
            NestedMeta::Lit(_) => Err(DeclarationError::UnexpectedLit),
            NestedMeta::Path(name) => {
                if same_text(name, "encode") {
                    Ok(RustlerAttr::Encode)
                } else if same_text(name, "decode") {
                    Ok(RustlerAttr::Decode)
                } else {
                    Err(DeclarationError::UnexpectedPath(name.clone()))
                }
            },
            NestedMeta::NameValue(name, lit) => {
                if same_text(name, "module") {
                    match lit {
                        Lit::Str(module) => Ok(RustlerAttr::Module(module.clone())),
                        Lit::Other => Err(DeclarationError::CannotParseModule),
                    }
                } else if same_text(name, "tag") {
                    match lit {
                        Lit::Str(tag) => Ok(RustlerAttr::Tag(tag.clone())),
                        Lit::Other => Err(DeclarationError::CannotParseTag),
                    }
                } else {
                    Err(DeclarationError::UnexpectedKey(name.clone()))
                }
            },
            NestedMeta::List(_) => Err(DeclarationError::UnexpectedList),
        }
    }
}

/// An error among the first `n` arguments is the error of the whole list.
proof fn lemma_attribute_list_error(list: Seq<NestedMeta>, n: int)
    requires
        0 <= n <= list.len(),
        attribute_list_of(list.take(n)) is Err,
    ensures
        attribute_list_of(list) == attribute_list_of(list.take(n)),
    decreases list.len() - n,
{
    if n < list.len() {
        assert(list.take(n + 1).drop_last() =~= list.take(n));
        lemma_attribute_list_error(list, n + 1);
    } else {
        assert(list.take(n) =~= list);
    }
}

/// An error among the first `n` attributes is the error of the declaration.
proof fn lemma_declared_attrs_error(attrs: Seq<Attribute>, n: int)
    requires
        0 <= n <= attrs.len(),
        declared_attrs_of(attrs.take(n)) is Err,
    ensures
        declared_attrs_of(attrs) == declared_attrs_of(attrs.take(n)),
    decreases attrs.len() - n,
{
    if n < attrs.len() {
        assert(attrs.take(n + 1).drop_last() =~= attrs.take(n));
        lemma_declared_attrs_error(attrs, n + 1);
    } else {
        assert(attrs.take(n) =~= attrs);
    }
}

} // verus!
