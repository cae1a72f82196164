use rustler::ast::{Attribute, Data, DeriveInput, Field, Fields, Lit, Meta, NestedMeta, Variant};
use rustler::codec::{IntKind, MapField, Native, Shape};
use rustler::context::{Context, RustlerAttr};
use rustler::error::{DeclarationError, NifError};
use rustler::host::Host;
use rustler::transcoder::Transcoder;
use rustler::types::integer::make_int;
use rustler::types::tuple::make_tuple;
use rustler::unit_enum;
use rustler::{
    check, generate, nif_map, nif_record, nif_struct, nif_tuple, nif_unit_enum, nif_untagged_enum,
    Derive,
};

fn text(s: &str) -> String {
    String::from(s)
}

fn named(ident: &str, ty: Shape) -> Field {
    Field { ident: Some(text(ident)), key: None, ty }
}

fn unnamed(ty: Shape) -> Field {
    Field { ident: None, key: None, ty }
}

fn i32_shape() -> Shape {
    Shape::Int(IntKind::I32)
}

fn rustler_attr(nested: Vec<NestedMeta>) -> Attribute {
    Attribute { path: vec![text("rustler")], meta: Some(Meta::List(nested)) }
}

fn value_attr(name: &str, value: &str) -> Attribute {
    Attribute { path: vec![text(name)], meta: Some(Meta::NameValue(Lit::Str(text(value)))) }
}

fn point(attrs: Vec<Attribute>) -> DeriveInput {
    DeriveInput {
        attrs,
        ident: text("Point"),
        lifetimes: 0,
        data: Data::Struct(Fields::Named(vec![named("x", i32_shape()), named("y", i32_shape())])),
    }
}

fn pair(attrs: Vec<Attribute>) -> DeriveInput {
    DeriveInput {
        attrs,
        ident: text("Pair"),
        lifetimes: 0,
        data: Data::Struct(Fields::Unnamed(vec![unnamed(i32_shape()), unnamed(i32_shape())])),
    }
}

fn unit_variant(ident: &str) -> Variant {
    Variant { ident: text(ident), fields: Fields::Unit }
}

fn unit_enum_decl(idents: &[&str]) -> DeriveInput {
    DeriveInput {
        attrs: vec![],
        ident: text("UnitEnum"),
        lifetimes: 0,
        data: Data::Enum(idents.iter().map(|i| unit_variant(i)).collect()),
    }
}

fn shapes_of(t: &Transcoder) -> (Option<&Shape>, Option<&Shape>) {
    (t.decoder.as_ref().map(|d| &d.shape), t.encoder.as_ref().map(|e| &e.shape))
}

#[test]
fn tuple_derive_generates_both_directions_by_default() {
    let generated = nif_tuple(&pair(vec![]));
    let expected = Shape::Tuple(vec![i32_shape(), i32_shape()]);
    assert_eq!(shapes_of(&generated), (Some(&expected), Some(&expected)));
    let decoder = generated.decoder.unwrap();
    assert_eq!(decoder.ident, "Pair");
    assert!(!decoder.has_lifetime);
}

#[test]
fn tuple_derive_transcodes_a_pair() {
    let generated = nif_tuple(&pair(vec![]));
    let mut host = Host::new();
    let pid = host.spawn();
    let mut env = host.enter(pid);
    let encoder = generated.encoder.unwrap();
    let decoder = generated.decoder.unwrap();
    let value = Native::Struct(vec![Native::Int(33), Native::Int(21)]);
    assert!(encoder.accepts(&value));
    let term = encoder.encode(&value, &mut env);
    assert_eq!(decoder.decode(&env, term), Ok(value));
    let one = make_int(&mut env, 1);
    let three = make_tuple(&mut env, &[one, one, one]);
    assert_eq!(decoder.decode(&env, three), Err(NifError::ArityMismatch));
}

#[test]
fn encode_alone_disables_the_decoder() {
    let attrs = vec![rustler_attr(vec![NestedMeta::Path(text("encode"))])];
    let generated = nif_tuple(&pair(attrs));
    assert!(generated.decoder.is_none());
    assert!(generated.encoder.is_some());
}

#[test]
fn decode_alone_disables_the_encoder() {
    let attrs = vec![rustler_attr(vec![NestedMeta::Path(text("decode"))])];
    let generated = nif_tuple(&pair(attrs));
    assert!(generated.decoder.is_some());
    assert!(generated.encoder.is_none());
}

#[test]
fn both_directions_can_be_named() {
    let attrs = vec![
        rustler_attr(vec![NestedMeta::Path(text("encode"))]),
        Attribute { path: vec![text("derive")], meta: None },
        rustler_attr(vec![NestedMeta::Path(text("decode"))]),
    ];
    let generated = nif_tuple(&pair(attrs));
    assert!(generated.decoder.is_some());
    assert!(generated.encoder.is_some());
}

#[test]
fn context_reads_options_in_order() {
    let attrs = vec![
        rustler_attr(vec![
            NestedMeta::NameValue(text("module"), Lit::Str(text("Elixir.A"))),
            NestedMeta::Path(text("decode")),
        ]),
        rustler_attr(vec![NestedMeta::NameValue(text("tag"), Lit::Str(text("t")))]),
    ];
    let ctx = Context::from_ast(&point(attrs));
    assert_eq!(
        ctx.attrs,
        vec![
            RustlerAttr::Module(text("Elixir.A")),
            RustlerAttr::Decode,
            RustlerAttr::Tag(text("t")),
        ]
    );
    assert!(ctx.decode());
    assert!(!ctx.encode());
    assert_eq!(ctx.module(), Some(text("Elixir.A")));
    assert_eq!(ctx.tag(), Some(text("t")));
    assert_eq!(ctx.ident, "Point");
    assert!(!ctx.is_tuple_struct);
}

#[test]
fn context_applies_the_default_directions() {
    let attrs = vec![rustler_attr(vec![NestedMeta::NameValue(
        text("tag"),
        Lit::Str(text("t")),
    )])];
    let ctx = Context::from_ast(&pair(attrs));
    assert_eq!(
        ctx.attrs,
        vec![RustlerAttr::Tag(text("t")), RustlerAttr::Encode, RustlerAttr::Decode]
    );
    assert!(ctx.is_tuple_struct);
    assert!(Context::encode_decode_attr_set(&ctx.attrs));
    assert!(!Context::encode_decode_attr_set(&[RustlerAttr::Tag(text("t"))]));
    assert!(!Context::encode_decode_attr_set(&[]));
    assert!(Context::encode_decode_attr_set(&[RustlerAttr::Decode]));
}

#[test]
fn attributes_of_other_names_are_passed_over() {
    let attr = Attribute { path: vec![text("doc")], meta: None };
    assert_eq!(Context::get_rustler_attrs(&attr), None);
    assert_eq!(Context::try_get_rustler_attrs(&attr), None);
    let attr = Attribute { path: vec![text("rustler"), text("x")], meta: None };
    assert_eq!(Context::get_rustler_attrs(&attr), None);
}

#[test]
fn unparsable_meta_is_refused() {
    let attrs = vec![Attribute { path: vec![text("rustler")], meta: None }];
    assert_eq!(check(Derive::NifTuple, &pair(attrs)).unwrap_err(), DeclarationError::UnparsableMeta);
}

#[test]
fn rustler_attribute_that_is_no_list_is_refused() {
    let attrs = vec![Attribute { path: vec![text("rustler")], meta: Some(Meta::Path) }];
    assert_eq!(check(Derive::NifTuple, &pair(attrs)).unwrap_err(), DeclarationError::UnexpectedMeta);
    let attrs = vec![value_attr("rustler", "x")];
    assert_eq!(check(Derive::NifTuple, &pair(attrs)).unwrap_err(), DeclarationError::UnexpectedMeta);
}

#[test]
fn literal_argument_is_refused() {
    let attrs = vec![rustler_attr(vec![NestedMeta::Lit(Lit::Str(text("x")))])];
    assert_eq!(check(Derive::NifTuple, &pair(attrs)).unwrap_err(), DeclarationError::UnexpectedLit);
}

#[test]
fn unknown_bare_argument_is_refused() {
    let attrs = vec![rustler_attr(vec![NestedMeta::Path(text("both"))])];
    assert_eq!(
        check(Derive::NifTuple, &pair(attrs)).unwrap_err(),
        DeclarationError::UnexpectedPath(text("both"))
    );
}

#[test]
fn unknown_argument_with_value_is_refused() {
    let attrs = vec![rustler_attr(vec![NestedMeta::NameValue(
        text("name"),
        Lit::Str(text("x")),
    )])];
    assert_eq!(
        check(Derive::NifTuple, &pair(attrs)).unwrap_err(),
        DeclarationError::UnexpectedKey(text("name"))
    );
}

#[test]
fn module_and_tag_need_string_literals() {
    let attrs = vec![rustler_attr(vec![NestedMeta::NameValue(text("module"), Lit::Other)])];
    assert_eq!(check(Derive::NifTuple, &pair(attrs)).unwrap_err(), DeclarationError::CannotParseModule);
    let attrs = vec![rustler_attr(vec![NestedMeta::NameValue(text("tag"), Lit::Other)])];
    assert_eq!(check(Derive::NifTuple, &pair(attrs)).unwrap_err(), DeclarationError::CannotParseTag);
}

#[test]
fn nested_list_is_refused() {
    let attrs = vec![rustler_attr(vec![NestedMeta::List(text("encode"))])];
    assert_eq!(check(Derive::NifTuple, &pair(attrs)).unwrap_err(), DeclarationError::UnexpectedList);
}

#[test]
fn first_bad_argument_decides() {
    let attrs = vec![rustler_attr(vec![
        NestedMeta::Path(text("encode")),
        NestedMeta::List(text("x")),
        NestedMeta::Lit(Lit::Other),
    ])];
    assert_eq!(check(Derive::NifTuple, &pair(attrs)).unwrap_err(), DeclarationError::UnexpectedList);
}

#[test]
fn tuple_derive_needs_a_struct() {
    let decl = unit_enum_decl(&["A"]);
    assert_eq!(check(Derive::NifTuple, &decl).unwrap_err(), DeclarationError::NotAStruct);
    assert_eq!(check(Derive::NifRecord, &decl).unwrap_err(), DeclarationError::NotAStruct);
    assert_eq!(check(Derive::NifMap, &decl).unwrap_err(), DeclarationError::NotAStruct);
    assert_eq!(check(Derive::NifStruct, &decl).unwrap_err(), DeclarationError::NotAStruct);
    let union = DeriveInput { attrs: vec![], ident: text("U"), lifetimes: 0, data: Data::Union };
    assert_eq!(check(Derive::NifTuple, &union).unwrap_err(), DeclarationError::NotAStruct);
}

#[test]
fn enum_derives_need_an_enum() {
    assert_eq!(check(Derive::NifUnitEnum, &pair(vec![])).unwrap_err(), DeclarationError::NotAnEnum);
    assert_eq!(check(Derive::NifUntaggedEnum, &pair(vec![])).unwrap_err(), DeclarationError::NotAnEnum);
    let union = DeriveInput { attrs: vec![], ident: text("U"), lifetimes: 0, data: Data::Union };
    assert_eq!(check(Derive::NifUnitEnum, &union).unwrap_err(), DeclarationError::NotAnEnum);
}

#[test]
fn more_than_one_lifetime_is_refused() {
    let mut decl = pair(vec![]);
    decl.lifetimes = 2;
    assert_eq!(check(Derive::NifTuple, &decl).unwrap_err(), DeclarationError::TooManyLifetimes);
    let mut decl = unit_enum_decl(&["A"]);
    decl.lifetimes = 2;
    assert_eq!(check(Derive::NifUnitEnum, &decl).unwrap_err(), DeclarationError::TooManyLifetimes);
}

#[test]
fn one_lifetime_is_recorded() {
    let mut decl = pair(vec![]);
    decl.lifetimes = 1;
    let generated = nif_tuple(&decl);
    assert!(generated.decoder.unwrap().has_lifetime);
    assert!(generated.encoder.unwrap().has_lifetime);
}

#[test]
fn unit_struct_is_the_empty_tuple() {
    let decl = DeriveInput {
        attrs: vec![],
        ident: text("Nothing"),
        lifetimes: 0,
        data: Data::Struct(Fields::Unit),
    };
    let generated = nif_tuple(&decl);
    assert_eq!(generated.decoder.unwrap().shape, Shape::Tuple(vec![]));
}

#[test]
fn record_derive_takes_its_tag_from_the_attribute() {
    let generated = nif_record(&pair(vec![value_attr("tag", "record")]));
    let expected = Shape::Record(b"record".to_vec(), vec![i32_shape(), i32_shape()]);
    assert_eq!(shapes_of(&generated), (Some(&expected), Some(&expected)));
}

#[test]
fn record_derive_prefers_the_rustler_option() {
    let attrs = vec![
        value_attr("tag", "outer"),
        rustler_attr(vec![NestedMeta::NameValue(text("tag"), Lit::Str(text("inner")))]),
    ];
    let generated = nif_record(&pair(attrs));
    let expected = Shape::Record(b"inner".to_vec(), vec![i32_shape(), i32_shape()]);
    assert_eq!(generated.decoder.unwrap().shape, expected);
}

#[test]
fn record_derive_without_tag_is_refused() {
    assert_eq!(check(Derive::NifRecord, &pair(vec![])).unwrap_err(), DeclarationError::MissingTag);
    let attrs = vec![Attribute { path: vec![text("tag")], meta: Some(Meta::NameValue(Lit::Other)) }];
    assert_eq!(check(Derive::NifRecord, &pair(attrs)).unwrap_err(), DeclarationError::MissingTag);
}

#[test]
fn map_derive_keys_fields_by_their_identifiers() {
    let generated = nif_map(&point(vec![]));
    let expected = Shape::Struct(
        None,
        vec![
            MapField { key: b"x".to_vec(), shape: i32_shape() },
            MapField { key: b"y".to_vec(), shape: i32_shape() },
        ],
    );
    assert_eq!(shapes_of(&generated), (Some(&expected), Some(&expected)));
}

#[test]
fn map_derive_takes_a_declared_key() {
    let mut decl = point(vec![]);
    if let Data::Struct(Fields::Named(fields)) = &mut decl.data {
        fields[1].key = Some(text("why"));
    }
    let generated = nif_map(&decl);
    let expected = Shape::Struct(
        None,
        vec![
            MapField { key: b"x".to_vec(), shape: i32_shape() },
            MapField { key: b"why".to_vec(), shape: i32_shape() },
        ],
    );
    assert_eq!(generated.encoder.unwrap().shape, expected);
}

#[test]
fn map_derive_needs_named_fields() {
    assert_eq!(check(Derive::NifMap, &pair(vec![])).unwrap_err(), DeclarationError::UnnamedField);
    let attrs = vec![value_attr("module", "Elixir.Pair")];
    assert_eq!(check(Derive::NifStruct, &pair(attrs)).unwrap_err(), DeclarationError::UnnamedField);
}

#[test]
fn map_derive_refuses_fields_that_share_a_key() {
    let mut decl = point(vec![]);
    if let Data::Struct(Fields::Named(fields)) = &mut decl.data {
        fields[1].key = Some(text("x"));
    }
    assert_eq!(check(Derive::NifMap, &decl).unwrap_err(), DeclarationError::DuplicateName);
}

#[test]
fn struct_derive_carries_the_module() {
    let generated = nif_struct(&point(vec![value_attr("module", "Elixir.Point")]));
    let expected = Shape::Struct(
        Some(b"Elixir.Point".to_vec()),
        vec![
            MapField { key: b"x".to_vec(), shape: i32_shape() },
            MapField { key: b"y".to_vec(), shape: i32_shape() },
        ],
    );
    assert_eq!(shapes_of(&generated), (Some(&expected), Some(&expected)));
}

#[test]
fn struct_derive_without_module_is_refused() {
    assert_eq!(check(Derive::NifStruct, &point(vec![])).unwrap_err(), DeclarationError::MissingModule);
}

#[test]
fn struct_derive_refuses_the_reserved_key() {
    let mut decl = point(vec![value_attr("module", "Elixir.Point")]);
    if let Data::Struct(Fields::Named(fields)) = &mut decl.data {
        fields[0].key = Some(text("__struct__"));
    }
    assert_eq!(check(Derive::NifStruct, &decl).unwrap_err(), DeclarationError::DuplicateName);
    decl.attrs = vec![];
    assert!(check(Derive::NifMap, &decl).is_ok());
}

#[test]
fn unit_enum_atoms_are_the_variants_in_snake_case() {
    let generated = nif_unit_enum(&unit_enum_decl(&["FooBar", "Baz"]));
    let expected = Shape::UnitEnum(vec![b"foo_bar".to_vec(), b"baz".to_vec()]);
    assert_eq!(shapes_of(&generated), (Some(&expected), Some(&expected)));
}

#[test]
fn snake_case_splits_words_at_capitals() {
    let variants = vec![
        unit_variant("XMLHttpRequest"),
        unit_variant("already_snake"),
        unit_variant("A"),
    ];
    assert_eq!(
        unit_enum::atoms_of(&variants),
        vec![b"xml_http_request".to_vec(), b"already_snake".to_vec(), b"a".to_vec()]
    );
}

#[test]
fn unit_enum_refuses_variants_with_fields() {
    let mut decl = unit_enum_decl(&["A", "B"]);
    if let Data::Enum(variants) = &mut decl.data {
        variants[1].fields = Fields::Unnamed(vec![unnamed(i32_shape())]);
    }
    assert_eq!(check(Derive::NifUnitEnum, &decl).unwrap_err(), DeclarationError::NonUnitVariant);
    if let Data::Enum(variants) = &mut decl.data {
        variants[1].fields = Fields::Named(vec![]);
    }
    assert_eq!(check(Derive::NifUnitEnum, &decl).unwrap_err(), DeclarationError::NonUnitVariant);
}

#[test]
fn unit_enum_refuses_variants_that_come_to_one_atom() {
    let decl = unit_enum_decl(&["FooBar", "Foo_Bar"]);
    assert_eq!(check(Derive::NifUnitEnum, &decl).unwrap_err(), DeclarationError::DuplicateName);
}

#[test]
fn unit_enum_from_atoms_checks_that_they_differ() {
    let ctx = Context::from_ast(&unit_enum_decl(&[]));
    let atoms = vec![b"a".to_vec(), b"b".to_vec(), b"a".to_vec()];
    assert_eq!(unit_enum::with_atoms(&ctx, &atoms).unwrap_err(), DeclarationError::DuplicateName);
    let atoms = vec![b"a".to_vec(), b"b".to_vec()];
    let generated = unit_enum::with_atoms(&ctx, &atoms).unwrap();
    assert_eq!(generated.decoder.unwrap().shape, Shape::UnitEnum(atoms));
}

#[test]
fn unit_enum_decoder_and_encoder_are_generated_apart() {
    let atoms = vec![b"on".to_vec(), b"off".to_vec()];
    let decoder = unit_enum::gen_decoder(&text("Switch"), &atoms, false);
    let encoder = unit_enum::gen_encoder(&text("Switch"), &atoms, true);
    assert_eq!(decoder.shape, Shape::UnitEnum(atoms.clone()));
    assert_eq!(encoder.shape, Shape::UnitEnum(atoms));
    assert_eq!(decoder.ident, "Switch");
    assert!(!decoder.has_lifetime);
    assert!(encoder.has_lifetime);
}

#[test]
fn untagged_enum_takes_what_the_variants_hold() {
    let decl = DeriveInput {
        attrs: vec![],
        ident: text("UntaggedEnum"),
        lifetimes: 0,
        data: Data::Enum(vec![
            Variant {
                ident: text("Foo"),
                fields: Fields::Unnamed(vec![unnamed(Shape::Int(IntKind::U32))]),
            },
            Variant { ident: text("Bar"), fields: Fields::Unnamed(vec![unnamed(Shape::Binary)]) },
        ]),
    };
    let generated = nif_untagged_enum(&decl);
    let expected = Shape::Untagged(vec![Shape::Int(IntKind::U32), Shape::Binary]);
    assert_eq!(shapes_of(&generated), (Some(&expected), Some(&expected)));
}

#[test]
fn untagged_enum_refuses_variants_that_do_not_hold_one_value() {
    let held = |fields: Fields| DeriveInput {
        attrs: vec![],
        ident: text("E"),
        lifetimes: 0,
        data: Data::Enum(vec![Variant { ident: text("A"), fields }]),
    };
    assert_eq!(
        check(Derive::NifUntaggedEnum, &held(Fields::Unit)).unwrap_err(),
        DeclarationError::NotNewtypeVariant
    );
    assert_eq!(
        check(Derive::NifUntaggedEnum, &held(Fields::Unnamed(vec![]))).unwrap_err(),
        DeclarationError::NotNewtypeVariant
    );
    assert_eq!(
        check(Derive::NifUntaggedEnum, &held(Fields::Unnamed(vec![unnamed(i32_shape()), unnamed(i32_shape())]))).unwrap_err(),
        DeclarationError::NotNewtypeVariant
    );
    assert_eq!(
        check(Derive::NifUntaggedEnum, &held(Fields::Named(vec![named("a", i32_shape())]))).unwrap_err(),
        DeclarationError::NotNewtypeVariant
    );
}

#[test]
fn options_are_read_before_the_shape_is_checked() {
    let mut decl = unit_enum_decl(&["A"]);
    decl.attrs = vec![rustler_attr(vec![NestedMeta::Lit(Lit::Other)])];
    assert_eq!(check(Derive::NifTuple, &decl).unwrap_err(), DeclarationError::UnexpectedLit);
}

#[test]
fn derive_checks_and_then_generates() {
    let generated = generate(Derive::NifTuple, &pair(vec![])).unwrap();
    assert_eq!(generated.decoder.unwrap().shape, Shape::Tuple(vec![i32_shape(), i32_shape()]));
    assert_eq!(
        generate(Derive::NifUnitEnum, &pair(vec![])).unwrap_err(),
        DeclarationError::NotAnEnum
    );
    assert_eq!(check(Derive::NifTuple, &pair(vec![])), Ok(()));
    assert_eq!(check(Derive::NifRecord, &pair(vec![])), Err(DeclarationError::MissingTag));
    assert_eq!(check(Derive::NifMap, &point(vec![])), Ok(()));
    assert_eq!(check(Derive::NifStruct, &point(vec![])), Err(DeclarationError::MissingModule));
    assert_eq!(check(Derive::NifUnitEnum, &unit_enum_decl(&["A", "B"])), Ok(()));
    assert_eq!(
        check(Derive::NifUntaggedEnum, &unit_enum_decl(&["A"])),
        Err(DeclarationError::NotNewtypeVariant)
    );
}

#[test]
fn attributes_are_read_where_they_can_be() {
    let good = NestedMeta::NameValue(text("tag"), Lit::Str(text("t")));
    assert_eq!(Context::parse_attribute(&good), RustlerAttr::Tag(text("t")));
    assert_eq!(Context::try_parse_attribute(&good), Ok(RustlerAttr::Tag(text("t"))));
    let bad = NestedMeta::Path(text("both"));
    assert_eq!(
        Context::try_parse_attribute(&bad),
        Err(DeclarationError::UnexpectedPath(text("both")))
    );
    let list = vec![NestedMeta::Path(text("encode")), good];
    assert_eq!(
        Context::parse_attribute_list(&list),
        vec![RustlerAttr::Encode, RustlerAttr::Tag(text("t"))]
    );
    let attr = rustler_attr(list);
    assert_eq!(
        Context::get_rustler_attrs(&attr),
        Some(vec![RustlerAttr::Encode, RustlerAttr::Tag(text("t"))])
    );
    assert_eq!(
        Context::try_parse_attribute_list(&vec![bad, NestedMeta::Lit(Lit::Other)]),
        Err(DeclarationError::UnexpectedPath(text("both")))
    );
    assert_eq!(
        Context::try_from_ast(&pair(vec![rustler_attr(vec![NestedMeta::Lit(Lit::Other)])]))
            .unwrap_err(),
        DeclarationError::UnexpectedLit
    );
}

#[test]
fn unit_enum_decorator_in_both_forms() {
    let decl = unit_enum_decl(&["FooBar", "Baz"]);
    let generated = unit_enum::transcoder_decorator(&decl);
    let expected = Shape::UnitEnum(vec![b"foo_bar".to_vec(), b"baz".to_vec()]);
    assert_eq!(shapes_of(&generated), (Some(&expected), Some(&expected)));
    assert_eq!(
        unit_enum::try_transcoder_decorator(&pair(vec![])).unwrap_err(),
        DeclarationError::NotAnEnum
    );
    assert_eq!(
        rustler::tuple::try_transcoder_decorator(&decl).unwrap_err(),
        DeclarationError::NotAStruct
    );
    let generated = rustler::tuple::transcoder_decorator(&pair(vec![]));
    assert!(generated.decoder.is_some());
}

#[test]
fn generated_encoder_echoes_what_is_no_variant() {
    let generated = nif_unit_enum(&unit_enum_decl(&["FooBar", "Baz"]));
    let mut host = Host::new();
    let pid = host.spawn();
    let mut env = host.enter(pid);
    let unknown = rustler::types::atom::make_atom(&mut env, b"somethingelse");
    let decoded = generated.decoder.unwrap().decode(&env, unknown).unwrap();
    let shown = generated.encoder.unwrap().encode_outcome(&decoded, &mut env);
    assert_eq!(rustler::types::atom::atom_name(&env, shown), Ok(b"invalid_variant".to_vec()));
}
