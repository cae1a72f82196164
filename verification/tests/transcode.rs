use rustler::codec::{IntKind, MapField, Native, Shape};
use rustler::error::NifError;
use rustler::host::Host;
use rustler::shape::{conforms, copy_shape, is_well_formed, leaf_shape};
use rustler::transcoder::{decode, encode, encode_outcome};
use rustler::types::atom::make_atom;
use rustler::types::binary::make_binary;
use rustler::types::integer::{get_int, make_int};
use rustler::types::list::{get_list, make_list};
use rustler::types::map::{map_from_arrays, map_get};
use rustler::types::tuple::{get_tuple, make_tuple};
use rustler::types::{NifEnv, NifTerm};

fn call_env() -> (Host, NifEnv) {
    let mut host = Host::new();
    let pid = host.spawn();
    let env = host.enter(pid);
    (host, env)
}

fn i32_shape() -> Shape {
    Shape::Int(IntKind::I32)
}

fn point_shape() -> Shape {
    Shape::Struct(
        None,
        vec![
            MapField { key: b"x".to_vec(), shape: i32_shape() },
            MapField { key: b"y".to_vec(), shape: i32_shape() },
        ],
    )
}

fn pair_shape() -> Shape {
    Shape::Tuple(vec![i32_shape(), i32_shape()])
}

fn ints(env: &mut NifEnv, values: &[i64]) -> Vec<NifTerm> {
    let mut terms = Vec::new();
    for v in values {
        terms.push(make_int(env, *v));
    }
    terms
}

#[test]
fn point_encodes_as_map_of_its_fields() {
    let (_host, mut env) = call_env();
    let point = Native::Struct(vec![Native::Int(33), Native::Int(21)]);
    assert!(conforms(&point_shape(), &point));
    let term = encode(&point_shape(), &point, &mut env);
    assert!(env.holds(term));
    let x = map_get(&env, term, b"x").unwrap().unwrap();
    let y = map_get(&env, term, b"y").unwrap().unwrap();
    assert_eq!(get_int(&env, x), Ok(33));
    assert_eq!(get_int(&env, y), Ok(21));
    assert_eq!(map_get(&env, term, b"z"), Ok(None));
}

#[test]
fn point_decodes_from_map() {
    let (_host, mut env) = call_env();
    let values = ints(&mut env, &[33, 21]);
    let keys = vec![b"x".to_vec(), b"y".to_vec()];
    let term = map_from_arrays(&mut env, &keys, &values).unwrap();
    assert_eq!(
        decode(&point_shape(), &env, term),
        Ok(Native::Struct(vec![Native::Int(33), Native::Int(21)]))
    );
}

#[test]
fn point_with_missing_key_is_missing_field() {
    let (_host, mut env) = call_env();
    let values = ints(&mut env, &[33]);
    let keys = vec![b"x".to_vec()];
    let term = map_from_arrays(&mut env, &keys, &values).unwrap();
    assert_eq!(decode(&point_shape(), &env, term), Err(NifError::MissingField));
}

#[test]
fn missing_key_wins_over_a_field_that_does_not_decode() {
    let (_host, mut env) = call_env();
    let bad = make_binary(&mut env, b"not a number");
    let keys = vec![b"x".to_vec()];
    let term = map_from_arrays(&mut env, &keys, &[bad]).unwrap();
    assert_eq!(decode(&point_shape(), &env, term), Err(NifError::MissingField));
}

#[test]
fn map_ignores_unknown_keys() {
    let (_host, mut env) = call_env();
    let values = ints(&mut env, &[7, 33, 21]);
    let keys = vec![b"extra".to_vec(), b"x".to_vec(), b"y".to_vec()];
    let term = map_from_arrays(&mut env, &keys, &values).unwrap();
    assert_eq!(
        decode(&point_shape(), &env, term),
        Ok(Native::Struct(vec![Native::Int(33), Native::Int(21)]))
    );
}

#[test]
fn map_field_that_does_not_decode_is_bad_arg() {
    let (_host, mut env) = call_env();
    let x = make_int(&mut env, 1);
    let y = make_binary(&mut env, b"two");
    let keys = vec![b"x".to_vec(), b"y".to_vec()];
    let term = map_from_arrays(&mut env, &keys, &[x, y]).unwrap();
    assert_eq!(decode(&point_shape(), &env, term), Err(NifError::BadArg));
}

#[test]
fn map_shape_on_a_term_that_is_no_map_is_bad_arg() {
    let (_host, mut env) = call_env();
    let term = make_int(&mut env, 5);
    assert_eq!(decode(&point_shape(), &env, term), Err(NifError::BadArg));
}

#[test]
fn pair_encodes_as_tuple() {
    let (_host, mut env) = call_env();
    let pair = Native::Struct(vec![Native::Int(33), Native::Int(21)]);
    let term = encode(&pair_shape(), &pair, &mut env);
    let parts = get_tuple(&env, term).unwrap();
    assert_eq!(parts.len(), 2);
    assert_eq!(get_int(&env, parts[0]), Ok(33));
    assert_eq!(get_int(&env, parts[1]), Ok(21));
}

#[test]
fn pair_from_three_tuple_is_arity_mismatch() {
    let (_host, mut env) = call_env();
    let values = ints(&mut env, &[1, 2, 3]);
    let term = make_tuple(&mut env, &values);
    assert_eq!(decode(&pair_shape(), &env, term), Err(NifError::ArityMismatch));
}

#[test]
fn pair_from_one_tuple_is_arity_mismatch() {
    let (_host, mut env) = call_env();
    let values = ints(&mut env, &[1]);
    let term = make_tuple(&mut env, &values);
    assert_eq!(decode(&pair_shape(), &env, term), Err(NifError::ArityMismatch));
}

#[test]
fn arity_is_checked_before_fields() {
    let (_host, mut env) = call_env();
    let a = make_binary(&mut env, b"a");
    let b = make_binary(&mut env, b"b");
    let c = make_binary(&mut env, b"c");
    let term = make_tuple(&mut env, &[a, b, c]);
    assert_eq!(decode(&pair_shape(), &env, term), Err(NifError::ArityMismatch));
}

#[test]
fn pair_round_trip() {
    let (_host, mut env) = call_env();
    let pair = Native::Struct(vec![Native::Int(-5), Native::Int(2147483647)]);
    let term = encode(&pair_shape(), &pair, &mut env);
    assert_eq!(decode(&pair_shape(), &env, term), Ok(pair));
}

#[test]
fn tuple_field_out_of_range_is_bad_arg() {
    let (_host, mut env) = call_env();
    let values = ints(&mut env, &[1, 2147483648]);
    let term = make_tuple(&mut env, &values);
    assert_eq!(decode(&pair_shape(), &env, term), Err(NifError::BadArg));
}

#[test]
fn first_failing_field_decides() {
    let (_host, mut env) = call_env();
    let shape = Shape::Tuple(vec![pair_shape(), i32_shape()]);
    let inner_values = ints(&mut env, &[1, 2, 3]);
    let inner = make_tuple(&mut env, &inner_values);
    let second = make_binary(&mut env, b"x");
    let term = make_tuple(&mut env, &[inner, second]);
    assert_eq!(decode(&shape, &env, term), Err(NifError::ArityMismatch));
}

#[test]
fn int_kinds_have_their_ranges() {
    let (_host, mut env) = call_env();
    let cases: Vec<(IntKind, i64, bool)> = vec![
        (IntKind::U8, 0, true),
        (IntKind::U8, 255, true),
        (IntKind::U8, 256, false),
        (IntKind::U8, -1, false),
        (IntKind::U32, 4294967295, true),
        (IntKind::U32, 4294967296, false),
        (IntKind::U32, -1, false),
        (IntKind::I32, -2147483648, true),
        (IntKind::I32, -2147483649, false),
        (IntKind::I32, 2147483647, true),
        (IntKind::I64, i64::MIN, true),
        (IntKind::I64, i64::MAX, true),
    ];
    for (kind, n, fits) in cases {
        let term = make_int(&mut env, n);
        let decoded = decode(&Shape::Int(kind), &env, term);
        if fits {
            assert_eq!(decoded, Ok(Native::Int(n)));
        } else {
            assert_eq!(decoded, Err(NifError::BadArg));
        }
        assert_eq!(conforms(&Shape::Int(kind), &Native::Int(n)), fits);
    }
}

#[test]
fn record_encodes_with_tag_first() {
    let (_host, mut env) = call_env();
    let shape = Shape::Record(b"record".to_vec(), vec![i32_shape(), i32_shape()]);
    let value = Native::Struct(vec![Native::Int(33), Native::Int(21)]);
    let term = encode(&shape, &value, &mut env);
    let parts = get_tuple(&env, term).unwrap();
    assert_eq!(parts.len(), 3);
    assert_eq!(rustler::types::atom::atom_name(&env, parts[0]), Ok(b"record".to_vec()));
    assert_eq!(get_int(&env, parts[1]), Ok(33));
    assert_eq!(get_int(&env, parts[2]), Ok(21));
    assert_eq!(decode(&shape, &env, term), Ok(value));
}

#[test]
fn record_with_other_tag_is_tag_mismatch() {
    let (_host, mut env) = call_env();
    let shape = Shape::Record(b"record".to_vec(), vec![i32_shape(), i32_shape()]);
    let tag = make_atom(&mut env, b"other");
    let values = ints(&mut env, &[33, 21]);
    let term = make_tuple(&mut env, &[tag, values[0], values[1]]);
    assert_eq!(decode(&shape, &env, term), Err(NifError::TagMismatch));
}

#[test]
fn record_whose_first_element_is_no_atom_is_tag_mismatch() {
    let (_host, mut env) = call_env();
    let shape = Shape::Record(b"record".to_vec(), vec![i32_shape(), i32_shape()]);
    let values = ints(&mut env, &[1, 2, 3]);
    let term = make_tuple(&mut env, &values);
    assert_eq!(decode(&shape, &env, term), Err(NifError::TagMismatch));
}

#[test]
fn empty_tuple_as_record_is_tag_mismatch() {
    let (_host, mut env) = call_env();
    let shape = Shape::Record(b"record".to_vec(), vec![]);
    let term = make_tuple(&mut env, &[]);
    assert_eq!(decode(&shape, &env, term), Err(NifError::TagMismatch));
}

#[test]
fn record_tag_is_checked_before_arity() {
    let (_host, mut env) = call_env();
    let shape = Shape::Record(b"record".to_vec(), vec![i32_shape(), i32_shape()]);
    let tag = make_atom(&mut env, b"other");
    let term = make_tuple(&mut env, &[tag]);
    assert_eq!(decode(&shape, &env, term), Err(NifError::TagMismatch));
}

#[test]
fn record_with_wrong_arity_is_arity_mismatch() {
    let (_host, mut env) = call_env();
    let shape = Shape::Record(b"record".to_vec(), vec![i32_shape(), i32_shape()]);
    let tag = make_atom(&mut env, b"record");
    let values = ints(&mut env, &[33]);
    let term = make_tuple(&mut env, &[tag, values[0]]);
    assert_eq!(decode(&shape, &env, term), Err(NifError::ArityMismatch));
}

#[test]
fn record_on_a_term_that_is_no_tuple_is_bad_arg() {
    let (_host, mut env) = call_env();
    let shape = Shape::Record(b"record".to_vec(), vec![]);
    let term = make_atom(&mut env, b"record");
    assert_eq!(decode(&shape, &env, term), Err(NifError::BadArg));
}

fn add_struct_shape() -> Shape {
    Shape::Struct(
        Some(b"Elixir.AddStruct".to_vec()),
        vec![
            MapField { key: b"lhs".to_vec(), shape: i32_shape() },
            MapField { key: b"rhs".to_vec(), shape: i32_shape() },
        ],
    )
}

#[test]
fn struct_carries_its_module() {
    let (_host, mut env) = call_env();
    let value = Native::Struct(vec![Native::Int(45), Native::Int(123)]);
    let term = encode(&add_struct_shape(), &value, &mut env);
    let module = map_get(&env, term, b"__struct__").unwrap().unwrap();
    assert_eq!(rustler::types::atom::atom_name(&env, module), Ok(b"Elixir.AddStruct".to_vec()));
    let lhs = map_get(&env, term, b"lhs").unwrap().unwrap();
    assert_eq!(get_int(&env, lhs), Ok(45));
    assert_eq!(decode(&add_struct_shape(), &env, term), Ok(value));
}

#[test]
fn struct_of_other_module_is_tag_mismatch() {
    let (_host, mut env) = call_env();
    let module = make_atom(&mut env, b"Elixir.Other");
    let values = ints(&mut env, &[1, 2]);
    let keys = vec![b"__struct__".to_vec(), b"lhs".to_vec(), b"rhs".to_vec()];
    let term = map_from_arrays(&mut env, &keys, &[module, values[0], values[1]]).unwrap();
    assert_eq!(decode(&add_struct_shape(), &env, term), Err(NifError::TagMismatch));
}

#[test]
fn struct_without_module_key_is_missing_field() {
    let (_host, mut env) = call_env();
    let values = ints(&mut env, &[1, 2]);
    let keys = vec![b"lhs".to_vec(), b"rhs".to_vec()];
    let term = map_from_arrays(&mut env, &keys, &values).unwrap();
    assert_eq!(decode(&add_struct_shape(), &env, term), Err(NifError::MissingField));
}

#[test]
fn struct_missing_key_wins_over_other_module() {
    let (_host, mut env) = call_env();
    let module = make_atom(&mut env, b"Elixir.Other");
    let values = ints(&mut env, &[1]);
    let keys = vec![b"__struct__".to_vec(), b"lhs".to_vec()];
    let term = map_from_arrays(&mut env, &keys, &[module, values[0]]).unwrap();
    assert_eq!(decode(&add_struct_shape(), &env, term), Err(NifError::MissingField));
}

fn unit_shape() -> Shape {
    Shape::UnitEnum(vec![b"foo_bar".to_vec(), b"baz".to_vec()])
}

#[test]
fn unit_enum_variants_are_distinct_atoms() {
    let (_host, mut env) = call_env();
    let first = encode(&unit_shape(), &Native::Unit(0), &mut env);
    let second = encode(&unit_shape(), &Native::Unit(1), &mut env);
    let first_name = rustler::types::atom::atom_name(&env, first).unwrap();
    let second_name = rustler::types::atom::atom_name(&env, second).unwrap();
    assert_eq!(first_name, b"foo_bar".to_vec());
    assert_eq!(second_name, b"baz".to_vec());
    assert_ne!(first_name, second_name);
    assert_eq!(decode(&unit_shape(), &env, first), Ok(Native::Unit(0)));
    assert_eq!(decode(&unit_shape(), &env, second), Ok(Native::Unit(1)));
}

#[test]
fn unknown_atom_is_unrecognized_and_no_failure() {
    let (_host, mut env) = call_env();
    let term = make_atom(&mut env, b"somethingelse");
    assert_eq!(decode(&unit_shape(), &env, term), Ok(Native::Unrecognized));
}

#[test]
fn unit_enum_on_a_term_that_is_no_atom_is_bad_arg() {
    let (_host, mut env) = call_env();
    let term = make_int(&mut env, 1);
    assert_eq!(decode(&unit_shape(), &env, term), Err(NifError::BadArg));
}

#[test]
fn unrecognized_is_no_value_to_encode() {
    assert!(!conforms(&unit_shape(), &Native::Unrecognized));
    assert!(!conforms(&unit_shape(), &Native::Unit(2)));
    assert!(conforms(&unit_shape(), &Native::Unit(1)));
}

fn untagged_shape() -> Shape {
    Shape::Untagged(vec![Shape::Int(IntKind::U32), Shape::Binary, add_struct_shape()])
}

#[test]
fn untagged_enum_encodes_what_the_variant_holds() {
    let (_host, mut env) = call_env();
    let number = Native::Variant(0, Box::new(Native::Int(123)));
    let term = encode(&untagged_shape(), &number, &mut env);
    assert_eq!(get_int(&env, term), Ok(123));
    assert_eq!(decode(&untagged_shape(), &env, term), Ok(number));

    let text = Native::Variant(1, Box::new(Native::Binary(b"Hello".to_vec())));
    let term = encode(&untagged_shape(), &text, &mut env);
    assert_eq!(rustler::types::binary::get_binary(&env, term), Ok(b"Hello".to_vec()));
    assert_eq!(decode(&untagged_shape(), &env, term), Ok(text));

    let held = Native::Struct(vec![Native::Int(45), Native::Int(123)]);
    let structure = Native::Variant(2, Box::new(held));
    let term = encode(&untagged_shape(), &structure, &mut env);
    assert_eq!(decode(&untagged_shape(), &env, term), Ok(structure));
}

#[test]
fn untagged_enum_without_match_is_no_matching_variant() {
    let (_host, mut env) = call_env();
    let values = ints(&mut env, &[1, 2, 3, 4]);
    let term = make_tuple(&mut env, &values);
    assert_eq!(decode(&untagged_shape(), &env, term), Err(NifError::NoMatchingVariant));
}

#[test]
fn untagged_enum_takes_first_variant_that_matches() {
    let (_host, mut env) = call_env();
    let shape = Shape::Untagged(vec![Shape::Int(IntKind::I64), Shape::Int(IntKind::U8)]);
    let term = make_int(&mut env, 5);
    assert_eq!(decode(&shape, &env, term), Ok(Native::Variant(0, Box::new(Native::Int(5)))));
    let second = Native::Variant(1, Box::new(Native::Int(5)));
    assert!(conforms(&shape, &second));
    let term = encode(&shape, &second, &mut env);
    assert_eq!(decode(&shape, &env, term), Ok(Native::Variant(0, Box::new(Native::Int(5)))));
}

#[test]
fn untagged_enum_of_int_then_text() {
    let (_host, mut env) = call_env();
    let shape = Shape::Untagged(vec![Shape::Int(IntKind::U32), Shape::Binary]);
    let number = make_int(&mut env, 7);
    let text = make_binary(&mut env, b"seven");
    let negative = make_int(&mut env, -7);
    assert_eq!(decode(&shape, &env, number), Ok(Native::Variant(0, Box::new(Native::Int(7)))));
    assert_eq!(
        decode(&shape, &env, text),
        Ok(Native::Variant(1, Box::new(Native::Binary(b"seven".to_vec()))))
    );
    assert_eq!(decode(&shape, &env, negative), Err(NifError::NoMatchingVariant));
}

#[test]
fn unit_enum_inside_untagged_enum_matches_every_atom() {
    let (_host, mut env) = call_env();
    let shape = Shape::Untagged(vec![unit_shape(), Shape::Binary]);
    let term = make_atom(&mut env, b"unknown");
    assert_eq!(
        decode(&shape, &env, term),
        Ok(Native::Variant(0, Box::new(Native::Unrecognized)))
    );
}

#[test]
fn nested_struct_round_trip() {
    let (_host, mut env) = call_env();
    let shape = Shape::Tuple(vec![point_shape(), unit_shape(), Shape::Binary]);
    let value = Native::Struct(vec![
        Native::Struct(vec![Native::Int(1), Native::Int(2)]),
        Native::Unit(1),
        Native::Binary(vec![0, 255, 7]),
    ]);
    assert!(conforms(&shape, &value));
    let term = encode(&shape, &value, &mut env);
    assert_eq!(decode(&shape, &env, term), Ok(value));
}

#[test]
fn conforms_tells_values_of_other_shapes() {
    assert!(!conforms(&pair_shape(), &Native::Struct(vec![Native::Int(1)])));
    assert!(!conforms(&pair_shape(), &Native::Int(1)));
    assert!(!conforms(
        &pair_shape(),
        &Native::Struct(vec![Native::Int(1), Native::Binary(vec![])])
    ));
    assert!(!conforms(&Shape::Binary, &Native::Int(1)));
    assert!(!conforms(&untagged_shape(), &Native::Variant(3, Box::new(Native::Int(1)))));
    assert!(!conforms(&untagged_shape(), &Native::Variant(1, Box::new(Native::Int(1)))));
}

#[test]
fn shapes_with_names_that_clash_are_not_well_formed() {
    assert!(is_well_formed(&point_shape()));
    assert!(is_well_formed(&add_struct_shape()));
    assert!(is_well_formed(&unit_shape()));
    assert!(is_well_formed(&untagged_shape()));
    assert!(is_well_formed(&Shape::Tuple(vec![])));
    let twice = Shape::UnitEnum(vec![b"a".to_vec(), b"b".to_vec(), b"a".to_vec()]);
    assert!(!is_well_formed(&twice));
    assert!(!is_well_formed(&Shape::Tuple(vec![i32_shape(), twice])));
    let same_keys = Shape::Struct(
        None,
        vec![
            MapField { key: b"x".to_vec(), shape: i32_shape() },
            MapField { key: b"x".to_vec(), shape: i32_shape() },
        ],
    );
    assert!(!is_well_formed(&same_keys));
    let reserved = |module: Option<Vec<u8>>| {
        Shape::Struct(module, vec![MapField { key: b"__struct__".to_vec(), shape: i32_shape() }])
    };
    assert!(is_well_formed(&reserved(None)));
    assert!(!is_well_formed(&reserved(Some(b"M".to_vec()))));
    let nested = Shape::Untagged(vec![Shape::Record(b"r".to_vec(), vec![same_keys])]);
    assert!(!is_well_formed(&nested));
}

#[test]
fn shape_with_keys_that_clash_does_not_round_trip() {
    let (_host, mut env) = call_env();
    let same_keys = Shape::Struct(
        None,
        vec![
            MapField { key: b"x".to_vec(), shape: i32_shape() },
            MapField { key: b"x".to_vec(), shape: i32_shape() },
        ],
    );
    let value = Native::Struct(vec![Native::Int(1), Native::Int(2)]);
    let term = encode(&same_keys, &value, &mut env);
    assert_eq!(
        decode(&same_keys, &env, term),
        Ok(Native::Struct(vec![Native::Int(2), Native::Int(2)]))
    );
}

#[test]
fn copy_of_a_shape_is_the_same_shape() {
    for shape in [pair_shape(), point_shape(), add_struct_shape(), unit_shape(), untagged_shape()] {
        assert_eq!(copy_shape(&shape), shape);
    }
}

fn list_shape() -> Shape {
    Shape::List(Box::new(i32_shape()))
}

#[test]
fn list_keeps_its_elements_in_order() {
    let (_host, mut env) = call_env();
    let value = Native::List(vec![Native::Int(3), Native::Int(1), Native::Int(2)]);
    assert!(conforms(&list_shape(), &value));
    let term = encode(&list_shape(), &value, &mut env);
    let parts = get_list(&env, term).unwrap();
    assert_eq!(parts.len(), 3);
    assert_eq!(get_int(&env, parts[0]), Ok(3));
    assert_eq!(get_int(&env, parts[1]), Ok(1));
    assert_eq!(get_int(&env, parts[2]), Ok(2));
    assert_eq!(decode(&list_shape(), &env, term), Ok(value));
}

#[test]
fn empty_list_round_trip() {
    let (_host, mut env) = call_env();
    let value = Native::List(vec![]);
    let term = encode(&list_shape(), &value, &mut env);
    assert_eq!(get_list(&env, term), Ok(vec![]));
    assert_eq!(decode(&list_shape(), &env, term), Ok(value));
}

#[test]
fn list_is_no_tuple() {
    let (_host, mut env) = call_env();
    let values = ints(&mut env, &[1, 2]);
    let list = make_list(&mut env, &values);
    let tuple = make_tuple(&mut env, &values);
    assert_eq!(decode(&pair_shape(), &env, list), Err(NifError::BadArg));
    assert_eq!(decode(&list_shape(), &env, tuple), Err(NifError::BadArg));
    assert_eq!(get_list(&env, tuple), Err(NifError::BadArg));
    assert_eq!(get_tuple(&env, list), Err(NifError::BadArg));
    assert_eq!(
        decode(&list_shape(), &env, list),
        Ok(Native::List(vec![Native::Int(1), Native::Int(2)]))
    );
}

#[test]
fn first_failing_element_decides() {
    let (_host, mut env) = call_env();
    let shape = Shape::List(Box::new(pair_shape()));
    let one = ints(&mut env, &[1]);
    let short = make_tuple(&mut env, &one);
    let text = make_binary(&mut env, b"x");
    let list = make_list(&mut env, &[short, text]);
    assert_eq!(decode(&shape, &env, list), Err(NifError::ArityMismatch));
    let list = make_list(&mut env, &[text, short]);
    assert_eq!(decode(&shape, &env, list), Err(NifError::BadArg));
}

#[test]
fn list_of_structs_round_trip() {
    let (_host, mut env) = call_env();
    let shape = Shape::List(Box::new(point_shape()));
    let value = Native::List(vec![
        Native::Struct(vec![Native::Int(1), Native::Int(2)]),
        Native::Struct(vec![Native::Int(3), Native::Int(4)]),
    ]);
    assert!(conforms(&shape, &value));
    assert!(is_well_formed(&shape));
    let term = encode(&shape, &value, &mut env);
    assert_eq!(decode(&shape, &env, term), Ok(value));
    assert!(!conforms(&shape, &Native::List(vec![Native::Int(1)])));
    assert!(!conforms(&shape, &Native::Struct(vec![])));
    assert_eq!(copy_shape(&shape), shape);
}

#[test]
fn atom_leaf_round_trip() {
    let (_host, mut env) = call_env();
    let value = Native::Atom(b"ok".to_vec());
    assert!(conforms(&Shape::Atom, &value));
    assert!(!conforms(&Shape::Atom, &Native::Binary(b"ok".to_vec())));
    let term = encode(&Shape::Atom, &value, &mut env);
    assert_eq!(rustler::types::atom::atom_name(&env, term), Ok(b"ok".to_vec()));
    assert_eq!(decode(&Shape::Atom, &env, term), Ok(value));
    let text = make_binary(&mut env, b"ok");
    assert_eq!(decode(&Shape::Atom, &env, text), Err(NifError::BadArg));
    assert_eq!(decode(&Shape::Binary, &env, term), Err(NifError::BadArg));
}

#[test]
fn echo_of_an_unknown_atom_is_invalid_variant() {
    let (_host, mut env) = call_env();
    let term = make_atom(&mut env, b"somethingelse");
    let decoded = decode(&unit_shape(), &env, term).unwrap();
    assert_eq!(decoded, Native::Unrecognized);
    let shown = encode_outcome(&unit_shape(), &decoded, &mut env);
    assert_eq!(rustler::types::atom::atom_name(&env, shown), Ok(b"invalid_variant".to_vec()));
}

#[test]
fn echo_of_a_variant_is_its_atom() {
    let (_host, mut env) = call_env();
    for (name, index) in [(&b"foo_bar"[..], 0), (&b"baz"[..], 1)] {
        let term = make_atom(&mut env, name);
        let decoded = decode(&unit_shape(), &env, term).unwrap();
        assert_eq!(decoded, Native::Unit(index));
        let shown = encode_outcome(&unit_shape(), &decoded, &mut env);
        assert_eq!(rustler::types::atom::atom_name(&env, shown), Ok(name.to_vec()));
    }
    let pair = Native::Struct(vec![Native::Int(1), Native::Int(2)]);
    let shown = encode_outcome(&pair_shape(), &pair, &mut env);
    assert_eq!(decode(&pair_shape(), &env, shown), Ok(pair));
}

#[test]
fn leaves_are_known_by_their_names() {
    assert_eq!(leaf_shape("u8"), Some(Shape::Int(IntKind::U8)));
    assert_eq!(leaf_shape("u32"), Some(Shape::Int(IntKind::U32)));
    assert_eq!(leaf_shape("i32"), Some(Shape::Int(IntKind::I32)));
    assert_eq!(leaf_shape("i64"), Some(Shape::Int(IntKind::I64)));
    assert_eq!(leaf_shape("String"), Some(Shape::Binary));
    assert_eq!(leaf_shape("Vec<u8>"), Some(Shape::Binary));
    assert_eq!(leaf_shape("Atom"), Some(Shape::Atom));
    assert_eq!(leaf_shape("NifPid"), Some(Shape::Pid));
    assert_eq!(leaf_shape("Point"), None);
    assert_eq!(leaf_shape(""), None);
    assert_eq!(leaf_shape("U8"), None);
}
