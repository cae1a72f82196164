use rustler::error::NifError;
use rustler::host::Host;
use rustler::init::{
    check, handle_nif_init_call, handle_nif_upgrade_call, nif_funcs, on_load, parse_options,
    try_nif_funcs, try_parse_options, Callback, Expr, InitError, InitMacroInput, InitOption,
    NIF_MAJOR_VERSION, NIF_MINOR_VERSION,
};
use rustler::resource::{Arena, Registry, RegistryError};
use rustler::types::integer::make_int;
use rustler::types::resource::{get_resource, make_resource};
use rustler::wrapper::ResourceId;

fn text(s: &str) -> String {
    String::from(s)
}

#[test]
fn registering_again_gives_the_same_descriptor() {
    let mut registry = Registry::new();
    let first = registry.register("Counter").unwrap();
    let second = registry.register("Buffer").unwrap();
    let again = registry.register("Counter").unwrap();
    assert_eq!(first, again);
    assert_ne!(first, second);
    assert_eq!(first.tag(), 0);
    assert_eq!(second.tag(), 1);
    assert_eq!(registry.descriptor_of("Buffer"), Some(second));
    assert_eq!(registry.descriptor_of("Other"), None);
}

#[test]
fn registering_after_load_is_refused() {
    let mut registry = Registry::new();
    let first = registry.register("Counter").unwrap();
    registry.finish_load();
    assert_eq!(registry.register("Buffer"), Err(RegistryError::NotLoading));
    assert_eq!(registry.register("Counter"), Err(RegistryError::NotLoading));
    assert_eq!(registry.descriptor_of("Counter"), Some(first));
    assert_eq!(registry.descriptor_of("Buffer"), None);
}

#[test]
fn arena_of_a_type_is_handed_out_once() {
    let mut registry = Registry::new();
    let descriptor = registry.register("Counter").unwrap();
    let first: Option<Arena<i64>> = registry.arena(descriptor);
    assert!(first.is_some());
    let second: Option<Arena<i64>> = registry.arena(descriptor);
    assert!(second.is_none());
    let mut other = Registry::new();
    let unknown: Option<Arena<i64>> = other.arena(descriptor);
    assert!(unknown.is_none());
    registry.finish_load();
    let buffers = registry.descriptor_of("Buffer");
    assert_eq!(buffers, None);
}

#[test]
fn wrapped_value_is_read_through_its_term() {
    let mut registry = Registry::new();
    let descriptor = registry.register("Counter").unwrap();
    let mut arena: Arena<i64> = registry.arena(descriptor).unwrap();
    assert_eq!(arena.descriptor(), descriptor);
    let mut host = Host::new();
    let pid = host.spawn();
    let mut env = host.enter(pid);
    let term = arena.wrap(&mut env, 42);
    assert_eq!(arena.unwrap(&env, term), Ok(&42));
    let other = arena.wrap(&mut env, 7);
    assert_eq!(arena.unwrap(&env, other), Ok(&7));
    assert_eq!(arena.unwrap(&env, term), Ok(&42));
}

#[test]
fn unwrap_with_other_descriptor_is_bad_arg() {
    let mut registry = Registry::new();
    let counters = registry.register("Counter").unwrap();
    let buffers = registry.register("Buffer").unwrap();
    let mut counter_arena: Arena<i64> = registry.arena(counters).unwrap();
    let mut buffer_arena: Arena<Vec<u8>> = registry.arena(buffers).unwrap();
    let mut host = Host::new();
    let pid = host.spawn();
    let mut env = host.enter(pid);
    let counter = counter_arena.wrap(&mut env, 1);
    let buffer = buffer_arena.wrap(&mut env, vec![1, 2]);
    assert_eq!(buffer_arena.unwrap(&env, counter), Err(NifError::BadArg));
    assert_eq!(counter_arena.unwrap(&env, buffer), Err(NifError::BadArg));
    assert_eq!(buffer_arena.unwrap(&env, buffer), Ok(&vec![1, 2]));
}

#[test]
fn unwrap_of_what_is_no_resource_is_bad_arg() {
    let mut registry = Registry::new();
    let descriptor = registry.register("Counter").unwrap();
    let arena: Arena<i64> = registry.arena(descriptor).unwrap();
    let mut host = Host::new();
    let pid = host.spawn();
    let mut env = host.enter(pid);
    let number = make_int(&mut env, 1);
    assert_eq!(arena.unwrap(&env, number), Err(NifError::BadArg));
    assert_eq!(get_resource(&env, number), Err(NifError::BadArg));
    let forged = make_resource(&mut env, ResourceId { kind: 0, index: 3, generation: 0 });
    assert_eq!(arena.unwrap(&env, forged), Err(NifError::BadArg));
}

#[test]
fn destructor_runs_once_after_the_last_reference() {
    let mut registry = Registry::new();
    let descriptor = registry.register("Counter").unwrap();
    let mut arena: Arena<String> = registry.arena(descriptor).unwrap();
    let mut host = Host::new();
    let pid = host.spawn();
    let mut env = host.enter(pid);
    let term = arena.wrap(&mut env, text("object"));
    let id = get_resource(&env, term).unwrap();

    assert_eq!(arena.collect(), Vec::<String>::new());
    assert_eq!(arena.unwrap(&env, term), Ok(&text("object")));

    assert!(arena.release(id));
    assert!(!arena.release(id));
    assert_eq!(arena.unwrap(&env, term), Ok(&text("object")));
    assert_eq!(arena.collect(), vec![text("object")]);
    assert_eq!(arena.collect(), Vec::<String>::new());
    assert_eq!(arena.unwrap(&env, term), Err(NifError::BadArg));
    assert!(!arena.keep(id));
    assert!(!arena.release(id));
}

#[test]
fn object_with_a_reference_is_not_collected() {
    let mut registry = Registry::new();
    let descriptor = registry.register("Counter").unwrap();
    let mut arena: Arena<i64> = registry.arena(descriptor).unwrap();
    let mut host = Host::new();
    let pid = host.spawn();
    let mut env = host.enter(pid);
    let kept = arena.wrap(&mut env, 1);
    let dropped = arena.wrap(&mut env, 2);
    let shared = arena.wrap(&mut env, 3);
    let shared_id = get_resource(&env, shared).unwrap();
    assert!(arena.keep(shared_id));
    assert!(arena.release(shared_id));
    assert!(arena.release(get_resource(&env, dropped).unwrap()));
    assert_eq!(arena.collect(), vec![2]);
    assert_eq!(arena.unwrap(&env, kept), Ok(&1));
    assert_eq!(arena.unwrap(&env, shared), Ok(&3));
    assert!(arena.release(shared_id));
    assert!(arena.release(get_resource(&env, kept).unwrap()));
    assert_eq!(arena.collect(), vec![1, 3]);
}

#[test]
fn place_is_reused_in_its_next_generation() {
    let mut registry = Registry::new();
    let descriptor = registry.register("Counter").unwrap();
    let mut arena: Arena<i64> = registry.arena(descriptor).unwrap();
    let mut host = Host::new();
    let pid = host.spawn();
    let mut env = host.enter(pid);
    let old = arena.wrap(&mut env, 1);
    let old_id = get_resource(&env, old).unwrap();
    assert_eq!(old_id, ResourceId { kind: 0, index: 0, generation: 0 });
    assert!(arena.release(old_id));
    assert_eq!(arena.collect(), vec![1]);
    let new = arena.wrap(&mut env, 2);
    let new_id = get_resource(&env, new).unwrap();
    assert_eq!(new_id, ResourceId { kind: 0, index: 0, generation: 1 });
    assert_eq!(arena.unwrap(&env, old), Err(NifError::BadArg));
    assert_eq!(arena.unwrap(&env, new), Ok(&2));
    assert!(!arena.release(old_id));
    assert_eq!(arena.collect(), Vec::<i64>::new());
}

#[test]
fn load_hook_registers_the_resource_types() {
    let mut registry = Registry::new();
    let names = vec![text("Counter"), text("Buffer"), text("Counter")];
    assert!(on_load(&mut registry, &names));
    assert_eq!(registry.descriptor_of("Counter").unwrap().tag(), 0);
    assert_eq!(registry.descriptor_of("Buffer").unwrap().tag(), 1);
    registry.finish_load();
    assert!(!on_load(&mut registry, &names));
    assert!(on_load(&mut registry, &vec![]));
}

#[test]
fn load_callback_reports_the_hook() {
    assert_eq!(handle_nif_init_call(None), 0);
    assert_eq!(handle_nif_init_call(Some(true)), 0);
    assert_eq!(handle_nif_init_call(Some(false)), 1);
}

fn path(s: &str) -> Expr {
    Expr::Path(text(s))
}

fn assign(key: &str, value: &str) -> InitOption {
    InitOption::Assign { left: Some(text(key)), right: path(value) }
}

#[test]
fn module_declaration_with_hooks() {
    let options = vec![assign("load", "on_load"), assign("upgrade", "on_upgrade")];
    let funcs = vec![path("add"), path("math::sub")];
    assert_eq!(check(&funcs, &options), Ok(()));
    let parsed = InitMacroInput::parse(text("Elixir.Math"), funcs, &options);
    assert_eq!(parsed.load, Some(path("on_load")));
    assert_eq!(parsed.unload, None);
    assert_eq!(parsed.upgrade, Some(path("on_upgrade")));
    let entry = parsed.into();
    assert_eq!(entry.major, NIF_MAJOR_VERSION);
    assert_eq!(entry.minor, NIF_MINOR_VERSION);
    assert_eq!(entry.name, "Elixir.Math\0");
    assert_eq!(entry.num_of_funcs, 2);
    assert_eq!(entry.funcs, vec![text("add::FUNC"), text("math::sub::FUNC")]);
    assert_eq!(entry.load, Some(Callback { hook: Some(path("on_load")) }));
    assert_eq!(entry.reload, None);
    assert_eq!(entry.upgrade, Some(Callback { hook: Some(path("on_upgrade")) }));
    assert_eq!(entry.unload, None);
    assert_eq!(entry.vm_variant, "beam.vanilla\0");
    assert_eq!(entry.options, 0);
}

#[test]
fn module_without_load_hook_still_has_a_load_callback() {
    let parsed = InitMacroInput::parse(text("Elixir.M"), vec![path("f")], &vec![]);
    assert_eq!(
        parsed,
        InitMacroInput {
            name: text("Elixir.M"),
            funcs: vec![path("f")],
            load: None,
            unload: None,
            upgrade: None,
        }
    );
    let entry = parsed.into();
    assert_eq!(entry.num_of_funcs, 1);
    assert_eq!(entry.funcs, vec![text("f::FUNC")]);
    assert_eq!(entry.load, Some(Callback { hook: None }));
    assert_eq!(entry.upgrade, None);
    assert_eq!(entry.unload, None);
    assert_eq!(entry.reload, None);
}

#[test]
fn module_declaration_without_functions() {
    let entry = InitMacroInput::parse(text("M"), vec![], &vec![]).into();
    assert_eq!(entry.num_of_funcs, 0);
    assert_eq!(entry.funcs, Vec::<String>::new());
    assert_eq!(entry.name, "M\0");
}

#[test]
fn option_named_twice_stands_once_with_its_last_value() {
    let options = vec![assign("load", "a"), assign("load", "b")];
    assert_eq!(parse_options(&options), vec![(text("load"), path("b"))]);
    let options = vec![
        assign("load", "first"),
        assign("unload", "bye"),
        assign("load", "second"),
        assign("unload", "later"),
    ];
    assert_eq!(
        parse_options(&options),
        vec![(text("load"), path("second")), (text("unload"), path("later"))]
    );
    assert_eq!(try_parse_options(&options), Ok(parse_options(&options)));
    let parsed = InitMacroInput::parse(text("M"), vec![], &options);
    assert_eq!(parsed.load, Some(path("second")));
    assert_eq!(parsed.unload, Some(path("later")));
    assert_eq!(parsed.upgrade, None);
}

#[test]
fn unknown_option_is_refused() {
    let options = vec![assign("load", "a"), assign("reload", "b"), assign("other", "c")];
    assert_eq!(
        InitMacroInput::try_parse(text("M"), vec![], &options),
        Err(InitError::UnsupportedOption(text("reload")))
    );
    assert_eq!(check(&vec![], &options), Err(InitError::UnsupportedOption(text("reload"))));
}

#[test]
fn option_that_is_no_assignment_is_refused() {
    let options = vec![
        assign("load", "a"),
        InitOption::Other(text("expected `=`")),
        assign("reload", "b"),
    ];
    let refused = || InitError::NotAnAssignment(text("expected `=`"));
    assert_eq!(InitMacroInput::try_parse(text("M"), vec![], &options), Err(refused()));
    assert_eq!(try_parse_options(&options), Err(refused()));
    assert_eq!(check(&vec![Expr::Other(text("1"))], &options), Err(refused()));
}

#[test]
fn assignment_to_what_is_no_identifier_is_passed_over() {
    let options = vec![
        InitOption::Assign { left: None, right: path("x") },
        assign("unload", "bye"),
    ];
    assert_eq!(parse_options(&options), vec![(text("unload"), path("bye"))]);
    let parsed = InitMacroInput::parse(text("M"), vec![], &options);
    assert_eq!(parsed.unload, Some(path("bye")));
}

#[test]
fn function_that_is_no_path_is_refused() {
    let funcs = vec![path("add"), Expr::Other(text("1 + 1")), path("sub")];
    assert_eq!(try_nif_funcs(&funcs), Err(InitError::ExpectedPath));
    assert_eq!(check(&funcs, &vec![]), Err(InitError::ExpectedPath));
    let parsed = InitMacroInput::parse(text("M"), funcs, &vec![]);
    assert_eq!(parsed.try_into(), Err(InitError::ExpectedPath));
}

#[test]
fn functions_are_named_in_their_order() {
    let funcs = vec![path("b"), path("a::c"), path("b")];
    assert_eq!(nif_funcs(&funcs), vec![text("b::FUNC"), text("a::c::FUNC"), text("b::FUNC")]);
    assert_eq!(try_nif_funcs(&funcs), Ok(nif_funcs(&funcs)));
    assert_eq!(nif_funcs(&vec![]), Vec::<String>::new());
    let entry = InitMacroInput::parse(text("M"), funcs, &vec![]).try_into().unwrap();
    assert_eq!(entry.num_of_funcs, 3);
}

#[test]
fn upgrade_callback_reports_the_hook() {
    assert_eq!(handle_nif_upgrade_call(None), 0);
    assert_eq!(handle_nif_upgrade_call(Some(true)), 0);
    assert_eq!(handle_nif_upgrade_call(Some(false)), 1);
}
