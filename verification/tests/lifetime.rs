use rustler::codec::{IntKind, Native, Shape};
use rustler::env::{OwnedEnv, SendError};
use rustler::error::{LifetimeError, NifError};
use rustler::host::Host;
use rustler::transcoder::{decode, encode};
use rustler::types::atom::{atom_name, atom_to_string, make_atom};
use rustler::types::binary::{get_binary, make_binary};
use rustler::types::integer::{get_int, make_int};
use rustler::types::map::{is_map, map_from_arrays, map_get};
use rustler::types::pid::NifPid;
use rustler::types::tuple::{get_tuple, make_tuple};
use rustler::types::{NifDecoder, NifEncoder, NifTerm};
use rustler::wrapper::atom::{get_atom, make_atom as raw_make_atom};
use rustler::wrapper::pid::{get_local_pid, make_pid, whereis};
use rustler::wrapper::{copy_term, ErlNifPid, Heap, Node};

fn pair_shape() -> Shape {
    Shape::Tuple(vec![Shape::Int(IntKind::I32), Shape::Int(IntKind::I32)])
}

#[test]
fn term_is_tagged_with_its_environment() {
    let mut host = Host::new();
    let pid = host.spawn();
    let mut first = host.enter(pid);
    let mut second = host.enter(pid);
    let term = make_int(&mut first, 1);
    let other = make_int(&mut second, 2);
    assert!(first.holds(term));
    assert!(second.holds(other));
    assert!(!second.holds(term));
    assert!(!first.holds(other));
    let wrapped = NifTerm::new(&first, term.as_c_arg());
    assert_eq!(wrapped, term);
}

#[test]
fn copied_term_outlives_the_call() {
    let mut host = Host::new();
    let pid = host.spawn();
    let mut call = host.enter(pid);
    let value = Native::Struct(vec![Native::Int(33), Native::Int(21)]);
    let term = encode(&pair_shape(), &value, &mut call);
    let mut owned = OwnedEnv::new(&mut host);
    let saved = owned.env.copy_in(&call, term);
    host.leave(&mut call);
    assert!(!call.holds(term));
    assert!(!call.is_alive());
    assert!(owned.env.holds(saved));
    assert_eq!(decode(&pair_shape(), &owned.env, saved), Ok(value));
}

#[test]
fn term_that_was_not_copied_is_gone_with_the_call() {
    let mut host = Host::new();
    let pid = host.spawn();
    let mut call = host.enter(pid);
    let term = make_int(&mut call, 5);
    let owned = OwnedEnv::new(&mut host);
    host.leave(&mut call);
    assert!(!call.holds(term));
    assert!(!owned.env.holds(term));
}

#[test]
fn environments_have_their_kinds() {
    let mut host = Host::new();
    let pid = host.spawn();
    let call = host.enter(pid);
    let owned = OwnedEnv::new(&mut host);
    assert!(!call.is_owned());
    assert!(owned.env.is_owned());
    assert!(call.has_pid());
    assert!(!owned.env.has_pid());
    assert_eq!(*call.pid().as_c_arg(), pid);
    assert!(host.can_issue());
}

#[test]
fn clear_invalidates_all_terms() {
    let mut host = Host::new();
    let mut owned = OwnedEnv::new(&mut host);
    let before = make_int(&mut owned.env, 1);
    assert!(owned.env.holds(before));
    assert!(owned.can_clear());
    owned.clear();
    assert!(!owned.env.holds(before));
    assert_eq!(owned.env.generation_count(), 1);
    let after = make_int(&mut owned.env, 2);
    assert!(owned.env.holds(after));
    assert_eq!(after.as_c_arg(), before.as_c_arg());
    assert!(!owned.env.holds(before));
    assert_eq!(get_int(&owned.env, after), Ok(2));
}

#[test]
fn send_delivers_a_copy_and_clears() {
    let mut host = Host::new();
    let target = host.spawn();
    let mut owned = OwnedEnv::new(&mut host);
    let value = Native::Struct(vec![Native::Int(1), Native::Int(2)]);
    let term = encode(&pair_shape(), &value, &mut owned.env);
    assert_eq!(owned.send(&mut host, target, term), Ok(()));
    assert!(!owned.env.holds(term));
    assert_eq!(owned.env.as_c_arg().len(), 0);
    let mut reader = host.enter(target);
    let message = host.receive(target, &mut reader).unwrap();
    assert_eq!(decode(&pair_shape(), &reader, message), Ok(value));
    assert_eq!(host.receive(target, &mut reader), None);
}

#[test]
fn send_to_a_dead_process_fails_and_clears_nothing() {
    let mut host = Host::new();
    let target = host.spawn();
    host.exit(target);
    let mut owned = OwnedEnv::new(&mut host);
    let term = make_int(&mut owned.env, 1);
    assert_eq!(owned.send(&mut host, target, term), Err(SendError::NoSuchProcess));
    assert!(owned.env.holds(term));
    assert_eq!(get_int(&owned.env, term), Ok(1));
    let nobody = ErlNifPid { pid: 17 };
    assert_eq!(owned.send(&mut host, nobody, term), Err(SendError::NoSuchProcess));
    assert!(owned.env.holds(term));
}

#[test]
fn messages_arrive_in_order() {
    let mut host = Host::new();
    let target = host.spawn();
    let mut owned = OwnedEnv::new(&mut host);
    for n in [10, 20, 30] {
        let term = make_int(&mut owned.env, n);
        assert_eq!(owned.send(&mut host, target, term), Ok(()));
    }
    let mut reader = host.enter(target);
    for n in [10, 20, 30] {
        let message = host.receive(target, &mut reader).unwrap();
        assert_eq!(get_int(&reader, message), Ok(n));
    }
}

#[test]
fn processes_live_until_they_exit() {
    let mut host = Host::new();
    let first = host.spawn();
    let second = host.spawn();
    assert_eq!(first, ErlNifPid { pid: 0 });
    assert_eq!(second, ErlNifPid { pid: 1 });
    assert!(host.is_process_alive(first));
    host.exit(first);
    assert!(!host.is_process_alive(first));
    assert!(host.is_process_alive(second));
    assert!(!host.is_process_alive(ErlNifPid { pid: 2 }));
    host.exit(ErlNifPid { pid: 9 });
    assert!(host.is_process_alive(second));
}

#[test]
fn whereis_finds_registered_processes() {
    let mut host = Host::new();
    let first = host.spawn();
    let second = host.spawn();
    assert!(host.register(second, b"logger"));
    assert!(!host.register(first, b"logger"));
    assert!(!host.register(second, b"other"));
    assert!(!host.register(ErlNifPid { pid: 5 }, b"x"));
    assert_eq!(host.whereis_name(b"logger"), Some(second));
    assert_eq!(host.whereis_name(b"nobody"), None);

    let mut heap = Heap::new();
    let name = raw_make_atom(&mut heap, "logger");
    let unknown = raw_make_atom(&mut heap, "nobody");
    let number = heap.store(Node::Int(1));
    assert_eq!(whereis(&host, &heap, name), Some(second));
    assert_eq!(whereis(&host, &heap, unknown), None);
    assert_eq!(whereis(&host, &heap, number), None);

    host.exit(second);
    assert_eq!(whereis(&host, &heap, name), None);
    assert!(host.register(first, b"logger"));
    assert_eq!(whereis(&host, &heap, name), Some(first));
}

#[test]
fn pids_are_terms() {
    let mut heap = Heap::new();
    let pid = ErlNifPid { pid: 3 };
    let term = make_pid(&mut heap, pid);
    let number = heap.store(Node::Int(3));
    assert_eq!(get_local_pid(&heap, term), Some(pid));
    assert_eq!(get_local_pid(&heap, number), None);

    let mut host = Host::new();
    let caller = host.spawn();
    let mut env = host.enter(caller);
    let me = env.pid();
    let term = me.encode(&mut env);
    assert_eq!(NifPid::decode(&env, term), Ok(me));
    let number = make_int(&mut env, 0);
    assert_eq!(NifPid::decode(&env, number), Err(NifError::BadArg));
    assert_eq!(decode(&Shape::Pid, &env, term), Ok(Native::Pid(caller)));
    assert_eq!(decode(&Shape::Pid, &env, number), Err(NifError::BadArg));
    let again = encode(&Shape::Pid, &Native::Pid(caller), &mut env);
    assert_eq!(NifPid::decode(&env, again), Ok(NifPid::new(caller)));
}

#[test]
fn atom_name_is_read_as_latin1() {
    let mut heap = Heap::new();
    let ascii = raw_make_atom(&mut heap, "hello_world");
    assert_eq!(get_atom(&heap, ascii), Ok(String::from("hello_world")));
    let latin = heap.store(Node::Atom(vec![0x63, 0x61, 0x66, 0xe9]));
    assert_eq!(get_atom(&heap, latin), Ok(String::from("caf\u{e9}")));
    let high = heap.store(Node::Atom(vec![0xff, 0x80]));
    assert_eq!(get_atom(&heap, high), Ok(String::from("\u{ff}\u{80}")));
    let empty = heap.store(Node::Atom(vec![]));
    assert_eq!(get_atom(&heap, empty), Ok(String::new()));
    let number = heap.store(Node::Int(1));
    assert_eq!(get_atom(&heap, number), Err(NifError::BadArg));
}

#[test]
fn atom_is_made_of_the_bytes_of_its_name() {
    let mut heap = Heap::new();
    let term = raw_make_atom(&mut heap, "caf\u{e9}");
    assert_eq!(heap.read(term), &Node::Atom(vec![0x63, 0x61, 0x66, 0xc3, 0xa9]));
    assert_eq!(get_atom(&heap, term), Ok(String::from("caf\u{c3}\u{a9}")));
}

#[test]
fn atoms_in_an_environment() {
    let mut host = Host::new();
    let pid = host.spawn();
    let mut env = host.enter(pid);
    let term = make_atom(&mut env, b"ok");
    assert_eq!(atom_name(&env, term), Ok(b"ok".to_vec()));
    assert_eq!(atom_to_string(&env, term), Ok(String::from("ok")));
    let number = make_int(&mut env, 1);
    assert_eq!(atom_name(&env, number), Err(NifError::BadArg));
    assert_eq!(atom_to_string(&env, number), Err(NifError::BadArg));
}

#[test]
fn tuples_keep_their_elements_in_order() {
    let mut host = Host::new();
    let pid = host.spawn();
    let mut env = host.enter(pid);
    let a = make_int(&mut env, 1);
    let b = make_binary(&mut env, b"two");
    let c = make_atom(&mut env, b"three");
    let tuple = make_tuple(&mut env, &[a, b, c]);
    assert_eq!(get_tuple(&env, tuple), Ok(vec![a, b, c]));
    assert_eq!(get_tuple(&env, a), Err(NifError::BadArg));
    let empty = make_tuple(&mut env, &[]);
    assert_eq!(get_tuple(&env, empty), Ok(vec![]));
    assert_eq!(get_binary(&env, b), Ok(b"two".to_vec()));
    assert_eq!(get_binary(&env, a), Err(NifError::BadArg));
    assert_eq!(get_int(&env, b), Err(NifError::BadArg));
}

#[test]
fn maps_take_the_later_entry_of_a_key() {
    let mut host = Host::new();
    let pid = host.spawn();
    let mut env = host.enter(pid);
    let one = make_int(&mut env, 1);
    let two = make_int(&mut env, 2);
    let keys = vec![b"k".to_vec(), b"k".to_vec()];
    let map = map_from_arrays(&mut env, &keys, &[one, two]).unwrap();
    assert!(is_map(&env, map));
    assert!(!is_map(&env, one));
    assert_eq!(map_get(&env, map, b"k"), Ok(Some(two)));
    assert_eq!(map_get(&env, map, b"j"), Ok(None));
    assert_eq!(map_get(&env, one, b"k"), Err(NifError::BadArg));
    assert_eq!(map_from_arrays(&mut env, &keys, &[one]), Err(NifError::BadArg));
}

#[test]
fn copy_is_deep() {
    let mut src = Heap::new();
    let one = src.store(Node::Int(1));
    let name = src.store(Node::Atom(b"a".to_vec()));
    let inner = src.store(Node::Tuple(vec![one, name]));
    let map = src.store(Node::Mapping(vec![(b"k".to_vec(), inner)]));
    let list = src.store(Node::List(vec![one, one]));
    let outer = src.store(Node::Tuple(vec![map, one, list]));

    let mut dest = Heap::new();
    let kept = dest.store(Node::Int(99));
    let copy = copy_term(&mut dest, &src, outer);
    src.clear();
    assert_eq!(src.len(), 0);

    assert_eq!(dest.read(kept), &Node::Int(99));
    let parts = match dest.read(copy) {
        Node::Tuple(parts) => parts.clone(),
        other => panic!("not a tuple: {:?}", other),
    };
    assert_eq!(parts.len(), 3);
    assert_eq!(dest.read(parts[1]), &Node::Int(1));
    let elements = match dest.read(parts[2]) {
        Node::List(elements) => elements.clone(),
        other => panic!("not a list: {:?}", other),
    };
    assert_eq!(elements.len(), 2);
    assert_eq!(dest.read(elements[0]), &Node::Int(1));
    assert_eq!(dest.read(elements[1]), &Node::Int(1));
    let entries = match dest.read(parts[0]) {
        Node::Mapping(entries) => entries.clone(),
        other => panic!("not a map: {:?}", other),
    };
    assert_eq!(entries.len(), 1);
    assert_eq!(entries[0].0, b"k".to_vec());
    let inner_parts = match dest.read(entries[0].1) {
        Node::Tuple(parts) => parts.clone(),
        other => panic!("not a tuple: {:?}", other),
    };
    assert_eq!(dest.read(inner_parts[0]), &Node::Int(1));
    assert_eq!(dest.read(inner_parts[1]), &Node::Atom(b"a".to_vec()));
}

#[test]
fn integers_are_transcoded_by_their_types() {
    let mut host = Host::new();
    let pid = host.spawn();
    let mut env = host.enter(pid);
    let term = 300i64.encode(&mut env);
    assert_eq!(i64::decode(&env, term), Ok(300));
    assert_eq!(i32::decode(&env, term), Ok(300));
    assert_eq!(u32::decode(&env, term), Ok(300));
    assert_eq!(u8::decode(&env, term), Err(NifError::BadArg));
    let term = (-1i32).encode(&mut env);
    assert_eq!(i32::decode(&env, term), Ok(-1));
    assert_eq!(u32::decode(&env, term), Err(NifError::BadArg));
    assert_eq!(u8::decode(&env, term), Err(NifError::BadArg));
    let term = 255u8.encode(&mut env);
    assert_eq!(u8::decode(&env, term), Ok(255));
    let term = 4294967295u32.encode(&mut env);
    assert_eq!(u32::decode(&env, term), Ok(4294967295));
    assert_eq!(i32::decode(&env, term), Err(NifError::BadArg));
    let atom = make_atom(&mut env, b"x");
    assert_eq!(i64::decode(&env, atom), Err(NifError::BadArg));
}

#[test]
fn check_says_why_a_term_must_not_be_read() {
    let mut host = Host::new();
    let pid = host.spawn();
    let mut call = host.enter(pid);
    let mut owned = OwnedEnv::new(&mut host);
    let term = make_int(&mut call, 1);
    let kept = make_int(&mut owned.env, 2);
    assert_eq!(call.check(term), Ok(()));
    assert_eq!(owned.env.check(kept), Ok(()));
    assert_eq!(owned.env.check(term), Err(LifetimeError::WrongEnvironment));
    assert_eq!(call.check(kept), Err(LifetimeError::WrongEnvironment));
    owned.clear();
    assert_eq!(owned.env.check(kept), Err(LifetimeError::StaleTerm));
    let forged = NifTerm::new(&call, 9);
    assert_eq!(call.check(forged), Err(LifetimeError::StaleTerm));
    host.leave(&mut call);
    assert_eq!(call.check(term), Err(LifetimeError::DeadEnvironment));
    assert_eq!(call.check(kept), Err(LifetimeError::DeadEnvironment));
}
