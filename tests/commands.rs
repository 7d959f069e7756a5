use terrabase::coredb::{Coretable, Data};
use terrabase::kvengine;
use terrabase::kvengine::{
    action_of, dbsize, execute, execute_read, flushdb, get, update, Action, Response,
};

fn args(a: &[&str]) -> Vec<String> {
    a.iter().map(|s| s.to_string()).collect()
}

fn value_of(r: &[Response]) -> Option<Vec<u8>> {
    assert_eq!(r.len(), 2);
    assert!(matches!(r[0], Response::GroupBegin(1)));
    match &r[1] {
        Response::Value(d) => Some(d.to_vec()),
        Response::NilGroup => None,
        _ => panic!("unexpected reply"),
    }
}

fn size_of(r: &[Response]) -> usize {
    assert_eq!(r.len(), 2);
    assert!(matches!(r[0], Response::GroupBegin(1)));
    match r[1] {
        Response::Size(n) => n,
        _ => panic!("unexpected reply"),
    }
}

#[test]
fn create_only_set() {
    let mut t = Coretable::new();
    let r = kvengine::set(&mut t, args(&["a", "1"]));
    assert!(r.len() == 1 && matches!(r[0], Response::Okay));
    let r = kvengine::set(&mut t, args(&["a", "2"]));
    assert!(r.len() == 1 && matches!(r[0], Response::OverwriteErr));
    assert_eq!(value_of(&get(&t, args(&["a"]))), Some(b"1".to_vec()));
    assert_eq!(size_of(&dbsize(&t, args(&[]))), 1);
}

#[test]
fn update_semantics() {
    let mut t = Coretable::new();
    let r = update(&mut t, args(&["k", "v"]));
    assert!(r.len() == 1 && matches!(r[0], Response::Nil));
    assert_eq!(size_of(&dbsize(&t, args(&[]))), 0);
    let r = kvengine::set(&mut t, args(&["k", "v"]));
    assert!(r.len() == 1 && matches!(r[0], Response::Okay));
    let r = update(&mut t, args(&["k", "w"]));
    assert!(r.len() == 1 && matches!(r[0], Response::Okay));
    assert_eq!(value_of(&get(&t, args(&["k"]))), Some(b"w".to_vec()));
}

#[test]
fn arity_errors() {
    let mut t = Coretable::new();
    let r = get(&t, args(&[]));
    assert!(r.len() == 1 && matches!(r[0], Response::ActionErr));
    let r = kvengine::set(&mut t, args(&["a"]));
    assert!(r.len() == 1 && matches!(r[0], Response::ActionErr));
    let r = dbsize(&t, args(&["x"]));
    assert!(r.len() == 1 && matches!(r[0], Response::ActionErr));
    let r = update(&mut t, args(&["a", "b", "c"]));
    assert!(r.len() == 1 && matches!(r[0], Response::ActionErr));
    let r = flushdb(&mut t, args(&["a"]));
    assert!(r.len() == 1 && matches!(r[0], Response::ActionErr));
    assert_eq!(size_of(&dbsize(&t, args(&[]))), 0);
}

#[test]
fn get_missing_key_is_nil() {
    let t = Coretable::new();
    assert_eq!(value_of(&get(&t, args(&["nope"]))), None);
}

#[test]
fn set_then_get_survives_other_commands() {
    let mut t = Coretable::new();
    kvengine::set(&mut t, args(&["k", "v"]));
    kvengine::set(&mut t, args(&["other", "x"]));
    update(&mut t, args(&["other", "y"]));
    kvengine::set(&mut t, args(&["k", "z"]));
    assert_eq!(value_of(&get(&t, args(&["k"]))), Some(b"v".to_vec()));
    assert_eq!(value_of(&get(&t, args(&["other"]))), Some(b"y".to_vec()));
}

#[test]
fn flushdb_empties_table() {
    let mut t = Coretable::new();
    kvengine::set(&mut t, args(&["a", "1"]));
    kvengine::set(&mut t, args(&["b", "2"]));
    assert_eq!(size_of(&dbsize(&t, args(&[]))), 2);
    let r = flushdb(&mut t, args(&[]));
    assert!(r.len() == 1 && matches!(r[0], Response::Okay));
    assert_eq!(size_of(&dbsize(&t, args(&[]))), 0);
    assert_eq!(value_of(&get(&t, args(&["a"]))), None);
}

#[test]
fn execute_dispatches() {
    let mut t = Coretable::new();
    let r = execute(&mut t, Action::Insert, args(&["a", "1"]));
    assert!(matches!(r[0], Response::Okay));
    let r = execute(&mut t, Action::Get, args(&["a"]));
    assert_eq!(value_of(&r), Some(b"1".to_vec()));
    let r = execute(&mut t, Action::Dbsize, args(&[]));
    assert_eq!(size_of(&r), 1);
    let r = execute(&mut t, Action::Flushdb, args(&[]));
    assert!(matches!(r[0], Response::Okay));
    let r = execute(&mut t, Action::Update, args(&["a", "2"]));
    assert!(matches!(r[0], Response::Nil));
}

#[test]
fn data_holds_utf8_bytes() {
    let d = Data::from_string(String::from("héllo"));
    assert_eq!(d.to_vec(), "héllo".as_bytes().to_vec());
    assert_eq!(d.get_blob().as_ref(), "héllo".as_bytes());
    let e = d.duplicate();
    assert_eq!(e.to_vec(), d.to_vec());
    let f = Data::from_vec(vec![0u8, 255, 7]);
    assert_eq!(f.to_vec(), vec![0u8, 255, 7]);
}

#[test]
fn table_terminate_flag_sticks() {
    let mut t = Coretable::new();
    assert!(!t.is_terminating());
    kvengine::set(&mut t, args(&["a", "1"]));
    t.set_terminate();
    assert!(t.is_terminating());
    kvengine::set(&mut t, args(&["b", "1"]));
    assert!(t.is_terminating());
    assert_eq!(t.len(), 2);
}

#[test]
fn action_names() {
    assert_eq!(action_of(&String::from("GET")), Some(Action::Get));
    assert_eq!(action_of(&String::from("SET")), Some(Action::Insert));
    assert_eq!(action_of(&String::from("UPDATE")), Some(Action::Update));
    assert_eq!(action_of(&String::from("FLUSHDB")), Some(Action::Flushdb));
    assert_eq!(action_of(&String::from("DBSIZE")), Some(Action::Dbsize));
    assert_eq!(action_of(&String::from("DEL")), None);
    assert!(Action::Insert.needs_write());
    assert!(!Action::Get.needs_write());
    assert!(!Action::Dbsize.needs_write());
}

#[test]
fn read_only_dispatch() {
    let mut t = Coretable::new();
    kvengine::set(&mut t, args(&["a", "1"]));
    assert_eq!(value_of(&execute_read(&t, Action::Get, args(&["a"]))), Some(b"1".to_vec()));
    assert_eq!(size_of(&execute_read(&t, Action::Dbsize, args(&[]))), 1);
    let r = execute_read(&t, Action::Get, args(&["a", "b"]));
    assert!(r.len() == 1 && matches!(r[0], Response::ActionErr));
}

#[test]
fn entries_keep_insertion_order() {
    let mut t = Coretable::new();
    kvengine::set(&mut t, args(&["b", "1"]));
    kvengine::set(&mut t, args(&["a", "2"]));
    update(&mut t, args(&["b", "3"]));
    let keys: Vec<&str> = t.get_ref().iter().map(|e| e.0.as_str()).collect();
    assert_eq!(keys, vec!["b", "a"]);
    let (ks, vs) = t.columns();
    assert_eq!(ks, vec![String::from("b"), String::from("a")]);
    assert_eq!(vs, vec![b"3".to_vec(), b"2".to_vec()]);
}
