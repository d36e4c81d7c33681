//! The connection registry: registration, conflict, removal, lookups.

use relay_core::registry::{Registry, RegistryError};

fn s(text: &str) -> String {
    String::from(text)
}

#[test]
fn register_installs_entry() {
    let mut reg = Registry::new();
    assert!(!reg.contains(7));
    let r = reg.register(7, s("alice"), s("S1"));
    assert!(r.is_ok());
    assert!(reg.contains(7));
    let e = reg.lookup_by_connection(7).expect("entry must exist");
    assert_eq!(e.conn, 7);
    assert_eq!(e.username, "alice");
    assert_eq!(e.session_id, "S1");
}

#[test]
fn register_occupied_connection_is_conflict_and_keeps_original() {
    let mut reg = Registry::new();
    reg.register(7, s("alice"), s("S1")).unwrap();
    let r = reg.register(7, s("bob"), s("S2"));
    assert!(matches!(r, Err(RegistryError::AlreadyRegistered)));
    let e = reg.lookup_by_connection(7).expect("original entry must remain");
    assert_eq!(e.username, "alice");
    assert_eq!(e.session_id, "S1");
}

#[test]
fn deregister_removes_exactly_that_entry() {
    let mut reg = Registry::new();
    reg.register(1, s("alice"), s("S1")).unwrap();
    reg.register(2, s("bob"), s("S2")).unwrap();
    reg.register(3, s("carol"), s("S3")).unwrap();
    reg.deregister(2);
    assert!(reg.contains(1));
    assert!(!reg.contains(2));
    assert!(reg.contains(3));
    assert_eq!(reg.lookup_by_connection(1).unwrap().username, "alice");
    assert_eq!(reg.lookup_by_connection(3).unwrap().username, "carol");
}

#[test]
fn deregister_absent_connection_is_noop() {
    let mut reg = Registry::new();
    reg.register(1, s("alice"), s("S1")).unwrap();
    reg.deregister(99);
    assert!(reg.contains(1));
    assert_eq!(reg.lookup_by_connection(1).unwrap().username, "alice");
}

#[test]
fn register_after_deregister_restores_capacity_for_conn() {
    let mut reg = Registry::new();
    reg.register(7, s("alice"), s("S1")).unwrap();
    reg.deregister(7);
    assert!(!reg.contains(7));
    assert!(reg.register(7, s("bob"), s("S2")).is_ok());
    assert_eq!(reg.lookup_by_connection(7).unwrap().username, "bob");
}

#[test]
fn username_may_have_several_connections() {
    let mut reg = Registry::new();
    reg.register(1, s("alice"), s("S1")).unwrap();
    reg.register(2, s("alice"), s("S1")).unwrap();
    let conns = reg.lookup_by_username(&s("alice"));
    assert_eq!(conns, vec![1, 2]);
    assert_eq!(reg.first_conn_of(&s("alice")), Some(1));
}

#[test]
fn lookup_unknown_user_is_offline_not_error() {
    let reg = Registry::new();
    assert_eq!(reg.first_conn_of(&s("ghost")), None);
    assert!(reg.lookup_by_username(&s("ghost")).is_empty());
}
