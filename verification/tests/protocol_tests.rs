//! The data model: message stripping, conversation shrinking, name-list
//! helpers, packet shapes, and hex identifiers.

use relay_core::crypto;
use relay_core::protocol::{
    contains_name, dedup_list, info_packet, remove_name, Conversation, EncryptedMessage, UserKey,
    WSAction,
};

fn s(text: &str) -> String {
    String::from(text)
}

fn msg(data: &[u8], sender: &str, convo: &str, sid: &str) -> EncryptedMessage {
    EncryptedMessage {
        data: data.to_vec(),
        sender: s(sender),
        dest_convo_id: s(convo),
        sender_sid: s(sid),
    }
}

fn convo_of(id: &str, names: &[&str]) -> Conversation {
    Conversation {
        id: s(id),
        users: names.iter().map(|n| s(n)).collect(),
        keys: names
            .iter()
            .map(|n| UserKey { owner: s(n), key: vec![9, 9, 9] })
            .collect(),
        messages: Vec::new(),
    }
}

#[test]
fn stripped_clears_only_transient_fields() {
    let m = msg(b"hello", "alice", "c1", "S1");
    let p = m.stripped();
    assert_eq!(p.data, b"hello");
    assert_eq!(p.sender, "alice");
    assert_eq!(p.dest_convo_id, "");
    assert_eq!(p.sender_sid, "");
}

#[test]
fn conversation_send_appends_persisted_form() {
    let mut c = convo_of("c1", &["alice", "bob"]);
    c.send(msg(b"hi", "alice", "c1", "S1"));
    assert_eq!(c.messages.len(), 1);
    assert_eq!(c.messages[0].data, b"hi");
    assert_eq!(c.messages[0].sender, "alice");
    assert_eq!(c.messages[0].dest_convo_id, "");
    assert_eq!(c.messages[0].sender_sid, "");
}

#[test]
fn shrink_removes_member_and_key_but_keeps_history() {
    let mut c = convo_of("c1", &["alice", "bob"]);
    c.send(msg(b"hi", "alice", "c1", "S1"));
    let r = c.shrink(&s("bob"));
    assert_eq!(r.id, "c1");
    assert_eq!(r.users, vec![s("alice")]);
    assert_eq!(r.keys.len(), 1);
    assert_eq!(r.keys[0].owner, "alice");
    assert_eq!(r.messages.len(), 1);
    assert_eq!(r.messages[0].data, b"hi");
}

#[test]
fn remove_name_drops_every_occurrence_in_order() {
    let list = vec![s("a"), s("b"), s("a"), s("c")];
    assert_eq!(remove_name(&list, &s("a")), vec![s("b"), s("c")]);
    assert_eq!(remove_name(&list, &s("x")), list);
}

#[test]
fn dedup_list_keeps_first_occurrences() {
    let list = vec![s("a"), s("b"), s("a"), s("c"), s("b")];
    assert_eq!(dedup_list(&list), vec![s("a"), s("b"), s("c")]);
}

#[test]
fn contains_name_compares_contents() {
    let list = vec![s("alice"), s("bob")];
    assert!(contains_name(&list, &s("bob")));
    assert!(!contains_name(&list, &s("carol")));
}

#[test]
fn info_packet_is_server_attributed() {
    let p = info_packet(s("hello"));
    assert_eq!(p.sender, "API");
    assert_eq!(p.sid, "0");
    match p.action {
        WSAction::Info(t) => assert_eq!(t, "hello"),
        _ => panic!("expected an Info action"),
    }
}

#[test]
fn rand_hex_has_requested_length_and_hex_digits() {
    let id = crypto::rand_hex(4);
    assert_eq!(id.len(), 8);
    assert!(id.chars().all(|c| c.is_ascii_hexdigit() && !c.is_ascii_uppercase()));
    let long = crypto::rand_hex(32);
    assert_eq!(long.len(), 64);
}

#[test]
fn rand_hex_encodes_bytes_not_identity() {
    // Two draws of 16 bytes collide with negligible probability; equal
    // output here would mean the generator or the encoding is constant.
    let a = crypto::rand_hex(16);
    let b = crypto::rand_hex(16);
    assert_ne!(a, b);
}
