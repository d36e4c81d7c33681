//! End-to-end protocol exchanges: the dispatcher and the resume functions
//! driven against an in-memory account directory and conversation store.

use rsa::pkcs8::EncodePublicKey;
use rsa::{RsaPrivateKey, RsaPublicKey};

use relay_core::engine::{self, Step};
use relay_core::protocol::{Account, Conversation, EncryptedMessage, WSAction, WSPacket};
use relay_core::registry::Registry;
use relay_core::relay::Output;

fn s(text: &str) -> String {
    String::from(text)
}

fn test_pem() -> Vec<u8> {
    let mut rng = rand::thread_rng();
    let private = RsaPrivateKey::new(&mut rng, 512).expect("keygen");
    RsaPublicKey::from(&private)
        .to_public_key_pem(rsa::pkcs8::LineEnding::LF)
        .expect("pem")
        .into_bytes()
}

fn account(name: &str, sid: &str, friends: &[&str], pem: Vec<u8>) -> Account {
    Account {
        username: s(name),
        hash: s(""),
        public_key: pem,
        priv_key_enc: Vec::new(),
        friends: friends.iter().map(|f| s(f)).collect(),
        session_id: s(sid),
    }
}

/// The in-memory stand-ins for the account directory and the conversation
/// store, with counters for how often each was consulted.
struct World {
    accounts: Vec<Account>,
    convos: Vec<Conversation>,
    calls: usize,
}

impl World {
    fn new() -> World {
        World { accounts: Vec::new(), convos: Vec::new(), calls: 0 }
    }

    fn get_account(&self, name: &str) -> Option<Account> {
        self.accounts.iter().find(|a| a.username == name).map(|a| a.duplicate())
    }

    fn put_account(&mut self, acc: Account) {
        if let Some(slot) = self.accounts.iter_mut().find(|a| a.username == acc.username) {
            *slot = acc;
        } else {
            self.accounts.push(acc);
        }
    }

    fn put_convo(&mut self, c: Conversation) {
        if let Some(slot) = self.convos.iter_mut().find(|x| x.id == c.id) {
            *slot = c;
        } else {
            self.convos.push(c);
        }
    }
}

/// Performs each requested directory or store operation against the world
/// and resumes, until the exchange is done.
fn drive(reg: &mut Registry, w: &mut World, mut step: Step) -> Vec<Output> {
    loop {
        step = match step {
            Step::Done(outs) => return outs,
            Step::NeedAccount(name, cont) => {
                w.calls += 1;
                let ans = Ok(w.get_account(&name));
                engine::resume_account(reg, cont, ans)
            }
            Step::NeedAccounts(names, cont) => {
                w.calls += 1;
                let ans = Ok(names.iter().map(|n| w.get_account(n)).collect());
                engine::resume_accounts(cont, ans)
            }
            Step::NeedConversation(id, cont) => {
                w.calls += 1;
                let ans = Ok(w.convos.iter().find(|c| c.id == id).map(|c| c.duplicate()));
                engine::resume_conversation(cont, ans)
            }
            Step::NeedConversations(name, cont) => {
                w.calls += 1;
                let ans = Ok(w
                    .convos
                    .iter()
                    .filter(|c| c.users.iter().any(|u| *u == name))
                    .map(|c| c.duplicate())
                    .collect());
                engine::resume_conversations(cont, ans)
            }
            Step::NeedInsert(c, cont) => {
                w.calls += 1;
                w.put_convo(c);
                engine::resume_ack(reg, cont, Ok(()))
            }
            Step::NeedReplace(c, cont) => {
                w.calls += 1;
                w.put_convo(c);
                engine::resume_ack(reg, cont, Ok(()))
            }
            Step::NeedReplaceMany(cs, cont) => {
                w.calls += 1;
                for c in cs {
                    w.put_convo(c);
                }
                engine::resume_ack(reg, cont, Ok(()))
            }
            Step::NeedUpdates(accs, cont) => {
                w.calls += 1;
                for a in accs {
                    w.put_account(a);
                }
                engine::resume_ack(reg, cont, Ok(()))
            }
        };
    }
}

fn packet(sender: &str, sid: &str, action: WSAction) -> WSPacket {
    WSPacket { sender: s(sender), sid: s(sid), action }
}

fn do_register(reg: &mut Registry, w: &mut World, conn: u64, name: &str, sid: &str) -> Vec<Output> {
    let step = engine::handle_packet(reg, conn, packet(name, sid, WSAction::Register()));
    drive(reg, w, step)
}

fn info_text(out: &Output) -> Option<&str> {
    match out {
        Output::Reply(p) => match &p.action {
            WSAction::Info(t) => Some(t.as_str()),
            _ => None,
        },
        _ => None,
    }
}

#[test]
fn register_then_disconnect_removes_exactly_that_entry() {
    let mut reg = Registry::new();
    let mut w = World::new();
    w.put_account(account("alice", "S1", &[], test_pem()));
    w.put_account(account("bob", "S2", &[], test_pem()));

    let outs = do_register(&mut reg, &mut w, 1, "alice", "S1");
    assert_eq!(info_text(&outs[0]), Some("Registered"));
    do_register(&mut reg, &mut w, 2, "bob", "S2");
    assert!(reg.contains(1) && reg.contains(2));

    let step = engine::handle_packet(&mut reg, 1, packet("alice", "S1", WSAction::Disconnect()));
    let outs = drive(&mut reg, &mut w, step);
    assert!(outs.is_empty());
    assert!(!reg.contains(1));
    assert!(reg.contains(2));
    assert_eq!(reg.lookup_by_connection(2).unwrap().username, "bob");
}

#[test]
fn register_with_wrong_session_is_rejected() {
    let mut reg = Registry::new();
    let mut w = World::new();
    w.put_account(account("alice", "S1", &[], test_pem()));
    let outs = do_register(&mut reg, &mut w, 1, "alice", "WRONG");
    assert_eq!(info_text(&outs[0]), Some("Invalid session ID."));
    assert!(!reg.contains(1));
}

#[test]
fn register_unknown_account_gets_same_generic_rejection() {
    let mut reg = Registry::new();
    let mut w = World::new();
    let outs = do_register(&mut reg, &mut w, 1, "ghost", "S1");
    assert_eq!(info_text(&outs[0]), Some("Invalid session ID."));
    assert!(!reg.contains(1));
}

#[test]
fn register_occupied_connection_yields_conflict_and_keeps_entry() {
    let mut reg = Registry::new();
    let mut w = World::new();
    w.put_account(account("alice", "S1", &[], test_pem()));
    w.put_account(account("bob", "S2", &[], test_pem()));
    do_register(&mut reg, &mut w, 1, "alice", "S1");

    let step = engine::handle_packet(&mut reg, 1, packet("bob", "S2", WSAction::Register()));
    let outs = drive(&mut reg, &mut w, step);
    assert_eq!(info_text(&outs[0]), Some("Client already registered."));
    assert_eq!(reg.lookup_by_connection(1).unwrap().username, "alice");
}

#[test]
fn unregistered_send_is_refused_without_any_store_call() {
    let mut reg = Registry::new();
    let mut w = World::new();
    let m = EncryptedMessage {
        data: b"hi".to_vec(),
        sender: s("alice"),
        dest_convo_id: s("c1"),
        sender_sid: s("S1"),
    };
    let step = engine::handle_packet(&mut reg, 9, packet("alice", "S1", WSAction::SendMessage(m)));
    let outs = drive(&mut reg, &mut w, step);
    assert_eq!(outs.len(), 1);
    assert_eq!(info_text(&outs[0]), Some("You are not registered with the server."));
    assert_eq!(w.calls, 0);
    assert!(!reg.contains(9));
}

#[test]
fn server_only_actions_are_rejected() {
    let mut reg = Registry::new();
    let mut w = World::new();
    for action in [
        WSAction::Info(s("x")),
        WSAction::ReceiveMessage(EncryptedMessage {
            data: Vec::new(),
            sender: s("a"),
            dest_convo_id: s(""),
            sender_sid: s(""),
        }),
    ] {
        let step = engine::handle_packet(&mut reg, 9, packet("alice", "S1", action));
        let outs = drive(&mut reg, &mut w, step);
        assert_eq!(info_text(&outs[0]), Some("The server does not accept server-only actions."));
    }
    assert_eq!(w.calls, 0);
}

#[test]
fn malformed_packet_reply_is_single_info() {
    let outs = engine::malformed_reply();
    assert_eq!(outs.len(), 1);
    assert_eq!(info_text(&outs[0]), Some("Invalid WSPacket."));
}

fn befriend(reg: &mut Registry, w: &mut World, conn: u64, requester: &str, sid: &str, target: &str) -> Vec<Output> {
    let step = engine::handle_packet(
        reg,
        conn,
        packet(requester, sid, WSAction::AddFriend(s(target))),
    );
    drive(reg, w, step)
}

#[test]
fn friends_then_message_scenario() {
    let mut reg = Registry::new();
    let mut w = World::new();
    w.put_account(account("alice", "S1", &[], test_pem()));
    w.put_account(account("bob", "S2", &[], test_pem()));
    do_register(&mut reg, &mut w, 1, "alice", "S1");
    do_register(&mut reg, &mut w, 2, "bob", "S2");

    // alice and bob become friends: exactly one conversation containing
    // both, with one wrapped key per member.
    let outs = befriend(&mut reg, &mut w, 1, "alice", "S1", "bob");
    assert_eq!(info_text(outs.last().unwrap()), Some("Friend added."));
    assert!(w.get_account("alice").unwrap().friends == vec![s("bob")]);
    assert!(w.get_account("bob").unwrap().friends == vec![s("alice")]);
    assert_eq!(w.convos.len(), 1);
    let c = &w.convos[0];
    assert_eq!(c.users, vec![s("alice"), s("bob")]);
    assert_eq!(c.keys.len(), 2);
    assert_eq!(c.keys[0].owner, "alice");
    assert_eq!(c.keys[1].owner, "bob");
    assert!(c.messages.is_empty());
    // both online members were pushed the new conversation
    let pushes: Vec<u64> = outs
        .iter()
        .filter_map(|o| match o {
            Output::Push(conn, p) => match p.action {
                WSAction::RecieveConversation(_) => Some(*conn),
                _ => None,
            },
            _ => None,
        })
        .collect();
    assert_eq!(pushes, vec![1, 2]);

    // alice sends b"hello": one persisted stripped message, one
    // ReceiveMessage push per registered member.
    let id = w.convos[0].id.clone();
    let m = EncryptedMessage {
        data: b"hello".to_vec(),
        sender: s("alice"),
        dest_convo_id: id,
        sender_sid: s("S1"),
    };
    let step = engine::handle_packet(&mut reg, 1, packet("alice", "S1", WSAction::SendMessage(m)));
    let outs = drive(&mut reg, &mut w, step);
    let c = &w.convos[0];
    assert_eq!(c.messages.len(), 1);
    assert_eq!(c.messages[0].sender, "alice");
    assert_eq!(c.messages[0].data, b"hello");
    assert_eq!(c.messages[0].dest_convo_id, "");
    assert_eq!(c.messages[0].sender_sid, "");
    let mut got_bob = false;
    for o in &outs {
        match o {
            Output::Push(conn, p) => match &p.action {
                WSAction::ReceiveMessage(fwd) => {
                    assert_eq!(fwd.data, b"hello");
                    assert_eq!(fwd.dest_convo_id, "");
                    assert_eq!(fwd.sender_sid, "");
                    if *conn == 2 {
                        got_bob = true;
                    }
                }
                _ => panic!("unexpected push"),
            },
            _ => panic!("unexpected output"),
        }
    }
    assert_eq!(outs.len(), 2);
    assert!(got_bob);
}

#[test]
fn send_fans_out_only_to_registered_members() {
    let mut reg = Registry::new();
    let mut w = World::new();
    w.put_account(account("alice", "S1", &["bob", "carol"], test_pem()));
    w.put_account(account("bob", "S2", &["alice"], test_pem()));
    w.put_account(account("carol", "S3", &["alice"], test_pem()));
    do_register(&mut reg, &mut w, 1, "alice", "S1");
    do_register(&mut reg, &mut w, 2, "bob", "S2");
    // carol stays offline

    let step = engine::handle_packet(
        &mut reg,
        1,
        packet("alice", "S1", WSAction::CreateConversation(vec![s("bob"), s("carol")])),
    );
    let outs = drive(&mut reg, &mut w, step);
    assert_eq!(info_text(outs.last().unwrap()), Some("Conversation created."));
    assert_eq!(w.convos.len(), 1);
    assert_eq!(w.convos[0].users, vec![s("bob"), s("carol"), s("alice")]);
    assert_eq!(w.convos[0].keys.len(), 3);

    let id = w.convos[0].id.clone();
    let m = EncryptedMessage {
        data: b"x".to_vec(),
        sender: s("alice"),
        dest_convo_id: id,
        sender_sid: s("S1"),
    };
    let step = engine::handle_packet(&mut reg, 1, packet("alice", "S1", WSAction::SendMessage(m)));
    let outs = drive(&mut reg, &mut w, step);
    // three members, two registered: exactly two pushes
    assert_eq!(outs.len(), 2);
    assert_eq!(w.convos[0].messages.len(), 1);
}

#[test]
fn send_by_non_member_is_unauthorized_and_mutates_nothing() {
    let mut reg = Registry::new();
    let mut w = World::new();
    w.put_account(account("alice", "S1", &[], test_pem()));
    w.put_account(account("mallory", "S9", &[], test_pem()));
    do_register(&mut reg, &mut w, 1, "mallory", "S9");
    w.put_convo(Conversation {
        id: s("c1"),
        users: vec![s("alice")],
        keys: Vec::new(),
        messages: Vec::new(),
    });

    let m = EncryptedMessage {
        data: b"intrusion".to_vec(),
        sender: s("mallory"),
        dest_convo_id: s("c1"),
        sender_sid: s("S9"),
    };
    let step = engine::handle_packet(&mut reg, 1, packet("mallory", "S9", WSAction::SendMessage(m)));
    let outs = drive(&mut reg, &mut w, step);
    assert_eq!(outs.len(), 1);
    assert_eq!(info_text(&outs[0]), Some("You are not a member of this conversation."));
    assert!(w.convos[0].messages.is_empty());
}

#[test]
fn send_to_missing_conversation_is_not_found() {
    let mut reg = Registry::new();
    let mut w = World::new();
    w.put_account(account("alice", "S1", &[], test_pem()));
    do_register(&mut reg, &mut w, 1, "alice", "S1");
    let m = EncryptedMessage {
        data: b"x".to_vec(),
        sender: s("alice"),
        dest_convo_id: s("nope"),
        sender_sid: s("S1"),
    };
    let step = engine::handle_packet(&mut reg, 1, packet("alice", "S1", WSAction::SendMessage(m)));
    let outs = drive(&mut reg, &mut w, step);
    assert_eq!(info_text(&outs[0]), Some("No such conversation."));
}

#[test]
fn add_friend_twice_is_conflict() {
    let mut reg = Registry::new();
    let mut w = World::new();
    w.put_account(account("alice", "S1", &[], test_pem()));
    w.put_account(account("bob", "S2", &[], test_pem()));
    do_register(&mut reg, &mut w, 1, "alice", "S1");
    befriend(&mut reg, &mut w, 1, "alice", "S1", "bob");
    let outs = befriend(&mut reg, &mut w, 1, "alice", "S1", "bob");
    assert_eq!(info_text(&outs[0]), Some("You are already friends with this user."));
    assert_eq!(w.convos.len(), 1);
}

#[test]
fn add_unknown_friend_is_not_found() {
    let mut reg = Registry::new();
    let mut w = World::new();
    w.put_account(account("alice", "S1", &[], test_pem()));
    do_register(&mut reg, &mut w, 1, "alice", "S1");
    let outs = befriend(&mut reg, &mut w, 1, "alice", "S1", "ghost");
    assert_eq!(info_text(&outs[0]), Some("Friend does not exist."));
}

#[test]
fn create_conversation_requires_friendship() {
    let mut reg = Registry::new();
    let mut w = World::new();
    w.put_account(account("alice", "S1", &[], test_pem()));
    w.put_account(account("bob", "S2", &[], test_pem()));
    do_register(&mut reg, &mut w, 1, "alice", "S1");
    let step = engine::handle_packet(
        &mut reg,
        1,
        packet("alice", "S1", WSAction::CreateConversation(vec![s("bob")])),
    );
    let outs = drive(&mut reg, &mut w, step);
    assert_eq!(
        info_text(&outs[0]),
        Some("You are not friends with all the users you are trying to create a conversation with.")
    );
    assert!(w.convos.is_empty());
}

#[test]
fn remove_friend_shrinks_shared_conversation_but_keeps_history() {
    let mut reg = Registry::new();
    let mut w = World::new();
    w.put_account(account("alice", "S1", &[], test_pem()));
    w.put_account(account("bob", "S2", &[], test_pem()));
    do_register(&mut reg, &mut w, 1, "alice", "S1");
    befriend(&mut reg, &mut w, 1, "alice", "S1", "bob");
    let id = w.convos[0].id.clone();
    let m = EncryptedMessage {
        data: b"hello".to_vec(),
        sender: s("alice"),
        dest_convo_id: id,
        sender_sid: s("S1"),
    };
    let step = engine::handle_packet(&mut reg, 1, packet("alice", "S1", WSAction::SendMessage(m)));
    drive(&mut reg, &mut w, step);

    let step = engine::handle_packet(
        &mut reg,
        1,
        packet("alice", "S1", WSAction::RemoveFriend(s("bob"))),
    );
    let outs = drive(&mut reg, &mut w, step);
    assert_eq!(info_text(outs.last().unwrap()), Some("Friend removed."));
    assert!(w.get_account("alice").unwrap().friends.is_empty());
    assert!(w.get_account("bob").unwrap().friends.is_empty());
    let c = &w.convos[0];
    assert_eq!(c.users, vec![s("alice")]);
    assert_eq!(c.keys.len(), 1);
    assert_eq!(c.keys[0].owner, "alice");
    assert_eq!(c.messages.len(), 1);
    assert_eq!(c.messages[0].data, b"hello");
}

#[test]
fn remove_non_friend_is_refused() {
    let mut reg = Registry::new();
    let mut w = World::new();
    w.put_account(account("alice", "S1", &[], test_pem()));
    w.put_account(account("bob", "S2", &[], test_pem()));
    do_register(&mut reg, &mut w, 1, "alice", "S1");
    let step = engine::handle_packet(
        &mut reg,
        1,
        packet("alice", "S1", WSAction::RemoveFriend(s("bob"))),
    );
    let outs = drive(&mut reg, &mut w, step);
    assert_eq!(info_text(&outs[0]), Some("You are not friends with this user."));
}

#[test]
fn directory_error_is_surfaced_on_register() {
    let mut reg = Registry::new();
    let step = engine::handle_packet(&mut reg, 1, packet("alice", "S1", WSAction::Register()));
    let outs = match step {
        Step::NeedAccount(name, cont) => {
            assert_eq!(name, "alice");
            let s = engine::resume_account(&mut reg, cont, Err(s("directory unreachable")));
            match s {
                Step::Done(outs) => outs,
                _ => panic!("a failed lookup must end the exchange"),
            }
        }
        _ => panic!("Register must ask for the account"),
    };
    assert_eq!(info_text(&outs[0]), Some("directory unreachable"));
    assert!(!reg.contains(1));
}

#[test]
fn store_failure_on_persist_aborts_fanout() {
    let mut reg = Registry::new();
    let mut w = World::new();
    w.put_account(account("alice", "S1", &[], test_pem()));
    w.put_account(account("bob", "S2", &[], test_pem()));
    do_register(&mut reg, &mut w, 1, "alice", "S1");
    do_register(&mut reg, &mut w, 2, "bob", "S2");
    w.put_convo(Conversation {
        id: s("c1"),
        users: vec![s("alice"), s("bob")],
        keys: Vec::new(),
        messages: Vec::new(),
    });

    let m = EncryptedMessage {
        data: b"x".to_vec(),
        sender: s("alice"),
        dest_convo_id: s("c1"),
        sender_sid: s("S1"),
    };
    let mut step = engine::handle_packet(&mut reg, 1, packet("alice", "S1", WSAction::SendMessage(m)));
    // answer the lookups honestly, but refuse the persist
    let outs = loop {
        step = match step {
            Step::Done(outs) => break outs,
            Step::NeedAccount(name, cont) => {
                let ans = Ok(w.get_account(&name));
                engine::resume_account(&mut reg, cont, ans)
            }
            Step::NeedConversation(id, cont) => {
                let ans = Ok(w.convos.iter().find(|c| c.id == id).map(|c| c.duplicate()));
                engine::resume_conversation(cont, ans)
            }
            Step::NeedReplace(_, cont) => {
                engine::resume_ack(&reg, cont, Err(s("store write failed")))
            }
            _ => panic!("unexpected request in the send flow"),
        };
    };
    assert_eq!(outs.len(), 1);
    assert_eq!(info_text(&outs[0]), Some("store write failed"));
    // nothing was persisted, nothing was pushed
    assert!(w.convos[0].messages.is_empty());
}

#[test]
fn session_mismatch_on_create_is_rejected_at_the_registry() {
    let mut reg = Registry::new();
    let mut w = World::new();
    w.put_account(account("alice", "S1", &["bob"], test_pem()));
    do_register(&mut reg, &mut w, 1, "alice", "S1");
    let step = engine::handle_packet(
        &mut reg,
        1,
        packet("alice", "STOLEN", WSAction::CreateConversation(vec![s("bob")])),
    );
    let outs = drive(&mut reg, &mut w, step);
    assert_eq!(info_text(&outs[0]), Some("Invalid session ID."));
    assert!(w.convos.is_empty());
}
