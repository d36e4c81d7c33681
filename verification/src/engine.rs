//! The protocol dispatcher and per-connection state machine.
//!
//! Each inbound packet is handled to completion as a short exchange between
//! this verified core and the surrounding runtime: the core decides, and
//! where it needs the account directory or the conversation store it
//! returns a [`Step`] naming the request together with a continuation; the
//! runtime performs the I/O and hands the answer back to the matching
//! `resume` function. The registry is touched only inside these calls, so
//! it is never held across I/O.
//!
//! A connection is `Unregistered` until a `Register` action with a valid
//! session installs its registry entry, and `Closed` once `Disconnect` or a
//! transport error removes it; every other action is authorized against the
//! entry that `Register` installed.

use vstd::prelude::*;

use crate::auth::{self, session_ok, SessionVerdict};
use crate::crypto::wrap_ok;
use crate::keydist;
use crate::protocol::{
    clone_names, contains_name, is_info_packet_saying, info_packet, name_is_not,
    seq_contains_name, Account, Conversation, EncryptedMessage, WSAction, WSPacket,
};
use crate::registry::{conn_is_not, entry_for, first_conn, has_conn, EntryView, Registry};
use crate::relay::{self, out_conn, push_targets, Output};

verus! {

/// A continuation waiting for the directory's answer to a single
/// get-by-username lookup.
pub enum AccountCont {
    /// `Register`: waiting for the claimed account, to verify the claimed
    /// session before installing the registry entry.
    Register { conn: u64, username: String, sid: String },
    /// `SendMessage`: waiting for the sender's account, to verify the
    /// session the message claims.
    SendAuth { msg: EncryptedMessage },
    /// `CreateConversation`: waiting for the creator's account, to check
    /// that every requested member is one of the creator's friends.
    CreateAuth { creator: String, requested: Vec<String> },
}

/// A continuation waiting for the directory's answers to a batch of
/// get-by-username lookups, one per requested name in order.
pub enum AccountsCont {
    /// `CreateConversation`: waiting for every member's account, to wrap
    /// the conversation secret under each member's public key.
    Create { members: Vec<String> },
    /// `AddFriend`: waiting for the requester's and the target's accounts.
    FriendAdd { requester: String, target: String },
    /// `RemoveFriend`: waiting for the requester's and the target's
    /// accounts.
    FriendRemove { requester: String, target: String },
}

/// A continuation waiting for the store's answer to a get-conversation
/// lookup.
pub enum ConvoCont {
    /// `SendMessage`: waiting for the destination conversation, to check
    /// membership and append the message.
    Send { msg: EncryptedMessage },
}

/// A continuation waiting for the store's answer to a
/// get-all-conversations-for-user lookup.
pub enum ConvosCont {
    /// `RemoveFriend`: waiting for the requester's conversations, to shrink
    /// every one shared with the removed friend.
    Shrink { requester: String, target: String },
}

/// A continuation waiting for the store's or directory's acknowledgement of
/// a write.
pub enum AckCont {
    /// `SendMessage`: the append was persisted; fan the message out to the
    /// conversation's online members.
    SendPersist { users: Vec<String>, message: EncryptedMessage },
    /// Conversation creation: the conversation was inserted; push it to its
    /// online members. `via_friend_add` selects the final status text.
    CreateInsert { convo: Conversation, via_friend_add: bool },
    /// `AddFriend`: both friend lists were persisted; create the
    /// two-member conversation for the new pair.
    FriendUpdates { requester: Account, target: Account },
    /// `RemoveFriend`: both friend lists were persisted; fetch the
    /// requester's conversations to shrink the shared ones.
    RemoveUpdates { requester: String, target: String },
    /// `RemoveFriend`: the shrunk conversations were persisted; report the
    /// updated state.
    RemoveReplaced { target: String, updated: Vec<Conversation> },
}

/// What the core asks of the surrounding runtime next.
///
/// `Done` ends the exchange with deliveries to perform. Every other variant
/// names one directory or store request; the runtime performs it and hands
/// the answer to the `resume` function matching the continuation's type.
pub enum Step {
    /// Deliver these outputs; the exchange is over.
    Done(Vec<Output>),
    /// Directory: look the named account up by username.
    NeedAccount(String, AccountCont),
    /// Directory: look each named account up by username, answers in order.
    NeedAccounts(Vec<String>, AccountsCont),
    /// Store: fetch the conversation with this id.
    NeedConversation(String, ConvoCont),
    /// Store: fetch every conversation the named user is a member of.
    NeedConversations(String, ConvosCont),
    /// Store: insert this new conversation.
    NeedInsert(Conversation, AckCont),
    /// Store: replace this conversation with its updated value.
    NeedReplace(Conversation, AckCont),
    /// Store: replace each of these conversations, in order, stopping at
    /// the first failure.
    NeedReplaceMany(Vec<Conversation>, AckCont),
    /// Directory: persist each of these account values, in order, stopping
    /// at the first failure.
    NeedUpdates(Vec<Account>, AckCont),
}

/// Whether the conversation secret can be wrapped for every answered
/// member: each present account's public key parses and a secret of the
/// fixed length fits under it.
pub open spec fn all_answers_wrap(list: Seq<Option<Account>>) -> bool {
    forall|i: int| #![trigger list[i]]
        0 <= i < list.len() ==> match list[i] {
            Some(a) => wrap_ok(a@.public_key, keydist::SECRET_LEN as int),
            None => true,
        }
}

/// Whether `s` ends the exchange with exactly one informational reply
/// saying `text`.
pub open spec fn done_info(s: Step, text: Seq<char>) -> bool {
    &&& s matches Step::Done(outs) && {
        &&& outs@.len() == 1
        &&& outs@[0] matches Output::Reply(p) && is_info_packet_saying(p, text)
    }
}

/// Whether `s` is the informational reply owed for a failed session check:
/// the directory's own error text when the lookup failed, and the one
/// generic unauthorized text otherwise, whether the account was missing or
/// the session mismatched, so that the two are indistinguishable to the
/// client.
pub open spec fn auth_failure_reply(s: Step, lookup: Result<Option<Account>, String>) -> bool {
    match lookup {
        Err(e) => done_info(s, e@),
        _ => done_info(s, "Invalid session ID."@),
    }
}

/// The single informational reply sent for a packet that could not be
/// decoded; the connection stays open and nothing else happens.
pub fn malformed_reply() -> (outs: Vec<Output>)
    ensures
        outs@.len() == 1,
        (outs@[0] matches Output::Reply(p) && is_info_packet_saying(p, "Invalid WSPacket."@)),
{
    let mut outs: Vec<Output> = Vec::new();
    outs.push(Output::Reply(info_packet(String::from_str("Invalid WSPacket."))));
    outs
}

/// An abnormal transport closure: equivalent to an explicit `Disconnect`,
/// removing the connection's registry entry (and no other) with nothing to
/// deliver.
pub fn handle_close(reg: &mut Registry, conn: u64)
    requires
        old(reg).wf(),
    ensures
        final(reg).wf(),
        final(reg)@ == old(reg)@.filter(conn_is_not(conn)),
{
    reg.deregister(conn);
}

/// Routes one inbound packet from connection `conn`.
///
/// Mutating actions from an unregistered connection, a `Register` on an
/// already-occupied connection, a session claim that does not match the
/// registry entry, a reserved action, and a server-only action each end at
/// once with a single informational reply and no registry change — and, the
/// step being `Done`, no directory or store request is ever issued for
/// them. `Disconnect` removes exactly this connection's entry. The
/// remaining actions issue their first directory request.
pub fn handle_packet(reg: &mut Registry, conn: u64, pkt: WSPacket) -> (s: Step)
    requires
        old(reg).wf(),
    ensures
        final(reg).wf(),
        (pkt.action matches WSAction::Register() ==> {
            if has_conn(old(reg)@, conn) {
                &&& done_info(s, "Client already registered."@)
                &&& final(reg)@ == old(reg)@
            } else {
                &&& final(reg)@ == old(reg)@
                &&& s matches Step::NeedAccount(
                    name,
                    AccountCont::Register { conn: c2, username, sid },
                ) && name@ == pkt.sender@ && c2 == conn && username@ == pkt.sender@ && sid@
                    == pkt.sid@
            }
        }),
        (pkt.action matches WSAction::Disconnect() ==> {
            &&& final(reg)@ == old(reg)@.filter(conn_is_not(conn))
            &&& s matches Step::Done(outs) && outs@.len() == 0
        }),
        (pkt.action matches WSAction::SendMessage(m) ==> {
            &&& final(reg)@ == old(reg)@
            &&& if !has_conn(old(reg)@, conn) {
                done_info(s, "You are not registered with the server."@)
            } else {
                s matches Step::NeedAccount(name, AccountCont::SendAuth { msg }) && name@
                    == m.sender@ && msg@ == m@
            }
        }),
        (pkt.action matches WSAction::CreateConversation(list) ==> {
            &&& final(reg)@ == old(reg)@
            &&& if !has_conn(old(reg)@, conn) {
                done_info(s, "You are not registered with the server."@)
            } else if entry_for(old(reg)@, conn).username != pkt.sender@ || entry_for(
                old(reg)@,
                conn,
            ).session_id != pkt.sid@ {
                done_info(s, "Invalid session ID."@)
            } else {
                s matches Step::NeedAccount(
                    name,
                    AccountCont::CreateAuth { creator, requested },
                ) && name@ == pkt.sender@ && creator@ == pkt.sender@ && requested@.map_values(
                    |x: String| x@,
                ) == list@.map_values(|x: String| x@)
            }
        }),
        (pkt.action matches WSAction::AddFriend(t) ==> {
            &&& final(reg)@ == old(reg)@
            &&& if !has_conn(old(reg)@, conn) {
                done_info(s, "You are not registered with the server."@)
            } else if entry_for(old(reg)@, conn).username != pkt.sender@ || entry_for(
                old(reg)@,
                conn,
            ).session_id != pkt.sid@ {
                done_info(s, "Invalid session ID."@)
            } else {
                s matches Step::NeedAccounts(
                    names,
                    AccountsCont::FriendAdd { requester, target },
                ) && names@.len() == 2 && names@[0]@ == pkt.sender@ && names@[1]@ == t@
                    && requester@ == pkt.sender@ && target@ == t@
            }
        }),
        (pkt.action matches WSAction::RemoveFriend(t) ==> {
            &&& final(reg)@ == old(reg)@
            &&& if !has_conn(old(reg)@, conn) {
                done_info(s, "You are not registered with the server."@)
            } else if entry_for(old(reg)@, conn).username != pkt.sender@ || entry_for(
                old(reg)@,
                conn,
            ).session_id != pkt.sid@ {
                done_info(s, "Invalid session ID."@)
            } else {
                s matches Step::NeedAccounts(
                    names,
                    AccountsCont::FriendRemove { requester, target },
                ) && names@.len() == 2 && names@[0]@ == pkt.sender@ && names@[1]@ == t@
                    && requester@ == pkt.sender@ && target@ == t@
            }
        }),
        (pkt.action is DeleteConversation ==> final(reg)@ == old(reg)@ && done_info(
            s,
            "Not implemented."@,
        )),
        ((pkt.action is ReceiveMessage || pkt.action is RecieveConversation || pkt.action is Info)
            ==> final(reg)@ == old(reg)@ && done_info(
            s,
            "The server does not accept server-only actions."@,
        )),
{
    let WSPacket { sender, sid, action } = pkt;
    match action {
        WSAction::Register() => {
            if reg.contains(conn) {
                info_step("Client already registered.")
            } else {
                let name = sender.clone();
                Step::NeedAccount(name, AccountCont::Register { conn, username: sender, sid })
            }
        },
        WSAction::Disconnect() => {
            reg.deregister(conn);
            Step::Done(Vec::new())
        },
        WSAction::SendMessage(m) => {
            if !reg.contains(conn) {
                info_step("You are not registered with the server.")
            } else {
                let name = m.sender.clone();
                Step::NeedAccount(name, AccountCont::SendAuth { msg: m })
            }
        },
        WSAction::CreateConversation(list) => {
            match reg.lookup_by_connection(conn) {
                None => info_step("You are not registered with the server."),
                Some(entry) => {
                    if !(entry.username == sender) || !(entry.session_id == sid) {
                        info_step("Invalid session ID.")
                    } else {
                        let name = sender.clone();
                        Step::NeedAccount(
                            name,
                            AccountCont::CreateAuth { creator: sender, requested: list },
                        )
                    }
                },
            }
        },
        WSAction::AddFriend(t) => {
            match reg.lookup_by_connection(conn) {
                None => info_step("You are not registered with the server."),
                Some(entry) => {
                    if !(entry.username == sender) || !(entry.session_id == sid) {
                        info_step("Invalid session ID.")
                    } else {
                        let mut names: Vec<String> = Vec::new();
                        names.push(sender.clone());
                        names.push(t.clone());
                        Step::NeedAccounts(
                            names,
                            AccountsCont::FriendAdd { requester: sender, target: t },
                        )
                    }
                },
            }
        },
        WSAction::RemoveFriend(t) => {
            match reg.lookup_by_connection(conn) {
                None => info_step("You are not registered with the server."),
                Some(entry) => {
                    if !(entry.username == sender) || !(entry.session_id == sid) {
                        info_step("Invalid session ID.")
                    } else {
                        let mut names: Vec<String> = Vec::new();
                        names.push(sender.clone());
                        names.push(t.clone());
                        Step::NeedAccounts(
                            names,
                            AccountsCont::FriendRemove { requester: sender, target: t },
                        )
                    }
                },
            }
        },
        WSAction::DeleteConversation(_) => info_step("Not implemented."),
        WSAction::ReceiveMessage(_) => info_step("The server does not accept server-only actions."),
        WSAction::RecieveConversation(_) => info_step(
            "The server does not accept server-only actions.",
        ),
        WSAction::Info(_) => info_step("The server does not accept server-only actions."),
    }
}

/// Resumes an exchange that was waiting for a single directory lookup.
///
/// For `Register` this is where the session is verified and, only on
/// success and only when the connection is still unoccupied, the registry
/// entry is installed; every failure leaves the registry exactly as it was.
/// For `SendMessage` a verified session leads to the conversation fetch;
/// for `CreateConversation` the member list is cleaned (the creator
/// excluded, repetitions removed), checked against the creator's friend
/// list, extended with the creator, and every member's account is
/// requested. No other continuation touches the registry.
pub fn resume_account(
    reg: &mut Registry,
    cont: AccountCont,
    lookup: Result<Option<Account>, String>,
) -> (s: Step)
    requires
        old(reg).wf(),
    ensures
        final(reg).wf(),
        (cont matches AccountCont::Register { conn, username, sid } ==> {
            if session_ok(lookup, sid@) {
                if has_conn(old(reg)@, conn) {
                    &&& done_info(s, "Client already registered."@)
                    &&& final(reg)@ == old(reg)@
                } else {
                    &&& final(reg)@ == old(reg)@.push(
                        EntryView { conn, username: username@, session_id: sid@ },
                    )
                    &&& done_info(s, "Registered"@)
                }
            } else {
                final(reg)@ == old(reg)@ && auth_failure_reply(s, lookup)
            }
        }),
        (cont matches AccountCont::SendAuth { msg } ==> {
            &&& final(reg)@ == old(reg)@
            &&& if session_ok(lookup, msg.sender_sid@) {
                s matches Step::NeedConversation(id, ConvoCont::Send { msg: m2 }) && id@
                    == msg.dest_convo_id@ && m2@ == msg@
            } else {
                auth_failure_reply(s, lookup)
            }
        }),
        (cont matches AccountCont::CreateAuth { creator, requested } ==> {
            &&& final(reg)@ == old(reg)@
            &&& match lookup {
                Err(e) => done_info(s, e@),
                Ok(None) => done_info(s, "Invalid session ID."@),
                Ok(Some(acc)) => {
                    let cleaned = crate::protocol::dedup_names(
                        requested@.map_values(|x: String| x@).filter(name_is_not(creator@)),
                    );
                    if !(forall|i: int|
                        0 <= i < cleaned.len() ==> seq_contains_name(
                            acc@.friends,
                            #[trigger] cleaned[i],
                        )) {
                        done_info(
                            s,
                            "You are not friends with all the users you are trying to create a conversation with."@,
                        )
                    } else {
                        s matches Step::NeedAccounts(names, AccountsCont::Create { members }) && {
                            &&& names@.map_values(|x: String| x@) == cleaned.push(creator@)
                            &&& members@.map_values(|x: String| x@) == cleaned.push(creator@)
                            &&& forall|i: int, j: int|
                                0 <= i < j < members@.len() ==> members@[i]@ != members@[j]@
                        }
                    }
                },
            }
        }),
{
    match cont {
        AccountCont::Register { conn, username, sid } => {
            match auth::verify(lookup, &sid) {
                SessionVerdict::Authorized => {
                    match reg.register(conn, username, sid) {
                        Ok(()) => info_step("Registered"),
                        Err(_) => info_step("Client already registered."),
                    }
                },
                SessionVerdict::DirectoryError(e) => info_step_owned(e),
                SessionVerdict::InvalidSession => info_step("Invalid session ID."),
                SessionVerdict::AccountNotFound => info_step("Invalid session ID."),
            }
        },
        AccountCont::SendAuth { msg } => {
            match auth::verify(lookup, &msg.sender_sid) {
                SessionVerdict::Authorized => {
                    let id = msg.dest_convo_id.clone();
                    Step::NeedConversation(id, ConvoCont::Send { msg })
                },
                SessionVerdict::DirectoryError(e) => info_step_owned(e),
                SessionVerdict::InvalidSession => info_step("Invalid session ID."),
                SessionVerdict::AccountNotFound => info_step("Invalid session ID."),
            }
        },
        AccountCont::CreateAuth { creator, requested } => {
            match lookup {
                Err(e) => info_step_owned(e),
                Ok(None) => info_step("Invalid session ID."),
                Ok(Some(acc)) => {
                    let filtered = crate::protocol::remove_name(&requested, &creator);
                    let mut members = crate::protocol::dedup_list(&filtered);
                    let ghost cleaned = crate::protocol::dedup_names(
                        requested@.map_values(|x: String| x@).filter(name_is_not(creator@)),
                    );
                    proof {
                        broadcast use vstd::seq_lib::group_filter_ensures;

                        crate::protocol::lemma_dedup_distinct(
                            requested@.map_values(|x: String| x@).filter(name_is_not(creator@)),
                        );
                    }
                    if !crate::protocol::all_contained(&members, &acc.friends) {
                        proof {
                            let w = choose|i: int|
                                0 <= i < members@.len() && !seq_contains_name(
                                    acc@.friends,
                                    members@[i]@,
                                );
                            assert(cleaned[w] == members@[w]@);
                        }
                        info_step(
                            "You are not friends with all the users you are trying to create a conversation with.",
                        )
                    } else {
                        proof {
                            assert(forall|i: int|
                                0 <= i < cleaned.len() ==> members@[i]@ == #[trigger] cleaned[i]);
                        }
                        members.push(creator.clone());
                        proof {
                            assert(members@.map_values(|x: String| x@) =~= cleaned.push(
                                creator@,
                            ));
                            assert(members@.len() == cleaned.len() + 1);
                            assert forall|i: int, j: int|
                                0 <= i < j < members@.len() implies members@[i]@
                                != members@[j]@ by {
                                let fview = requested@.map_values(|x: String| x@).filter(
                                    name_is_not(creator@),
                                );
                                assert(members@[i]@ == cleaned.push(creator@)[i]);
                                assert(members@[j]@ == cleaned.push(creator@)[j]);
                                if j == members@.len() - 1 {
                                    assert(members@[j]@ == creator@);
                                    assert(cleaned[i] == members@[i]@);
                                    assert(seq_contains_name(cleaned, members@[i]@));
                                    crate::protocol::lemma_dedup_contains(
                                        fview,
                                        members@[i]@,
                                    );
                                    let k = choose|k: int|
                                        0 <= k < fview.len() && fview[k] == members@[i]@;
                                    requested@.map_values(|x: String| x@).lemma_filter_pred(
                                        name_is_not(creator@),
                                        k,
                                    );
                                    assert(fview[k] != creator@);
                                } else {
                                    assert(cleaned[i] != cleaned[j]);
                                }
                            }
                        }
                        let names = clone_names(&members);
                        proof {
                            assert(names@.map_values(|x: String| x@) =~= members@.map_values(
                                |x: String| x@,
                            ));
                        }
                        Step::NeedAccounts(names, AccountsCont::Create { members })
                    }
                },
            }
        },
    }
}

/// Resumes an exchange that was waiting for the destination conversation
/// of a `SendMessage`.
///
/// An absent conversation and a sender who is not a member each end the
/// exchange at once with one informational reply: in neither case is any
/// store write requested, so the conversation's message list cannot be
/// touched. For a member, the message is appended in persisted form (its
/// transient fields cleared) and the updated conversation is handed back
/// for the replace that must complete before any fan-out begins.
pub fn resume_conversation(cont: ConvoCont, lookup: Result<Option<Conversation>, String>) -> (s:
    Step)
    ensures
        (cont matches ConvoCont::Send { msg } ==> match lookup {
            Err(e) => done_info(s, e@),
            Ok(None) => done_info(s, "No such conversation."@),
            Ok(Some(c)) => {
                if !c@.has_member(msg.sender@) {
                    done_info(s, "You are not a member of this conversation."@)
                } else {
                    s matches Step::NeedReplace(c2, AckCont::SendPersist { users, message }) && {
                        &&& c2@.id == c@.id
                        &&& c2@.users == c@.users
                        &&& c2@.keys == c@.keys
                        &&& c2@.messages == c@.messages.push(msg@.stripped())
                        &&& users@.map_values(|x: String| x@) == c@.users
                        &&& message@ == msg@.stripped()
                    }
                }
            },
        }),
{
    match cont {
        ConvoCont::Send { msg } => {
            match lookup {
                Err(e) => info_step_owned(e),
                Ok(None) => info_step("No such conversation."),
                Ok(Some(c)) => {
                    if !c.has_member(&msg.sender) {
                        info_step("You are not a member of this conversation.")
                    } else {
                        let users = clone_names(&c.users);
                        let message = msg.stripped();
                        let mut c2 = c;
                        c2.send(msg);
                        Step::NeedReplace(c2, AckCont::SendPersist { users, message })
                    }
                },
            }
        },
    }
}

/// Resumes an exchange that was waiting for a batch of directory lookups.
///
/// Conversation creation is all or nothing: a directory failure, a missing
/// member, a failed secret generation or a failed key wrap each end the
/// exchange with one informational reply and no conversation is ever
/// persisted. When every member exists, the assembled conversation carries
/// exactly one wrapped key per member, in member order, and an empty log.
/// `AddFriend` refuses pairs that are already friends; `RemoveFriend`
/// refuses pairs that are not; otherwise both friend lists are updated
/// symmetrically and handed back for persisting.
#[verifier::loop_isolation(false)]
pub fn resume_accounts(
    cont: AccountsCont,
    lookup: Result<Vec<Option<Account>>, String>,
) -> (s: Step)
    ensures
        (cont matches AccountsCont::Create { members } ==> match lookup {
            Err(e) => done_info(s, e@),
            Ok(list) => {
                if list@.len() != members@.len() {
                    done_info(s, "The directory returned a mismatched answer."@)
                } else if exists|i: int| 0 <= i < list@.len() && list@[i] is None {
                    done_info(s, "A requested member does not exist."@)
                } else if !(forall|i: int, j: int|
                    0 <= i < j < members@.len() ==> members@[i]@ != members@[j]@) {
                    done_info(s, "The requested member list is malformed."@)
                } else {
                    ||| done_info(s, "Failed to generate a conversation secret."@)
                    ||| if !all_answers_wrap(list@) {
                        done_info(s, "Failed to wrap the conversation key for a member."@)
                    } else {
                        s matches Step::NeedInsert(
                            c,
                            AckCont::CreateInsert { convo, via_friend_add },
                        ) && {
                            &&& !via_friend_add
                            &&& convo@ == c@
                            &&& c@.users == members@.map_values(|x: String| x@)
                            &&& c@.messages == Seq::<crate::protocol::MsgView>::empty()
                            &&& c@.wf()
                        }
                    }
                }
            },
        }),
        (cont matches AccountsCont::FriendAdd { requester, target } ==> match lookup {
            Err(e) => done_info(s, e@),
            Ok(list) => {
                if list@.len() != 2 {
                    done_info(s, "The directory returned a mismatched answer."@)
                } else if list@[0] is None {
                    done_info(s, "Invalid session ID."@)
                } else if list@[1] is None {
                    done_info(s, "Friend does not exist."@)
                } else {
                    list@[0] matches Some(a) && list@[1] matches Some(b) && {
                        if seq_contains_name(a@.friends, target@) {
                            done_info(s, "You are already friends with this user."@)
                        } else {
                            s matches Step::NeedUpdates(
                                ups,
                                AckCont::FriendUpdates { requester: r2, target: t2 },
                            ) && {
                                &&& ups@.len() == 2
                                &&& ups@[0]@ == crate::protocol::with_friend(b@, requester@)
                                &&& ups@[1]@ == crate::protocol::with_friend(a@, target@)
                                &&& r2@ == crate::protocol::with_friend(a@, target@)
                                &&& t2@ == crate::protocol::with_friend(b@, requester@)
                            }
                        }
                    }
                }
            },
        }),
        (cont matches AccountsCont::FriendRemove { requester, target } ==> match lookup {
            Err(e) => done_info(s, e@),
            Ok(list) => {
                if list@.len() != 2 {
                    done_info(s, "The directory returned a mismatched answer."@)
                } else if list@[0] is None {
                    done_info(s, "Invalid session ID."@)
                } else if list@[1] is None {
                    done_info(s, "Friend does not exist."@)
                } else {
                    list@[0] matches Some(a) && list@[1] matches Some(b) && {
                        if !seq_contains_name(a@.friends, target@) {
                            done_info(s, "You are not friends with this user."@)
                        } else {
                            s matches Step::NeedUpdates(
                                ups,
                                AckCont::RemoveUpdates { requester: r2, target: t2 },
                            ) && {
                                &&& ups@.len() == 2
                                &&& ups@[0]@ == crate::protocol::without_friend(b@, requester@)
                                &&& ups@[1]@ == crate::protocol::without_friend(a@, target@)
                                &&& r2@ == requester@
                                &&& t2@ == target@
                            }
                        }
                    }
                }
            },
        }),
{
    match cont {
        AccountsCont::Create { members } => {
            match lookup {
                Err(e) => info_step_owned(e),
                Ok(list) => {
                    if list.len() != members.len() {
                        return info_step("The directory returned a mismatched answer.");
                    }
                    let mut accounts: Vec<Account> = Vec::new();
                    let mut i: usize = 0;
                    while i < list.len()
                        invariant
                            i <= list@.len(),
                            accounts@.len() == i,
                            forall|j: int| #![trigger list@[j]]
                                0 <= j < i ==> match list@[j] {
                                    Some(a) => accounts@[j]@ == a@,
                                    None => false,
                                },
                        decreases list@.len() - i,
                    {
                        match &list[i] {
                            Some(a) => accounts.push(a.duplicate()),
                            None => {
                                proof {
                                    assert(list@[i as int] is None);
                                }
                                return info_step("A requested member does not exist.");
                            },
                        }
                        i = i + 1;
                    }
                    if !crate::protocol::names_distinct(&members) {
                        return info_step("The requested member list is malformed.");
                    }
                    let ghost wrappable = forall|k: int|
                        0 <= k < accounts@.len() ==> wrap_ok(
                            #[trigger] accounts@[k]@.public_key,
                            keydist::SECRET_LEN as int,
                        );
                    proof {
                        if wrappable {
                            assert forall|j: int| #![trigger list@[j]]
                                0 <= j < list@.len() implies match list@[j] {
                                Some(a) => wrap_ok(a@.public_key, keydist::SECRET_LEN as int),
                                None => true,
                            } by {
                                assert(wrap_ok(
                                    accounts@[j]@.public_key,
                                    keydist::SECRET_LEN as int,
                                ));
                            }
                        } else {
                            let k = choose|k: int|
                                0 <= k < accounts@.len() && !wrap_ok(
                                    accounts@[k]@.public_key,
                                    keydist::SECRET_LEN as int,
                                );
                            assert(match list@[k] {
                                Some(a) => !wrap_ok(a@.public_key, keydist::SECRET_LEN as int),
                                None => false,
                            });
                            assert(!all_answers_wrap(list@));
                        }
                    }
                    match keydist::create_conversation(members, &accounts, 4) {
                        Err(e) => info_step_owned(e),
                        Ok(c) => {
                            let convo = c.duplicate();
                            Step::NeedInsert(
                                c,
                                AckCont::CreateInsert { convo, via_friend_add: false },
                            )
                        },
                    }
                },
            }
        },
        AccountsCont::FriendAdd { requester, target } => {
            match lookup {
                Err(e) => info_step_owned(e),
                Ok(list) => {
                    if list.len() != 2 {
                        return info_step("The directory returned a mismatched answer.");
                    }
                    match (&list[0], &list[1]) {
                        (Some(a), Some(b)) => {
                            if contains_name(&a.friends, &target) {
                                info_step("You are already friends with this user.")
                            } else {
                                let r2 = a.befriend(&target);
                                let t2 = b.befriend(&requester);
                                let mut ups: Vec<Account> = Vec::new();
                                ups.push(t2.duplicate());
                                ups.push(r2.duplicate());
                                Step::NeedUpdates(
                                    ups,
                                    AckCont::FriendUpdates { requester: r2, target: t2 },
                                )
                            }
                        },
                        (None, _) => info_step("Invalid session ID."),
                        (_, None) => info_step("Friend does not exist."),
                    }
                },
            }
        },
        AccountsCont::FriendRemove { requester, target } => {
            match lookup {
                Err(e) => info_step_owned(e),
                Ok(list) => {
                    if list.len() != 2 {
                        return info_step("The directory returned a mismatched answer.");
                    }
                    match (&list[0], &list[1]) {
                        (Some(a), Some(b)) => {
                            if !contains_name(&a.friends, &target) {
                                info_step("You are not friends with this user.")
                            } else {
                                let r2 = a.unfriend(&target);
                                let t2 = b.unfriend(&requester);
                                let mut ups: Vec<Account> = Vec::new();
                                ups.push(t2);
                                ups.push(r2);
                                Step::NeedUpdates(
                                    ups,
                                    AckCont::RemoveUpdates { requester, target },
                                )
                            }
                        },
                        (None, _) => info_step("Invalid session ID."),
                        (_, None) => info_step("Friend does not exist."),
                    }
                },
            }
        },
    }
}

/// Resumes an exchange that was waiting for the requester's conversation
/// list during a `RemoveFriend`.
///
/// Every conversation that both the requester and the removed friend
/// belong to is shrunk: the friend's membership and wrapped-key entry go,
/// the id and the message history stay, so the history remains readable by
/// the requester. Conversations not shared with the friend are untouched
/// and not rewritten.
pub fn resume_conversations(cont: ConvosCont, lookup: Result<Vec<Conversation>, String>) -> (s:
    Step)
    ensures
        (cont matches ConvosCont::Shrink { requester, target } ==> match lookup {
            Err(e) => done_info(s, e@),
            Ok(convos) => {
                let shrunk = convos@.map_values(|c: Conversation| c@).filter(
                    crate::protocol::involves_both(requester@, target@),
                ).map_values(crate::protocol::shrunk_view(target@));
                if shrunk.len() == 0 {
                    done_info(s, "Friend removed."@)
                } else {
                    s matches Step::NeedReplaceMany(
                        cs,
                        AckCont::RemoveReplaced { target: t2, updated },
                    ) && {
                        &&& cs@.map_values(|c: Conversation| c@) == shrunk
                        &&& updated@.map_values(|c: Conversation| c@) == shrunk
                        &&& t2@ == target@
                    }
                }
            },
        }),
{
    match cont {
        ConvosCont::Shrink { requester, target } => {
            match lookup {
                Err(e) => info_step_owned(e),
                Ok(convos) => {
                    let ghost views = convos@.map_values(|c: Conversation| c@);
                    let ghost pred = crate::protocol::involves_both(requester@, target@);
                    let ghost f = crate::protocol::shrunk_view(target@);
                    let mut cs: Vec<Conversation> = Vec::new();
                    let mut i: usize = 0;
                    while i < convos.len()
                        invariant
                            i <= convos@.len(),
                            views == convos@.map_values(|c: Conversation| c@),
                            pred == crate::protocol::involves_both(requester@, target@),
                            f == crate::protocol::shrunk_view(target@),
                            cs@.map_values(|c: Conversation| c@) == views.take(
                                i as int,
                            ).filter(pred).map_values(f),
                        decreases convos@.len() - i,
                    {
                        let ghost pre = cs@.map_values(|c: Conversation| c@);
                        let keep = convos[i].has_member(&requester) && convos[i].has_member(
                            &target,
                        );
                        if keep {
                            cs.push(convos[i].shrink(&target));
                        }
                        proof {
                            reveal(Seq::filter);
                            assert(views.take(i as int + 1).drop_last() =~= views.take(i as int));
                            assert(views.take(i as int + 1).last() == views[i as int]);
                            if keep {
                                assert(cs@.map_values(|c: Conversation| c@) =~= pre.push(
                                    f(views[i as int]),
                                ));
                                assert(views.take(i as int + 1).filter(pred).map_values(f)
                                    =~= views.take(i as int).filter(pred).map_values(f).push(
                                    f(views[i as int]),
                                ));
                            } else {
                                assert(views.take(i as int + 1).filter(pred).map_values(f)
                                    =~= views.take(i as int).filter(pred).map_values(f));
                            }
                        }
                        i = i + 1;
                    }
                    proof {
                        assert(views.take(convos@.len() as int) =~= views);
                    }
                    if cs.len() == 0 {
                        info_step("Friend removed.")
                    } else {
                        let updated = crate::protocol::clone_convos(&cs);
                        Step::NeedReplaceMany(cs, AckCont::RemoveReplaced { target, updated })
                    }
                },
            }
        },
    }
}

/// Resumes an exchange that was waiting for a write acknowledgement.
///
/// A failed write always ends the exchange with the store's or directory's
/// own error as one informational reply: a cross-store operation that has
/// already partly happened is surfaced, never hidden. After a persisted
/// message append, the stripped message is fanned out: exactly one
/// `ReceiveMessage` push per online member, none for offline members, and a
/// delivery failure is the runtime's to log and skip. After a persisted
/// conversation insert, the conversation is pushed to each online member.
/// After both friend-list updates of an `AddFriend`, the two-member
/// conversation is created; after those of a `RemoveFriend`, the
/// requester's conversations are fetched for shrinking; after the shrunk
/// conversations are persisted, the updated state is reported back and the
/// removed friend, if online, is told.
pub fn resume_ack(reg: &Registry, cont: AckCont, ack: Result<(), String>) -> (s: Step)
    ensures
        (cont matches AckCont::SendPersist { users, message } ==> match ack {
            Err(e) => done_info(s, e@),
            Ok(()) => s matches Step::Done(outs) && {
                &&& outs@.map_values(|o: Output| out_conn(o)) == push_targets(
                    reg@,
                    users@.map_values(|x: String| x@),
                )
                &&& outs@.len() == relay::count_online(
                    reg@,
                    users@.map_values(|x: String| x@),
                )
                &&& forall|j: int|
                    0 <= j < outs@.len() ==> relay::is_message_push(
                        #[trigger] outs@[j],
                        message@,
                    )
            },
        }),
        (cont matches AckCont::CreateInsert { convo, via_friend_add } ==> match ack {
            Err(e) => done_info(s, e@),
            Ok(()) => s matches Step::Done(outs) && {
                let targets = push_targets(reg@, convo@.users);
                &&& outs@.len() == targets.len() + 1
                &&& forall|j: int|
                    0 <= j < targets.len() ==> relay::is_convo_push(#[trigger] outs@[j], convo@)
                        && out_conn(outs@[j]) == targets[j]
                &&& outs@.last() matches Output::Reply(p) && is_info_packet_saying(
                    p,
                    if via_friend_add {
                        "Friend added."@
                    } else {
                        "Conversation created."@
                    },
                )
            },
        }),
        (cont matches AckCont::FriendUpdates { requester, target } ==> match ack {
            Err(e) => done_info(s, e@),
            Ok(()) if requester@.username == target@.username => done_info(
                s,
                "You cannot befriend yourself."@,
            ),
            Ok(()) => {
                ||| done_info(s, "Failed to generate a conversation secret."@)
                ||| if !(wrap_ok(requester@.public_key, keydist::SECRET_LEN as int) && wrap_ok(
                    target@.public_key,
                    keydist::SECRET_LEN as int,
                )) {
                    done_info(s, "Failed to wrap the conversation key for a member."@)
                } else {
                    s matches Step::NeedInsert(
                        c,
                        AckCont::CreateInsert { convo, via_friend_add },
                    ) && {
                        &&& via_friend_add
                        &&& convo@ == c@
                        &&& c@.users == seq![requester@.username, target@.username]
                        &&& c@.messages == Seq::<crate::protocol::MsgView>::empty()
                        &&& c@.keys.len() == 2
                        &&& c@.keys[0].owner == requester@.username
                        &&& c@.keys[1].owner == target@.username
                    }
                }
            },
        }),
        (cont matches AckCont::RemoveUpdates { requester, target } ==> match ack {
            Err(e) => done_info(s, e@),
            Ok(()) => s matches Step::NeedConversations(
                name,
                ConvosCont::Shrink { requester: r2, target: t2 },
            ) && name@ == requester@ && r2@ == requester@ && t2@ == target@,
        }),
        (cont matches AckCont::RemoveReplaced { target, updated } ==> match ack {
            Err(e) => done_info(s, e@),
            Ok(()) => s matches Step::Done(outs) && {
                let n = updated@.len();
                &&& outs@.len() == n + (if first_conn(reg@, target@) is Some {
                    2int
                } else {
                    1int
                })
                &&& forall|j: int|
                    0 <= j < n ==> (#[trigger] outs@[j] matches Output::Reply(p) && {
                        &&& crate::protocol::is_info_sender(p)
                        &&& p.action matches WSAction::RecieveConversation(cv) && cv@
                            == updated@[j]@
                    })
                &&& (first_conn(reg@, target@) matches Some(c) ==> outs@[n as int]
                    matches Output::Push(c2, p) && c2 == c && is_info_packet_saying(
                    p,
                    "You are no longer friends with this user."@,
                ))
                &&& outs@.last() matches Output::Reply(p) && is_info_packet_saying(
                    p,
                    "Friend removed."@,
                )
            },
        }),
{
    match cont {
        AckCont::SendPersist { users, message } => {
            match ack {
                Err(e) => info_step_owned(e),
                Ok(()) => {
                    let outs = relay::fan_out_message(reg, &users, &message);
                    proof {
                        relay::lemma_push_target_count(
                            reg@,
                            users@.map_values(|x: String| x@),
                        );
                        assert(outs@.len() == outs@.map_values(|o: Output| out_conn(o)).len());
                    }
                    Step::Done(outs)
                },
            }
        },
        AckCont::CreateInsert { convo, via_friend_add } => {
            match ack {
                Err(e) => info_step_owned(e),
                Ok(()) => {
                    let mut outs = relay::fan_out_conversation(reg, &convo.users, &convo);
                    let ghost fanned = outs@;
                    let text = if via_friend_add {
                        "Friend added."
                    } else {
                        "Conversation created."
                    };
                    outs.push(Output::Reply(info_packet(String::from_str(text))));
                    proof {
                        let targets = push_targets(reg@, convo@.users);
                        assert(fanned.len() == fanned.map_values(
                            |o: Output| out_conn(o),
                        ).len());
                        assert forall|j: int|
                            0 <= j < targets.len() implies relay::is_convo_push(
                            #[trigger] outs@[j],
                            convo@,
                        ) && out_conn(outs@[j]) == targets[j] by {
                            assert(outs@[j] == fanned[j]);
                            assert(fanned.map_values(|o: Output| out_conn(o))[j] == targets[j]);
                        }
                    }
                    Step::Done(outs)
                },
            }
        },
        AckCont::FriendUpdates { requester, target } => {
            match ack {
                Err(e) => info_step_owned(e),
                Ok(()) => {
                    if requester.username == target.username {
                        return info_step("You cannot befriend yourself.");
                    }
                    let mut users: Vec<String> = Vec::new();
                    users.push(requester.username.clone());
                    users.push(target.username.clone());
                    let mut accounts: Vec<Account> = Vec::new();
                    accounts.push(requester);
                    accounts.push(target);
                    match keydist::create_conversation(users, &accounts, 4) {
                        Err(e) => info_step_owned(e),
                        Ok(c) => {
                            proof {
                                assert(c@.users == seq![
                                    accounts@[0]@.username,
                                    accounts@[1]@.username,
                                ]) by {
                                    assert(c@.users =~= seq![
                                        accounts@[0]@.username,
                                        accounts@[1]@.username,
                                    ]);
                                }
                                assert(c@.keys[0].owner == c@.users[0]);
                                assert(c@.keys[1].owner == c@.users[1]);
                            }
                            let convo = c.duplicate();
                            Step::NeedInsert(
                                c,
                                AckCont::CreateInsert { convo, via_friend_add: true },
                            )
                        },
                    }
                },
            }
        },
        AckCont::RemoveUpdates { requester, target } => {
            match ack {
                Err(e) => info_step_owned(e),
                Ok(()) => {
                    let name = requester.clone();
                    Step::NeedConversations(name, ConvosCont::Shrink { requester, target })
                },
            }
        },
        AckCont::RemoveReplaced { target, updated } => {
            match ack {
                Err(e) => info_step_owned(e),
                Ok(()) => {
                    let ghost n = updated@.len();
                    let mut outs: Vec<Output> = Vec::new();
                    let mut i: usize = 0;
                    while i < updated.len()
                        invariant
                            i <= updated@.len(),
                            outs@.len() == i,
                            forall|j: int|
                                0 <= j < i ==> (#[trigger] outs@[j] matches Output::Reply(p) && {
                                    &&& crate::protocol::is_info_sender(p)
                                    &&& p.action matches WSAction::RecieveConversation(cv)
                                        && cv@ == updated@[j]@
                                }),
                        decreases updated@.len() - i,
                    {
                        let p = WSPacket {
                            sender: String::from_str("API"),
                            sid: String::from_str("0"),
                            action: WSAction::RecieveConversation(updated[i].duplicate()),
                        };
                        outs.push(Output::Reply(p));
                        i = i + 1;
                    }
                    match reg.first_conn_of(&target) {
                        Some(c) => {
                            outs.push(
                                Output::Push(
                                    c,
                                    info_packet(
                                        String::from_str(
                                            "You are no longer friends with this user.",
                                        ),
                                    ),
                                ),
                            );
                        },
                        None => {
                        },
                    }
                    outs.push(Output::Reply(info_packet(String::from_str("Friend removed."))));
                    Step::Done(outs)
                },
            }
        },
    }
}

/// A `Done` step with the single informational reply `text`.
fn info_step_owned(text: String) -> (s: Step)
    ensures
        done_info(s, text@),
{
    let mut outs: Vec<Output> = Vec::new();
    outs.push(Output::Reply(info_packet(text)));
    Step::Done(outs)
}

/// A `Done` step with the single informational reply `text`.
fn info_step(text: &str) -> (s: Step)
    ensures
        done_info(s, text@),
{
    let mut outs: Vec<Output> = Vec::new();
    outs.push(Output::Reply(info_packet(String::from_str(text))));
    Step::Done(outs)
}

} // verus!
