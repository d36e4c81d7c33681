//! Outbound delivery: what the core hands back to the runtime to put on
//! the wire, and the fan-out of a packet to every online member of a
//! conversation.
//!
//! Delivery is fire-and-forget best effort: an offline member simply gets
//! no push, and the runtime logs and skips a recipient whose channel is
//! closed; neither ever fails the operation that triggered the fan-out.

use vstd::prelude::*;

use crate::protocol::{Conversation, ConvoView, EncryptedMessage, MsgView, WSAction, WSPacket};
use crate::registry::{first_conn, EntryView, Registry};

verus! {

/// One outbound delivery the runtime must perform: a reply on the
/// triggering connection's own channel, or a push on the channel of the
/// named connection.
pub enum Output {
    Reply(WSPacket),
    Push(u64, WSPacket),
}

/// The connection handle a push is delivered on. A reply maps to `0`; the
/// fan-out contracts apply this to pushes only.
pub open spec fn out_conn(o: Output) -> u64 {
    match o {
        Output::Push(c, _) => c,
        Output::Reply(_) => 0,
    }
}

/// The connections a fan-out to `users` reaches, in member order: the first
/// registered connection of every online user, skipping offline users.
pub open spec fn push_targets(s: Seq<EntryView>, users: Seq<Seq<char>>) -> Seq<u64>
    decreases users.len(),
{
    if users.len() == 0 {
        Seq::empty()
    } else {
        let rest = push_targets(s, users.drop_first());
        match first_conn(s, users.first()) {
            Some(c) => seq![c] + rest,
            None => rest,
        }
    }
}

/// How many of `users` are online in `s`: the number of pushes a fan-out to
/// them produces.
pub open spec fn count_online(s: Seq<EntryView>, users: Seq<Seq<char>>) -> int
    decreases users.len(),
{
    if users.len() == 0 {
        0int
    } else {
        (if first_conn(s, users.first()) is Some {
            1int
        } else {
            0int
        }) + count_online(s, users.drop_first())
    }
}

/// A fan-out to `users` produces exactly one push per currently online
/// user: as many pushes as online members.
pub proof fn lemma_push_target_count(s: Seq<EntryView>, users: Seq<Seq<char>>)
    ensures
        push_targets(s, users).len() == count_online(s, users),
    decreases users.len(),
{
    if users.len() > 0 {
        lemma_push_target_count(s, users.drop_first());
    }
}

/// Whether `o` pushes a `ReceiveMessage` packet carrying exactly the
/// message `m`, attributed to its sender with the server session id `0`.
pub open spec fn is_message_push(o: Output, m: MsgView) -> bool {
    &&& o matches Output::Push(_, p) && {
        &&& p.sender@ == m.sender
        &&& p.sid@ == "0"@
        &&& p.action matches WSAction::ReceiveMessage(fwd) && fwd@ == m
    }
}

/// Whether `o` pushes a `RecieveConversation` packet carrying exactly the
/// conversation `c`, attributed to the server.
pub open spec fn is_convo_push(o: Output, c: ConvoView) -> bool {
    &&& o matches Output::Push(_, p) && {
        &&& crate::protocol::is_info_sender(p)
        &&& p.action matches WSAction::RecieveConversation(fwd) && fwd@ == c
    }
}

/// Pushes `message` as a `ReceiveMessage` packet to the first registered
/// connection of every online user in `users`, in member order, skipping
/// users who are offline: exactly one push per online member.
pub fn fan_out_message(reg: &Registry, users: &Vec<String>, message: &EncryptedMessage) -> (outs:
    Vec<Output>)
    ensures
        outs@.map_values(|o: Output| out_conn(o)) == push_targets(
            reg@,
            users@.map_values(|s: String| s@),
        ),
        forall|j: int| 0 <= j < outs@.len() ==> is_message_push(#[trigger] outs@[j], message@),
{
    let ghost views = users@.map_values(|s: String| s@);
    let mut outs: Vec<Output> = Vec::new();
    let mut i: usize = 0;
    proof {
        assert(views.skip(0) =~= views);
        assert(outs@.map_values(|o: Output| out_conn(o)) =~= Seq::<u64>::empty());
    }
    while i < users.len()
        invariant
            i <= users@.len(),
            views == users@.map_values(|s: String| s@),
            outs@.map_values(|o: Output| out_conn(o)) + push_targets(reg@, views.skip(i as int))
                == push_targets(reg@, views),
            forall|j: int| 0 <= j < outs@.len() ==> is_message_push(#[trigger] outs@[j], message@),
        decreases users@.len() - i,
    {
        let ghost pre = outs@.map_values(|o: Output| out_conn(o));
        proof {
            assert(views.skip(i as int).first() == views[i as int]);
            assert(views.skip(i as int).drop_first() =~= views.skip(i as int + 1));
        }
        match reg.first_conn_of(&users[i]) {
            Some(conn) => {
                let packet = WSPacket {
                    sender: message.sender.clone(),
                    sid: String::from_str("0"),
                    action: WSAction::ReceiveMessage(message.duplicate()),
                };
                outs.push(Output::Push(conn, packet));
                proof {
                    assert(outs@.map_values(|o: Output| out_conn(o)) =~= pre.push(conn));
                    assert(pre.push(conn) + push_targets(reg@, views.skip(i as int + 1)) =~= pre
                        + (seq![conn] + push_targets(reg@, views.skip(i as int + 1))));
                }
            },
            None => {
            },
        }
        i = i + 1;
    }
    proof {
        assert(views.skip(views.len() as int) =~= Seq::<Seq<char>>::empty());
    }
    outs
}

/// Pushes `convo` as a `RecieveConversation` packet to the first registered
/// connection of every online user in `users`, in member order, skipping
/// users who are offline: exactly one push per online member.
pub fn fan_out_conversation(reg: &Registry, users: &Vec<String>, convo: &Conversation) -> (outs:
    Vec<Output>)
    ensures
        outs@.map_values(|o: Output| out_conn(o)) == push_targets(
            reg@,
            users@.map_values(|s: String| s@),
        ),
        forall|j: int| 0 <= j < outs@.len() ==> is_convo_push(#[trigger] outs@[j], convo@),
{
    let ghost views = users@.map_values(|s: String| s@);
    let mut outs: Vec<Output> = Vec::new();
    let mut i: usize = 0;
    proof {
        assert(views.skip(0) =~= views);
        assert(outs@.map_values(|o: Output| out_conn(o)) =~= Seq::<u64>::empty());
    }
    while i < users.len()
        invariant
            i <= users@.len(),
            views == users@.map_values(|s: String| s@),
            outs@.map_values(|o: Output| out_conn(o)) + push_targets(reg@, views.skip(i as int))
                == push_targets(reg@, views),
            forall|j: int| 0 <= j < outs@.len() ==> is_convo_push(#[trigger] outs@[j], convo@),
        decreases users@.len() - i,
    {
        let ghost pre = outs@.map_values(|o: Output| out_conn(o));
        proof {
            assert(views.skip(i as int).first() == views[i as int]);
            assert(views.skip(i as int).drop_first() =~= views.skip(i as int + 1));
        }
        match reg.first_conn_of(&users[i]) {
            Some(conn) => {
                let packet = WSPacket {
                    sender: String::from_str("API"),
                    sid: String::from_str("0"),
                    action: WSAction::RecieveConversation(convo.duplicate()),
                };
                outs.push(Output::Push(conn, packet));
                proof {
                    assert(outs@.map_values(|o: Output| out_conn(o)) =~= pre.push(conn));
                    assert(pre.push(conn) + push_targets(reg@, views.skip(i as int + 1)) =~= pre
                        + (seq![conn] + push_targets(reg@, views.skip(i as int + 1))));
                }
            },
            None => {
            },
        }
        i = i + 1;
    }
    proof {
        assert(views.skip(views.len() as int) =~= Seq::<Seq<char>>::empty());
    }
    outs
}

} // verus!
