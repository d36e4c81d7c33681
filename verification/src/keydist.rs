//! The key-distribution engine: on conversation creation it generates a
//! random symmetric secret, wraps one copy per member under that member's
//! public key, and assembles the conversation that is persisted with an
//! empty message log.
//!
//! The secret exists in the clear only inside this creation step; what is
//! assembled holds one ciphertext per member and nothing else.

use vstd::prelude::*;

use crate::crypto::{self, wrap_ok};
use crate::protocol::{Account, Conversation, UserKey};

verus! {

/// The byte length of a conversation's symmetric secret.
pub const SECRET_LEN: usize = 32;

/// Generates a fresh conversation secret from operating-system randomness:
/// `SECRET_LEN` bytes, or `None` when the operating system refuses.
pub fn generate_secret() -> (r: Option<Vec<u8>>)
    ensures
        (r matches Some(s) ==> s@.len() == SECRET_LEN),
{
    let mut buf = crypto::vec_zeroes(SECRET_LEN);
    if crypto::os_random_fill(&mut buf) {
        Some(buf)
    } else {
        None
    }
}

impl UserKey {
    /// Wraps `key` under the PEM-encoded public key `public_key_pem`,
    /// producing the entry that lets only `owner` recover it. Succeeds
    /// exactly when the bytes parse as a public key that the secret fits
    /// under; fails otherwise, with the one key-wrap error text.
    pub fn encrypt(key: &Vec<u8>, owner: &String, public_key_pem: &Vec<u8>) -> (r: Result<
        UserKey,
        String,
    >)
        ensures
            r is Ok <==> wrap_ok(public_key_pem@, key@.len() as int),
            (r matches Ok(k) ==> k@.owner == owner@),
            (r matches Err(e) ==> e@ == "Failed to wrap the conversation key for a member."@),
    {
        match crypto::wrap_with_public_key(public_key_pem, key) {
            Some(wrapped) => Ok(UserKey { owner: owner.clone(), key: wrapped }),
            None => Err(String::from_str("Failed to wrap the conversation key for a member.")),
        }
    }
}

/// Wraps `secret` once per member: entry `i` is owned by `users[i]` and
/// wrapped under `accounts[i]`'s public key. All or nothing: the
/// distribution succeeds exactly when the secret wraps under every
/// member's key, and any member whose key cannot be used fails the whole
/// of it.
pub fn distribute_keys(users: &Vec<String>, accounts: &Vec<Account>, secret: &Vec<u8>) -> (r:
    Result<Vec<UserKey>, String>)
    requires
        users@.len() == accounts@.len(),
    ensures
        r is Ok <==> (forall|i: int|
            0 <= i < accounts@.len() ==> wrap_ok(
                #[trigger] accounts@[i]@.public_key,
                secret@.len() as int,
            )),
        (r matches Ok(ks) ==> {
            &&& ks@.len() == users@.len()
            &&& forall|i: int| 0 <= i < ks@.len() ==> ks@[i]@.owner == #[trigger] users@[i]@
        }),
        (r matches Err(e) ==> e@ == "Failed to wrap the conversation key for a member."@),
{
    let mut ks: Vec<UserKey> = Vec::new();
    let mut i: usize = 0;
    while i < users.len()
        invariant
            i <= users@.len(),
            users@.len() == accounts@.len(),
            ks@.len() == i,
            forall|j: int| 0 <= j < i ==> ks@[j]@.owner == #[trigger] users@[j]@,
            forall|j: int|
                0 <= j < i ==> wrap_ok(#[trigger] accounts@[j]@.public_key, secret@.len() as int),
        decreases users@.len() - i,
    {
        match UserKey::encrypt(secret, &users[i], &accounts[i].public_key) {
            Ok(k) => ks.push(k),
            Err(e) => {
                proof {
                    assert(!wrap_ok(accounts@[i as int]@.public_key, secret@.len() as int));
                }
                return Err(e);
            },
        }
        i = i + 1;
    }
    Ok(ks)
}

/// Assembles the conversation that is persisted at creation time: the given
/// id, the member list, one wrapped key per member in member order, and an
/// empty message log.
pub fn assemble_conversation(id: String, users: Vec<String>, keys: Vec<UserKey>) -> (c:
    Conversation)
    requires
        keys@.len() == users@.len(),
        forall|i: int| 0 <= i < keys@.len() ==> keys@[i]@.owner == #[trigger] users@[i]@,
        forall|i: int, j: int| 0 <= i < j < users@.len() ==> users@[i]@ != users@[j]@,
    ensures
        c@.id == id@,
        c@.users == users@.map_values(|s: String| s@),
        c@.keys == keys@.map_values(|k: UserKey| k@),
        c@.messages == Seq::<crate::protocol::MsgView>::empty(),
        c@.wf(),
{
    let c = Conversation { id, users, keys, messages: Vec::new() };
    proof {
        assert(c@.messages =~= Seq::<crate::protocol::MsgView>::empty());
    }
    c
}

/// Creates the conversation for member list `users` whose directory records
/// are `accounts` (entry `i` for member `i`): a fresh random secret, one
/// wrapped copy per member, a fresh random id of `id_bytes` bytes, an empty
/// message log. All or nothing: a member whose key cannot wrap the secret
/// forces the whole creation to fail, and the only other failure is the
/// operating system refusing randomness; no conversation is produced in
/// either case.
pub fn create_conversation(users: Vec<String>, accounts: &Vec<Account>, id_bytes: usize) -> (r:
    Result<Conversation, String>)
    requires
        users@.len() == accounts@.len(),
        forall|i: int, j: int| 0 <= i < j < users@.len() ==> users@[i]@ != users@[j]@,
    ensures
        (r matches Ok(c) ==> {
            &&& c@.users == users@.map_values(|s: String| s@)
            &&& c@.messages == Seq::<crate::protocol::MsgView>::empty()
            &&& c@.id.len() == 2 * id_bytes
            &&& (exists|b: Seq<u8>| b.len() == id_bytes && c@.id == crypto::hex_of(b))
            &&& c@.wf()
        }),
        (!(forall|i: int|
            0 <= i < accounts@.len() ==> wrap_ok(
                #[trigger] accounts@[i]@.public_key,
                SECRET_LEN as int,
            )) ==> r is Err),
        (r matches Err(e) ==> e@ == "Failed to generate a conversation secret."@ || (e@
            == "Failed to wrap the conversation key for a member."@ && !(forall|i: int|
            0 <= i < accounts@.len() ==> wrap_ok(
                #[trigger] accounts@[i]@.public_key,
                SECRET_LEN as int,
            )))),
{
    let secret = match generate_secret() {
        Some(s) => s,
        None => {
            return Err(String::from_str("Failed to generate a conversation secret."));
        },
    };
    let keys = match distribute_keys(&users, accounts, &secret) {
        Ok(ks) => ks,
        Err(e) => {
            return Err(e);
        },
    };
    let id = crypto::rand_hex(id_bytes);
    Ok(assemble_conversation(id, users, keys))
}

} // verus!
