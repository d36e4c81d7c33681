//! Key distribution: secret generation, key wrapping, conversation
//! assembly, and the wrap/unwrap round trip.

use rsa::pkcs8::EncodePublicKey;
use rsa::traits::PublicKeyParts;
use rsa::{Pkcs1v15Encrypt, RsaPrivateKey, RsaPublicKey};

use relay_core::keydist;
use relay_core::protocol::{Account, UserKey};

fn s(text: &str) -> String {
    String::from(text)
}

fn test_keypair() -> (RsaPrivateKey, Vec<u8>) {
    let mut rng = rand::thread_rng();
    let private = RsaPrivateKey::new(&mut rng, 512).expect("keygen");
    let public = RsaPublicKey::from(&private);
    let pem = public
        .to_public_key_pem(rsa::pkcs8::LineEnding::LF)
        .expect("pem")
        .into_bytes();
    (private, pem)
}

fn account(name: &str, sid: &str, pem: &[u8]) -> Account {
    Account {
        username: s(name),
        hash: s(""),
        public_key: pem.to_vec(),
        priv_key_enc: Vec::new(),
        friends: Vec::new(),
        session_id: s(sid),
    }
}

fn contains_window(hay: &[u8], needle: &[u8]) -> bool {
    if needle.is_empty() || hay.len() < needle.len() {
        return false;
    }
    hay.windows(needle.len()).any(|w| w == needle)
}

#[test]
fn generate_secret_is_32_bytes() {
    let secret = keydist::generate_secret().expect("os randomness");
    assert_eq!(secret.len(), 32);
}

#[test]
fn wrap_then_unwrap_recovers_secret() {
    let (private, pem) = test_keypair();
    let secret: Vec<u8> = (1u8..=32).collect();
    let wrapped = UserKey::encrypt(&secret, &s("alice"), &pem).expect("wrap");
    assert_eq!(wrapped.owner, "alice");
    let recovered = private
        .decrypt(Pkcs1v15Encrypt, &wrapped.key)
        .expect("unwrap");
    assert_eq!(recovered, secret);
}

#[test]
fn wrapped_key_does_not_expose_secret_bytes() {
    let (private, pem) = test_keypair();
    let secret: Vec<u8> = (100u8..132).collect();
    let wrapped = UserKey::encrypt(&secret, &s("alice"), &pem).expect("wrap");
    assert_eq!(wrapped.key.len(), private.size());
    assert!(!contains_window(&wrapped.key, &secret));
}

#[test]
fn wrap_with_garbage_public_key_fails() {
    let secret: Vec<u8> = vec![1; 32];
    let r = UserKey::encrypt(&secret, &s("alice"), &vec![1, 2, 3]);
    assert!(r.is_err());
}

#[test]
fn wrap_of_oversized_secret_fails() {
    // a 512-bit key holds 64 bytes; PKCS#1 v1.5 leaves room for at most
    // 64 - 11 = 53 bytes of message
    let (_, pem) = test_keypair();
    let too_long: Vec<u8> = vec![7; 60];
    assert!(UserKey::encrypt(&too_long, &s("alice"), &pem).is_err());
    let fits: Vec<u8> = vec![7; 53];
    assert!(UserKey::encrypt(&fits, &s("alice"), &pem).is_ok());
}

#[test]
fn create_conversation_has_one_key_per_member_and_empty_log() {
    let (_, pem_a) = test_keypair();
    let (_, pem_b) = test_keypair();
    let (_, pem_c) = test_keypair();
    let users = vec![s("alice"), s("bob"), s("carol")];
    let accounts = vec![
        account("alice", "S1", &pem_a),
        account("bob", "S2", &pem_b),
        account("carol", "S3", &pem_c),
    ];
    let c = keydist::create_conversation(users, &accounts, 4).expect("create");
    assert_eq!(c.users.len(), 3);
    assert_eq!(c.keys.len(), 3);
    for (i, name) in ["alice", "bob", "carol"].iter().enumerate() {
        assert_eq!(c.users[i], *name);
        assert_eq!(c.keys[i].owner, *name);
    }
    assert!(c.messages.is_empty());
    assert_eq!(c.id.len(), 8);
    assert!(c.id.chars().all(|ch| ch.is_ascii_hexdigit()));
}

#[test]
fn create_conversation_aborts_whole_on_bad_member_key() {
    let (_, pem_a) = test_keypair();
    let users = vec![s("alice"), s("bob")];
    let accounts = vec![
        account("alice", "S1", &pem_a),
        account("bob", "S2", b"not a pem"),
    ];
    assert!(keydist::create_conversation(users, &accounts, 4).is_err());
}
