//! The cryptographic and random primitives the core relies on, each behind
//! a trusted declaration: RSA key wrapping (PKCS#1 v1.5), random byte
//! generation, and hex encoding of identifiers.
//!
//! Nothing here is verified against the cipher's mathematics; what each
//! wrapper promises is exactly what the outside crate's source shows for
//! every outcome.

use vstd::prelude::*;

use rand::RngCore;

verus! {

/// The sixteen lowercase hex digits, in value order.
pub open spec fn hex_digits() -> Seq<char> {
    seq![
        '0',
        '1',
        '2',
        '3',
        '4',
        '5',
        '6',
        '7',
        '8',
        '9',
        'a',
        'b',
        'c',
        'd',
        'e',
        'f',
    ]
}

/// The lowercase hex encoding of `bytes`: two digits per byte, high nibble
/// first.
pub open spec fn hex_of(bytes: Seq<u8>) -> Seq<char> {
    Seq::new(
        bytes.len() * 2,
        |i: int|
            if i % 2 == 0 {
                hex_digits()[(bytes[i / 2] >> 4u8) as int]
            } else {
                hex_digits()[(bytes[i / 2] & 0x0fu8) as int]
            },
    )
}

/// Relies on `hex::encode`: encodes each byte as two lowercase hex digits,
/// high nibble first.
#[verifier::external_body]
pub(crate) fn hex_encode(bytes: &Vec<u8>) -> (r: String)
    ensures
        r@ == hex_of(bytes@),
{
    hex::encode(bytes.as_slice())
}

/// Relies on `rand::RngCore::fill_bytes` on the thread-local generator:
/// fills the whole buffer with random bytes; a failure of the operating
/// system's entropy source aborts the process inside the generator rather
/// than returning. Nothing is promised of the bytes themselves.
#[verifier::external_body]
pub(crate) fn rng_fill(buf: &mut Vec<u8>)
    ensures
        final(buf)@.len() == old(buf)@.len(),
{
    rand::thread_rng().fill_bytes(buf.as_mut_slice());
}

/// Relies on `getrandom::getrandom`: on success the whole buffer holds
/// operating-system randomness; on failure the buffer length is unchanged.
/// Nothing is promised of the bytes themselves.
#[verifier::external_body]
pub(crate) fn os_random_fill(buf: &mut Vec<u8>) -> (ok: bool)
    ensures
        final(buf)@.len() == old(buf)@.len(),
{
    getrandom::getrandom(buf.as_mut_slice()).is_ok()
}

/// A random identifier of `len` bytes, hex-encoded: `2 * len` lowercase hex
/// digits.
pub fn rand_hex(len: usize) -> (r: String)
    ensures
        r@.len() == 2 * len,
        (exists|b: Seq<u8>| b.len() == len && r@ == hex_of(b)),
{
    let mut bytes: Vec<u8> = vec_zeroes(len);
    rng_fill(&mut bytes);
    let r = hex_encode(&bytes);
    proof {
        assert(bytes@.len() == len && r@ == hex_of(bytes@));
    }
    r
}

/// A vector of `len` zero bytes.
pub fn vec_zeroes(len: usize) -> (r: Vec<u8>)
    ensures
        r@.len() == len,
        forall|i: int| 0 <= i < len ==> r@[i] == 0u8,
{
    let mut r: Vec<u8> = Vec::new();
    let mut i: usize = 0;
    while i < len
        invariant
            i <= len,
            r@.len() == i,
            forall|j: int| 0 <= j < i ==> r@[j] == 0u8,
        decreases len - i,
    {
        r.push(0u8);
        i = i + 1;
    }
    r
}

/// Whether a message of `msg_len` bytes can be wrapped under the
/// PEM-encoded public key `pem`: the bytes parse as such a key and the
/// message fits under its modulus with room for the PKCS#1 v1.5 padding.
/// Both checks are functions of the pem bytes and the length alone, so the
/// predicate has a name rather than a transcription of the parser.
pub uninterp spec fn wrap_ok(pem: Seq<u8>, msg_len: int) -> bool;

/// Relies on `rsa::pkcs8::DecodePublicKey::from_public_key_pem` and
/// `rsa::RsaPublicKey::encrypt` with `rsa::Pkcs1v15Encrypt`: parses the
/// PEM-encoded key and wraps `msg` under it with randomized PKCS#1 v1.5
/// padding. Parsing validates the key, and a validated encryption fails
/// exactly when the message is longer than the modulus less the eleven
/// padding bytes, so success is `wrap_ok(pem@, msg@.len())`, deciding on
/// the arguments alone. The padding draws fresh randomness, so nothing is
/// promised of the ciphertext bytes.
#[verifier::external_body]
pub(crate) fn wrap_with_public_key(pem: &Vec<u8>, msg: &Vec<u8>) -> (r: Option<Vec<u8>>)
    ensures
        r is Some <==> wrap_ok(pem@, msg@.len() as int),
{
    let Ok(text) = core::str::from_utf8(pem.as_slice()) else {
        return None;
    };
    let Ok(key) = <rsa::RsaPublicKey as rsa::pkcs8::DecodePublicKey>::from_public_key_pem(text)
    else {
        return None;
    };
    key.encrypt(&mut rand::thread_rng(), rsa::Pkcs1v15Encrypt, msg.as_slice()).ok()
}

} // verus!
