//! Bindings to the cryptographic primitives the library relies on: keyed
//! hashes and constant-time comparison from `ring`, and random bytes from
//! `rand` and `ring`. Tags are named functions of key and message; of random
//! bytes only their length is stated.

use vstd::prelude::*;

verus! {

/// HMAC-SHA-384 tag of a message under a key.
pub uninterp spec fn hmac_sha384_of(key: Seq<u8>, msg: Seq<u8>) -> Seq<u8>;

/// Relies on ring's `hmac::sign` with `HMAC_SHA384`: a 48-byte tag that is a
/// function of the key and the message alone.
#[verifier::external_body]
pub fn hmac_sha384(key: &[u8], msg: &[u8]) -> (r: Vec<u8>)
    ensures
        r@ == hmac_sha384_of(key@, msg@),
        r@.len() == 48,
{
    let k = ring::hmac::Key::new(ring::hmac::HMAC_SHA384, key);
    ring::hmac::sign(&k, msg).as_ref().to_vec()
}

/// HMAC-SHA-256 tag of a message under a key.
pub uninterp spec fn hmac_sha256_of(key: Seq<u8>, msg: Seq<u8>) -> Seq<u8>;

/// Relies on ring's `hmac::sign` with `HMAC_SHA256`: a 32-byte tag that is a
/// function of the key and the message alone.
#[verifier::external_body]
pub fn hmac_sha256(key: &[u8], msg: &[u8]) -> (r: Vec<u8>)
    ensures
        r@ == hmac_sha256_of(key@, msg@),
        r@.len() == 32,
{
    let k = ring::hmac::Key::new(ring::hmac::HMAC_SHA256, key);
    ring::hmac::sign(&k, msg).as_ref().to_vec()
}

/// Relies on ring's `constant_time::verify_slices_are_equal`: it reports
/// exactly whether the two byte strings are equal, without data-dependent
/// timing; texts are equal exactly when their UTF-8 bytes are.
#[verifier::external_body]
pub fn ct_str_eq(a: &str, b: &str) -> (r: bool)
    ensures
        r == (a@ == b@),
{
    ring::constant_time::verify_slices_are_equal(a.as_bytes(), b.as_bytes()).is_ok()
}

/// Relies on rand's `thread_rng` and `Rng::gen`: `n` bytes from the
/// thread-local generator; nothing is assumed of their values.
#[verifier::external_body]
pub fn random_bytes(n: usize) -> (r: Vec<u8>)
    ensures
        r@.len() == n,
{
    (0..n).map(|_| rand::Rng::gen::<u8>(&mut rand::thread_rng())).collect()
}

/// Relies on ring's `rand::generate` over a 48-byte array and
/// `SystemRandom`: it fills the array from the system entropy source, or
/// reports failure.
#[verifier::external_body]
pub fn random_key_bytes() -> (r: Option<Vec<u8>>)
    ensures
        r matches Some(v) ==> v@.len() == 48,
{
    let rng = ring::rand::SystemRandom::new();
    match ring::rand::generate::<[u8; 48]>(&rng) {
        Ok(v) => Some(v.expose().to_vec()),
        Err(_) => None,
    }
}

} // verus!
