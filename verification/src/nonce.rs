//! Single-use, time-boxed, HMAC-bound nonces keyed by session id.
//!
//! A nonce is a random value and an independent random key, both stored in
//! URL-safe base64, with its creation time. The tag a client must echo back
//! is the lowercase hexadecimal HMAC-SHA-384, under the nonce's own key, of
//! `created_at:nonce:secret`, where the secret is a process-wide deployment
//! value never sent to clients — so a captured nonce and key alone cannot
//! forge a tag. A nonce is valid for five minutes from creation and the
//! window never extends; validation compares tags in constant time, and
//! malformed stored material makes validation false rather than an error.

use vstd::prelude::*;
use vstd::string::StrSliceExecFns;
use vstd::utf8::encode_utf8;

use crate::crypto::ct_str_eq;
use crate::crypto::hmac_sha384;
use crate::crypto::hmac_sha384_of;
use crate::crypto::random_bytes;
use crate::crypto::random_key_bytes;
use crate::encoding::b64url_decode;
use crate::encoding::b64url_encode;
use crate::encoding::b64url_of;
use crate::encoding::hex_chars_of;
use crate::encoding::hex_encode;
use crate::encoding::lemma_b64url_injective;
use crate::errors::ErrorKind;
use crate::numerals::decimal;
use crate::numerals::push_decimal;

verus! {

/// Number of seconds a nonce stays valid after issuance.
pub const NONCE_TTL_SECS: u64 = 300;

/// A nonce is stale once more than `NONCE_TTL_SECS` seconds have passed
/// since its creation; the window never extends.
pub open spec fn nonce_expired(created_at: u64, now: u64) -> bool {
    now > created_at && now - created_at > NONCE_TTL_SECS
}

/// One session's live nonce: the random value the session is challenged
/// with, the session it is bound to, the per-nonce HMAC key, and the
/// creation time in seconds since the epoch.
#[derive(Clone, Debug)]
pub struct Nonce {
    pub nonce: String,
    pub session_id: String,
    pub key: String,
    pub created_at: u64,
}

pub ghost struct NonceView {
    pub nonce: Seq<char>,
    pub session_id: Seq<char>,
    pub key: Seq<char>,
    pub created_at: u64,
}

impl View for Nonce {
    type V = NonceView;

    open spec fn view(&self) -> NonceView {
        NonceView {
            nonce: self.nonce@,
            session_id: self.session_id@,
            key: self.key@,
            created_at: self.created_at,
        }
    }
}

/// The message a nonce's tag signs: `created_at:nonce:secret`, as bytes.
pub open spec fn nonce_msg(created_at: u64, nonce: Seq<char>, secret: Seq<char>) -> Seq<u8> {
    decimal(created_at as nat) + seq![58u8] + encode_utf8(nonce) + seq![58u8] + encode_utf8(secret)
}

/// Whether a stored key is well-formed URL-safe base64.
pub open spec fn key_decodable(key: Seq<char>) -> bool {
    exists|b: Seq<u8>| key == b64url_of(b)
}

/// The bytes a well-formed stored key decodes to.
pub open spec fn key_bytes_of(key: Seq<char>) -> Seq<u8> {
    choose|b: Seq<u8>| key == b64url_of(b)
}

/// The tag of a nonce under the deployment secret: hexadecimal
/// HMAC-SHA-384 of the nonce's message under the nonce's own key.
pub open spec fn tag_of(n: NonceView, secret: Seq<char>) -> Seq<char> {
    hex_chars_of(hmac_sha384_of(key_bytes_of(n.key), nonce_msg(n.created_at, n.nonce, secret)))
}

/// When a supplied tag validates a nonce at time `now`: the nonce is not
/// stale, its stored key is well-formed, and the tag is exactly the nonce's
/// tag. Staleness and a wrong tag are indistinguishable to a caller.
pub open spec fn nonce_valid(n: NonceView, tag: Seq<char>, now: u64, secret: Seq<char>) -> bool {
    &&& !nonce_expired(n.created_at, now)
    &&& key_decodable(n.key)
    &&& tag == tag_of(n, secret)
}

impl Nonce {
    /// A fresh nonce for `session_id` at time `now`: a 32-byte random value
    /// and an independent 48-byte random key, both stored URL-safe. Fails
    /// only when the system entropy source does.
    pub fn new(session_id: &str, now: u64) -> (r: Result<Nonce, ErrorKind>)
        ensures
            r matches Ok(n) ==> {
                &&& n@.session_id == session_id@
                &&& n@.created_at == now
                &&& exists|b: Seq<u8>| b.len() == 32 && n@.nonce == b64url_of(b)
                &&& exists|b: Seq<u8>| b.len() == 48 && n@.key == b64url_of(b)
                &&& key_decodable(n@.key)
            },
            r matches Err(e) ==> e == ErrorKind::Internal,
    {
        let nonce_rand_bytes = random_bytes(32);
        let nonce = b64url_encode(nonce_rand_bytes.as_slice());
        let key_value = match random_key_bytes() {
            Some(k) => k,
            None => {
                return Err(ErrorKind::Internal);
            },
        };
        let key = b64url_encode(key_value.as_slice());
        Ok(Nonce { nonce, session_id: session_id.to_owned(), key, created_at: now })
    }

    /// The bytes of this nonce's message under `secret`.
    fn message_bytes(&self, secret: &str) -> (r: Vec<u8>)
        ensures
            r@ == nonce_msg(self.created_at, self.nonce@, secret@),
    {
        let mut v: Vec<u8> = Vec::new();
        push_decimal(&mut v, self.created_at);
        v.push(58);
        let mut nb = self.nonce.as_str().as_bytes_vec();
        v.append(&mut nb);
        v.push(58);
        let mut sb = secret.as_bytes_vec();
        v.append(&mut sb);
        proof {
            assert(v@ =~= nonce_msg(self.created_at, self.nonce@, secret@));
        }
        v
    }

    /// The tag to hand to the client, or `None` when the stored key is not
    /// well-formed base64. The key itself is never sent.
    pub fn get_hmac(&self, secret: &str) -> (r: Option<String>)
        ensures
            r is Some <==> key_decodable(self@.key),
            r matches Some(t) ==> t@ == tag_of(self@, secret@),
    {
        let key_value = match b64url_decode(self.key.as_str()) {
            Some(k) => k,
            None => {
                return None;
            },
        };
        proof {
            assert(key_decodable(self@.key));
            lemma_b64url_injective(key_bytes_of(self@.key), key_value@);
        }
        let message = self.message_bytes(secret);
        let tag = hmac_sha384(key_value.as_slice(), message.as_slice());
        Some(hex_encode(tag.as_slice()))
    }

    /// Whether `tag` validates this nonce at time `now` under the
    /// deployment secret: false when stale, when the stored key is
    /// malformed, or when the tag differs — compared in constant time.
    pub fn validate(&self, tag: &str, now: u64, secret: &str) -> (r: bool)
        ensures
            r == nonce_valid(self@, tag@, now, secret@),
    {
        if self.is_expired(now) {
            return false;
        }
        let expected = match self.get_hmac(secret) {
            Some(t) => t,
            None => {
                return false;
            },
        };
        ct_str_eq(tag, expected.as_str())
    }

    /// Whether this nonce is stale at time `now`.
    pub fn is_expired(&self, now: u64) -> (r: bool)
        ensures
            r == nonce_expired(self.created_at, now),
    {
        if now <= self.created_at {
            false
        } else {
            now - self.created_at > NONCE_TTL_SECS
        }
    }
}

/// The deployment secret as the nonce engine uses it: the lowercase
/// hexadecimal of the configured value's bytes.
pub fn derive_nonce_secret(raw: &str) -> (r: String)
    requires
        encode_utf8(raw@).len() <= 0x1000000000000000,
    ensures
        r@ == hex_chars_of(encode_utf8(raw@)),
{
    let b = raw.as_bytes_vec();
    hex_encode(b.as_slice())
}

} // verus!
