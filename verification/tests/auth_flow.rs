//! The store, nonce and sign-in behaviour: round trips, single use, replay
//! rejection, expiry, guarantor idempotence, and the full scenario.

use authcore::errors::ErrorKind;
use authcore::flow::{consume_nonce_and_validate, issue_nonce};
use authcore::nonce::{derive_nonce_secret, Nonce};
use authcore::session_data::{SessionData, SessionState};
use authcore::store::{MemorySessionStore, UserSession};
use authcore::token::{decrypt_jwt, encrypt_jwt};
use authcore::claims::Claims;

const NONCE_SECRET: &str = "746573745f6465706c6f796d656e74";
const TOKEN_SECRET: &str = "c2VjcmV0";

fn state(id: &str, user: Option<u128>, expiry: Option<u64>) -> SessionState {
    SessionState {
        id: id.to_string(),
        data: SessionData { user_id: user, issued_at: 1000 },
        expiry,
    }
}

#[test]
fn store_load_roundtrip() {
    let mut store = MemorySessionStore::new();
    let s = state("sid-1", Some(42), None);
    let cookie = store.store_session(&s, 1000);
    assert_eq!(cookie, "sid-1");
    assert_eq!(store.load_session(&cookie, 2000), Some(s.data));
}

#[test]
fn load_respects_expiry_and_absence() {
    let mut store = MemorySessionStore::new();
    let s = state("sid-1", Some(42), Some(5000));
    let cookie = store.store_session(&s, 1000);
    assert_eq!(store.load_session(&cookie, 5000), Some(s.data));
    assert_eq!(store.load_session(&cookie, 5001), None);
    assert_eq!(store.load_session("absent", 1000), None);
}

#[test]
fn load_of_bare_row_is_none() {
    let mut store = MemorySessionStore::new();
    assert_eq!(UserSession::redundant_guarantee(&mut store, "sid-1", 1000), Ok(1));
    assert_eq!(store.load_session("sid-1", 1000), None);
}

#[test]
fn store_updates_only_blob_and_activity() {
    let mut store = MemorySessionStore::new();
    let first = state("sid-1", None, Some(9000));
    store.store_session(&first, 1000);
    let second = state("sid-1", Some(7), None);
    store.store_session(&second, 2000);
    assert_eq!(store.load_session("sid-1", 9000), Some(second.data));
    assert_eq!(store.load_session("sid-1", 9001), None);
}

#[test]
fn destroy_is_idempotent() {
    let mut store = MemorySessionStore::new();
    let s = state("sid-1", None, None);
    store.store_session(&s, 1000);
    store.destroy_session("sid-1");
    assert_eq!(store.load_session("sid-1", 1000), None);
    store.destroy_session("sid-1");
    store.destroy_session("never-there");
}

#[test]
fn clear_store_empties_everything() {
    let mut store = MemorySessionStore::new();
    store.store_session(&state("a", None, None), 1000);
    store.store_session(&state("b", None, None), 1000);
    store.clear_store();
    assert_eq!(store.load_session("a", 1000), None);
    assert_eq!(store.load_session("b", 1000), None);
}

#[test]
fn guarantor_is_idempotent() {
    let mut store = MemorySessionStore::new();
    assert_eq!(UserSession::redundant_guarantee(&mut store, "sid-1", 1000), Ok(1));
    assert_eq!(UserSession::redundant_guarantee(&mut store, "sid-1", 2000), Ok(0));
    assert_eq!(UserSession::redundant_guarantee(&mut store, "sid-1", 3000), Ok(0));
    let n = Nonce::new("sid-1", 3000).unwrap();
    assert_eq!(n.insert(&mut store), Some(()));
}

#[test]
fn guarantor_keeps_stored_row() {
    let mut store = MemorySessionStore::new();
    let s = state("sid-1", Some(9), None);
    store.store_session(&s, 1000);
    assert_eq!(UserSession::redundant_guarantee(&mut store, "sid-1", 2000), Ok(0));
    assert_eq!(store.load_session("sid-1", 2000), Some(s.data));
}

#[test]
fn nonce_insert_requires_session_row() {
    let mut store = MemorySessionStore::new();
    let n = Nonce::new("sid-1", 1000).unwrap();
    assert_eq!(n.insert(&mut store), None);
    assert_eq!(UserSession::redundant_guarantee(&mut store, "sid-1", 1000), Ok(1));
    assert_eq!(n.insert(&mut store), Some(()));
}

#[test]
fn nonce_take_is_single_use() {
    let mut store = MemorySessionStore::new();
    let secret = derive_nonce_secret("deploy");
    let tag = issue_nonce(&mut store, "sid-1", 1000, &secret).unwrap();
    assert!(!tag.is_empty());
    let first = Nonce::take(&mut store, "sid-1");
    let second = Nonce::take(&mut store, "sid-1");
    assert!(first.is_some());
    assert!(second.is_none());
}

#[test]
fn nonce_overwrite_keeps_one_live() {
    let mut store = MemorySessionStore::new();
    let secret = derive_nonce_secret("deploy");
    let tag1 = issue_nonce(&mut store, "sid-1", 1000, &secret).unwrap();
    let tag2 = issue_nonce(&mut store, "sid-1", 1100, &secret).unwrap();
    assert_ne!(tag1, tag2);
    // the first tag was replaced; only the second validates
    assert!(!consume_nonce_and_validate(&mut store, "sid-1", &tag1, 1200, &secret));
    let tag3 = issue_nonce(&mut store, "sid-1", 1200, &secret).unwrap();
    assert!(consume_nonce_and_validate(&mut store, "sid-1", &tag3, 1300, &secret));
}

#[test]
fn replay_always_fails() {
    let mut store = MemorySessionStore::new();
    let secret = derive_nonce_secret("deploy");
    let tag = issue_nonce(&mut store, "sid-1", 1000, &secret).unwrap();
    assert!(consume_nonce_and_validate(&mut store, "sid-1", &tag, 1001, &secret));
    assert!(!consume_nonce_and_validate(&mut store, "sid-1", &tag, 1002, &secret));
}

#[test]
fn failed_attempt_still_burns_nonce() {
    let mut store = MemorySessionStore::new();
    let secret = derive_nonce_secret("deploy");
    let tag = issue_nonce(&mut store, "sid-1", 1000, &secret).unwrap();
    assert!(!consume_nonce_and_validate(&mut store, "sid-1", "wrong", 1001, &secret));
    // even the honest tag now fails: the nonce was consumed on the first attempt
    assert!(!consume_nonce_and_validate(&mut store, "sid-1", &tag, 1002, &secret));
}

#[test]
fn nonce_expiry_window() {
    let mut store = MemorySessionStore::new();
    let secret = derive_nonce_secret("deploy");
    let tag = issue_nonce(&mut store, "sid-1", 1000, &secret).unwrap();
    assert!(consume_nonce_and_validate(&mut store, "sid-1", &tag, 1299, &secret));
    let tag = issue_nonce(&mut store, "sid-1", 1000, &secret).unwrap();
    assert!(!consume_nonce_and_validate(&mut store, "sid-1", &tag, 1301, &secret));
}

#[test]
fn validate_needs_matching_secret() {
    let mut store = MemorySessionStore::new();
    let secret = derive_nonce_secret("deploy");
    let other = derive_nonce_secret("other");
    let tag = issue_nonce(&mut store, "sid-1", 1000, &secret).unwrap();
    assert!(!consume_nonce_and_validate(&mut store, "sid-1", &tag, 1001, &other));
}

#[test]
fn nonce_tag_is_hex_of_hmac() {
    let secret = derive_nonce_secret(NONCE_SECRET);
    let n = Nonce::new("sid-1", 1000).unwrap();
    let tag = n.get_hmac(&secret).unwrap();
    assert_eq!(tag.len(), 96);
    assert!(tag.bytes().all(|b| b.is_ascii_hexdigit() && !b.is_ascii_uppercase()));
    assert!(n.validate(&tag, 1200, &secret));
    assert!(!n.validate(&tag, 1301, &secret));
    assert!(!n.validate("", 1200, &secret));
}

#[test]
fn malformed_key_never_validates() {
    let n = Nonce {
        nonce: "abc".to_string(),
        session_id: "sid-1".to_string(),
        key: "not base64!".to_string(),
        created_at: 1000,
    };
    let secret = derive_nonce_secret("deploy");
    assert_eq!(n.get_hmac(&secret), None);
    assert!(!n.validate("anything", 1001, &secret));
}

#[test]
fn error_kinds_have_generic_messages() {
    assert_eq!(ErrorKind::NotFound.message(), "Not Found");
    assert_eq!(ErrorKind::Unauthorized.message(), "Unauthorized");
    assert_eq!(ErrorKind::Conflict.message(), "Conflict");
    assert_eq!(ErrorKind::Internal.message(), "Internal Server Error");
}

#[test]
fn signin_scenario() {
    let mut store = MemorySessionStore::new();
    let nonce_secret = derive_nonce_secret(NONCE_SECRET);
    let now: u64 = 1000;

    // client with no cookie asks for a nonce: session row + nonce created
    let sid = "fresh-session";
    let tag = issue_nonce(&mut store, sid, now, &nonce_secret).unwrap();

    // client posts correct credentials with the tag within five minutes
    let ok = consume_nonce_and_validate(&mut store, sid, &tag, now + 120, &nonce_secret);
    assert!(ok);

    // sign-in succeeded: token minted, session updated with the identity
    let claims = Claims::new(42, 7, 3, now + 120);
    let token = encrypt_jwt(TOKEN_SECRET, claims).unwrap();
    let cookie = store.store_session(
        &SessionState {
            id: sid.to_string(),
            data: SessionData { user_id: Some(42), issued_at: now + 120 },
            expiry: None,
        },
        now + 120,
    );
    assert_eq!(cookie, sid);
    assert_eq!(decrypt_jwt(TOKEN_SECRET, &token, now + 121), Ok(claims));

    // replaying the same tag is refused
    assert!(!consume_nonce_and_validate(&mut store, sid, &tag, now + 130, &nonce_secret));

    // six minutes later a fresh nonce still works
    let later = now + 360;
    let tag2 = issue_nonce(&mut store, sid, later, &nonce_secret).unwrap();
    assert!(consume_nonce_and_validate(&mut store, sid, &tag2, later + 60, &nonce_secret));
}
