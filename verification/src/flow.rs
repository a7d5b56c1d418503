//! The two authentication flows over the store — issuing a nonce and
//! consuming one at sign-in — and the laws the subsystem keeps: a stored
//! session loads back, a nonce is taken exactly once, a consumed nonce
//! never validates again, expiry is absolute, and the guarantor is
//! idempotent.

use vstd::prelude::*;

use crate::errors::ErrorKind;
use crate::nonce::key_decodable;
use crate::nonce::nonce_valid;
use crate::nonce::tag_of;
use crate::nonce::Nonce;
use crate::nonce::NonceView;
use crate::nonce::NONCE_TTL_SECS;
use crate::session_data::lemma_session_data_roundtrip;
use crate::session_data::SessionStateView;
use crate::store::spec_consume;
use crate::store::spec_ensure_exists;
use crate::store::spec_take;
use crate::store::spec_load;
use crate::store::spec_store;
use crate::store::MemorySessionStore;
use crate::store::StoreView;
use crate::store::UserSession;
use crate::store::UserSessionView;
use crate::store::SESSION_TTL_SECS;

verus! {

/// Issues a nonce for `sid`: ensures the session row exists, builds a
/// fresh nonce at `now`, upserts it as the session's only live nonce, and
/// returns the tag the client must echo back — never the key. Fails only
/// when the entropy source does, and then writes no nonce.
pub fn issue_nonce(store: &mut MemorySessionStore, sid: &str, now: u64, secret: &str) -> (r:
    Result<String, ErrorKind>)
    requires
        old(store).inv(),
        now + SESSION_TTL_SECS <= u64::MAX,
    ensures
        final(store).inv(),
        final(store)@.sessions == spec_ensure_exists(old(store)@.sessions, sid@, now),
        r matches Ok(tag) ==> {
            &&& final(store)@.nonces == old(store)@.nonces.insert(
                sid@,
                final(store)@.nonces[sid@],
            )
            &&& final(store)@.nonces.contains_key(sid@)
            &&& final(store)@.nonces[sid@].session_id == sid@
            &&& final(store)@.nonces[sid@].created_at == now
            &&& key_decodable(final(store)@.nonces[sid@].key)
            &&& tag@ == tag_of(final(store)@.nonces[sid@], secret@)
        },
        r matches Err(e) ==> e == ErrorKind::Internal && final(store)@.nonces == old(
            store,
        )@.nonces,
{
    match UserSession::redundant_guarantee(store, sid, now) {
        Ok(_) => {},
        Err(_) => {
            proof {
                assert(false);
            }
            return Err(ErrorKind::Internal);
        },
    }
    let nonce = match Nonce::new(sid, now) {
        Ok(n) => n,
        Err(_) => {
            return Err(ErrorKind::Internal);
        },
    };
    match nonce.insert(store) {
        Some(_) => {},
        None => {
            proof {
                assert(false);
            }
            return Err(ErrorKind::Internal);
        },
    }
    let tag = match nonce.get_hmac(secret) {
        Some(t) => t,
        None => {
            proof {
                assert(false);
            }
            return Err(ErrorKind::Internal);
        },
    };
    Ok(tag)
}

/// The sign-in consumption: takes — and thereby burns — the nonce for
/// `sid`, then validates the supplied tag against the taken value. True
/// exactly when a nonce was present and the tag validated; the nonce is
/// consumed on this first attempt regardless of the outcome, so a replay,
/// or a retry after a failed attempt, finds nothing until a fresh nonce is
/// issued.
pub fn consume_nonce_and_validate(
    store: &mut MemorySessionStore,
    sid: &str,
    tag: &str,
    now: u64,
    secret: &str,
) -> (r: bool)
    requires
        old(store).inv(),
    ensures
        final(store).inv(),
        (final(store)@, r) == spec_consume(old(store)@, sid@, tag@, now, secret@),
{
    let nonce = match Nonce::take(store, sid) {
        Some(n) => n,
        None => {
            return false;
        },
    };
    nonce.validate(tag, now, secret)
}

/// A stored session loads back (round trip): loading the cookie value that
/// a store returned — the session id — yields exactly the data stored,
/// provided the load happens no later than the stored row's expiry.
pub proof fn lemma_store_load_roundtrip(
    v: StoreView,
    s: SessionStateView,
    now: u64,
    later: u64,
)
    requires
        now + SESSION_TTL_SECS <= u64::MAX,
        later <= spec_store(v.sessions, s, now)[s.id].expires_at,
    ensures
        spec_load(
            StoreView { sessions: spec_store(v.sessions, s, now), nonces: v.nonces },
            s.id,
            later,
        ) == Some(s.data),
{
    lemma_session_data_roundtrip(s.data);
}

/// Single use: with one nonce issued for a session, of two takes for that
/// session's id exactly one yields it. The store serializes the two
/// transactions; whichever runs second observes absence.
pub proof fn lemma_nonce_single_use(v: StoreView, sid: Seq<char>)
    requires
        v.nonces.contains_key(sid),
    ensures
        spec_take(v, sid).1 == Some(v.nonces[sid]),
        spec_take(spec_take(v, sid).0, sid).1 is None,
{
}

/// Replay rejection: a consumption removes the nonce whatever its outcome,
/// so validating the same id again — with any tag, at any time, even after
/// a first attempt that itself failed — always fails.
pub proof fn lemma_replay_rejected(
    v: StoreView,
    sid: Seq<char>,
    tag1: Seq<char>,
    tag2: Seq<char>,
    now1: u64,
    now2: u64,
    secret: Seq<char>,
)
    ensures
        !spec_consume(spec_consume(v, sid, tag1, now1, secret).0, sid, tag2, now2, secret).1,
{
}

/// Expiry is absolute: past the five-minute window no tag validates a
/// nonce, and within it the nonce's own tag does (when the stored key is
/// well-formed). The window is fixed at creation and never extends.
pub proof fn lemma_nonce_expiry(n: NonceView, tag: Seq<char>, now: u64, secret: Seq<char>)
    ensures
        now > n.created_at && now - n.created_at > NONCE_TTL_SECS ==> !nonce_valid(
            n,
            tag,
            now,
            secret,
        ),
        key_decodable(n.key) && n.created_at + 299 <= u64::MAX ==> nonce_valid(
            n,
            tag_of(n, secret),
            (n.created_at + 299) as u64,
            secret,
        ),
{
}

/// Guarantor idempotence: ensuring a session row any number of times — at
/// any times, in any serialization of concurrent calls — leaves exactly
/// one row for the id and changes nothing after the first call; and the
/// guarantor never reports an error.
pub proof fn lemma_guarantor_idempotent(
    m: Map<Seq<char>, UserSessionView>,
    sid: Seq<char>,
    now1: u64,
    now2: u64,
)
    ensures
        spec_ensure_exists(spec_ensure_exists(m, sid, now1), sid, now2) == spec_ensure_exists(
            m,
            sid,
            now1,
        ),
        spec_ensure_exists(m, sid, now1).contains_key(sid),
        spec_ensure_exists(m, sid, now1).dom() =~= m.dom().insert(sid),
{
}

} // verus!
