//! The session record store and its in-memory implementation.
//!
//! A session row is keyed by an opaque session id; a nonce row is keyed by
//! the session id it is bound to, with at most one live nonce per session
//! and referential integrity: a nonce row exists only for an existing
//! session row. The store here holds both tables in memory, the
//! implementation used by tests and by single-process deployments; its view
//! is a pair of maps, and every operation's contract states exactly how the
//! maps change. Each operation is one atomic step on the store — the model
//! of one store-level transaction.

use vstd::prelude::*;

use crate::errors::ErrorKind;
use crate::nonce::nonce_valid;
use crate::nonce::Nonce;
use crate::nonce::NonceView;
use crate::session_data::parse_session_data;
use crate::session_data::parse_session_data_text;
use crate::session_data::encode_session_data;
use crate::session_data::session_data_text;
use crate::session_data::SessionData;
use crate::session_data::SessionState;
use crate::session_data::SessionStateView;

verus! {

/// The default lifetime of a session row, in seconds: eight hours.
pub const SESSION_TTL_SECS: u64 = 28800;

/// One session row: the opaque id (primary key, derived from a signed
/// cookie value), the serialized blob owned by the store, the expiry and
/// last-activity timestamps, and the optional client metadata and user
/// reference set on first insert.
#[derive(Clone, Debug)]
pub struct UserSession {
    pub id: String,
    pub session_data: Option<String>,
    pub expires_at: u64,
    pub user_agent: Option<String>,
    pub last_activity: u64,
    pub ip: Option<String>,
    pub user_id: Option<u128>,
}

pub ghost struct UserSessionView {
    pub id: Seq<char>,
    pub session_data: Option<Seq<char>>,
    pub expires_at: u64,
    pub user_agent: Option<Seq<char>>,
    pub last_activity: u64,
    pub ip: Option<Seq<char>>,
    pub user_id: Option<u128>,
}

pub open spec fn opt_text(o: Option<String>) -> Option<Seq<char>> {
    match o {
        Some(s) => Some(s@),
        None => None,
    }
}

impl View for UserSession {
    type V = UserSessionView;

    open spec fn view(&self) -> UserSessionView {
        UserSessionView {
            id: self.id@,
            session_data: opt_text(self.session_data),
            expires_at: self.expires_at,
            user_agent: opt_text(self.user_agent),
            last_activity: self.last_activity,
            ip: opt_text(self.ip),
            user_id: self.user_id,
        }
    }
}

impl UserSession {
    /// A row assembled at time `now`: `last_activity` is `now`, and a row
    /// with no expiry of its own gets the default eight-hour horizon.
    pub fn new(
        id: String,
        session_data: Option<String>,
        expires_at: Option<u64>,
        user_agent: Option<String>,
        ip: Option<String>,
        user_id: Option<u128>,
        now: u64,
    ) -> (r: UserSession)
        requires
            now + SESSION_TTL_SECS <= u64::MAX,
        ensures
            r@ == (UserSessionView {
                id: id@,
                session_data: opt_text(session_data),
                expires_at: match expires_at {
                    Some(e) => e,
                    None => (now + SESSION_TTL_SECS) as u64,
                },
                user_agent: opt_text(user_agent),
                last_activity: now,
                ip: opt_text(ip),
                user_id: user_id,
            }),
    {
        let expires = match expires_at {
            Some(e) => e,
            None => now + SESSION_TTL_SECS,
        };
        UserSession {
            id,
            session_data,
            expires_at: expires,
            user_agent,
            last_activity: now,
            ip,
            user_id,
        }
    }
}

/// The sessions table as a map from session id to row.
pub open spec fn sessions_map(s: Seq<UserSession>) -> Map<Seq<char>, UserSessionView>
    decreases s.len(),
{
    if s.len() == 0 {
        Map::empty()
    } else {
        sessions_map(s.drop_last()).insert(s.last().id@, s.last()@)
    }
}

/// The nonces table as a map from session id to nonce.
pub open spec fn nonces_map(s: Seq<Nonce>) -> Map<Seq<char>, NonceView>
    decreases s.len(),
{
    if s.len() == 0 {
        Map::empty()
    } else {
        nonces_map(s.drop_last()).insert(s.last().session_id@, s.last()@)
    }
}

pub open spec fn sessions_unique(s: Seq<UserSession>) -> bool {
    forall|i: int, j: int| 0 <= i < j < s.len() ==> s[i].id@ != s[j].id@
}

pub open spec fn nonces_unique(s: Seq<Nonce>) -> bool {
    forall|i: int, j: int| 0 <= i < j < s.len() ==> s[i].session_id@ != s[j].session_id@
}

/// Both tables of the store, as maps keyed by session id.
pub ghost struct StoreView {
    pub sessions: Map<Seq<char>, UserSessionView>,
    pub nonces: Map<Seq<char>, NonceView>,
}

pub proof fn lemma_sessions_map(s: Seq<UserSession>)
    requires
        sessions_unique(s),
    ensures
        forall|k: Seq<char>|
            #[trigger] sessions_map(s).contains_key(k) <==> exists|i: int|
                0 <= i < s.len() && #[trigger] s[i].id@ == k,
        forall|i: int|
            0 <= i < s.len() ==> sessions_map(s).contains_key(#[trigger] s[i].id@)
                && sessions_map(s)[s[i].id@] == s[i]@,
    decreases s.len(),
{
    if s.len() > 0 {
        let t = s.drop_last();
        lemma_sessions_map(t);
        assert forall|i: int| 0 <= i < s.len() implies sessions_map(s).contains_key(
            #[trigger] s[i].id@,
        ) && sessions_map(s)[s[i].id@] == s[i]@ by {
            if i < s.len() - 1 {
                assert(t[i] == s[i]);
                assert(s[i].id@ != s.last().id@);
            }
        }
        assert forall|k: Seq<char>| #[trigger] sessions_map(s).contains_key(k) implies exists|
            i: int,
        | 0 <= i < s.len() && #[trigger] s[i].id@ == k by {
            if k == s.last().id@ {
                assert(s[s.len() - 1].id@ == k);
            } else {
                assert(sessions_map(t).contains_key(k));
                let i = choose|i: int| 0 <= i < t.len() && #[trigger] t[i].id@ == k;
                assert(t[i] == s[i]);
                assert(s[i].id@ == k);
            }
        }
    }
}

pub proof fn lemma_nonces_map(s: Seq<Nonce>)
    requires
        nonces_unique(s),
    ensures
        forall|k: Seq<char>|
            #[trigger] nonces_map(s).contains_key(k) <==> exists|i: int|
                0 <= i < s.len() && #[trigger] s[i].session_id@ == k,
        forall|i: int|
            0 <= i < s.len() ==> nonces_map(s).contains_key(#[trigger] s[i].session_id@)
                && nonces_map(s)[s[i].session_id@] == s[i]@,
    decreases s.len(),
{
    if s.len() > 0 {
        let t = s.drop_last();
        lemma_nonces_map(t);
        assert forall|i: int| 0 <= i < s.len() implies nonces_map(s).contains_key(
            #[trigger] s[i].session_id@,
        ) && nonces_map(s)[s[i].session_id@] == s[i]@ by {
            if i < s.len() - 1 {
                assert(t[i] == s[i]);
                assert(s[i].session_id@ != s.last().session_id@);
            }
        }
        assert forall|k: Seq<char>| #[trigger] nonces_map(s).contains_key(k) implies exists|
            i: int,
        | 0 <= i < s.len() && #[trigger] s[i].session_id@ == k by {
            if k == s.last().session_id@ {
                assert(s[s.len() - 1].session_id@ == k);
            } else {
                assert(nonces_map(t).contains_key(k));
                let i = choose|i: int| 0 <= i < t.len() && #[trigger] t[i].session_id@ == k;
                assert(t[i] == s[i]);
                assert(s[i].session_id@ == k);
            }
        }
    }
}

pub proof fn lemma_sessions_map_update(s: Seq<UserSession>, i: int, r: UserSession)
    requires
        sessions_unique(s),
        0 <= i < s.len(),
        r.id@ == s[i].id@,
    ensures
        sessions_map(s.update(i, r)) == sessions_map(s).insert(r.id@, r@),
        sessions_unique(s.update(i, r)),
    decreases s.len(),
{
    let s2 = s.update(i, r);
    if i == s.len() - 1 {
        assert(s2.drop_last() =~= s.drop_last());
        assert(s2.last() == r);
        assert(sessions_map(s2) =~= sessions_map(s).insert(r.id@, r@));
    } else {
        assert(s2.drop_last() =~= s.drop_last().update(i, r));
        assert(s2.last() == s.last());
        lemma_sessions_map_update(s.drop_last(), i, r);
        assert(s.last().id@ != r.id@);
        assert(sessions_map(s2) =~= sessions_map(s).insert(r.id@, r@));
    }
}

pub proof fn lemma_nonces_map_update(s: Seq<Nonce>, i: int, r: Nonce)
    requires
        nonces_unique(s),
        0 <= i < s.len(),
        r.session_id@ == s[i].session_id@,
    ensures
        nonces_map(s.update(i, r)) == nonces_map(s).insert(r.session_id@, r@),
        nonces_unique(s.update(i, r)),
    decreases s.len(),
{
    let s2 = s.update(i, r);
    if i == s.len() - 1 {
        assert(s2.drop_last() =~= s.drop_last());
        assert(s2.last() == r);
        assert(nonces_map(s2) =~= nonces_map(s).insert(r.session_id@, r@));
    } else {
        assert(s2.drop_last() =~= s.drop_last().update(i, r));
        assert(s2.last() == s.last());
        lemma_nonces_map_update(s.drop_last(), i, r);
        assert(s.last().session_id@ != r.session_id@);
        assert(nonces_map(s2) =~= nonces_map(s).insert(r.session_id@, r@));
    }
}

pub proof fn lemma_sessions_map_remove(s: Seq<UserSession>, i: int)
    requires
        sessions_unique(s),
        0 <= i < s.len(),
    ensures
        sessions_map(s.remove(i)) == sessions_map(s).remove(s[i].id@),
        sessions_unique(s.remove(i)),
    decreases s.len(),
{
    lemma_sessions_map(s);
    let s2 = s.remove(i);
    if i == s.len() - 1 {
        assert(s2 =~= s.drop_last());
        lemma_sessions_map(s.drop_last());
        assert(!sessions_map(s.drop_last()).contains_key(s.last().id@));
        assert(sessions_map(s2) =~= sessions_map(s).remove(s[i].id@));
    } else {
        assert(s2.drop_last() =~= s.drop_last().remove(i));
        assert(s2.last() == s.last());
        lemma_sessions_map_remove(s.drop_last(), i);
        assert(s.last().id@ != s[i].id@);
        assert(sessions_map(s2) =~= sessions_map(s).remove(s[i].id@));
    }
}

pub proof fn lemma_nonces_map_remove(s: Seq<Nonce>, i: int)
    requires
        nonces_unique(s),
        0 <= i < s.len(),
    ensures
        nonces_map(s.remove(i)) == nonces_map(s).remove(s[i].session_id@),
        nonces_unique(s.remove(i)),
    decreases s.len(),
{
    lemma_nonces_map(s);
    let s2 = s.remove(i);
    if i == s.len() - 1 {
        assert(s2 =~= s.drop_last());
        lemma_nonces_map(s.drop_last());
        assert(!nonces_map(s.drop_last()).contains_key(s.last().session_id@));
        assert(nonces_map(s2) =~= nonces_map(s).remove(s[i].session_id@));
    } else {
        assert(s2.drop_last() =~= s.drop_last().remove(i));
        assert(s2.last() == s.last());
        lemma_nonces_map_remove(s.drop_last(), i);
        assert(s.last().session_id@ != s[i].session_id@);
        assert(nonces_map(s2) =~= nonces_map(s).remove(s[i].session_id@));
    }
}

} // verus!

verus! {

/// What a load returns on a store in state `v`: the parsed blob of the
/// session row for `sid`, provided the row exists, has not expired by
/// `now`, carries a blob, and the blob is canonical; `None` otherwise —
/// absence is a normal outcome, not an error.
pub open spec fn spec_load(v: StoreView, sid: Seq<char>, now: u64) -> Option<SessionData> {
    if !v.sessions.contains_key(sid) {
        None
    } else if v.sessions[sid].expires_at < now {
        None
    } else {
        match v.sessions[sid].session_data {
            None => None,
            Some(blob) => parse_session_data_text(blob),
        }
    }
}

/// How a store changes the sessions table: an upsert keyed on the session
/// id. An existing row keeps its identity fields and expiry and gets only
/// the new blob and activity time; a fresh row is inserted with the
/// session's own expiry or the default horizon, and the authenticated user
/// from the blob.
pub open spec fn spec_store(
    m: Map<Seq<char>, UserSessionView>,
    s: SessionStateView,
    now: u64,
) -> Map<Seq<char>, UserSessionView> {
    let blob = session_data_text(s.data);
    if m.contains_key(s.id) {
        m.insert(
            s.id,
            UserSessionView {
                id: m[s.id].id,
                session_data: Some(blob),
                expires_at: m[s.id].expires_at,
                user_agent: m[s.id].user_agent,
                last_activity: now,
                ip: m[s.id].ip,
                user_id: m[s.id].user_id,
            },
        )
    } else {
        m.insert(
            s.id,
            UserSessionView {
                id: s.id,
                session_data: Some(blob),
                expires_at: match s.expiry {
                    Some(e) => e,
                    None => (now + SESSION_TTL_SECS) as u64,
                },
                user_agent: None,
                last_activity: now,
                ip: None,
                user_id: s.data.user_id,
            },
        )
    }
}

/// The bare session row the guarantor inserts for `sid` at time `now`.
pub open spec fn bare_session(sid: Seq<char>, now: u64) -> UserSessionView {
    UserSessionView {
        id: sid,
        session_data: None,
        expires_at: (now + SESSION_TTL_SECS) as u64,
        user_agent: None,
        last_activity: now,
        ip: None,
        user_id: None,
    }
}

/// What a take leaves and yields on a store in state `v`: the nonce for
/// `sid` if one is present, and the store without it.
pub open spec fn spec_take(v: StoreView, sid: Seq<char>) -> (StoreView, Option<NonceView>) {
    (
        StoreView { sessions: v.sessions, nonces: v.nonces.remove(sid) },
        if v.nonces.contains_key(sid) {
            Some(v.nonces[sid])
        } else {
            None
        },
    )
}

/// What a sign-in consumption leaves and decides: the nonce for `sid` is
/// removed whatever happens, and the attempt succeeds exactly when a nonce
/// was present and the supplied tag validated it at `now`.
pub open spec fn spec_consume(
    v: StoreView,
    sid: Seq<char>,
    tag: Seq<char>,
    now: u64,
    secret: Seq<char>,
) -> (StoreView, bool) {
    (
        StoreView { sessions: v.sessions, nonces: v.nonces.remove(sid) },
        v.nonces.contains_key(sid) && nonce_valid(v.nonces[sid], tag, now, secret),
    )
}

/// What the guarantor leaves: the sessions table with a row for `sid` —
/// the row it already had, or a bare one created at `now`.
pub open spec fn spec_ensure_exists(
    m: Map<Seq<char>, UserSessionView>,
    sid: Seq<char>,
    now: u64,
) -> Map<Seq<char>, UserSessionView> {
    if m.contains_key(sid) {
        m
    } else {
        m.insert(sid, bare_session(sid, now))
    }
}

/// The in-memory session record store: both tables, with unique keys and
/// referential integrity as an invariant.
pub struct MemorySessionStore {
    sessions: Vec<UserSession>,
    nonces: Vec<Nonce>,
}

impl View for MemorySessionStore {
    type V = StoreView;

    closed spec fn view(&self) -> StoreView {
        StoreView { sessions: sessions_map(self.sessions@), nonces: nonces_map(self.nonces@) }
    }
}

impl MemorySessionStore {
    /// Well-formedness: session ids unique, at most one nonce per session,
    /// and every nonce bound to an existing session row.
    pub closed spec fn inv(&self) -> bool {
        &&& sessions_unique(self.sessions@)
        &&& nonces_unique(self.nonces@)
        &&& forall|i: int|
            0 <= i < self.nonces@.len() ==> sessions_map(self.sessions@).contains_key(
                #[trigger] self.nonces@[i].session_id@,
            )
    }

    /// Referential integrity, as the view shows it: a nonce row exists only
    /// for an existing session row.
    pub proof fn lemma_referential_integrity(&self)
        requires
            self.inv(),
        ensures
            forall|k: Seq<char>|
                #[trigger] self@.nonces.contains_key(k) ==> self@.sessions.contains_key(k),
    {
        lemma_nonces_map(self.nonces@);
    }

    /// An empty store.
    pub fn new() -> (r: MemorySessionStore)
        ensures
            r.inv(),
            r@.sessions == Map::<Seq<char>, UserSessionView>::empty(),
            r@.nonces == Map::<Seq<char>, NonceView>::empty(),
    {
        MemorySessionStore { sessions: Vec::new(), nonces: Vec::new() }
    }

    fn find_session(&self, sid: &str) -> (r: Option<usize>)
        ensures
            r matches Some(i) ==> i < self.sessions@.len() && self.sessions@[i as int].id@ == sid@,
            r is None ==> forall|i: int|
                0 <= i < self.sessions@.len() ==> (#[trigger] self.sessions@[i].id@) != sid@,
    {
        let n = self.sessions.len();
        let mut i: usize = 0;
        while i < n
            invariant
                i <= n == self.sessions@.len(),
                forall|j: int| 0 <= j < i ==> (#[trigger] self.sessions@[j].id@) != sid@,
            decreases n - i,
        {
            if crate::scan::str_eq(self.sessions[i].id.as_str(), sid) {
                return Some(i);
            }
            i = i + 1;
        }
        None
    }

    fn find_nonce(&self, sid: &str) -> (r: Option<usize>)
        ensures
            r matches Some(i) ==> i < self.nonces@.len() && self.nonces@[i as int].session_id@
                == sid@,
            r is None ==> forall|i: int|
                0 <= i < self.nonces@.len() ==> (#[trigger] self.nonces@[i].session_id@) != sid@,
    {
        let n = self.nonces.len();
        let mut i: usize = 0;
        while i < n
            invariant
                i <= n == self.nonces@.len(),
                forall|j: int| 0 <= j < i ==> (#[trigger] self.nonces@[j].session_id@) != sid@,
            decreases n - i,
        {
            if crate::scan::str_eq(self.nonces[i].session_id.as_str(), sid) {
                return Some(i);
            }
            i = i + 1;
        }
        None
    }

    /// Loads the session for a cookie value (the session id it names):
    /// `None` when the row is absent, expired at `now`, bare, or carries a
    /// blob that does not parse.
    pub fn load_session(&self, cookie_value: &str, now: u64) -> (r: Option<SessionData>)
        requires
            self.inv(),
        ensures
            r == spec_load(self@, cookie_value@, now),
    {
        proof {
            lemma_sessions_map(self.sessions@);
        }
        let i = match self.find_session(cookie_value) {
            Some(i) => i,
            None => {
                return None;
            },
        };
        if self.sessions[i].expires_at < now {
            return None;
        }
        match &self.sessions[i].session_data {
            None => None,
            Some(blob) => parse_session_data(blob.as_str()),
        }
    }

    /// Stores a session: upserts its row keyed on the session id, writing
    /// the serialized blob and the new activity time, and returns the
    /// cookie value to hand back to the client — the session id itself.
    pub fn store_session(&mut self, state: &SessionState, now: u64) -> (r: String)
        requires
            old(self).inv(),
            now + SESSION_TTL_SECS <= u64::MAX,
        ensures
            final(self).inv(),
            r@ == state@.id,
            final(self)@.nonces == old(self)@.nonces,
            final(self)@.sessions == spec_store(old(self)@.sessions, state@, now),
    {
        proof {
            lemma_sessions_map(self.sessions@);
        }
        let blob = encode_session_data(&state.data);
        match self.find_session(state.id.as_str()) {
            Some(i) => {
                let row = &self.sessions[i];
                let updated = UserSession {
                    id: row.id.clone(),
                    session_data: Some(blob),
                    expires_at: row.expires_at,
                    user_agent: match &row.user_agent {
                        Some(s) => Some(s.clone()),
                        None => None,
                    },
                    last_activity: now,
                    ip: match &row.ip {
                        Some(s) => Some(s.clone()),
                        None => None,
                    },
                    user_id: row.user_id,
                };
                proof {
                    lemma_sessions_map_update(self.sessions@, i as int, updated);
                    assert(self.sessions@.remove(i as int).insert(i as int, updated)
                        =~= self.sessions@.update(i as int, updated));
                }
                let _ = self.sessions.remove(i);
                self.sessions.insert(i, updated);
                state.id.clone()
            },
            None => {
                let row = UserSession::new(
                    state.id.clone(),
                    Some(blob),
                    state.expiry,
                    None,
                    None,
                    state.data.user_id,
                    now,
                );
                proof {
                    assert(self.sessions@.push(row).drop_last() =~= self.sessions@);
                }
                self.sessions.push(row);
                state.id.clone()
            },
        }
    }

    /// Deletes the row for the session id, and with it the session's nonce,
    /// keeping referential integrity. Idempotent: deleting an absent row
    /// changes nothing.
    pub fn destroy_session(&mut self, sid: &str)
        requires
            old(self).inv(),
        ensures
            final(self).inv(),
            final(self)@.sessions == old(self)@.sessions.remove(sid@),
            final(self)@.nonces == old(self)@.nonces.remove(sid@),
    {
        proof {
            lemma_sessions_map(self.sessions@);
            lemma_nonces_map(self.nonces@);
        }
        match self.find_nonce(sid) {
            Some(i) => {
                proof {
                    lemma_nonces_map_remove(self.nonces@, i as int);
                }
                let _ = self.nonces.remove(i);
            },
            None => {
                proof {
                    assert(!nonces_map(self.nonces@).contains_key(sid@));
                    assert(nonces_map(self.nonces@).remove(sid@) =~= nonces_map(self.nonces@));
                }
            },
        }
        match self.find_session(sid) {
            Some(i) => {
                proof {
                    lemma_sessions_map_remove(self.sessions@, i as int);
                }
                let _ = self.sessions.remove(i);
            },
            None => {
                proof {
                    assert(!sessions_map(self.sessions@).contains_key(sid@));
                    assert(sessions_map(self.sessions@).remove(sid@) =~= sessions_map(
                        self.sessions@,
                    ));
                }
            },
        }
    }

    /// Deletes every row of both tables; an administrative operation.
    pub fn clear_store(&mut self)
        ensures
            final(self).inv(),
            final(self)@.sessions == Map::<Seq<char>, UserSessionView>::empty(),
            final(self)@.nonces == Map::<Seq<char>, NonceView>::empty(),
    {
        self.sessions.clear();
        self.nonces.clear();
    }
}

impl UserSession {
    /// Ensures a session row exists for `sid` before a dependent nonce row
    /// is written: inserts a bare row if absent and leaves an existing row
    /// untouched, so a concurrent insert from the store path never
    /// conflicts. Returns how many rows were inserted.
    pub fn redundant_guarantee(store: &mut MemorySessionStore, sid: &str, now: u64) -> (r: Result<
        usize,
        ErrorKind,
    >)
        requires
            old(store).inv(),
            now + SESSION_TTL_SECS <= u64::MAX,
        ensures
            final(store).inv(),
            final(store)@.nonces == old(store)@.nonces,
            final(store)@.sessions == spec_ensure_exists(old(store)@.sessions, sid@, now),
            r == Ok::<usize, ErrorKind>(
                if old(store)@.sessions.contains_key(sid@) {
                    0usize
                } else {
                    1usize
                },
            ),
    {
        proof {
            lemma_sessions_map(store.sessions@);
        }
        match store.find_session(sid) {
            Some(_) => Ok(0),
            None => {
                let row = UserSession::new(sid.to_owned(), None, None, None, None, None, now);
                proof {
                    assert(store.sessions@.push(row).drop_last() =~= store.sessions@);
                }
                store.sessions.push(row);
                Ok(1)
            },
        }
    }
}

impl Nonce {
    /// Upserts this nonce keyed by its session id, replacing any prior
    /// unconsumed nonce for that session, so at most one nonce is live per
    /// session. `None` exactly when no session row exists for the id — the
    /// referential-integrity constraint the guarantor exists to satisfy.
    pub fn insert(&self, store: &mut MemorySessionStore) -> (r: Option<()>)
        requires
            old(store).inv(),
        ensures
            final(store).inv(),
            final(store)@.sessions == old(store)@.sessions,
            r is Some <==> old(store)@.sessions.contains_key(self@.session_id),
            r is Some ==> final(store)@.nonces == old(store)@.nonces.insert(
                self@.session_id,
                self@,
            ),
            r is None ==> final(store)@.nonces == old(store)@.nonces,
    {
        proof {
            lemma_sessions_map(store.sessions@);
            lemma_nonces_map(store.nonces@);
        }
        match store.find_session(self.session_id.as_str()) {
            Some(_) => {},
            None => {
                return None;
            },
        }
        match store.find_nonce(self.session_id.as_str()) {
            Some(i) => {
                let updated = Nonce {
                    nonce: self.nonce.clone(),
                    session_id: self.session_id.clone(),
                    key: self.key.clone(),
                    created_at: self.created_at,
                };
                proof {
                    assert(updated@ == self@);
                    lemma_nonces_map_update(store.nonces@, i as int, updated);
                    assert(store.nonces@.remove(i as int).insert(i as int, updated)
                        =~= store.nonces@.update(i as int, updated));
                }
                let _ = store.nonces.remove(i);
                store.nonces.insert(i, updated);
            },
            None => {
                let fresh = Nonce {
                    nonce: self.nonce.clone(),
                    session_id: self.session_id.clone(),
                    key: self.key.clone(),
                    created_at: self.created_at,
                };
                proof {
                    assert(fresh@ == self@);
                    assert(store.nonces@.push(fresh).drop_last() =~= store.nonces@);
                }
                store.nonces.push(fresh);
            },
        }
        Some(())
    }

    /// Atomically reads and deletes the nonce for `sid` — the single-use
    /// guarantee: once consumed, a second take for the same id finds
    /// nothing, whatever became of the first validation.
    pub fn take(store: &mut MemorySessionStore, sid: &str) -> (r: Option<Nonce>)
        requires
            old(store).inv(),
        ensures
            final(store).inv(),
            final(store)@ == spec_take(old(store)@, sid@).0,
            (match r {
                Some(n) => Some(n@),
                None => None,
            }) == spec_take(old(store)@, sid@).1,
            r matches Some(n) ==> old(store)@.nonces.contains_key(sid@) && n@ == old(
                store,
            )@.nonces[sid@],
    {
        proof {
            lemma_nonces_map(store.nonces@);
        }
        match store.find_nonce(sid) {
            Some(i) => {
                proof {
                    lemma_nonces_map_remove(store.nonces@, i as int);
                }
                let n = store.nonces.remove(i);
                Some(n)
            },
            None => {
                proof {
                    assert(!nonces_map(store.nonces@).contains_key(sid@));
                    assert(nonces_map(store.nonces@).remove(sid@) =~= nonces_map(store.nonces@));
                }
                None
            },
        }
    }
}

} // verus!
