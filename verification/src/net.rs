//! The plain request and response bodies the routes exchange: the nonce
//! response, the sign-in credentials and reply, and list pagination.

use vstd::prelude::*;

verus! {

/// The body of a nonce response: the tag the client must echo back at
/// sign-in (the raw nonce and its key never leave the server).
#[derive(Clone, Debug)]
pub struct NoncePayload {
    pub nonce: String,
}

impl NoncePayload {
    pub fn new(nonce: String) -> (r: NoncePayload)
        ensures
            r.nonce@ == nonce@,
    {
        NoncePayload { nonce: nonce }
    }
}

/// The credentials a sign-in or sign-up request carries.
#[derive(Clone, Debug)]
pub struct UserAuth {
    pub email: String,
    pub password: String,
}

/// The body of a successful sign-in: the freshly minted signed token.
#[derive(Clone, Debug)]
pub struct UserAuthPayload {
    pub token: String,
}

impl UserAuthPayload {
    pub fn new(token: String) -> (r: UserAuthPayload)
        ensures
            r.token@ == token@,
    {
        UserAuthPayload { token: token }
    }
}

/// A page of a listing: the requested offset and size, either optional.
#[derive(Clone, Debug)]
pub struct Pagination {
    pub offset: Option<i64>,
    pub limit: Option<i64>,
}

impl Pagination {
    /// The offset to list from; zero when none was requested.
    pub fn get_offset(&self) -> (r: i64)
        ensures
            r == match self.offset {
                Some(o) => o,
                None => 0i64,
            },
    {
        match self.offset {
            Some(o) => o,
            None => 0,
        }
    }

    /// How many items to list; ten when no bound was requested.
    pub fn get_limit(&self) -> (r: i64)
        ensures
            r == match self.limit {
                Some(l) => l,
                None => 10i64,
            },
    {
        match self.limit {
            Some(l) => l,
            None => 10,
        }
    }
}

impl Default for Pagination {
    /// The first page of ten items.
    fn default() -> (r: Pagination)
        ensures
            r.offset == Some(0i64),
            r.limit == Some(10i64),
    {
        Pagination { offset: Some(0), limit: Some(10) }
    }
}

} // verus!
