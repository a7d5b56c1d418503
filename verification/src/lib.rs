//! The authentication-session core: persistent session state behind a
//! stateless token, a single-use cryptographic nonce protocol guarding
//! sign-in against replay, and short-lived token issuance and validation.
//!
//! The store (`store`) keeps session and nonce rows with unique keys and
//! referential integrity; the nonce engine (`nonce`, `flow`) issues
//! single-use, time-boxed, HMAC-bound nonces and consumes one per sign-in
//! attempt; the token issuer (`claims`, `token`) mints and checks compact
//! signed tokens whose validity is purely a function of signature and
//! timestamps. Every authentication-relevant decision is re-derived from
//! store state and the caller-supplied clock reading; the flow module
//! states the laws the subsystem keeps.

pub mod claims;
pub mod clock;
pub mod crypto;
pub mod encoding;
pub mod errors;
pub mod flow;
pub mod net;
pub mod nonce;
pub mod numerals;
pub mod scan;
pub mod session_data;
pub mod store;
pub mod token;

use vstd::prelude::*;

verus! {

/// The three process-wide secrets the subsystem consumes, loaded once at
/// startup and passed by reference into each component: the session-signing
/// secret for the cookie layer, the nonce deployment secret, and the
/// token-signing secret.
pub struct Secrets {
    pub session: String,
    pub nonce: String,
    pub token: String,
}

} // verus!
