//! Bindings to wall-clock reading and timestamp rendering. Validity of
//! sessions, nonces and tokens is data-driven: the verified logic takes the
//! current time as a plain argument, and only these bindings touch the
//! clock or the calendar.

use vstd::prelude::*;

verus! {

/// Relies on std's `SystemTime`: seconds since the Unix epoch, zero if the
/// clock reads earlier than the epoch.
#[verifier::external_body]
pub fn now_secs() -> u64 {
    match std::time::SystemTime::now().duration_since(std::time::UNIX_EPOCH) {
        Ok(d) => d.as_secs(),
        Err(_) => 0,
    }
}

/// RFC 2822 text of a Unix timestamp, rendered for UTC.
pub uninterp spec fn rfc2822_of(secs: u64) -> Seq<char>;

/// Relies on chrono's `DateTime::from_timestamp` and `to_rfc2822`: a fixed
/// English rendering determined by the timestamp alone; timestamps through
/// year 9999 stay within the range both calls accept.
#[verifier::external_body]
pub fn rfc2822_utc(secs: u64) -> (r: String)
    requires
        secs <= 253402300799,
    ensures
        r@ == rfc2822_of(secs),
{
    match chrono::DateTime::<chrono::Utc>::from_timestamp(secs as i64, 0) {
        Some(dt) => dt.to_rfc2822(),
        None => String::new(),
    }
}

} // verus!
