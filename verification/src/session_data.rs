//! The session blob: an explicit versioned record in place of an opaque
//! string-keyed bag.
//!
//! A session row stores its data as one canonical JSON text carrying the
//! authenticated user (absent before sign-in) and the time the data was
//! written. The encoder and the parser are exact inverses, and a blob that
//! is not canonical parses to nothing — a row with an unreadable blob loads
//! as no session.

use vstd::prelude::*;
use vstd::string::StrSliceExecFns;
use vstd::utf8::encode_utf8;
use vstd::utf8::is_ascii_chars;
use vstd::utf8::is_ascii_chars_encode_utf8;

use crate::encoding::ascii_to_string;
use crate::numerals::decimal;
use crate::numerals::is_hex_digit;
use crate::numerals::lemma_decimal_shape;
use crate::numerals::lemma_hex_fixed_digits;
use crate::numerals::lemma_hex_fixed_len;
use crate::numerals::lemma_parse_number_roundtrip;
use crate::numerals::lemma_parse_uuid_roundtrip;
use crate::numerals::parse_number;
use crate::numerals::parse_number_spec;
use crate::numerals::parse_uuid;
use crate::numerals::parse_uuid_spec;
use crate::numerals::push_decimal;
use crate::numerals::push_uuid_hyphenated;
use crate::numerals::uuid_hyphenated;
use crate::claims::region_eq;

verus! {

/// What a session row's blob records: the authenticated user, absent until
/// sign-in, and the time the data was written.
#[derive(Clone, Copy, PartialEq, Eq, Debug)]
pub struct SessionData {
    pub user_id: Option<u128>,
    pub issued_at: u64,
}

/// The middleware's view of one session: its identifier, its data, and the
/// expiry the session itself carries, if any.
#[derive(Clone, Debug)]
pub struct SessionState {
    pub id: String,
    pub data: SessionData,
    pub expiry: Option<u64>,
}

/// The bytes of `{"v":1,"user_id":`.
pub open spec fn lit_sd() -> Seq<u8> {
    seq![
        123u8, 34u8, 118u8, 34u8, 58u8, 49u8, 44u8, 34u8, 117u8, 115u8, 101u8, 114u8, 95u8, 105u8,
        100u8, 34u8, 58u8,
    ]
}

/// The bytes of `,"iat":`.
pub open spec fn lit_sd_iat() -> Seq<u8> {
    seq![44u8, 34u8, 105u8, 97u8, 116u8, 34u8, 58u8]
}

/// The bytes of `null`.
pub open spec fn lit_null() -> Seq<u8> {
    seq![110u8, 117u8, 108u8, 108u8]
}

/// The canonical JSON text of a session blob, as bytes.
pub open spec fn session_data_json(d: SessionData) -> Seq<u8> {
    lit_sd() + (match d.user_id {
        Some(u) => seq![34u8] + uuid_hyphenated(u) + seq![34u8],
        None => lit_null(),
    }) + lit_sd_iat() + decimal(d.issued_at as nat) + seq![125u8]
}

/// The canonical JSON text of a session blob, as characters.
pub open spec fn session_data_text(d: SessionData) -> Seq<char> {
    Seq::new(session_data_json(d).len(), |i: int| session_data_json(d)[i] as char)
}

fn lit_sd_vec() -> (r: Vec<u8>)
    ensures
        r@ == lit_sd(),
{
    let mut v: Vec<u8> = Vec::new();
    v.push(123);
    v.push(34);
    v.push(118);
    v.push(34);
    v.push(58);
    v.push(49);
    v.push(44);
    v.push(34);
    v.push(117);
    v.push(115);
    v.push(101);
    v.push(114);
    v.push(95);
    v.push(105);
    v.push(100);
    v.push(34);
    v.push(58);
    proof {
        assert(v@ =~= lit_sd());
    }
    v
}

fn lit_sd_iat_vec() -> (r: Vec<u8>)
    ensures
        r@ == lit_sd_iat(),
{
    let mut v: Vec<u8> = Vec::new();
    v.push(44);
    v.push(34);
    v.push(105);
    v.push(97);
    v.push(116);
    v.push(34);
    v.push(58);
    proof {
        assert(v@ =~= lit_sd_iat());
    }
    v
}

fn lit_null_vec() -> (r: Vec<u8>)
    ensures
        r@ == lit_null(),
{
    let mut v: Vec<u8> = Vec::new();
    v.push(110);
    v.push(117);
    v.push(108);
    v.push(108);
    proof {
        assert(v@ =~= lit_null());
    }
    v
}

/// The canonical blob bytes of `d`.
pub fn session_data_bytes(d: &SessionData) -> (r: Vec<u8>)
    ensures
        r@ == session_data_json(*d),
{
    let mut v: Vec<u8> = Vec::new();
    let mut piece = lit_sd_vec();
    v.append(&mut piece);
    match d.user_id {
        Some(u) => {
            v.push(34);
            push_uuid_hyphenated(&mut v, u);
            v.push(34);
        },
        None => {
            let mut piece = lit_null_vec();
            v.append(&mut piece);
        },
    }
    let mut piece = lit_sd_iat_vec();
    v.append(&mut piece);
    push_decimal(&mut v, d.issued_at);
    v.push(125);
    proof {
        assert(v@ =~= session_data_json(*d));
    }
    v
}

/// Every byte of a canonical blob is ASCII.
pub proof fn lemma_session_data_json_ascii(d: SessionData)
    ensures
        forall|i: int|
            0 <= i < session_data_json(d).len() ==> #[trigger] session_data_json(d)[i] < 128,
{
    let s = session_data_json(d);
    lemma_decimal_shape(d.issued_at as nat);
    match d.user_id {
        Some(u) => {
            lemma_hex_fixed_len(u as nat, 32);
            lemma_hex_fixed_digits(u as nat, 32);
            assert forall|i: int| 0 <= i < s.len() implies #[trigger] s[i] < 128 by {
                let m = uuid_hyphenated(u);
                assert(forall|j: int|
                    0 <= j < m.len() ==> is_hex_digit(#[trigger] m[j]) || m[j] == 45);
            }
        },
        None => {
            assert forall|i: int| 0 <= i < s.len() implies #[trigger] s[i] < 128 by {}
        },
    }
}

/// Encodes `d` as its canonical blob text.
pub fn encode_session_data(d: &SessionData) -> (r: String)
    ensures
        r@ == session_data_text(*d),
{
    let v = session_data_bytes(d);
    proof {
        lemma_session_data_json_ascii(*d);
    }
    let s = ascii_to_string(v);
    s
}

/// The session blob whose canonical text (as bytes) is `s`, or `None`.
pub open spec fn parse_session_data_spec(s: Seq<u8>) -> Option<SessionData> {
    if s.len() < 30 {
        None
    } else if s.subrange(0, 17) != lit_sd() {
        None
    } else if s[17] == 34 {
        if s.len() < 64 {
            None
        } else if parse_uuid_spec(s.subrange(18, 54)) is None {
            None
        } else if s[54] != 34 {
            None
        } else if s.subrange(55, 62) != lit_sd_iat() {
            None
        } else if s[s.len() - 1] != 125 {
            None
        } else if parse_number_spec(s.subrange(62, s.len() - 1)) is None {
            None
        } else {
            Some(
                SessionData {
                    user_id: Some(parse_uuid_spec(s.subrange(18, 54)).unwrap()),
                    issued_at: parse_number_spec(s.subrange(62, s.len() - 1)).unwrap(),
                },
            )
        }
    } else {
        if s.subrange(17, 21) != lit_null() {
            None
        } else if s.subrange(21, 28) != lit_sd_iat() {
            None
        } else if s[s.len() - 1] != 125 {
            None
        } else if parse_number_spec(s.subrange(28, s.len() - 1)) is None {
            None
        } else {
            Some(
                SessionData {
                    user_id: None,
                    issued_at: parse_number_spec(s.subrange(28, s.len() - 1)).unwrap(),
                },
            )
        }
    }
}

/// The session blob a text parses to: texts are read as their UTF-8 bytes.
pub open spec fn parse_session_data_text(s: Seq<char>) -> Option<SessionData> {
    parse_session_data_spec(encode_utf8(s))
}

/// Parses a canonical blob text.
pub fn parse_session_data(s: &str) -> (r: Option<SessionData>)
    ensures
        r == parse_session_data_text(s@),
{
    let v = s.as_bytes_vec();
    let n = v.len();
    if n < 30 {
        return None;
    }
    let lit = lit_sd_vec();
    if !region_eq(&v, 0, &lit) {
        return None;
    }
    if v[17] == 34 {
        if n < 64 {
            return None;
        }
        let u = match parse_uuid(&v, 18) {
            Some(u) => u,
            None => {
                return None;
            },
        };
        if v[54] != 34 {
            return None;
        }
        let lit = lit_sd_iat_vec();
        if !region_eq(&v, 55, &lit) {
            return None;
        }
        if v[n - 1] != 125 {
            return None;
        }
        let iat = match parse_number(&v, 62, n - 1) {
            Some(x) => x,
            None => {
                return None;
            },
        };
        Some(SessionData { user_id: Some(u), issued_at: iat })
    } else {
        let lit = lit_null_vec();
        if !region_eq(&v, 17, &lit) {
            return None;
        }
        let lit = lit_sd_iat_vec();
        if !region_eq(&v, 21, &lit) {
            return None;
        }
        if v[n - 1] != 125 {
            return None;
        }
        let iat = match parse_number(&v, 28, n - 1) {
            Some(x) => x,
            None => {
                return None;
            },
        };
        Some(SessionData { user_id: None, issued_at: iat })
    }
}

/// Every session blob parses back to the record it encodes: the blob
/// encoder and parser are mutual inverses.
pub proof fn lemma_session_data_roundtrip(d: SessionData)
    ensures
        parse_session_data_text(session_data_text(d)) == Some(d),
{
    let j = session_data_json(d);
    let t = session_data_text(d);
    lemma_session_data_json_ascii(d);
    assert(is_ascii_chars(t));
    is_ascii_chars_encode_utf8(t);
    assert(encode_utf8(t) =~= j);
    lemma_decimal_shape(d.issued_at as nat);
    let di = decimal(d.issued_at as nat);
    match d.user_id {
        Some(u) => {
            lemma_hex_fixed_len(u as nat, 32);
            assert(j.len() == 63 + di.len());
            assert(j.subrange(0, 17) =~= lit_sd());
            assert(j[17] == 34);
            assert(j.subrange(18, 54) =~= uuid_hyphenated(u));
            lemma_parse_uuid_roundtrip(u);
            assert(j[54] == 34);
            assert(j.subrange(55, 62) =~= lit_sd_iat());
            assert(j[j.len() - 1] == 125);
            assert(j.subrange(62, j.len() - 1) =~= di);
            lemma_parse_number_roundtrip(d.issued_at);
        },
        None => {
            assert(j.len() == 29 + di.len());
            assert(j.subrange(0, 17) =~= lit_sd());
            assert(j[17] == 110);
            assert(j.subrange(17, 21) =~= lit_null());
            assert(j.subrange(21, 28) =~= lit_sd_iat());
            assert(j[j.len() - 1] == 125);
            assert(j.subrange(28, j.len() - 1) =~= di);
            lemma_parse_number_roundtrip(d.issued_at);
        },
    }
}

} // verus!

verus! {

pub ghost struct SessionStateView {
    pub id: Seq<char>,
    pub data: SessionData,
    pub expiry: Option<u64>,
}

impl View for SessionState {
    type V = SessionStateView;

    open spec fn view(&self) -> SessionStateView {
        SessionStateView { id: self.id@, data: self.data, expiry: self.expiry }
    }
}

} // verus!
