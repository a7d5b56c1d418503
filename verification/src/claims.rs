//! The claims carried by a signed token.
//!
//! A token's body names a subject, an issuer and a role (each a 128-bit
//! identifier), and an issue, not-before and expiry time (seconds since the
//! epoch). The body travels as one canonical JSON text: identifiers in
//! hyphenated lowercase hexadecimal, times as decimal numerals, fields in a
//! fixed order with no spacing. The encoder and the parser here are exact
//! inverses, which the round-trip lemma states.

use vstd::prelude::*;

use crate::numerals::decimal;
use crate::numerals::lemma_decimal_shape;
use crate::numerals::lemma_hex_fixed_len;
use crate::numerals::lemma_parse_number_canonical;
use crate::numerals::lemma_parse_number_roundtrip;
use crate::numerals::lemma_parse_uuid_canonical;
use crate::numerals::lemma_parse_uuid_roundtrip;
use crate::numerals::parse_number;
use crate::numerals::parse_number_spec;
use crate::numerals::parse_uuid;
use crate::numerals::parse_uuid_spec;
use crate::numerals::push_decimal;
use crate::numerals::push_uuid_hyphenated;
use crate::numerals::uuid_hyphenated;
use crate::numerals::is_dec_digit;
use crate::scan::find_byte;
use crate::scan::find_byte_from;
use crate::scan::lemma_find_byte_first;
use crate::scan::lemma_find_byte_props;

verus! {

/// How long a freshly minted token stays valid, in seconds.
pub const TOKEN_TTL_SECS: u64 = 3600;

/// The body of a signed token: who it is for (`sub`), who issued it (`iss`),
/// the subject's role, and the issue (`iat`), not-before (`nbf`) and expiry
/// (`exp`) times in seconds since the epoch. Immutable once minted; validity
/// is purely a function of the signature and these timestamps.
#[derive(Clone, Copy, PartialEq, Eq, Structural, Debug)]
pub struct Claims {
    pub sub: u128,
    pub iss: u128,
    pub role: u128,
    pub iat: u64,
    pub nbf: u64,
    pub exp: u64,
}

impl Claims {
    /// Claims minted at time `now`: valid from `now` until an hour later.
    pub fn new(subject: u128, issuer: u128, role: u128, now: u64) -> (r: Claims)
        requires
            now + TOKEN_TTL_SECS <= u64::MAX,
        ensures
            r == (Claims {
                sub: subject,
                iss: issuer,
                role: role,
                iat: now,
                nbf: now,
                exp: (now + TOKEN_TTL_SECS) as u64,
            }),
    {
        Claims { sub: subject, iss: issuer, role: role, iat: now, nbf: now, exp: now + TOKEN_TTL_SECS }
    }
}

/// The bytes of `{"sub":"`.
pub open spec fn lit_sub() -> Seq<u8> {
    seq![123u8, 34u8, 115u8, 117u8, 98u8, 34u8, 58u8, 34u8]
}

/// The bytes of `","iss":"`.
pub open spec fn lit_iss() -> Seq<u8> {
    seq![34u8, 44u8, 34u8, 105u8, 115u8, 115u8, 34u8, 58u8, 34u8]
}

/// The bytes of `","role":"`.
pub open spec fn lit_role() -> Seq<u8> {
    seq![34u8, 44u8, 34u8, 114u8, 111u8, 108u8, 101u8, 34u8, 58u8, 34u8]
}

/// The bytes of `","iat":`.
pub open spec fn lit_iat() -> Seq<u8> {
    seq![34u8, 44u8, 34u8, 105u8, 97u8, 116u8, 34u8, 58u8]
}

/// The bytes of `,"nbf":`.
pub open spec fn lit_nbf() -> Seq<u8> {
    seq![44u8, 34u8, 110u8, 98u8, 102u8, 34u8, 58u8]
}

/// The bytes of `,"exp":`.
pub open spec fn lit_exp() -> Seq<u8> {
    seq![44u8, 34u8, 101u8, 120u8, 112u8, 34u8, 58u8]
}

/// The canonical JSON text of a claims value, as bytes.
pub open spec fn claims_json(c: Claims) -> Seq<u8> {
    lit_sub() + uuid_hyphenated(c.sub) + lit_iss() + uuid_hyphenated(c.iss) + lit_role()
        + uuid_hyphenated(c.role) + lit_iat() + decimal(c.iat as nat) + lit_nbf() + decimal(
        c.nbf as nat,
    ) + lit_exp() + decimal(c.exp as nat) + seq![125u8]
}

fn lit_sub_vec() -> (r: Vec<u8>)
    ensures
        r@ == lit_sub(),
{
    let mut v: Vec<u8> = Vec::new();
    v.push(123);
    v.push(34);
    v.push(115);
    v.push(117);
    v.push(98);
    v.push(34);
    v.push(58);
    v.push(34);
    proof {
        assert(v@ =~= lit_sub());
    }
    v
}

fn lit_iss_vec() -> (r: Vec<u8>)
    ensures
        r@ == lit_iss(),
{
    let mut v: Vec<u8> = Vec::new();
    v.push(34);
    v.push(44);
    v.push(34);
    v.push(105);
    v.push(115);
    v.push(115);
    v.push(34);
    v.push(58);
    v.push(34);
    proof {
        assert(v@ =~= lit_iss());
    }
    v
}

fn lit_role_vec() -> (r: Vec<u8>)
    ensures
        r@ == lit_role(),
{
    let mut v: Vec<u8> = Vec::new();
    v.push(34);
    v.push(44);
    v.push(34);
    v.push(114);
    v.push(111);
    v.push(108);
    v.push(101);
    v.push(34);
    v.push(58);
    v.push(34);
    proof {
        assert(v@ =~= lit_role());
    }
    v
}

fn lit_iat_vec() -> (r: Vec<u8>)
    ensures
        r@ == lit_iat(),
{
    let mut v: Vec<u8> = Vec::new();
    v.push(34);
    v.push(44);
    v.push(34);
    v.push(105);
    v.push(97);
    v.push(116);
    v.push(34);
    v.push(58);
    proof {
        assert(v@ =~= lit_iat());
    }
    v
}

fn lit_nbf_vec() -> (r: Vec<u8>)
    ensures
        r@ == lit_nbf(),
{
    let mut v: Vec<u8> = Vec::new();
    v.push(44);
    v.push(34);
    v.push(110);
    v.push(98);
    v.push(102);
    v.push(34);
    v.push(58);
    proof {
        assert(v@ =~= lit_nbf());
    }
    v
}

fn lit_exp_vec() -> (r: Vec<u8>)
    ensures
        r@ == lit_exp(),
{
    let mut v: Vec<u8> = Vec::new();
    v.push(44);
    v.push(34);
    v.push(101);
    v.push(120);
    v.push(112);
    v.push(34);
    v.push(58);
    proof {
        assert(v@ =~= lit_exp());
    }
    v
}

/// The canonical JSON text of `c`, as bytes.
pub fn claims_json_bytes(c: &Claims) -> (r: Vec<u8>)
    ensures
        r@ == claims_json(*c),
{
    let mut v: Vec<u8> = Vec::new();
    let mut piece = lit_sub_vec();
    v.append(&mut piece);
    push_uuid_hyphenated(&mut v, c.sub);
    let mut piece = lit_iss_vec();
    v.append(&mut piece);
    push_uuid_hyphenated(&mut v, c.iss);
    let mut piece = lit_role_vec();
    v.append(&mut piece);
    push_uuid_hyphenated(&mut v, c.role);
    let mut piece = lit_iat_vec();
    v.append(&mut piece);
    push_decimal(&mut v, c.iat);
    let mut piece = lit_nbf_vec();
    v.append(&mut piece);
    push_decimal(&mut v, c.nbf);
    let mut piece = lit_exp_vec();
    v.append(&mut piece);
    push_decimal(&mut v, c.exp);
    v.push(125);
    proof {
        assert(v@ =~= claims_json(*c));
    }
    v
}

/// Whether the byte region of `v` starting at `from` equals `lit`.
pub fn region_eq(v: &Vec<u8>, from: usize, lit: &Vec<u8>) -> (r: bool)
    requires
        from + lit@.len() <= v@.len(),
    ensures
        r == (v@.subrange(from as int, from + lit@.len()) == lit@),
{
    let n = lit.len();
    let vlen = v.len();
    let mut i: usize = 0;
    while i < n
        invariant
            i <= n == lit@.len(),
            from + n <= vlen == v@.len(),
            forall|j: int| 0 <= j < i ==> v@[from + j] == lit@[j],
        decreases n - i,
    {
        if v[from + i] != lit[i] {
            proof {
                assert(v@.subrange(from as int, from + lit@.len())[i as int] == v@[from + i]);
            }
            return false;
        }
        i = i + 1;
    }
    proof {
        assert(v@.subrange(from as int, from + lit@.len()) =~= lit@);
    }
    true
}

} // verus!

verus! {

/// The claims whose canonical JSON text is `s`, or `None` when `s` is not a
/// canonical claims text.
pub open spec fn parse_claims_spec(s: Seq<u8>) -> Option<Claims> {
    if s.len() < 161 {
        None
    } else if s.subrange(0, 8) != lit_sub() {
        None
    } else if parse_uuid_spec(s.subrange(8, 44)) is None {
        None
    } else if s.subrange(44, 53) != lit_iss() {
        None
    } else if parse_uuid_spec(s.subrange(53, 89)) is None {
        None
    } else if s.subrange(89, 99) != lit_role() {
        None
    } else if parse_uuid_spec(s.subrange(99, 135)) is None {
        None
    } else if s.subrange(135, 143) != lit_iat() {
        None
    } else {
        let c1 = find_byte(s, 143, 44);
        if c1 + 7 > s.len() {
            None
        } else if parse_number_spec(s.subrange(143, c1)) is None {
            None
        } else if s.subrange(c1, c1 + 7) != lit_nbf() {
            None
        } else {
            let c2 = find_byte(s, c1 + 7, 44);
            if c2 + 9 > s.len() {
                None
            } else if parse_number_spec(s.subrange(c1 + 7, c2)) is None {
                None
            } else if s.subrange(c2, c2 + 7) != lit_exp() {
                None
            } else if s[s.len() - 1] != 125 {
                None
            } else if parse_number_spec(s.subrange(c2 + 7, s.len() - 1)) is None {
                None
            } else {
                Some(
                    Claims {
                        sub: parse_uuid_spec(s.subrange(8, 44)).unwrap(),
                        iss: parse_uuid_spec(s.subrange(53, 89)).unwrap(),
                        role: parse_uuid_spec(s.subrange(99, 135)).unwrap(),
                        iat: parse_number_spec(s.subrange(143, c1)).unwrap(),
                        nbf: parse_number_spec(s.subrange(c1 + 7, c2)).unwrap(),
                        exp: parse_number_spec(s.subrange(c2 + 7, s.len() - 1)).unwrap(),
                    },
                )
            }
        }
    }
}

/// Parses a canonical claims JSON text.
pub fn parse_claims_bytes(v: &Vec<u8>) -> (r: Option<Claims>)
    ensures
        r == parse_claims_spec(v@),
{
    let n = v.len();
    if n < 161 {
        return None;
    }
    let lit = lit_sub_vec();
    if !region_eq(v, 0, &lit) {
        return None;
    }
    let sub = match parse_uuid(v, 8) {
        Some(u) => u,
        None => {
            return None;
        },
    };
    let lit = lit_iss_vec();
    if !region_eq(v, 44, &lit) {
        return None;
    }
    let iss = match parse_uuid(v, 53) {
        Some(u) => u,
        None => {
            return None;
        },
    };
    let lit = lit_role_vec();
    if !region_eq(v, 89, &lit) {
        return None;
    }
    let role = match parse_uuid(v, 99) {
        Some(u) => u,
        None => {
            return None;
        },
    };
    let lit = lit_iat_vec();
    if !region_eq(v, 135, &lit) {
        return None;
    }
    let c1 = find_byte_from(v, 143, 44);
    proof {
        lemma_find_byte_props(v@, 143, 44);
    }
    if c1 > n - 7 {
        return None;
    }
    let iat = match parse_number(v, 143, c1) {
        Some(x) => x,
        None => {
            return None;
        },
    };
    let lit = lit_nbf_vec();
    if !region_eq(v, c1, &lit) {
        return None;
    }
    let c2 = find_byte_from(v, c1 + 7, 44);
    proof {
        lemma_find_byte_props(v@, c1 + 7, 44);
    }
    if c2 > n - 9 {
        return None;
    }
    let nbf = match parse_number(v, c1 + 7, c2) {
        Some(x) => x,
        None => {
            return None;
        },
    };
    let lit = lit_exp_vec();
    if !region_eq(v, c2, &lit) {
        return None;
    }
    if v[n - 1] != 125 {
        return None;
    }
    let exp = match parse_number(v, c2 + 7, n - 1) {
        Some(x) => x,
        None => {
            return None;
        },
    };
    Some(Claims { sub, iss, role, iat, nbf, exp })
}

/// The canonical claims text of any claims value parses back to that value:
/// the encoder and the parser are mutual inverses.
#[verifier::rlimit(100)]
pub proof fn lemma_claims_roundtrip(c: Claims)
    ensures
        parse_claims_spec(claims_json(c)) == Some(c),
{
    let s = claims_json(c);
    lemma_hex_fixed_len(c.sub as nat, 32);
    lemma_hex_fixed_len(c.iss as nat, 32);
    lemma_hex_fixed_len(c.role as nat, 32);
    lemma_decimal_shape(c.iat as nat);
    lemma_decimal_shape(c.nbf as nat);
    lemma_decimal_shape(c.exp as nat);
    let d1 = decimal(c.iat as nat);
    let d2 = decimal(c.nbf as nat);
    let d3 = decimal(c.exp as nat);
    assert(uuid_hyphenated(c.sub).len() == 36);
    assert(uuid_hyphenated(c.iss).len() == 36);
    assert(uuid_hyphenated(c.role).len() == 36);
    assert(s.len() == 144 + d1.len() + 7 + d2.len() + 7 + d3.len());
    assert(s.subrange(0, 8) =~= lit_sub());
    assert(s.subrange(8, 44) =~= uuid_hyphenated(c.sub));
    assert(s.subrange(44, 53) =~= lit_iss());
    assert(s.subrange(53, 89) =~= uuid_hyphenated(c.iss));
    assert(s.subrange(89, 99) =~= lit_role());
    assert(s.subrange(99, 135) =~= uuid_hyphenated(c.role));
    assert(s.subrange(135, 143) =~= lit_iat());
    lemma_parse_uuid_roundtrip(c.sub);
    lemma_parse_uuid_roundtrip(c.iss);
    lemma_parse_uuid_roundtrip(c.role);
    let k1 = 143 + d1.len() as int;
    assert(s[k1] == 44);
    assert(forall|j: int| 143 <= j < k1 ==> is_dec_digit(#[trigger] s[j]) && s[j] != 44);
    lemma_find_byte_first(s, 143, 44, k1);
    assert(s.subrange(143, k1) =~= d1);
    lemma_parse_number_roundtrip(c.iat);
    assert(s.subrange(k1, k1 + 7) =~= lit_nbf());
    let k2 = k1 + 7 + d2.len() as int;
    assert(s[k2] == 44);
    assert(forall|j: int| k1 + 7 <= j < k2 ==> is_dec_digit(#[trigger] s[j]) && s[j] != 44);
    lemma_find_byte_first(s, k1 + 7, 44, k2);
    assert(s.subrange(k1 + 7, k2) =~= d2);
    lemma_parse_number_roundtrip(c.nbf);
    assert(s.subrange(k2, k2 + 7) =~= lit_exp());
    assert(s[s.len() - 1] == 125);
    assert(s.subrange(k2 + 7, s.len() - 1) =~= d3);
    lemma_parse_number_roundtrip(c.exp);
}

/// A text that parses as claims is exactly those claims' canonical text.
pub proof fn lemma_parse_claims_sound(s: Seq<u8>)
    requires
        parse_claims_spec(s) is Some,
    ensures
        claims_json(parse_claims_spec(s).unwrap()) == s,
{
    let c = parse_claims_spec(s).unwrap();
    let c1 = find_byte(s, 143, 44);
    lemma_find_byte_props(s, 143, 44);
    let c2 = find_byte(s, c1 + 7, 44);
    lemma_find_byte_props(s, c1 + 7, 44);
    lemma_parse_uuid_canonical(s.subrange(8, 44));
    lemma_parse_uuid_canonical(s.subrange(53, 89));
    lemma_parse_uuid_canonical(s.subrange(99, 135));
    lemma_parse_number_canonical(s.subrange(143, c1));
    lemma_parse_number_canonical(s.subrange(c1 + 7, c2));
    lemma_parse_number_canonical(s.subrange(c2 + 7, s.len() - 1));
    assert(claims_json(c) =~= s.subrange(0, 8) + s.subrange(8, 44) + s.subrange(44, 53)
        + s.subrange(53, 89) + s.subrange(89, 99) + s.subrange(99, 135) + s.subrange(135, 143)
        + s.subrange(143, c1) + s.subrange(c1, c1 + 7) + s.subrange(c1 + 7, c2) + s.subrange(
        c2,
        c2 + 7,
    ) + s.subrange(c2 + 7, s.len() - 1) + seq![s[s.len() - 1]]);
    assert(claims_json(c) =~= s);
}

} // verus!

verus! {

/// A claims text is at most 218 bytes: 144 fixed bytes, three 36-byte
/// identifiers counted in them, and three numerals of at most 20 digits.
pub proof fn lemma_claims_json_len(c: Claims)
    ensures
        161 <= claims_json(c).len() <= 218,
{
    lemma_hex_fixed_len(c.sub as nat, 32);
    lemma_hex_fixed_len(c.iss as nat, 32);
    lemma_hex_fixed_len(c.role as nat, 32);
    lemma_decimal_shape(c.iat as nat);
    lemma_decimal_shape(c.nbf as nat);
    lemma_decimal_shape(c.exp as nat);
    crate::numerals::lemma_pow10_20();
    crate::numerals::lemma_decimal_len_bound(c.iat as nat, 20);
    crate::numerals::lemma_decimal_len_bound(c.nbf as nat, 20);
    crate::numerals::lemma_decimal_len_bound(c.exp as nat, 20);
}

} // verus!
