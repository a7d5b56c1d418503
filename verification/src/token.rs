//! Token issuance and validation, independent of the session store.
//!
//! A token is a compact three-part text: the URL-safe base64 of a fixed
//! header, the URL-safe base64 of the claims' canonical JSON text, and the
//! URL-safe base64 of an HMAC-SHA-256 tag over the first two parts, the
//! three joined by dots. The signing secret is a process-wide
//! standard-base64 text, distinct from the nonce deployment secret. Nothing
//! is persisted server-side: a token is valid exactly when its signature
//! matches and the time of checking lies in its `nbf ..= exp` window, and no
//! revocation exists.

use vstd::prelude::*;
use vstd::string::StrSliceExecFns;
use vstd::string::StringExecFns;
use vstd::utf8::encode_utf8;

use crate::claims::claims_json;
use crate::claims::claims_json_bytes;
use crate::claims::lemma_claims_json_len;
use crate::claims::lemma_claims_roundtrip;
use crate::claims::lemma_parse_claims_sound;
use crate::claims::parse_claims_bytes;
use crate::claims::parse_claims_spec;
use crate::claims::Claims;
use crate::clock::rfc2822_of;
use crate::clock::rfc2822_utc;
use crate::crypto::ct_str_eq;
use crate::crypto::hmac_sha256;
use crate::crypto::hmac_sha256_of;
use crate::crypto::random_bytes;
use crate::encoding::b64std_decode;
use crate::encoding::b64std_decoded;
use crate::encoding::b64url_decode;
use crate::encoding::b64url_encode;
use crate::encoding::b64url_nopad_encode;
use crate::encoding::b64url_nopad_of;
use crate::encoding::b64url_of;
use crate::encoding::lemma_b64url_alphabet;
use crate::encoding::lemma_b64url_injective;
use crate::errors::ErrorKind;
use crate::scan::find_char;
use crate::scan::find_char_from;
use crate::scan::lemma_find_char_first;
use crate::scan::lemma_find_char_props;

verus! {

/// The bytes of the fixed token header `{"alg":"HS256","typ":"JWT"}`.
pub open spec fn header_json() -> Seq<u8> {
    seq![
        123u8, 34u8, 97u8, 108u8, 103u8, 34u8, 58u8, 34u8, 72u8, 83u8, 50u8, 53u8, 54u8, 34u8,
        44u8, 34u8, 116u8, 121u8, 112u8, 34u8, 58u8, 34u8, 74u8, 87u8, 84u8, 34u8, 125u8,
    ]
}

fn header_json_bytes() -> (r: Vec<u8>)
    ensures
        r@ == header_json(),
{
    let mut v: Vec<u8> = Vec::new();
    v.push(123);
    v.push(34);
    v.push(97);
    v.push(108);
    v.push(103);
    v.push(34);
    v.push(58);
    v.push(34);
    v.push(72);
    v.push(83);
    v.push(50);
    v.push(53);
    v.push(54);
    v.push(34);
    v.push(44);
    v.push(34);
    v.push(116);
    v.push(121);
    v.push(112);
    v.push(34);
    v.push(58);
    v.push(34);
    v.push(74);
    v.push(87);
    v.push(84);
    v.push(34);
    v.push(125);
    proof {
        assert(v@ =~= header_json());
    }
    v
}

/// The two signed segments of a token for claims `c`: the encoded header
/// and the encoded claims text, joined by a dot.
#[verifier::opaque]
pub open spec fn signing_input_of(c: Claims) -> Seq<char> {
    b64url_of(header_json()) + seq!['.'] + b64url_of(claims_json(c))
}

/// The compact signed token of `c` under key bytes `key`: the signing
/// input, a dot, and the encoded HMAC-SHA-256 tag over the signing input.
#[verifier::opaque]
pub open spec fn token_of(key: Seq<u8>, c: Claims) -> Seq<char> {
    signing_input_of(c) + seq!['.'] + b64url_of(
        hmac_sha256_of(key, encode_utf8(signing_input_of(c))),
    )
}

/// How a token of claims `c` splits at its dots: the first dot closes the
/// encoded header, the second closes the encoded claims text, and no dot
/// follows the second.
proof fn lemma_token_split(t: Seq<char>, key: Seq<u8>, c: Claims)
    requires
        t == token_of(key, c),
    ensures
        ({
            let a = b64url_of(header_json());
            let x = b64url_of(claims_json(c));
            let y = b64url_of(hmac_sha256_of(key, encode_utf8(signing_input_of(c))));
            &&& t.len() == a.len() + 1 + x.len() + 1 + y.len()
            &&& find_char(t, 0, '.') == a.len()
            &&& find_char(t, a.len() + 1 as int, '.') == a.len() + 1 + x.len()
            &&& find_char(t, a.len() + 1 + x.len() + 1 as int, '.') == t.len()
            &&& t.subrange(0, a.len() as int) == a
            &&& t.subrange(a.len() + 1 as int, a.len() + 1 + x.len() as int) == x
            &&& t.subrange(a.len() + 1 + x.len() + 1 as int, t.len() as int) == y
        }),
{
    reveal(token_of);
    reveal(signing_input_of);
    let a = b64url_of(header_json());
    let x = b64url_of(claims_json(c));
    let y = b64url_of(hmac_sha256_of(key, encode_utf8(signing_input_of(c))));
    lemma_b64url_alphabet(header_json());
    lemma_b64url_alphabet(claims_json(c));
    lemma_b64url_alphabet(hmac_sha256_of(key, encode_utf8(signing_input_of(c))));
    let p1 = a.len() as int;
    let p2 = a.len() + 1 + x.len() as int;
    assert(t[p1] == '.');
    assert(forall|j: int| 0 <= j < p1 ==> t[j] == a[j] && t[j] != '.');
    lemma_find_char_first(t, 0, '.', p1);
    assert(t[p2] == '.');
    assert(forall|j: int| p1 + 1 <= j < p2 ==> t[j] == x[j - p1 - 1] && t[j] != '.');
    lemma_find_char_first(t, p1 + 1, '.', p2);
    assert(forall|j: int| p2 + 1 <= j < t.len() ==> t[j] == y[j - p2 - 1] && t[j] != '.');
    lemma_find_char_props(t, p2 + 1, '.');
    assert(find_char(t, p2 + 1, '.') == t.len());
    assert(t.subrange(0, p1) =~= a);
    assert(t.subrange(p1 + 1, p2) =~= x);
    assert(t.subrange(p2 + 1, t.len() as int) =~= y);
}

/// One token carries one claims value: two claims with the same token
/// under the same key are equal.
pub proof fn lemma_token_claims_unique(t: Seq<char>, key: Seq<u8>, c1: Claims, c2: Claims)
    requires
        t == token_of(key, c1),
        t == token_of(key, c2),
    ensures
        c1 == c2,
{
    lemma_token_split(t, key, c1);
    lemma_token_split(t, key, c2);
    let a = b64url_of(header_json());
    let p1 = a.len() as int;
    let p2 = find_char(t, p1 + 1, '.');
    assert(t.subrange(p1 + 1, p2) == b64url_of(claims_json(c1)));
    assert(t.subrange(p1 + 1, p2) == b64url_of(claims_json(c2)));
    lemma_b64url_injective(claims_json(c1), claims_json(c2));
    lemma_claims_roundtrip(c1);
    lemma_claims_roundtrip(c2);
    assert(parse_claims_spec(claims_json(c1)) == parse_claims_spec(claims_json(c2)));
}

/// A text of the encoded header, a dot, and the encoded claims text is the
/// signing input of the claims.
proof fn lemma_signing_input_assembled(si: Seq<char>, c: Claims)
    requires
        si == b64url_of(header_json()) + seq!['.'] + b64url_of(claims_json(c)),
    ensures
        si == signing_input_of(c),
{
    reveal(signing_input_of);
}

/// A text that splits at two dots into the encoded header, the encoded
/// claims text, and the encoded tag over the signing input is the claims'
/// token.
proof fn lemma_token_assembled(t: Seq<char>, key: Seq<u8>, c: Claims, p1: int, p2: int)
    requires
        0 <= p1 < p2 < t.len(),
        t[p1] == '.',
        t[p2] == '.',
        t.subrange(0, p1) == b64url_of(header_json()),
        t.subrange(p1 + 1, p2) == b64url_of(claims_json(c)),
        t.subrange(p2 + 1, t.len() as int) == b64url_of(
            hmac_sha256_of(key, encode_utf8(signing_input_of(c))),
        ),
        signing_input_of(c) == b64url_of(header_json()) + seq!['.'] + b64url_of(claims_json(c)),
    ensures
        t == token_of(key, c),
{
    reveal(token_of);
    assert(t =~= t.subrange(0, p1) + seq![t[p1]] + t.subrange(p1 + 1, p2) + seq![t[p2]]
        + t.subrange(p2 + 1, t.len() as int));
}

/// Encodes `claims` as a compact signed token under the standard-base64
/// `secret`. Fails exactly when the secret is not valid base64.
pub fn encrypt_jwt(secret: &str, claims: Claims) -> (r: Result<String, ErrorKind>)
    ensures
        r is Ok <==> b64std_decoded(secret@) is Some,
        r matches Ok(t) ==> t@ == token_of(b64std_decoded(secret@).unwrap(), claims),
        r matches Err(e) ==> e == ErrorKind::Internal,
{
    let key = match b64std_decode(secret) {
        Some(k) => k,
        None => {
            return Err(ErrorKind::Internal);
        },
    };
    let hdr = header_json_bytes();
    let hdr64 = b64url_encode(hdr.as_slice());
    let cj = claims_json_bytes(&claims);
    proof {
        lemma_claims_json_len(claims);
    }
    let cj64 = b64url_encode(cj.as_slice());
    let mut si = hdr64;
    si.append(".");
    si.append(cj64.as_str());
    proof {
        reveal(signing_input_of);
        reveal_strlit(".");
        assert("."@ =~= seq!['.']);
        assert(si@ == signing_input_of(claims));
    }
    let si_bytes = si.as_str().as_bytes_vec();
    let sig = hmac_sha256(key.as_slice(), si_bytes.as_slice());
    let sig64 = b64url_encode(sig.as_slice());
    let mut token = si;
    token.append(".");
    token.append(sig64.as_str());
    proof {
        reveal(token_of);
        assert(token@ == token_of(b64std_decoded(secret@).unwrap(), claims));
    }
    Ok(token)
}

/// Decodes and validates a compact signed token: checks the header, the
/// signature under `secret`, and that `now` lies in the claims' validity
/// window. Returns exactly the claims the matching `encrypt_jwt` encoded;
/// every failure collapses into one opaque kind.
#[verifier::rlimit(100)]
#[verifier::spinoff_prover]
pub fn decrypt_jwt(secret: &str, token: &str, now: u64) -> (r: Result<Claims, ErrorKind>)
    ensures
        r matches Ok(c) ==> {
            &&& b64std_decoded(secret@) is Some
            &&& token@ == token_of(b64std_decoded(secret@).unwrap(), c)
            &&& c.nbf <= now <= c.exp
        },
        forall|c: Claims|
            (b64std_decoded(secret@) is Some && token@ == token_of(
                b64std_decoded(secret@).unwrap(),
                c,
            ) && c.nbf <= now && now <= c.exp) ==> r == Ok::<Claims, ErrorKind>(c),
        r matches Err(e) ==> e == ErrorKind::Unauthorized,
{
    let ghost skey: Seq<u8> = b64std_decoded(secret@).unwrap();
    let key = match b64std_decode(secret) {
        Some(k) => k,
        None => {
            return Err(ErrorKind::Unauthorized);
        },
    };
    let ghost hyp = exists|c: Claims| token@ == token_of(skey, c);
    let ghost cw: Claims = choose|c: Claims| token@ == token_of(skey, c);
    let ghost a = b64url_of(header_json());
    let ghost xw = b64url_of(claims_json(cw));
    proof {
        if hyp {
            lemma_token_split(token@, skey, cw);
        }
    }
    let tlen = token.unicode_len();
    let p1 = find_char_from(token, 0, '.');
    proof {
        lemma_find_char_props(token@, 0, '.');
    }
    if p1 == tlen {
        proof {
            assert(!hyp);
        }
        return Err(ErrorKind::Unauthorized);
    }
    let p2 = find_char_from(token, p1 + 1, '.');
    proof {
        lemma_find_char_props(token@, p1 + 1, '.');
    }
    if p2 == tlen {
        proof {
            assert(!hyp);
        }
        return Err(ErrorKind::Unauthorized);
    }
    let p3 = find_char_from(token, p2 + 1, '.');
    if p3 != tlen {
        proof {
            assert(!hyp);
        }
        return Err(ErrorKind::Unauthorized);
    }
    let hdr_part = token.substring_char(0, p1);
    let claims_part = token.substring_char(p1 + 1, p2);
    let sig_part = token.substring_char(p2 + 1, tlen);
    let hdr = header_json_bytes();
    let hdr64 = b64url_encode(hdr.as_slice());
    proof {
        if hyp {
            assert(p1 == a.len() && p2 == a.len() + 1 + xw.len());
            assert(hdr_part@ == a);
            assert(claims_part@ == xw);
            assert(sig_part@ == b64url_of(
                hmac_sha256_of(skey, encode_utf8(signing_input_of(cw))),
            ));
        }
    }
    if !ct_str_eq(hdr_part, hdr64.as_str()) {
        proof {
            assert(!hyp);
        }
        return Err(ErrorKind::Unauthorized);
    }
    let cj = match b64url_decode(claims_part) {
        Some(v) => v,
        None => {
            proof {
                assert(!hyp);
            }
            return Err(ErrorKind::Unauthorized);
        },
    };
    let parsed = parse_claims_bytes(&cj);
    proof {
        if hyp {
            lemma_b64url_injective(cj@, claims_json(cw));
            lemma_claims_roundtrip(cw);
            assert(parsed == Some(cw));
        }
    }
    let c = match parsed {
        Some(c) => c,
        None => {
            proof {
                assert(!hyp);
            }
            return Err(ErrorKind::Unauthorized);
        },
    };
    let mut si = hdr64;
    si.append(".");
    si.append(claims_part);
    let si_bytes = si.as_str().as_bytes_vec();
    let sig = hmac_sha256(key.as_slice(), si_bytes.as_slice());
    let sig64 = b64url_encode(sig.as_slice());
    proof {
        assert(si@ == b64url_of(header_json()) + seq!['.'] + b64url_of(claims_json(c))) by {
            reveal_strlit(".");
            assert("."@ =~= seq!['.']);
            lemma_parse_claims_sound(cj@);
        }
        lemma_signing_input_assembled(si@, c);
        assert(sig64@ == b64url_of(hmac_sha256_of(skey, encode_utf8(signing_input_of(c)))));
        if hyp {
            assert(c == cw);
            assert(sig64@ == sig_part@);
        }
    }
    if !ct_str_eq(sig_part, sig64.as_str()) {
        proof {
            assert(!hyp);
        }
        return Err(ErrorKind::Unauthorized);
    }
    proof {
        assert forall|c0: Claims| token@ == token_of(skey, c0) implies c0 == c by {
            assert(hyp);
            lemma_token_claims_unique(token@, skey, c0, cw);
        }
    }
    if now < c.nbf || now > c.exp {
        return Err(ErrorKind::Unauthorized);
    }
    proof {
        lemma_parse_claims_sound(cj@);
        lemma_token_assembled(token@, skey, c, p1 as int, p2 as int);
    }
    Ok(c)
}

/// An independent high-entropy secret for one subject, minted at account
/// creation: 256 random bytes in URL-safe base64.
pub fn gen_secret() -> (r: String)
    ensures
        exists|b: Seq<u8>| b.len() == 256 && r@ == b64url_nopad_of(b),
{
    let bytes = random_bytes(256);
    let s = b64url_nopad_encode(bytes.as_slice());
    s
}

/// The cookie line carrying a fresh token: it expires a minute after `now`,
/// is restricted to the site, and travels only over secure transport.
pub open spec fn auth_cookie_of(token: Seq<char>, now: u64) -> Seq<char>
    recommends
        now + 60 <= u64::MAX,
{
    "token="@ + token + "; Expires="@ + rfc2822_of((now + 60) as u64)
        + "; Path=/; SameSite=None; Secure"@
}

/// Renders the `Set-Cookie` value for a fresh token at time `now`.
pub fn get_auth_cookie(token: &str, now: u64) -> (r: String)
    requires
        now + 60 <= 253402300799,
    ensures
        r@ == auth_cookie_of(token@, now),
{
    let mut s = "token=".to_owned();
    s.append(token);
    s.append("; Expires=");
    let e = rfc2822_utc(now + 60);
    s.append(e.as_str());
    s.append("; Path=/; SameSite=None; Secure");
    s
}

} // verus!
