//! Exact-value checks of the numeral, encoding, claims and token codecs.

use authcore::claims::{claims_json_bytes, parse_claims_bytes, Claims};
use authcore::clock::rfc2822_utc;
use authcore::encoding::{b64std_decode, b64url_decode, b64url_encode, hex_encode};
use authcore::errors::ErrorKind;
use authcore::numerals::{parse_number, parse_uuid, push_decimal, push_uuid_hyphenated};
use authcore::session_data::{encode_session_data, parse_session_data, SessionData};
use authcore::token::{decrypt_jwt, encrypt_jwt, gen_secret, get_auth_cookie};

const SECRET: &str = "c2VjcmV0";

#[test]
fn decimal_of_zero_is_one_digit() {
    let mut v: Vec<u8> = Vec::new();
    push_decimal(&mut v, 0);
    assert_eq!(v, b"0".to_vec());
}

#[test]
fn decimal_of_large_value() {
    let mut v: Vec<u8> = Vec::new();
    push_decimal(&mut v, 18446744073709551615);
    assert_eq!(v, b"18446744073709551615".to_vec());
}

#[test]
fn decimal_parses_back() {
    let mut v: Vec<u8> = Vec::new();
    push_decimal(&mut v, 1697040000);
    let n = v.len();
    assert_eq!(parse_number(&v, 0, n), Some(1697040000));
}

#[test]
fn number_rejects_leading_zero_and_junk() {
    let v = b"0123".to_vec();
    assert_eq!(parse_number(&v, 0, 4), None);
    let v = b"12a3".to_vec();
    assert_eq!(parse_number(&v, 0, 4), None);
    let v = b"".to_vec();
    assert_eq!(parse_number(&v, 0, 0), None);
}

#[test]
fn number_rejects_overflow() {
    let v = b"18446744073709551616".to_vec();
    assert_eq!(parse_number(&v, 0, 20), None);
    let v = b"999999999999999999999".to_vec();
    assert_eq!(parse_number(&v, 0, 21), None);
}

#[test]
fn uuid_hyphenated_exact() {
    let mut v: Vec<u8> = Vec::new();
    push_uuid_hyphenated(&mut v, 0xd582df1f36424191b8220c9a73719259);
    assert_eq!(v, b"d582df1f-3642-4191-b822-0c9a73719259".to_vec());
    let mut z: Vec<u8> = Vec::new();
    push_uuid_hyphenated(&mut z, 0);
    assert_eq!(z, b"00000000-0000-0000-0000-000000000000".to_vec());
}

#[test]
fn uuid_parses_back() {
    let v = b"d582df1f-3642-4191-b822-0c9a73719259".to_vec();
    assert_eq!(parse_uuid(&v, 0), Some(0xd582df1f36424191b8220c9a73719259));
    let bad = b"d582df1f+3642-4191-b822-0c9a73719259".to_vec();
    assert_eq!(parse_uuid(&bad, 0), None);
    let upper = b"D582DF1F-3642-4191-B822-0C9A73719259".to_vec();
    assert_eq!(parse_uuid(&upper, 0), None);
}

#[test]
fn hex_encode_exact() {
    assert_eq!(hex_encode(&[0xbe, 0xef]), "beef");
    assert_eq!(hex_encode(&[]), "");
    assert_eq!(hex_encode(&[0x00, 0x0a, 0xff]), "000aff");
}

#[test]
fn b64url_encode_exact() {
    assert_eq!(b64url_encode(b"hello"), "aGVsbG8");
    assert_eq!(b64url_encode(&[]), "");
    assert_eq!(b64url_encode(&[0xfb, 0xff]), "-_8");
}

#[test]
fn b64url_decode_is_canonical() {
    assert_eq!(b64url_decode("aGVsbG8"), Some(b"hello".to_vec()));
    assert_eq!(b64url_decode("aGVsbG8="), None);
    assert_eq!(b64url_decode("aGVsbG9"), None);
    assert_eq!(b64url_decode("+/8"), None);
}

#[test]
fn b64std_decode_exact() {
    assert_eq!(b64std_decode("c2VjcmV0"), Some(b"secret".to_vec()));
    assert_eq!(b64std_decode("!!!"), None);
}

#[test]
fn rfc2822_of_epoch() {
    assert_eq!(rfc2822_utc(0), "Thu, 1 Jan 1970 00:00:00 +0000");
}

#[test]
fn auth_cookie_exact() {
    let c = get_auth_cookie("T", 0);
    assert_eq!(c, "token=T; Expires=Thu, 1 Jan 1970 00:01:00 +0000; Path=/; SameSite=None; Secure");
}

#[test]
fn claims_json_exact() {
    let c = Claims {
        sub: 0xd582df1f36424191b8220c9a73719259,
        iss: 0,
        role: 1,
        iat: 10,
        nbf: 10,
        exp: 3610,
    };
    let j = claims_json_bytes(&c);
    let expected = "{\"sub\":\"d582df1f-3642-4191-b822-0c9a73719259\",\"iss\":\"00000000-0000-0000-0000-000000000000\",\"role\":\"00000000-0000-0000-0000-000000000001\",\"iat\":10,\"nbf\":10,\"exp\":3610}";
    assert_eq!(j, expected.as_bytes().to_vec());
    assert_eq!(parse_claims_bytes(&j), Some(c));
}

#[test]
fn claims_parse_rejects_noncanonical() {
    let j = b"{\"sub\":\"x\"}".to_vec();
    assert_eq!(parse_claims_bytes(&j), None);
    let spaced = "{\"sub\": \"d582df1f-3642-4191-b822-0c9a73719259\",\"iss\":\"00000000-0000-0000-0000-000000000000\",\"role\":\"00000000-0000-0000-0000-000000000001\",\"iat\":10,\"nbf\":10,\"exp\":3610}";
    assert_eq!(parse_claims_bytes(&spaced.as_bytes().to_vec()), None);
}

#[test]
fn claims_new_sets_window() {
    let c = Claims::new(7, 8, 9, 1000);
    assert_eq!(c.sub, 7);
    assert_eq!(c.iss, 8);
    assert_eq!(c.role, 9);
    assert_eq!(c.iat, 1000);
    assert_eq!(c.nbf, 1000);
    assert_eq!(c.exp, 4600);
}

#[test]
fn token_roundtrip() {
    let c = Claims::new(42, 7, 3, 1000);
    let t = encrypt_jwt(SECRET, c).unwrap();
    assert_eq!(decrypt_jwt(SECRET, &t, 1000), Ok(c));
    assert_eq!(decrypt_jwt(SECRET, &t, 4600), Ok(c));
}

#[test]
fn token_shape_is_three_parts() {
    let c = Claims::new(42, 7, 3, 1000);
    let t = encrypt_jwt(SECRET, c).unwrap();
    let parts: Vec<&str> = t.split('.').collect();
    assert_eq!(parts.len(), 3);
    assert_eq!(parts[0], "eyJhbGciOiJIUzI1NiIsInR5cCI6IkpXVCJ9");
}

#[test]
fn token_rejects_other_secret() {
    let c = Claims::new(42, 7, 3, 1000);
    let t = encrypt_jwt(SECRET, c).unwrap();
    assert_eq!(decrypt_jwt("b3RoZXI=", &t, 1000), Err(ErrorKind::Unauthorized));
}

#[test]
fn token_rejects_outside_window() {
    let c = Claims::new(42, 7, 3, 1000);
    let t = encrypt_jwt(SECRET, c).unwrap();
    assert_eq!(decrypt_jwt(SECRET, &t, 999), Err(ErrorKind::Unauthorized));
    assert_eq!(decrypt_jwt(SECRET, &t, 4601), Err(ErrorKind::Unauthorized));
}

#[test]
fn token_rejects_tampering() {
    let c = Claims::new(42, 7, 3, 1000);
    let t = encrypt_jwt(SECRET, c).unwrap();
    let mut forged = t.clone();
    forged.pop();
    forged.push('A');
    assert_eq!(decrypt_jwt(SECRET, &forged, 1000), Err(ErrorKind::Unauthorized));
    assert_eq!(decrypt_jwt(SECRET, "not.a.token", 1000), Err(ErrorKind::Unauthorized));
    assert_eq!(decrypt_jwt(SECRET, "", 1000), Err(ErrorKind::Unauthorized));
}

#[test]
fn encrypt_rejects_bad_secret() {
    let c = Claims::new(42, 7, 3, 1000);
    assert_eq!(encrypt_jwt("!!!", c), Err(ErrorKind::Internal));
}

#[test]
fn gen_secret_is_long_and_urlsafe() {
    let s = gen_secret();
    assert_eq!(s.len(), 342);
    assert!(s.bytes().all(|b| b.is_ascii_alphanumeric() || b == b'-' || b == b'_'));
    assert_ne!(gen_secret(), s);
}

#[test]
fn session_blob_exact() {
    let d = SessionData { user_id: Some(1), issued_at: 99 };
    let s = encode_session_data(&d);
    assert_eq!(
        s,
        "{\"v\":1,\"user_id\":\"00000000-0000-0000-0000-000000000001\",\"iat\":99}"
    );
    assert_eq!(parse_session_data(&s), Some(d));
    let n = SessionData { user_id: None, issued_at: 7 };
    let sn = encode_session_data(&n);
    assert_eq!(sn, "{\"v\":1,\"user_id\":null,\"iat\":7}");
    assert_eq!(parse_session_data(&sn), Some(n));
    assert_eq!(parse_session_data("{\"v\":2,\"user_id\":null,\"iat\":7}"), None);
    assert_eq!(parse_session_data(""), None);
}
