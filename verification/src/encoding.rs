//! Bindings to the text encoders the library relies on: URL-safe and
//! standard base64 from the `base64` crate, URL-safe base64 from
//! `data-encoding`, lowercase hexadecimal from `hex`, and UTF-8 assembly
//! from std. Each binding's contract states no more than the encoder's own
//! source shows.

use vstd::prelude::*;

use crate::numerals::hex_digit;

verus! {

/// The URL-safe base64 alphabet: `A`-`Z`, `a`-`z`, `0`-`9`, `-` and `_`.
pub open spec fn is_b64url_char(c: char) -> bool {
    (65 <= c as u32 && c as u32 <= 90) || (97 <= c as u32 && c as u32 <= 122) || (48 <= c as u32
        && c as u32 <= 57) || c as u32 == 45 || c as u32 == 95
}

/// Character of the URL-safe base64 alphabet at position `d`.
pub open spec fn sextet_char(d: nat) -> char
    recommends
        d < 64,
{
    if d < 26 {
        ((d + 65) as u8) as char
    } else if d < 52 {
        ((d + 71) as u8) as char
    } else if d < 62 {
        ((d - 4) as u8) as char
    } else if d == 62 {
        '-'
    } else {
        '_'
    }
}

/// URL-safe unpadded base64 text of a byte sequence: bytes in groups of
/// three, each group spelled as four alphabet characters, a final group of
/// one or two bytes as two or three characters, no padding.
pub open spec fn b64url_of(b: Seq<u8>) -> Seq<char>
    decreases b.len(),
{
    if b.len() == 0 {
        Seq::empty()
    } else if b.len() == 1 {
        seq![
            sextet_char((b[0] >> 2) as nat),
            sextet_char(((b[0] & 3) << 4) as nat),
        ]
    } else if b.len() == 2 {
        seq![
            sextet_char((b[0] >> 2) as nat),
            sextet_char((((b[0] & 3) << 4) | (b[1] >> 4)) as nat),
            sextet_char(((b[1] & 15) << 2) as nat),
        ]
    } else {
        seq![
            sextet_char((b[0] >> 2) as nat),
            sextet_char((((b[0] & 3) << 4) | (b[1] >> 4)) as nat),
            sextet_char((((b[1] & 15) << 2) | (b[2] >> 6)) as nat),
            sextet_char((b[2] & 63) as nat),
        ] + b64url_of(b.skip(3))
    }
}

/// Relies on base64's `Engine::encode` with `URL_SAFE_NO_PAD`: the canonical
/// unpadded encoding over the URL-safe alphabet, grouping bytes as
/// `b64url_of` spells out.
#[verifier::external_body]
pub fn b64url_encode(b: &[u8]) -> (r: String)
    requires
        b@.len() <= 0x1000000000000000,
    ensures
        r@ == b64url_of(b@),
{
    base64::Engine::encode(&base64::engine::general_purpose::URL_SAFE_NO_PAD, b)
}

/// Relies on base64's `Engine::decode` with `URL_SAFE_NO_PAD`: the engine
/// requires canonical unpadded input (it rejects padding and trailing bits),
/// so it succeeds exactly on encoder outputs and returns the preimage.
#[verifier::external_body]
pub fn b64url_decode(s: &str) -> (r: Option<Vec<u8>>)
    ensures
        r matches Some(v) ==> s@ == b64url_of(v@),
        (exists|b: Seq<u8>| s@ == b64url_of(b)) ==> r is Some,
{
    base64::Engine::decode(&base64::engine::general_purpose::URL_SAFE_NO_PAD, s).ok()
}

/// What base64's standard padded engine decodes a text to, `None` where it
/// rejects the text.
pub uninterp spec fn b64std_decoded(s: Seq<char>) -> Option<Seq<u8>>;

/// Relies on base64's `Engine::decode` with `STANDARD`: deterministic in its
/// input text.
#[verifier::external_body]
pub fn b64std_decode(s: &str) -> (r: Option<Vec<u8>>)
    ensures
        r is Some <==> b64std_decoded(s@) is Some,
        r matches Some(v) ==> b64std_decoded(s@) == Some(v@),
{
    base64::Engine::decode(&base64::engine::general_purpose::STANDARD, s).ok()
}

/// URL-safe unpadded base64 text as data-encoding's `BASE64URL_NOPAD`
/// specification produces it.
pub uninterp spec fn b64url_nopad_of(b: Seq<u8>) -> Seq<char>;

/// Relies on data_encoding's `BASE64URL_NOPAD.encode`.
#[verifier::external_body]
pub fn b64url_nopad_encode(b: &[u8]) -> (r: String)
    requires
        b@.len() <= 0x1000000000000000,
    ensures
        r@ == b64url_nopad_of(b@),
{
    data_encoding::BASE64URL_NOPAD.encode(b)
}

/// Lowercase hexadecimal text of a byte sequence: two digits per byte, high
/// nibble first.
pub open spec fn hex_chars_of(b: Seq<u8>) -> Seq<char>
    decreases b.len(),
{
    if b.len() == 0 {
        Seq::empty()
    } else {
        hex_chars_of(b.drop_last()) + seq![
            hex_digit((b.last() / 16) as nat) as char,
            hex_digit((b.last() % 16) as nat) as char,
        ]
    }
}

/// Relies on hex::encode: lowercase, two digits per byte, high nibble first.
#[verifier::external_body]
pub fn hex_encode(b: &[u8]) -> (r: String)
    requires
        b@.len() <= 0x1000000000000000,
    ensures
        r@ == hex_chars_of(b@),
{
    hex::encode(b)
}

/// Relies on std's `String::from_utf8`: bytes below 128 are valid UTF-8 and
/// decode to one character per byte.
#[verifier::external_body]
pub fn ascii_to_string(v: Vec<u8>) -> (r: String)
    requires
        forall|i: int| 0 <= i < v@.len() ==> v@[i] < 128,
    ensures
        r@ == Seq::new(v@.len(), |i: int| v@[i] as char),
{
    match String::from_utf8(v) {
        Ok(s) => s,
        Err(_) => String::new(),
    }
}

} // verus!

verus! {

/// Alphabet characters are URL-safe; in particular none is a dot.
pub proof fn lemma_sextet_char_alphabet(d: nat)
    requires
        d < 64,
    ensures
        is_b64url_char(sextet_char(d)),
        sextet_char(d) != '.',
{
}

/// Distinct alphabet positions hold distinct characters.
pub proof fn lemma_sextet_char_injective(d1: nat, d2: nat)
    requires
        d1 < 64,
        d2 < 64,
        sextet_char(d1) == sextet_char(d2),
    ensures
        d1 == d2,
{
}


/// All six-bit groups drawn from bytes are below 64.
pub proof fn lemma_sextet_bounds(x: u8, y: u8, z: u8)
    ensures
        (x >> 2) < 64,
        ((x & 3) << 4) < 64,
        (((x & 3) << 4) | (y >> 4)) < 64,
        ((y & 15) << 2) < 64,
        (((y & 15) << 2) | (z >> 6)) < 64,
        (z & 63) < 64,
{
    assert((x >> 2) < 64 && ((x & 3) << 4) < 64 && (((x & 3) << 4) | (y >> 4)) < 64 && ((y & 15)
        << 2) < 64 && (((y & 15) << 2) | (z >> 6)) < 64 && (z & 63) < 64) by (bit_vector);
}

/// Every character of an encoding is in the URL-safe alphabet.
pub proof fn lemma_b64url_alphabet(b: Seq<u8>)
    ensures
        forall|i: int| 0 <= i < b64url_of(b).len() ==> is_b64url_char(#[trigger] b64url_of(b)[i])
            && b64url_of(b)[i] != '.',
    decreases b.len(),
{
    let s = b64url_of(b);
    if b.len() == 0 {
    } else if b.len() == 1 {
        lemma_sextet_bounds(b[0], 0, 0);
        assert forall|i: int| 0 <= i < s.len() implies is_b64url_char(#[trigger] s[i]) && s[i]
            != '.' by {
            lemma_sextet_char_alphabet((b[0] >> 2) as nat);
            lemma_sextet_char_alphabet(((b[0] & 3) << 4) as nat);
        }
    } else if b.len() == 2 {
        lemma_sextet_bounds(b[0], b[1], 0);
        assert forall|i: int| 0 <= i < s.len() implies is_b64url_char(#[trigger] s[i]) && s[i]
            != '.' by {
            lemma_sextet_char_alphabet((b[0] >> 2) as nat);
            lemma_sextet_char_alphabet((((b[0] & 3) << 4) | (b[1] >> 4)) as nat);
            lemma_sextet_char_alphabet(((b[1] & 15) << 2) as nat);
        }
    } else {
        lemma_b64url_alphabet(b.skip(3));
        lemma_sextet_bounds(b[0], b[1], b[2]);
        let t = b64url_of(b.skip(3));
        assert forall|i: int| 0 <= i < s.len() implies is_b64url_char(#[trigger] s[i]) && s[i]
            != '.' by {
            if i < 4 {
                lemma_sextet_char_alphabet((b[0] >> 2) as nat);
                lemma_sextet_char_alphabet((((b[0] & 3) << 4) | (b[1] >> 4)) as nat);
                lemma_sextet_char_alphabet((((b[1] & 15) << 2) | (b[2] >> 6)) as nat);
                lemma_sextet_char_alphabet((b[2] & 63) as nat);
            } else {
                assert(s[i] == t[i - 4]);
            }
        }
    }
}

/// Length of an encoding: four characters per three bytes, two or three for
/// a final partial group.
pub proof fn lemma_b64url_len(b: Seq<u8>)
    ensures
        b.len() % 3 == 0 ==> b64url_of(b).len() == 4 * (b.len() / 3),
        b.len() % 3 == 1 ==> b64url_of(b).len() == 4 * (b.len() / 3) + 2,
        b.len() % 3 == 2 ==> b64url_of(b).len() == 4 * (b.len() / 3) + 3,
        b.len() > 0 ==> b64url_of(b).len() > 0,
    decreases b.len(),
{
    if b.len() >= 3 {
        lemma_b64url_len(b.skip(3));
    }
}

/// No two byte sequences share an encoding.
pub proof fn lemma_b64url_injective(a: Seq<u8>, b: Seq<u8>)
    requires
        b64url_of(a) == b64url_of(b),
    ensures
        a == b,
    decreases a.len(),
{
    lemma_b64url_len(a);
    lemma_b64url_len(b);
    if a.len() == 0 {
        assert(b.len() == 0);
        assert(a =~= b);
    } else if a.len() == 1 {
        assert(b.len() == 1);
        lemma_sextet_bounds(a[0], 0, 0);
        lemma_sextet_bounds(b[0], 0, 0);
        lemma_sextet_char_injective((a[0] >> 2) as nat, (b[0] >> 2) as nat);
        lemma_sextet_char_injective(((a[0] & 3) << 4) as nat, ((b[0] & 3) << 4) as nat);
        let x = a[0];
        let y = b[0];
        assert(x == y) by (bit_vector)
            requires
                x >> 2 == y >> 2,
                (x & 3) << 4 == (y & 3) << 4,
        ;
        assert(a =~= b);
    } else if a.len() == 2 {
        assert(b.len() == 2);
        lemma_sextet_bounds(a[0], a[1], 0);
        lemma_sextet_bounds(b[0], b[1], 0);
        lemma_sextet_char_injective((a[0] >> 2) as nat, (b[0] >> 2) as nat);
        lemma_sextet_char_injective(
            (((a[0] & 3) << 4) | (a[1] >> 4)) as nat,
            (((b[0] & 3) << 4) | (b[1] >> 4)) as nat,
        );
        lemma_sextet_char_injective(((a[1] & 15) << 2) as nat, ((b[1] & 15) << 2) as nat);
        let x0 = a[0];
        let x1 = a[1];
        let y0 = b[0];
        let y1 = b[1];
        assert(x0 == y0 && x1 == y1) by (bit_vector)
            requires
                x0 >> 2 == y0 >> 2,
                ((x0 & 3) << 4) | (x1 >> 4) == ((y0 & 3) << 4) | (y1 >> 4),
                (x1 & 15) << 2 == (y1 & 15) << 2,
        ;
        assert(a =~= b);
    } else {
        assert(b.len() >= 3);
        let sa = b64url_of(a);
        let sb = b64url_of(b);
        let ta = b64url_of(a.skip(3));
        let tb = b64url_of(b.skip(3));
        lemma_sextet_bounds(a[0], a[1], a[2]);
        lemma_sextet_bounds(b[0], b[1], b[2]);
        assert(sa[0] == sb[0] && sa[1] == sb[1] && sa[2] == sb[2] && sa[3] == sb[3]);
        lemma_sextet_char_injective((a[0] >> 2) as nat, (b[0] >> 2) as nat);
        lemma_sextet_char_injective(
            (((a[0] & 3) << 4) | (a[1] >> 4)) as nat,
            (((b[0] & 3) << 4) | (b[1] >> 4)) as nat,
        );
        lemma_sextet_char_injective(
            (((a[1] & 15) << 2) | (a[2] >> 6)) as nat,
            (((b[1] & 15) << 2) | (b[2] >> 6)) as nat,
        );
        lemma_sextet_char_injective((a[2] & 63) as nat, (b[2] & 63) as nat);
        let x0 = a[0];
        let x1 = a[1];
        let x2 = a[2];
        let y0 = b[0];
        let y1 = b[1];
        let y2 = b[2];
        assert(x0 == y0 && x1 == y1 && x2 == y2) by (bit_vector)
            requires
                x0 >> 2 == y0 >> 2,
                ((x0 & 3) << 4) | (x1 >> 4) == ((y0 & 3) << 4) | (y1 >> 4),
                ((x1 & 15) << 2) | (x2 >> 6) == ((y1 & 15) << 2) | (y2 >> 6),
                x2 & 63 == y2 & 63,
        ;
        assert(ta =~= sa.skip(4));
        assert(tb =~= sb.skip(4));
        lemma_b64url_injective(a.skip(3), b.skip(3));
        assert(a.len() == b.len());
        assert forall|i: int| 0 <= i < a.len() implies a[i] == b[i] by {
            if i >= 3 {
                assert(a[i] == a.skip(3)[i - 3]);
                assert(b[i] == b.skip(3)[i - 3]);
            }
        }
        assert(a =~= b);
    }
}

} // verus!
