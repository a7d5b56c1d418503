//! Canonical ASCII numerals over byte sequences: decimal numerals for `u64`
//! values, fixed-width lowercase hexadecimal numerals, and the hyphenated
//! 8-4-4-4-12 hexadecimal form used for 128-bit identifiers.
//!
//! Every formatter has an exact specification, and every parser accepts
//! precisely the canonical spellings, so that formatting and parsing are
//! mutual inverses.

use vstd::prelude::*;

verus! {

/// 16^w.
pub open spec fn pow16(w: nat) -> nat
    decreases w,
{
    if w == 0 {
        1
    } else {
        16 * pow16((w - 1) as nat)
    }
}

/// 10^w.
pub open spec fn pow10(w: nat) -> nat
    decreases w,
{
    if w == 0 {
        1
    } else {
        10 * pow10((w - 1) as nat)
    }
}

pub open spec fn is_dec_digit(b: u8) -> bool {
    48 <= b <= 57
}

/// Lowercase hexadecimal digits: `0`-`9` and `a`-`f`.
pub open spec fn is_hex_digit(b: u8) -> bool {
    48 <= b <= 57 || 97 <= b <= 102
}

pub open spec fn dec_digit(d: nat) -> u8
    recommends
        d < 10,
{
    (d + 48) as u8
}

pub open spec fn hex_digit(d: nat) -> u8
    recommends
        d < 16,
{
    if d < 10 {
        (d + 48) as u8
    } else {
        (d + 87) as u8
    }
}

pub open spec fn hex_digit_value(b: u8) -> nat
    recommends
        is_hex_digit(b),
{
    if b <= 57 {
        (b - 48) as nat
    } else {
        (b - 87) as nat
    }
}

/// The decimal numeral of `n`, most significant digit first, no leading
/// zeros (the numeral of zero is the single digit `0`).
pub open spec fn decimal(n: nat) -> Seq<u8>
    decreases n,
{
    if n < 10 {
        seq![dec_digit(n)]
    } else {
        decimal(n / 10) + seq![dec_digit(n % 10)]
    }
}

/// The value of a sequence of decimal digits, most significant first.
pub open spec fn dec_value(s: Seq<u8>) -> nat
    decreases s.len(),
{
    if s.len() == 0 {
        0
    } else {
        (dec_value(s.drop_last()) * 10 + (s.last() - 48)) as nat
    }
}

/// The hexadecimal numeral of `n mod 16^w`, exactly `w` digits, most
/// significant first, zero-padded.
pub open spec fn hex_fixed(n: nat, w: nat) -> Seq<u8>
    decreases w,
{
    if w == 0 {
        Seq::empty()
    } else {
        hex_fixed(n / 16, (w - 1) as nat) + seq![hex_digit(n % 16)]
    }
}

/// The value of a sequence of hexadecimal digits, most significant first.
pub open spec fn hex_value(s: Seq<u8>) -> nat
    decreases s.len(),
{
    if s.len() == 0 {
        0
    } else {
        (hex_value(s.drop_last()) * 16 + hex_digit_value(s.last())) as nat
    }
}

/// The hyphenated 8-4-4-4-12 lowercase hexadecimal form of a 128-bit
/// identifier, 36 bytes in all.
pub open spec fn uuid_hyphenated(u: u128) -> Seq<u8> {
    let h = hex_fixed(u as nat, 32);
    h.subrange(0, 8) + seq![45u8] + h.subrange(8, 12) + seq![45u8] + h.subrange(12, 16)
        + seq![45u8] + h.subrange(16, 20) + seq![45u8] + h.subrange(20, 32)
}

pub proof fn lemma_hex_fixed_len(n: nat, w: nat)
    ensures
        hex_fixed(n, w).len() == w,
    decreases w,
{
    if w > 0 {
        lemma_hex_fixed_len(n / 16, (w - 1) as nat);
    }
}

/// Appends the decimal numeral of `n` to `v`.
pub fn push_decimal(v: &mut Vec<u8>, n: u64)
    ensures
        final(v)@ == old(v)@ + decimal(n as nat),
    decreases n,
{
    if n >= 10 {
        push_decimal(v, n / 10);
    }
    v.push((n % 10) as u8 + 48);
    proof {
        if n < 10 {
            assert(final(v)@ =~= old(v)@ + decimal(n as nat));
        } else {
            assert(final(v)@ =~= old(v)@ + decimal(n as nat));
        }
    }
}

/// Appends the `w`-digit hexadecimal numeral of `n mod 16^w` to `v`.
pub fn push_hex_fixed(v: &mut Vec<u8>, n: u128, w: usize)
    ensures
        final(v)@ == old(v)@ + hex_fixed(n as nat, w as nat),
    decreases w,
{
    if w > 0 {
        push_hex_fixed(v, n / 16, w - 1);
        let d = (n % 16) as u8;
        if d < 10 {
            v.push(d + 48);
        } else {
            v.push(d + 87);
        }
    }
    proof {
        assert(final(v)@ =~= old(v)@ + hex_fixed(n as nat, w as nat));
    }
}

/// Appends the hyphenated hexadecimal form of `u` to `v`.
pub fn push_uuid_hyphenated(v: &mut Vec<u8>, u: u128)
    ensures
        final(v)@ == old(v)@ + uuid_hyphenated(u),
{
    let mut h: Vec<u8> = Vec::new();
    push_hex_fixed(&mut h, u, 32);
    proof {
        lemma_hex_fixed_len(u as nat, 32);
    }
    let mut i: usize = 0;
    while i < 8
        invariant
            i <= 8,
            h@ == hex_fixed(u as nat, 32),
            h@.len() == 32,
            v@ == old(v)@ + h@.subrange(0, i as int),
        decreases 8 - i,
    {
        v.push(h[i]);
        i = i + 1;
        proof {
            assert(v@ =~= old(v)@ + h@.subrange(0, i as int));
        }
    }
    v.push(45);
    let mut j: usize = 8;
    while j < 12
        invariant
            8 <= j <= 12,
            h@ == hex_fixed(u as nat, 32),
            h@.len() == 32,
            v@ == old(v)@ + h@.subrange(0, 8) + seq![45u8] + h@.subrange(8, j as int),
        decreases 12 - j,
    {
        v.push(h[j]);
        j = j + 1;
        proof {
            assert(v@ =~= old(v)@ + h@.subrange(0, 8) + seq![45u8] + h@.subrange(8, j as int));
        }
    }
    v.push(45);
    let mut k: usize = 12;
    while k < 16
        invariant
            12 <= k <= 16,
            h@ == hex_fixed(u as nat, 32),
            h@.len() == 32,
            v@ == old(v)@ + h@.subrange(0, 8) + seq![45u8] + h@.subrange(8, 12) + seq![45u8]
                + h@.subrange(12, k as int),
        decreases 16 - k,
    {
        v.push(h[k]);
        k = k + 1;
        proof {
            assert(v@ =~= old(v)@ + h@.subrange(0, 8) + seq![45u8] + h@.subrange(8, 12)
                + seq![45u8] + h@.subrange(12, k as int));
        }
    }
    v.push(45);
    let mut l: usize = 16;
    while l < 20
        invariant
            16 <= l <= 20,
            h@ == hex_fixed(u as nat, 32),
            h@.len() == 32,
            v@ == old(v)@ + h@.subrange(0, 8) + seq![45u8] + h@.subrange(8, 12) + seq![45u8]
                + h@.subrange(12, 16) + seq![45u8] + h@.subrange(16, l as int),
        decreases 20 - l,
    {
        v.push(h[l]);
        l = l + 1;
        proof {
            assert(v@ =~= old(v)@ + h@.subrange(0, 8) + seq![45u8] + h@.subrange(8, 12)
                + seq![45u8] + h@.subrange(12, 16) + seq![45u8] + h@.subrange(16, l as int));
        }
    }
    v.push(45);
    let mut m: usize = 20;
    while m < 32
        invariant
            20 <= m <= 32,
            h@ == hex_fixed(u as nat, 32),
            h@.len() == 32,
            v@ == old(v)@ + h@.subrange(0, 8) + seq![45u8] + h@.subrange(8, 12) + seq![45u8]
                + h@.subrange(12, 16) + seq![45u8] + h@.subrange(16, 20) + seq![45u8]
                + h@.subrange(20, m as int),
        decreases 32 - m,
    {
        v.push(h[m]);
        m = m + 1;
        proof {
            assert(v@ =~= old(v)@ + h@.subrange(0, 8) + seq![45u8] + h@.subrange(8, 12)
                + seq![45u8] + h@.subrange(12, 16) + seq![45u8] + h@.subrange(16, 20)
                + seq![45u8] + h@.subrange(20, m as int));
        }
    }
    proof {
        assert(final(v)@ =~= old(v)@ + uuid_hyphenated(u));
    }
}

} // verus!

verus! {

/// Canonical decimal numerals: nonempty, all digits, no leading zero.
pub open spec fn canonical_dec(s: Seq<u8>) -> bool {
    &&& s.len() >= 1
    &&& forall|i: int| 0 <= i < s.len() ==> is_dec_digit(#[trigger] s[i])
    &&& (s[0] != 48 || s.len() == 1)
}

pub proof fn lemma_decimal_shape(n: nat)
    ensures
        decimal(n).len() >= 1,
        forall|i: int| 0 <= i < decimal(n).len() ==> is_dec_digit(#[trigger] decimal(n)[i]),
        n >= 1 ==> decimal(n)[0] != 48,
        n >= 10 ==> decimal(n).len() >= 2,
        canonical_dec(decimal(n)),
    decreases n,
{
    if n >= 10 {
        lemma_decimal_shape(n / 10);
    }
}

pub proof fn lemma_dec_value_decimal(n: nat)
    ensures
        dec_value(decimal(n)) == n,
    decreases n,
{
    if n < 10 {
        assert(decimal(n).drop_last() =~= Seq::<u8>::empty());
        assert(decimal(n).last() == dec_digit(n));
        assert(dec_value(decimal(n)) == dec_value(Seq::<u8>::empty()) * 10 + (dec_digit(n) - 48));
        assert(dec_value(decimal(n)) == n);
    } else {
        lemma_dec_value_decimal(n / 10);
        let s = decimal(n);
        assert(s.drop_last() =~= decimal(n / 10));
        assert(s.last() == dec_digit(n % 10));
        assert((dec_digit(n % 10) - 48) as nat == n % 10);
        assert(dec_value(s) == (n / 10) * 10 + n % 10);
        vstd::arithmetic::div_mod::lemma_fundamental_div_mod(n as int, 10);
        assert(dec_value(s) == n);
        assert(dec_value(decimal(n)) == n);
    }
}

pub proof fn lemma_decimal_len_bound(n: nat, w: nat)
    requires
        w >= 1,
        n < pow10(w),
    ensures
        decimal(n).len() <= w,
    decreases w,
{
    if n >= 10 {
        assert(w >= 2) by {
            if w == 1 {
                assert(pow10(1nat) == 10);
            }
        };
        assert(n / 10 < pow10((w - 1) as nat)) by (nonlinear_arith)
            requires
                n < pow10(w),
                pow10(w) == 10 * pow10((w - 1) as nat),
        ;
        lemma_decimal_len_bound(n / 10, (w - 1) as nat);
    }
}

pub proof fn lemma_dec_value_pos(s: Seq<u8>)
    requires
        s.len() >= 1,
        forall|i: int| 0 <= i < s.len() ==> is_dec_digit(#[trigger] s[i]),
        s[0] != 48,
    ensures
        dec_value(s) >= 1,
    decreases s.len(),
{
    if s.len() == 1 {
    } else {
        assert(s.drop_last()[0] == s[0]);
        lemma_dec_value_pos(s.drop_last());
    }
}

pub proof fn lemma_decimal_canonical(s: Seq<u8>)
    requires
        canonical_dec(s),
    ensures
        dec_value(s) < pow10(s.len()),
        decimal(dec_value(s)) == s,
    decreases s.len(),
{
    let d = (s.last() - 48) as nat;
    if s.len() == 1 {
        assert(s.drop_last() =~= Seq::<u8>::empty());
        assert(dec_value(Seq::<u8>::empty()) == 0);
        assert(dec_value(s) == d);
        assert(pow10(0) == 1);
        assert(pow10(1) == 10);
        assert(decimal(d) =~= s);
    } else {
        let t = s.drop_last();
        assert(t[0] == s[0]);
        assert(forall|i: int| 0 <= i < t.len() ==> is_dec_digit(#[trigger] t[i]));
        lemma_decimal_canonical(t);
        let v = dec_value(t);
        let n = dec_value(s);
        assert(n == v * 10 + d);
        assert(n < pow10(s.len())) by (nonlinear_arith)
            requires
                n == v * 10 + d,
                d < 10,
                v < pow10(t.len()),
                pow10(s.len()) == 10 * pow10(t.len()),
                t.len() == s.len() - 1,
        ;
        lemma_dec_value_pos(t);
        assert(n >= 10);
        vstd::arithmetic::div_mod::lemma_fundamental_div_mod_converse(
            n as int,
            10,
            v as int,
            d as int,
        );
        assert(n / 10 == v && n % 10 == d);
        assert(decimal(n) == decimal(v) + seq![dec_digit(d)]);
        assert(decimal(n) =~= s);
    }
}

pub proof fn lemma_hex_fixed_digits(n: nat, w: nat)
    ensures
        forall|i: int| 0 <= i < hex_fixed(n, w).len() ==> is_hex_digit(#[trigger] hex_fixed(n, w)[i]),
    decreases w,
{
    if w > 0 {
        lemma_hex_fixed_digits(n / 16, (w - 1) as nat);
        lemma_hex_fixed_len(n / 16, (w - 1) as nat);
        let t = hex_fixed(n / 16, (w - 1) as nat);
        assert forall|i: int| 0 <= i < hex_fixed(n, w).len() implies is_hex_digit(
            hex_fixed(n, w)[i],
        ) by {
            if i < t.len() {
                assert(hex_fixed(n, w)[i] == t[i]);
            } else {
                assert(hex_fixed(n, w)[i] == hex_digit(n % 16));
            }
        }
    }
}

pub proof fn lemma_hex_value_roundtrip(n: nat, w: nat)
    requires
        n < pow16(w),
    ensures
        hex_value(hex_fixed(n, w)) == n,
    decreases w,
{
    lemma_hex_fixed_len(n, w);
    if w == 0 {
    } else {
        assert(n / 16 < pow16((w - 1) as nat)) by (nonlinear_arith)
            requires
                n < pow16(w),
                pow16(w) == 16 * pow16((w - 1) as nat),
        ;
        lemma_hex_value_roundtrip(n / 16, (w - 1) as nat);
        let s = hex_fixed(n, w);
        assert(s.drop_last() =~= hex_fixed(n / 16, (w - 1) as nat));
        assert(hex_digit_value(hex_digit(n % 16)) == n % 16);
        assert(hex_value(s) == (n / 16) * 16 + n % 16);
    }
}

pub proof fn lemma_hex_fixed_canonical(s: Seq<u8>)
    requires
        forall|i: int| 0 <= i < s.len() ==> is_hex_digit(#[trigger] s[i]),
    ensures
        hex_value(s) < pow16(s.len()),
        hex_fixed(hex_value(s), s.len()) == s,
    decreases s.len(),
{
    if s.len() == 0 {
        assert(hex_fixed(0, 0) =~= s);
    } else {
        let t = s.drop_last();
        lemma_hex_fixed_canonical(t);
        let v = hex_value(t);
        let d = hex_digit_value(s.last());
        let n = hex_value(s);
        assert(n == v * 16 + d);
        assert(n < pow16(s.len())) by (nonlinear_arith)
            requires
                n == v * 16 + d,
                d < 16,
                v < pow16(t.len()),
                pow16(s.len()) == 16 * pow16(t.len()),
                t.len() == s.len() - 1,
        ;
        vstd::arithmetic::div_mod::lemma_fundamental_div_mod_converse(
            n as int,
            16,
            v as int,
            d as int,
        );
        assert(hex_digit(d) == s.last());
        assert(hex_fixed(n, s.len()) == hex_fixed(v, t.len()) + seq![hex_digit(d)]);
        assert(hex_fixed(n, s.len()) =~= s);
    }
}

pub proof fn lemma_pow16_32()
    ensures
        pow16(32) == 0x100000000000000000000000000000000,
{
    reveal_with_fuel(pow16, 33);
    assert(pow16(32) == 0x100000000000000000000000000000000);
}

pub proof fn lemma_pow10_20()
    ensures
        pow10(20) == 100000000000000000000,
{
    reveal_with_fuel(pow10, 21);
    assert(pow10(20) == 100000000000000000000);
}

} // verus!

verus! {

pub proof fn lemma_pow10_mono(a: nat, b: nat)
    requires
        a <= b,
    ensures
        pow10(a) <= pow10(b),
        pow10(a) >= 1,
    decreases b,
{
    if b > 0 {
        if a == b {
            lemma_pow10_mono((a - 1) as nat, (b - 1) as nat);
            assert(pow10(b) == 10 * pow10((b - 1) as nat));
        } else {
            lemma_pow10_mono(a, (b - 1) as nat);
        }
    }
}

pub proof fn lemma_pow16_mono(a: nat, b: nat)
    requires
        a <= b,
    ensures
        pow16(a) <= pow16(b),
        pow16(a) >= 1,
    decreases b,
{
    if b > 0 {
        if a == b {
            lemma_pow16_mono((a - 1) as nat, (b - 1) as nat);
            assert(pow16(b) == 16 * pow16((b - 1) as nat));
        } else {
            lemma_pow16_mono(a, (b - 1) as nat);
        }
    }
}

/// The number that a byte segment spells, when it is a canonical decimal
/// numeral whose value fits in a `u64`; `None` otherwise.
pub open spec fn parse_number_spec(s: Seq<u8>) -> Option<u64> {
    if canonical_dec(s) && s.len() <= 20 && dec_value(s) <= u64::MAX {
        Some(dec_value(s) as u64)
    } else {
        None
    }
}

/// Every `u64` decimal numeral parses back to the number itself.
pub proof fn lemma_parse_number_roundtrip(n: u64)
    ensures
        parse_number_spec(decimal(n as nat)) == Some(n),
{
    lemma_decimal_shape(n as nat);
    lemma_dec_value_decimal(n as nat);
    lemma_pow10_20();
    lemma_decimal_len_bound(n as nat, 20);
}

/// Parses `v[from..to]` as a canonical decimal numeral.
pub fn parse_number(v: &Vec<u8>, from: usize, to: usize) -> (r: Option<u64>)
    requires
        from <= to <= v@.len(),
    ensures
        r == parse_number_spec(v@.subrange(from as int, to as int)),
{
    let ghost s = v@.subrange(from as int, to as int);
    let len = to - from;
    if len == 0 || len > 20 {
        return None;
    }
    if v[from] == 48 && len > 1 {
        return None;
    }
    proof {
        lemma_pow10_20();
    }
    let mut i: usize = from;
    let mut val: u128 = 0;
    while i < to
        invariant
            from <= i <= to <= v@.len(),
            to - from <= 20,
            s == v@.subrange(from as int, to as int),
            forall|j: int| from <= j < i ==> is_dec_digit(#[trigger] v@[j]),
            val == dec_value(v@.subrange(from as int, i as int)),
            val < pow10((i - from) as nat),
            pow10(20) == 100000000000000000000,
        decreases to - i,
    {
        let b = v[i];
        if b < 48 || b > 57 {
            proof {
                assert(s[(i - from) as int] == v@[i as int]);
                assert(!canonical_dec(s));
            }
            return None;
        }
        proof {
            lemma_pow10_mono((i - from) as nat, 19);
            assert(pow10(19) * 10 == pow10(20));
        }
        val = val * 10 + ((b - 48) as u128);
        i = i + 1;
        proof {
            let t = v@.subrange(from as int, i as int);
            assert(t.drop_last() =~= v@.subrange(from as int, i - 1));
            assert(t.last() == v@[i - 1]);
            assert(pow10((i - from) as nat) == 10 * pow10((i - 1 - from) as nat));
        }
    }
    if val > 0xffffffffffffffff {
        proof {
            assert(s =~= v@.subrange(from as int, i as int));
        }
        return None;
    }
    proof {
        assert(s =~= v@.subrange(from as int, i as int));
        assert(forall|j: int| 0 <= j < s.len() ==> s[j] == v@[from + j]);
        assert(canonical_dec(s));
    }
    Some(val as u64)
}

/// The 32 hexadecimal digits of a hyphenated identifier, hyphens removed.
pub open spec fn uuid_digits(s: Seq<u8>) -> Seq<u8> {
    s.subrange(0, 8) + s.subrange(9, 13) + s.subrange(14, 18) + s.subrange(19, 23) + s.subrange(
        24,
        36,
    )
}

/// The identifier that a 36-byte segment spells, when it is a canonical
/// hyphenated lowercase hexadecimal form; `None` otherwise.
pub open spec fn parse_uuid_spec(s: Seq<u8>) -> Option<u128> {
    if s.len() == 36 && s[8] == 45 && s[13] == 45 && s[18] == 45 && s[23] == 45 && (forall|i: int|
        0 <= i < 36 && i != 8 && i != 13 && i != 18 && i != 23 ==> is_hex_digit(#[trigger] s[i])) {
        Some(hex_value(uuid_digits(s)) as u128)
    } else {
        None
    }
}

/// Every hyphenated identifier parses back to the identifier itself.
pub proof fn lemma_parse_uuid_roundtrip(u: u128)
    ensures
        parse_uuid_spec(uuid_hyphenated(u)) == Some(u),
{
    let h = hex_fixed(u as nat, 32);
    let s = uuid_hyphenated(u);
    lemma_hex_fixed_len(u as nat, 32);
    lemma_hex_fixed_digits(u as nat, 32);
    assert(s.len() == 36);
    assert(s[8] == 45 && s[13] == 45 && s[18] == 45 && s[23] == 45);
    assert forall|i: int| 0 <= i < 36 && i != 8 && i != 13 && i != 18 && i != 23 implies
        is_hex_digit(s[i]) by {
        if i < 8 {
            assert(s[i] == h[i]);
        } else if i < 13 {
            assert(s[i] == h[i - 1]);
        } else if i < 18 {
            assert(s[i] == h[i - 2]);
        } else if i < 23 {
            assert(s[i] == h[i - 3]);
        } else {
            assert(s[i] == h[i - 4]);
        }
    }
    assert(uuid_digits(s) =~= h);
    lemma_pow16_32();
    lemma_hex_value_roundtrip(u as nat, 32);
}

/// Parses the 36 bytes of `v` starting at `from` as a hyphenated identifier.
pub fn parse_uuid(v: &Vec<u8>, from: usize) -> (r: Option<u128>)
    requires
        from + 36 <= v@.len(),
    ensures
        r == parse_uuid_spec(v@.subrange(from as int, from + 36)),
{
    let ghost s = v@.subrange(from as int, from + 36);
    let vlen = v.len();
    if v[from + 8] != 45 || v[from + 13] != 45 || v[from + 18] != 45 || v[from + 23] != 45 {
        return None;
    }
    let mut digits: Vec<u8> = Vec::new();
    let mut i: usize = 0;
    while i < 36
        invariant
            i <= 36,
            from + 36 <= v@.len(),
            vlen == v@.len(),
            s == v@.subrange(from as int, from + 36),
            forall|j: int| 0 <= j < i && j != 8 && j != 13 && j != 18 && j != 23 ==> is_hex_digit(
                #[trigger] s[j],
            ),
            digits@ =~= uuid_digits_prefix(s, i as int),
        decreases 36 - i,
    {
        if i == 8 || i == 13 || i == 18 || i == 23 {
            i = i + 1;
            proof {
                assert(digits@ =~= uuid_digits_prefix(s, i as int));
            }
            continue ;
        }
        let b = v[from + i];
        proof {
            assert(s[i as int] == v@[from + i]);
        }
        if !(48 <= b && b <= 57 || 97 <= b && b <= 102) {
            return None;
        }
        digits.push(b);
        i = i + 1;
        proof {
            assert(digits@ =~= uuid_digits_prefix(s, i as int));
        }
    }
    proof {
        assert(digits@ =~= uuid_digits(s));
        lemma_pow16_32();
    }
    let mut val: u128 = 0;
    let mut j: usize = 0;
    while j < 32
        invariant
            j <= 32,
            digits@.len() == 32,
            forall|k: int| 0 <= k < 32 ==> is_hex_digit(#[trigger] digits@[k]),
            val == hex_value(digits@.subrange(0, j as int)),
            val < pow16(j as nat),
            pow16(32) == 0x100000000000000000000000000000000,
        decreases 32 - j,
    {
        let b = digits[j];
        let d: u128 = if b <= 57 {
            (b - 48) as u128
        } else {
            (b - 87) as u128
        };
        proof {
            lemma_pow16_mono(j as nat, 31);
            assert(pow16(31) * 16 == pow16(32));
        }
        val = val * 16 + d;
        j = j + 1;
        proof {
            let t = digits@.subrange(0, j as int);
            assert(t.drop_last() =~= digits@.subrange(0, j - 1));
            assert(t.last() == digits@[j - 1]);
            assert(pow16(j as nat) == 16 * pow16((j - 1) as nat));
        }
    }
    proof {
        assert(digits@.subrange(0, 32) =~= digits@);
    }
    Some(val)
}

/// The non-hyphen bytes among the first `i` bytes of a 36-byte segment.
pub open spec fn uuid_digits_prefix(s: Seq<u8>, i: int) -> Seq<u8> {
    if i <= 8 {
        s.subrange(0, i)
    } else if i <= 13 {
        s.subrange(0, 8) + s.subrange(9, if i < 9 { 9 } else { i })
    } else if i <= 18 {
        s.subrange(0, 8) + s.subrange(9, 13) + s.subrange(14, if i < 14 { 14 } else { i })
    } else if i <= 23 {
        s.subrange(0, 8) + s.subrange(9, 13) + s.subrange(14, 18) + s.subrange(
            19,
            if i < 19 { 19 } else { i },
        )
    } else {
        s.subrange(0, 8) + s.subrange(9, 13) + s.subrange(14, 18) + s.subrange(19, 23)
            + s.subrange(24, if i < 24 { 24 } else { i })
    }
}

} // verus!

verus! {

/// A segment that parses as a number is that number's decimal numeral.
pub proof fn lemma_parse_number_canonical(s: Seq<u8>)
    requires
        parse_number_spec(s) is Some,
    ensures
        decimal(parse_number_spec(s).unwrap() as nat) == s,
{
    lemma_decimal_canonical(s);
}

/// A segment that parses as an identifier is that identifier's hyphenated form.
pub proof fn lemma_parse_uuid_canonical(s: Seq<u8>)
    requires
        parse_uuid_spec(s) is Some,
    ensures
        s.len() == 36,
        uuid_hyphenated(parse_uuid_spec(s).unwrap()) == s,
{
    let h = uuid_digits(s);
    assert forall|j: int| 0 <= j < 32 implies is_hex_digit(h[j]) by {
        if j < 8 {
            assert(h[j] == s[j]);
        } else if j < 12 {
            assert(h[j] == s[j + 1]);
        } else if j < 16 {
            assert(h[j] == s[j + 2]);
        } else if j < 20 {
            assert(h[j] == s[j + 3]);
        } else {
            assert(h[j] == s[j + 4]);
        }
    }
    lemma_hex_fixed_canonical(h);
    lemma_pow16_32();
    let u = parse_uuid_spec(s).unwrap();
    assert(hex_value(h) < 0x100000000000000000000000000000000);
    assert(u as nat == hex_value(h));
    assert(hex_fixed(u as nat, 32) == h);
    assert(uuid_hyphenated(u) =~= s);
}

} // verus!
