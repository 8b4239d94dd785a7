//! Field encodings of the installer's state documents: lowercase hex for
//! bytes and text, octal for modes, and 64-digit hex for digests.

use crate::digest::Sha256Digest;
use crate::text::{digit_char, spec_decimal, spec_digits};
use vstd::prelude::*;
use vstd::utf8::*;

verus! {

// ---------------------------------------------------------------------------
// Hex digits
// ---------------------------------------------------------------------------

/// The lowercase hex digit for `d` (less than 16).
pub open spec fn hex_char(d: int) -> char {
    if d < 10 {
        digit_char(d)
    } else if d == 10 {
        'a'
    } else if d == 11 {
        'b'
    } else if d == 12 {
        'c'
    } else if d == 13 {
        'd'
    } else if d == 14 {
        'e'
    } else {
        'f'
    }
}

pub open spec fn is_lower_hex(c: char) -> bool {
    ('0' <= c && c <= '9') || ('a' <= c && c <= 'f')
}

pub open spec fn lower_hex_value(c: char) -> int {
    if '0' <= c && c <= '9' {
        c as int - '0' as int
    } else {
        c as int - 'a' as int + 10
    }
}

pub proof fn lemma_hex_char(d: int)
    requires
        0 <= d < 16,
    ensures
        is_lower_hex(hex_char(d)),
        lower_hex_value(hex_char(d)) == d,
{
}

pub(crate) fn hex_char_exec(d: u8) -> (c: char)
    requires
        d < 16,
    ensures
        c == hex_char(d as int),
{
    match d {
        0 => '0',
        1 => '1',
        2 => '2',
        3 => '3',
        4 => '4',
        5 => '5',
        6 => '6',
        7 => '7',
        8 => '8',
        9 => '9',
        10 => 'a',
        11 => 'b',
        12 => 'c',
        13 => 'd',
        14 => 'e',
        _ => 'f',
    }
}

fn lower_hex_value_exec(c: char) -> (r: Option<u8>)
    ensures
        r is Some <==> is_lower_hex(c),
        r matches Some(v) ==> v == lower_hex_value(c) && v < 16,
{
    if '0' <= c && c <= '9' {
        Some((c as u32 - '0' as u32) as u8)
    } else if 'a' <= c && c <= 'f' {
        Some((c as u32 - 'a' as u32 + 10) as u8)
    } else {
        None
    }
}

// ---------------------------------------------------------------------------
// Bytes as hex
// ---------------------------------------------------------------------------

/// Two lowercase hex digits per byte, high digit first.
pub open spec fn spec_encode_hex(b: Seq<u8>) -> Seq<char> {
    Seq::new(
        2 * b.len(),
        |j: int|
            if j % 2 == 0 {
                hex_char(b[j / 2] as int / 16)
            } else {
                hex_char(b[j / 2] as int % 16)
            },
    )
}

/// The bytes of an even number of lowercase hex digits.
pub open spec fn spec_decode_hex(s: Seq<char>) -> Option<Seq<u8>> {
    if (forall|j: int| 0 <= j < s.len() ==> is_lower_hex(#[trigger] s[j])) && s.len() % 2 == 0 {
        Some(
            Seq::new(
                (s.len() / 2) as nat,
                |k: int| (16 * lower_hex_value(s[2 * k]) + lower_hex_value(s[2 * k + 1])) as u8,
            ),
        )
    } else {
        None
    }
}

/// Decoding undoes encoding.
pub proof fn lemma_decode_encode_hex(b: Seq<u8>)
    ensures
        spec_decode_hex(spec_encode_hex(b)) == Some(b),
{
    let s = spec_encode_hex(b);
    assert forall|j: int| 0 <= j < s.len() implies is_lower_hex(#[trigger] s[j]) by {
        let x = b[j / 2];
        if j % 2 == 0 {
            lemma_hex_char(x as int / 16);
        } else {
            lemma_hex_char(x as int % 16);
        }
    }
    assert(s.len() % 2 == 0);
    let d = spec_decode_hex(s)->0;
    assert(d.len() == b.len());
    assert forall|k: int| 0 <= k < b.len() implies d[k] == b[k] by {
        let x = b[k];
        assert((2 * k) % 2 == 0 && (2 * k) / 2 == k);
        assert((2 * k + 1) % 2 == 1 && (2 * k + 1) / 2 == k);
        lemma_hex_char(x as int / 16);
        lemma_hex_char(x as int % 16);
        assert(16 * (x / 16) + x % 16 == x);
    }
    assert(d =~= b);
}

/// `bytes` as lowercase hex.
pub fn encode_hex(bytes: &[u8]) -> (s: String)
    ensures
        s@ == spec_encode_hex(bytes@),
{
    let mut v: Vec<char> = Vec::new();
    let mut i: usize = 0;
    while i < bytes.len()
        invariant
            i <= bytes.len(),
            v@.len() == 2 * i,
            forall|j: int| 0 <= j < 2 * i ==> #[trigger] v@[j] == spec_encode_hex(bytes@)[j],
        decreases bytes.len() - i,
    {
        let x = bytes[i];
        v.push(hex_char_exec(x / 16));
        v.push(hex_char_exec(x % 16));
        proof {
            assert((2 * i as int) % 2 == 0 && (2 * i as int) / 2 == i);
            assert((2 * i as int + 1) % 2 == 1 && (2 * i as int + 1) / 2 == i);
        }
        i = i + 1;
    }
    assert(v@ =~= spec_encode_hex(bytes@));
    crate::text::string_from_chars(v.as_slice())
}

/// The bytes that `s` encodes as lowercase hex.
pub fn decode_hex(s: &str) -> (r: Option<Vec<u8>>)
    ensures
        r is Some <==> spec_decode_hex(s@) is Some,
        r matches Some(b) ==> b@ == spec_decode_hex(s@)->0,
{
    let v = crate::text::chars_of(s);
    let mut i: usize = 0;
    while i < v.len()
        invariant
            i <= v.len(),
            v@ == s@,
            forall|j: int| 0 <= j < i ==> is_lower_hex(#[trigger] v@[j]),
        decreases v.len() - i,
    {
        if lower_hex_value_exec(v[i]).is_none() {
            return None;
        }
        i = i + 1;
    }
    if v.len() % 2 != 0 {
        return None;
    }
    let mut out: Vec<u8> = Vec::new();
    let mut k: usize = 0;
    while k < v.len() / 2
        invariant
            k <= v.len() / 2,
            v.len() % 2 == 0,
            v@ == s@,
            forall|j: int| 0 <= j < v.len() ==> is_lower_hex(#[trigger] v@[j]),
            out@.len() == k,
            forall|m: int|
                0 <= m < k ==> #[trigger] out@[m] == (16 * lower_hex_value(v@[2 * m])
                    + lower_hex_value(v@[2 * m + 1])) as u8,
        decreases v.len() / 2 - k,
    {
        let hi = lower_hex_value_exec(v[2 * k]).unwrap();
        let lo = lower_hex_value_exec(v[2 * k + 1]).unwrap();
        out.push(16 * hi + lo);
        k = k + 1;
    }
    assert(out@ =~= spec_decode_hex(s@)->0);
    Some(out)
}

/// The text whose UTF-8 bytes `s` encodes.
pub open spec fn spec_decode_text(s: Seq<char>) -> Option<Seq<char>> {
    match spec_decode_hex(s) {
        Some(b) => if valid_utf8(b) {
            Some(decode_utf8(b))
        } else {
            None
        },
        None => None,
    }
}

/// Text decoding undoes the encoding of its UTF-8 bytes.
pub proof fn lemma_decode_encode_text(t: Seq<char>)
    ensures
        spec_decode_text(spec_encode_hex(encode_utf8(t))) == Some(t),
{
    lemma_decode_encode_hex(encode_utf8(t));
    crate::text::lemma_decode_encode(t);
}

/// `text` as the lowercase hex of its UTF-8 bytes.
pub fn encode_text(text: &str) -> (s: String)
    ensures
        s@ == spec_encode_hex(encode_utf8(text@)),
{
    let b = crate::text::str_bytes(text);
    encode_hex(b.as_slice())
}

/// The text that `s` encodes.
pub fn decode_text(s: &str) -> (r: Option<String>)
    ensures
        r is Some <==> spec_decode_text(s@) is Some,
        r matches Some(t) ==> t@ == spec_decode_text(s@)->0,
{
    let b = decode_hex(s)?;
    let t = crate::text::utf8_to_str(b.as_slice())?;
    Some(String::from_str(t))
}

// ---------------------------------------------------------------------------
// Octal modes, as `{:o}` writes and `u32::from_str_radix(_, 8)` reads them
// ---------------------------------------------------------------------------

/// The mode in octal without leading zeros.
pub open spec fn spec_octal(m: u32) -> Seq<char> {
    spec_digits(m as nat, 8)
}

pub open spec fn is_octal_digit(c: char) -> bool {
    '0' <= c && c <= '7'
}

/// The value of octal digits.
pub open spec fn octal_value(s: Seq<char>) -> int
    decreases s.len(),
{
    if s.len() == 0 {
        0
    } else {
        octal_value(s.drop_last()) * 8 + (s.last() as int - '0' as int)
    }
}

/// `s` without one leading `+`.
pub open spec fn unsigned_digits(s: Seq<char>) -> Seq<char> {
    if s.len() > 0 && s[0] == '+' {
        s.drop_first()
    } else {
        s
    }
}

pub open spec fn all_octal(d: Seq<char>) -> bool {
    forall|j: int| 0 <= j < d.len() ==> is_octal_digit(#[trigger] d[j])
}

/// What `u32::from_str_radix(s, 8)` returns: nonempty octal digits after
/// at most one `+`, of a value that fits 32 bits.
pub open spec fn spec_parse_octal(s: Seq<char>) -> Option<u32> {
    let d = unsigned_digits(s);
    if d.len() > 0 && all_octal(d) && octal_value(d) <= u32::MAX {
        Some(octal_value(d) as u32)
    } else {
        None
    }
}

proof fn lemma_digit_char_value(d: int)
    requires
        0 <= d < 10,
    ensures
        digit_char(d) as int == '0' as int + d,
{
    if d == 0 {
    } else if d == 1 {
    } else if d == 2 {
    } else if d == 3 {
    } else if d == 4 {
    } else if d == 5 {
    } else if d == 6 {
    } else if d == 7 {
    } else if d == 8 {
    } else {
    }
}

pub proof fn lemma_digits_octal(n: nat)
    ensures
        spec_digits(n, 8).len() > 0,
        all_octal(spec_digits(n, 8)),
        octal_value(spec_digits(n, 8)) == n,
        spec_digits(n, 8)[0] != '+',
    decreases n,
{
    let s = spec_digits(n, 8);
    if n < 8 {
        assert(s == seq![digit_char(n as int)]);
        assert(s.drop_last() =~= Seq::<char>::empty());
        assert(octal_value(s.drop_last()) == 0);
        lemma_digit_char_value(n as int);
    } else {
        lemma_digit_char_value((n % 8) as int);
        assert(n / 8 < n) by (nonlinear_arith)
            requires
                n >= 8,
        ;
        lemma_digits_octal(n / 8);
        let p = spec_digits(n / 8, 8);
        assert(s == p.push(digit_char((n % 8) as int)));
        assert(s.drop_last() =~= p);
        assert forall|j: int| 0 <= j < s.len() implies is_octal_digit(#[trigger] s[j]) by {
            if j < p.len() {
                assert(s[j] == p[j]);
            }
        }
        assert(s[0] == p[0]);
        assert(n / 8 * 8 + n % 8 == n) by (nonlinear_arith);
    }
}

/// Parsing undoes formatting.
pub proof fn lemma_parse_octal(m: u32)
    ensures
        spec_parse_octal(spec_octal(m)) == Some(m),
{
    lemma_digits_octal(m as nat);
}

fn push_octal_digits(out: &mut Vec<char>, n: u32)
    ensures
        final(out)@ == old(out)@ + spec_digits(n as nat, 8),
    decreases n,
{
    if n >= 8 {
        push_octal_digits(out, n / 8);
    }
    let d = (n % 8) as u8;
    out.push(hex_char_exec(d));
    proof {
        if n >= 8 {
            assert(spec_digits(n as nat, 8) == spec_digits((n / 8) as nat, 8).push(
                digit_char((n % 8) as int),
            ));
        } else {
            vstd::arithmetic::div_mod::lemma_small_mod(n as nat, 8);
        }
    }
}

/// `m` in octal.
pub fn octal(m: u32) -> (s: String)
    ensures
        s@ == spec_octal(m),
{
    let mut v: Vec<char> = Vec::new();
    push_octal_digits(&mut v, m);
    assert(v@ =~= spec_octal(m));
    crate::text::string_from_chars(v.as_slice())
}

/// Reads `s` as `u32::from_str_radix(s, 8)` does.
pub fn parse_octal(s: &str) -> (r: Option<u32>)
    ensures
        r == spec_parse_octal(s@),
{
    let v = crate::text::chars_of(s);
    let start: usize = if v.len() > 0 && v[0] == '+' {
        1
    } else {
        0
    };
    let ghost d = unsigned_digits(s@);
    assert(v@.skip(start as int) =~= d);
    if v.len() == start {
        return None;
    }
    let mut acc: u64 = 0;
    let mut i: usize = start;
    while i < v.len()
        invariant
            start <= i <= v.len(),
            v@ == s@,
            d == v@.skip(start as int),
            d == unsigned_digits(s@),
            forall|j: int| start <= j < i ==> is_octal_digit(#[trigger] v@[j]),
            acc == octal_value(v@.subrange(start as int, i as int)),
            acc <= u32::MAX,
        decreases v.len() - i,
    {
        let c = v[i];
        if !('0' <= c && c <= '7') {
            assert(d[i - start] == c);
            assert(!is_octal_digit(d[i - start]));
            assert(!all_octal(d));
            return None;
        }
        proof {
            assert(v@.subrange(start as int, i + 1).drop_last() =~= v@.subrange(start as int, i as int));
        }
        let digit = (c as u32 - '0' as u32) as u64;
        let next = acc * 8 + digit;
        if next > u32::MAX as u64 {
            proof {
                assert(d.take(i + 1 - start) =~= v@.subrange(start as int, i + 1));
                if all_octal(d) {
                    lemma_octal_prefix_bound(d, (i + 1 - start) as int);
                }
            }
            return None;
        }
        acc = next;
        i = i + 1;
    }
    assert(v@.subrange(start as int, i as int) =~= d);
    Some(acc as u32)
}

proof fn lemma_octal_prefix_bound(d: Seq<char>, k: int)
    requires
        0 <= k <= d.len(),
        forall|j: int| 0 <= j < d.len() ==> is_octal_digit(#[trigger] d[j]),
    ensures
        octal_value(d.take(k)) <= octal_value(d),
    decreases d.len() - k,
{
    if k < d.len() {
        lemma_octal_prefix_bound(d, k + 1);
        assert(d.take(k + 1).drop_last() =~= d.take(k));
        lemma_octal_nonneg(d.take(k));
        assert(is_octal_digit(d[k]));
        assert(d.take(k + 1).last() == d[k]);
        assert(octal_value(d.take(k)) * 8 >= octal_value(d.take(k))) by (nonlinear_arith)
            requires
                octal_value(d.take(k)) >= 0,
        ;
    } else {
        assert(d.take(k) =~= d);
    }
}

proof fn lemma_octal_nonneg(d: Seq<char>)
    requires
        forall|j: int| 0 <= j < d.len() ==> is_octal_digit(#[trigger] d[j]),
    ensures
        octal_value(d) >= 0,
    decreases d.len(),
{
    if d.len() > 0 {
        let p = d.drop_last();
        assert forall|j: int| 0 <= j < p.len() implies is_octal_digit(#[trigger] p[j]) by {
            assert(p[j] == d[j]);
        }
        lemma_octal_nonneg(p);
        assert(is_octal_digit(d[d.len() - 1]));
    }
}


// ---------------------------------------------------------------------------
// Digests as 64 lowercase hex digits
// ---------------------------------------------------------------------------

/// The last `n` hex digits of `w`, most significant first.
pub open spec fn word_hex(w: int, n: nat) -> Seq<char>
    decreases n,
{
    if n == 0 {
        Seq::empty()
    } else {
        word_hex(w / 16, (n - 1) as nat).push(hex_char(w % 16))
    }
}

/// The value of lowercase hex digits.
pub open spec fn hex_text_value(s: Seq<char>) -> int
    decreases s.len(),
{
    if s.len() == 0 {
        0
    } else {
        hex_text_value(s.drop_last()) * 16 + lower_hex_value(s.last())
    }
}

/// The digest's 32 bytes in lowercase hex, as it is displayed.
pub open spec fn spec_digest_hex(d: Sha256Digest) -> Seq<char> {
    word_hex(d.w0 as int, 16) + word_hex(d.w1 as int, 16) + word_hex(d.w2 as int, 16) + word_hex(
        d.w3 as int,
        16,
    )
}

pub open spec fn all_lower_hex(s: Seq<char>) -> bool {
    forall|j: int| 0 <= j < s.len() ==> is_lower_hex(#[trigger] s[j])
}

/// The digest that 64 lowercase hex digits spell.
pub open spec fn spec_digest_from_hex(s: Seq<char>) -> Option<Sha256Digest> {
    if s.len() == 64 && all_lower_hex(s) {
        Some(
            Sha256Digest {
                w0: hex_text_value(s.subrange(0, 16)) as u64,
                w1: hex_text_value(s.subrange(16, 32)) as u64,
                w2: hex_text_value(s.subrange(32, 48)) as u64,
                w3: hex_text_value(s.subrange(48, 64)) as u64,
            },
        )
    } else {
        None
    }
}

proof fn lemma_word_hex(w: int, n: nat)
    requires
        w >= 0,
    ensures
        word_hex(w, n).len() == n,
        all_lower_hex(word_hex(w, n)),
        hex_text_value(word_hex(w, n)) == w % crate::newc::pow16(n),
    decreases n,
{
    if n > 0 {
        let p = crate::newc::pow16((n - 1) as nat);
        assert(w / 16 >= 0) by (nonlinear_arith)
            requires
                w >= 0,
        ;
        lemma_word_hex(w / 16, (n - 1) as nat);
        let s = word_hex(w, n);
        let q = word_hex(w / 16, (n - 1) as nat);
        assert(s.drop_last() =~= q);
        lemma_hex_char(w % 16);
        assert forall|j: int| 0 <= j < s.len() implies is_lower_hex(#[trigger] s[j]) by {
            if j < q.len() {
                assert(s[j] == q[j]);
            }
        }
        lemma_pow16_pos((n - 1) as nat);
        vstd::arithmetic::div_mod::lemma_mod_breakdown(w, 16, p);
        assert(crate::newc::pow16(n) == 16 * p);
    }
}

proof fn lemma_pow16_pos(n: nat)
    ensures
        crate::newc::pow16(n) > 0,
    decreases n,
{
    if n > 0 {
        lemma_pow16_pos((n - 1) as nat);
    }
}

proof fn lemma_word_hex_u64(w: u64)
    ensures
        word_hex(w as int, 16).len() == 16,
        all_lower_hex(word_hex(w as int, 16)),
        hex_text_value(word_hex(w as int, 16)) == w,
{
    lemma_word_hex(w as int, 16);
    assert(crate::newc::pow16(16) == 0x1_0000_0000_0000_0000) by {
        reveal_with_fuel(crate::newc::pow16, 17);
    }
    vstd::arithmetic::div_mod::lemma_small_mod(w as nat, 0x1_0000_0000_0000_0000);
}

/// Reading a displayed digest gives the digest back.
pub proof fn lemma_digest_hex_roundtrip(d: Sha256Digest)
    ensures
        spec_digest_from_hex(spec_digest_hex(d)) == Some(d),
{
    lemma_word_hex_u64(d.w0);
    lemma_word_hex_u64(d.w1);
    lemma_word_hex_u64(d.w2);
    lemma_word_hex_u64(d.w3);
    let s = spec_digest_hex(d);
    let a = word_hex(d.w0 as int, 16);
    let b = word_hex(d.w1 as int, 16);
    let c = word_hex(d.w2 as int, 16);
    let e = word_hex(d.w3 as int, 16);
    assert(s.subrange(0, 16) =~= a);
    assert(s.subrange(16, 32) =~= b);
    assert(s.subrange(32, 48) =~= c);
    assert(s.subrange(48, 64) =~= e);
    assert forall|j: int| 0 <= j < s.len() implies is_lower_hex(#[trigger] s[j]) by {
        if j < 16 {
            assert(s[j] == a[j]);
        } else if j < 32 {
            assert(s[j] == b[j - 16]);
        } else if j < 48 {
            assert(s[j] == c[j - 32]);
        } else {
            assert(s[j] == e[j - 48]);
        }
    }
}

fn push_word_hex(out: &mut Vec<char>, w: u64, n: u32)
    requires
        n <= 16,
    ensures
        final(out)@ == old(out)@ + word_hex(w as int, n as nat),
    decreases n,
{
    if n > 0 {
        push_word_hex(out, w / 16, n - 1);
        out.push(hex_char_exec((w % 16) as u8));
    }
}

/// The digest in lowercase hex.
pub fn digest_hex(d: Sha256Digest) -> (s: String)
    ensures
        s@ == spec_digest_hex(d),
{
    let mut v: Vec<char> = Vec::new();
    push_word_hex(&mut v, d.w0, 16);
    push_word_hex(&mut v, d.w1, 16);
    push_word_hex(&mut v, d.w2, 16);
    push_word_hex(&mut v, d.w3, 16);
    assert(v@ =~= spec_digest_hex(d));
    crate::text::string_from_chars(v.as_slice())
}

fn hex_word_at(v: &Vec<char>, start: usize) -> (w: u64)
    requires
        start + 16 <= v.len(),
        all_lower_hex(v@),
    ensures
        w == hex_text_value(v@.subrange(start as int, start + 16)),
{
    let mut acc: u64 = 0;
    let mut k: usize = start;
    while k < start + 16
        invariant
            start <= k <= start + 16,
            start + 16 <= v.len(),
            all_lower_hex(v@),
            acc == hex_text_value(v@.subrange(start as int, k as int)),
            acc < crate::newc::pow16((k - start) as nat),
        decreases start + 16 - k,
    {
        let d = lower_hex_value_exec(v[k]).unwrap();
        proof {
            assert(is_lower_hex(v@[k as int]));
            assert(v@.subrange(start as int, k + 1).drop_last() =~= v@.subrange(start as int, k as int));
            assert(crate::newc::pow16((k + 1 - start) as nat) == 16 * crate::newc::pow16((k - start) as nat));
            assert(crate::newc::pow16(16) == 0x1_0000_0000_0000_0000) by {
                reveal_with_fuel(crate::newc::pow16, 17);
            }
            lemma_pow16_le((k + 1 - start) as nat, 16);
        }
        acc = acc * 16 + d as u64;
        k = k + 1;
    }
    acc
}

proof fn lemma_pow16_le(a: nat, b: nat)
    requires
        a <= b,
    ensures
        crate::newc::pow16(a) <= crate::newc::pow16(b),
    decreases b,
{
    if a < b {
        lemma_pow16_le(a, (b - 1) as nat);
        lemma_pow16_pos((b - 1) as nat);
    }
}

/// The digest that `s` spells in lowercase hex.
pub fn digest_from_hex(s: &str) -> (r: Option<Sha256Digest>)
    ensures
        r == spec_digest_from_hex(s@),
{
    let v = crate::text::chars_of(s);
    if v.len() != 64 {
        return None;
    }
    let mut i: usize = 0;
    while i < 64
        invariant
            i <= 64,
            v.len() == 64,
            v@ == s@,
            forall|j: int| 0 <= j < i ==> is_lower_hex(#[trigger] v@[j]),
        decreases 64 - i,
    {
        if lower_hex_value_exec(v[i]).is_none() {
            assert(!all_lower_hex(s@)) by {
                assert(!is_lower_hex(s@[i as int]));
            }
            return None;
        }
        i = i + 1;
    }
    Some(
        Sha256Digest {
            w0: hex_word_at(&v, 0),
            w1: hex_word_at(&v, 16),
            w2: hex_word_at(&v, 32),
            w3: hex_word_at(&v, 48),
        },
    )
}

// ---------------------------------------------------------------------------
// Canonical decimal versions, as `u16::from_str` reads them and `to_string`
// writes them back unchanged
// ---------------------------------------------------------------------------

pub open spec fn is_decimal_digit(c: char) -> bool {
    '0' <= c && c <= '9'
}

/// The value of decimal digits.
pub open spec fn decimal_value(s: Seq<char>) -> int
    decreases s.len(),
{
    if s.len() == 0 {
        0
    } else {
        decimal_value(s.drop_last()) * 10 + (s.last() as int - '0' as int)
    }
}

/// A version recorded canonically: nonempty decimal digits without a
/// leading zero (but `0` itself), of a value that fits 16 bits.
pub open spec fn spec_parse_version(s: Seq<char>) -> Option<u16> {
    if s.len() > 0 && (forall|j: int| 0 <= j < s.len() ==> is_decimal_digit(#[trigger] s[j])) && (
    s.len() == 1 || s[0] != '0') && decimal_value(s) <= u16::MAX {
        Some(decimal_value(s) as u16)
    } else {
        None
    }
}

pub proof fn lemma_digits_decimal(n: nat)
    ensures
        spec_digits(n, 10).len() > 0,
        forall|j: int|
            0 <= j < spec_digits(n, 10).len() ==> is_decimal_digit(#[trigger] spec_digits(n, 10)[j]),
        decimal_value(spec_digits(n, 10)) == n,
        n >= 1 ==> spec_digits(n, 10)[0] != '0',
    decreases n,
{
    let s = spec_digits(n, 10);
    if n < 10 {
        assert(s == seq![digit_char(n as int)]);
        assert(s.drop_last() =~= Seq::<char>::empty());
        assert(decimal_value(s.drop_last()) == 0);
        lemma_digit_char_value(n as int);
        assert(decimal_value(s) == decimal_value(s.drop_last()) * 10 + (s.last() as int - '0' as int));
    } else {
        lemma_digit_char_value((n % 10) as int);
        assert(n / 10 < n) by (nonlinear_arith)
            requires
                n >= 10,
        ;
        assert(n / 10 >= 1) by (nonlinear_arith)
            requires
                n >= 10,
        ;
        lemma_digits_decimal(n / 10);
        let p = spec_digits(n / 10, 10);
        assert(s == p.push(digit_char((n % 10) as int)));
        assert(s.drop_last() =~= p);
        assert forall|j: int| 0 <= j < s.len() implies is_decimal_digit(#[trigger] s[j]) by {
            if j < p.len() {
                assert(s[j] == p[j]);
            }
        }
        assert(s[0] == p[0]);
        assert(decimal_value(s) == decimal_value(p) * 10 + (n % 10));
        assert(n / 10 * 10 + n % 10 == n) by (nonlinear_arith);
    }
}

/// Reading a version gives back what formatting wrote.
pub proof fn lemma_parse_version(n: u16)
    ensures
        spec_parse_version(spec_decimal(n as nat)) == Some(n),
{
    lemma_digits_decimal(n as nat);
    let s = spec_decimal(n as nat);
    if s.len() > 1 {
        assert(n >= 1) by {
            if n == 0 {
                assert(s == seq![digit_char(0)]);
            }
        }
    }
}

proof fn lemma_decimal_prefix_bound(d: Seq<char>, k: int)
    requires
        0 <= k <= d.len(),
        forall|j: int| 0 <= j < d.len() ==> is_decimal_digit(#[trigger] d[j]),
    ensures
        decimal_value(d.take(k)) <= decimal_value(d),
        decimal_value(d.take(k)) >= 0,
    decreases d.len() - k,
{
    if k < d.len() {
        lemma_decimal_prefix_bound(d, k + 1);
        assert(d.take(k + 1).drop_last() =~= d.take(k));
        assert(is_decimal_digit(d[k]));
        assert(d.take(k + 1).last() == d[k]);
        assert(decimal_value(d.take(k)) >= 0) by {
            lemma_decimal_nonneg(d.take(k));
        }
        assert(decimal_value(d.take(k)) * 10 >= decimal_value(d.take(k))) by (nonlinear_arith)
            requires
                decimal_value(d.take(k)) >= 0,
        ;
    } else {
        assert(d.take(k) =~= d);
        lemma_decimal_nonneg(d);
    }
}

proof fn lemma_decimal_nonneg(d: Seq<char>)
    requires
        forall|j: int| 0 <= j < d.len() ==> is_decimal_digit(#[trigger] d[j]),
    ensures
        decimal_value(d) >= 0,
    decreases d.len(),
{
    if d.len() > 0 {
        let p = d.drop_last();
        assert forall|j: int| 0 <= j < p.len() implies is_decimal_digit(#[trigger] p[j]) by {
            assert(p[j] == d[j]);
        }
        lemma_decimal_nonneg(p);
        assert(is_decimal_digit(d[d.len() - 1]));
    }
}

/// Reads a version as `u16::from_str` does, accepting it only when it is
/// written as `to_string` would write it.
pub fn parse_version(s: &str) -> (r: Option<u16>)
    ensures
        r == spec_parse_version(s@),
{
    let v = crate::text::chars_of(s);
    if v.len() == 0 {
        return None;
    }
    if v.len() > 1 && v[0] == '0' {
        return None;
    }
    let mut acc: u64 = 0;
    let mut i: usize = 0;
    while i < v.len()
        invariant
            i <= v.len(),
            v@ == s@,
            v@.len() > 0,
            v@.len() == 1 || v@[0] != '0',
            forall|j: int| 0 <= j < i ==> is_decimal_digit(#[trigger] v@[j]),
            acc == decimal_value(v@.take(i as int)),
            acc <= u16::MAX,
        decreases v.len() - i,
    {
        let c = v[i];
        if !('0' <= c && c <= '9') {
            assert(!is_decimal_digit(v@[i as int]));
            return None;
        }
        proof {
            assert(v@.take(i + 1).drop_last() =~= v@.take(i as int));
            assert(v@.take(i + 1).last() == c);
        }
        let digit = (c as u32 - '0' as u32) as u64;
        let next = acc * 10 + digit;
        if next > u16::MAX as u64 {
            proof {
                if forall|j: int| 0 <= j < v@.len() ==> is_decimal_digit(#[trigger] v@[j]) {
                    lemma_decimal_prefix_bound(v@, i + 1);
                }
            }
            return None;
        }
        acc = next;
        i = i + 1;
    }
    assert(v@.take(v@.len() as int) =~= v@);
    Some(acc as u16)
}


/// Whether `u16::from_str` accepts `s`: an optional `+`, then one or more
/// decimal digits whose value fits 16 bits.
pub open spec fn u16_parses(s: Seq<char>) -> bool {
    let d = unsigned_digits(s);
    &&& d.len() > 0
    &&& forall|j: int| 0 <= j < d.len() ==> is_decimal_digit(#[trigger] d[j])
    &&& decimal_value(d) <= u16::MAX
}

/// Whether `u16::from_str` accepts `s`.
pub fn u16_parses_exec(s: &str) -> (r: bool)
    ensures
        r == u16_parses(s@),
{
    let v = crate::text::chars_of(s);
    let start: usize = if v.len() > 0 && v[0] == '+' {
        1
    } else {
        0
    };
    let ghost d = unsigned_digits(s@);
    assert(d =~= v@.skip(start as int));
    if v.len() <= start {
        return false;
    }
    let mut acc: u64 = 0;
    let mut i: usize = start;
    while i < v.len()
        invariant
            start <= i <= v.len(),
            v@ == s@,
            d == v@.skip(start as int),
            d == unsigned_digits(s@),
            forall|j: int| 0 <= j < i - start ==> is_decimal_digit(#[trigger] d[j]),
            acc == decimal_value(d.take(i - start)),
            acc <= u16::MAX,
        decreases v.len() - i,
    {
        let c = v[i];
        assert(d[i - start] == c);
        if !('0' <= c && c <= '9') {
            assert(!is_decimal_digit(d[i - start]));
            return false;
        }
        proof {
            assert(d.take(i - start + 1).drop_last() =~= d.take(i - start));
            assert(d.take(i - start + 1).last() == c);
        }
        let digit = (c as u32 - '0' as u32) as u64;
        let next = acc * 10 + digit;
        if next > u16::MAX as u64 {
            proof {
                if forall|j: int| 0 <= j < d.len() ==> is_decimal_digit(#[trigger] d[j]) {
                    lemma_decimal_prefix_bound(d, i - start + 1);
                }
            }
            return false;
        }
        acc = next;
        i = i + 1;
    }
    assert(d.take(i - start) =~= d);
    true
}

/// A canonical version is one `u16::from_str` accepts.
pub proof fn lemma_canonical_version_parses(s: Seq<char>)
    requires
        spec_parse_version(s) is Some,
    ensures
        u16_parses(s),
{
    assert(unsigned_digits(s) == s);
}

} // verus!
