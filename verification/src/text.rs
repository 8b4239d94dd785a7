//! Character-level text model used by every configuration parser and path
//! validator of the installer.  Strings are reasoned about through their
//! `Seq<char>` views; byte payloads through their UTF-8 encodings.

use vstd::prelude::*;
use vstd::string::*;
use vstd::utf8::*;

verus! {

broadcast use vstd::seq_lib::group_seq_properties;

// ---------------------------------------------------------------------------
// Character classes
// ---------------------------------------------------------------------------

pub open spec fn is_alnum(c: char) -> bool {
    ('0' <= c && c <= '9') || ('a' <= c && c <= 'z') || ('A' <= c && c <= 'Z')
}

pub open spec fn is_hex(c: char) -> bool {
    ('0' <= c && c <= '9') || ('a' <= c && c <= 'f') || ('A' <= c && c <= 'F')
}

/// `char::is_ascii_graphic`: `!` through `~`.
pub open spec fn is_graphic(c: char) -> bool {
    '!' <= c && c <= '~'
}

/// `char::is_ascii_control`: 0x00..=0x1f and 0x7f.
pub open spec fn is_control(c: char) -> bool {
    c <= '\x1f' || c == '\x7f'
}

/// The separators of `str::split_ascii_whitespace`.
pub open spec fn is_ascii_ws(c: char) -> bool {
    c == ' ' || c == '\t' || c == '\n' || c == '\x0c' || c == '\r'
}

/// `char::is_whitespace`: the Unicode `White_Space` property.
pub open spec fn is_ws(c: char) -> bool {
    ('\t' <= c && c <= '\r') || c == ' ' || c == '\u{85}' || c == '\u{a0}' || c == '\u{1680}'
        || ('\u{2000}' <= c && c <= '\u{200a}') || c == '\u{2028}' || c == '\u{2029}'
        || c == '\u{202f}' || c == '\u{205f}' || c == '\u{3000}'
}

pub fn char_is_alnum(c: char) -> (r: bool)
    ensures
        r == is_alnum(c),
{
    (c >= '0' && c <= '9') || (c >= 'a' && c <= 'z') || (c >= 'A' && c <= 'Z')
}

pub fn char_is_hex(c: char) -> (r: bool)
    ensures
        r == is_hex(c),
{
    (c >= '0' && c <= '9') || (c >= 'a' && c <= 'f') || (c >= 'A' && c <= 'F')
}

pub fn char_is_graphic(c: char) -> (r: bool)
    ensures
        r == is_graphic(c),
{
    c >= '!' && c <= '~'
}

pub fn char_is_control(c: char) -> (r: bool)
    ensures
        r == is_control(c),
{
    c <= '\x1f' || c == '\x7f'
}

pub fn char_is_ascii_ws(c: char) -> (r: bool)
    ensures
        r == is_ascii_ws(c),
{
    c == ' ' || c == '\t' || c == '\n' || c == '\x0c' || c == '\r'
}

pub fn char_is_ws(c: char) -> (r: bool)
    ensures
        r == is_ws(c),
{
    (c >= '\t' && c <= '\r') || c == ' ' || c == '\u{85}' || c == '\u{a0}' || c == '\u{1680}'
        || (c >= '\u{2000}' && c <= '\u{200a}') || c == '\u{2028}' || c == '\u{2029}'
        || c == '\u{202f}' || c == '\u{205f}' || c == '\u{3000}'
}

// ---------------------------------------------------------------------------
// Sequence relations
// ---------------------------------------------------------------------------

pub open spec fn has_prefix(s: Seq<char>, p: Seq<char>) -> bool {
    p.len() <= s.len() && s.subrange(0, p.len() as int) == p
}

pub open spec fn has_suffix(s: Seq<char>, p: Seq<char>) -> bool {
    p.len() <= s.len() && s.subrange(s.len() - p.len(), s.len() as int) == p
}

pub open spec fn occurs_at(s: Seq<char>, p: Seq<char>, i: int) -> bool {
    0 <= i && i + p.len() <= s.len() && s.subrange(i, i + p.len()) == p
}

pub open spec fn contains(s: Seq<char>, p: Seq<char>) -> bool {
    exists|i: int| occurs_at(s, p, i)
}

pub open spec fn contains_char(s: Seq<char>, c: char) -> bool {
    exists|i: int| 0 <= i < s.len() && s[i] == c
}

/// Number of non-overlapping occurrences found scanning left to right
/// (`str::matches(..).count()`).
pub open spec fn count_matches(s: Seq<char>, p: Seq<char>) -> nat
    recommends
        p.len() > 0,
    decreases s.len(),
{
    if p.len() == 0 || s.len() < p.len() {
        0
    } else if s.subrange(0, p.len() as int) == p {
        1 + count_matches(s.skip(p.len() as int), p)
    } else {
        count_matches(s.drop_first(), p)
    }
}

/// `str::replace`: every non-overlapping occurrence, scanning left to right.
pub open spec fn replace_all(s: Seq<char>, from: Seq<char>, to: Seq<char>) -> Seq<char>
    recommends
        from.len() > 0,
    decreases s.len(),
{
    if from.len() == 0 || s.len() < from.len() {
        s
    } else if s.subrange(0, from.len() as int) == from {
        to + replace_all(s.skip(from.len() as int), from, to)
    } else {
        seq![s[0]] + replace_all(s.drop_first(), from, to)
    }
}

pub open spec fn trim_start(s: Seq<char>) -> Seq<char>
    decreases s.len(),
{
    if s.len() > 0 && is_ws(s[0]) {
        trim_start(s.drop_first())
    } else {
        s
    }
}

pub open spec fn trim_end(s: Seq<char>) -> Seq<char>
    decreases s.len(),
{
    if s.len() > 0 && is_ws(s.last()) {
        trim_end(s.drop_last())
    } else {
        s
    }
}

/// `str::trim`.
pub open spec fn trim(s: Seq<char>) -> Seq<char> {
    trim_end(trim_start(s))
}

/// Left fold behind `str::split_inclusive('\n')`: finished pieces and the
/// unfinished tail.
pub open spec fn split_nl_fold(s: Seq<char>) -> (Seq<Seq<char>>, Seq<char>)
    decreases s.len(),
{
    if s.len() == 0 {
        (seq![], seq![])
    } else {
        let (done, cur) = split_nl_fold(s.drop_last());
        if s.last() == '\n' {
            (done.push(cur.push('\n')), seq![])
        } else {
            (done, cur.push(s.last()))
        }
    }
}

/// `str::split_inclusive('\n')`.
pub open spec fn split_inclusive_nl(s: Seq<char>) -> Seq<Seq<char>> {
    let (done, cur) = split_nl_fold(s);
    if cur.len() == 0 {
        done
    } else {
        done.push(cur)
    }
}

/// One element of `str::lines`: the piece without its `\n`, then without one
/// trailing `\r`.
pub open spec fn line_body(piece: Seq<char>) -> Seq<char> {
    let a = if piece.len() > 0 && piece.last() == '\n' {
        piece.drop_last()
    } else {
        piece
    };
    if a.len() > 0 && a.last() == '\r' {
        a.drop_last()
    } else {
        a
    }
}

/// `str::lines`.
pub open spec fn lines(s: Seq<char>) -> Seq<Seq<char>> {
    split_inclusive_nl(s).map_values(|piece: Seq<char>| line_body(piece))
}

/// Left fold behind whitespace splitting with separator class `sep`.
pub open spec fn split_ws_fold(s: Seq<char>, ascii: bool) -> (Seq<Seq<char>>, Seq<char>)
    decreases s.len(),
{
    if s.len() == 0 {
        (seq![], seq![])
    } else {
        let (done, cur) = split_ws_fold(s.drop_last(), ascii);
        let c = s.last();
        if (ascii && is_ascii_ws(c)) || (!ascii && is_ws(c)) {
            if cur.len() == 0 {
                (done, cur)
            } else {
                (done.push(cur), seq![])
            }
        } else {
            (done, cur.push(c))
        }
    }
}

/// `str::split_ascii_whitespace` (`ascii`) or `str::split_whitespace`.
pub open spec fn split_ws(s: Seq<char>, ascii: bool) -> Seq<Seq<char>> {
    let (done, cur) = split_ws_fold(s, ascii);
    if cur.len() == 0 {
        done
    } else {
        done.push(cur)
    }
}

/// Pieces joined with one space (`[String]::join(" ")`).
pub open spec fn join_space(parts: Seq<Seq<char>>) -> Seq<char>
    decreases parts.len(),
{
    if parts.len() == 0 {
        seq![]
    } else if parts.len() == 1 {
        parts[0]
    } else {
        join_space(parts.drop_last()) + seq![' '] + parts.last()
    }
}

pub open spec fn distinct_seqs(parts: Seq<Seq<char>>) -> bool {
    forall|i: int, j: int| 0 <= i < j < parts.len() ==> parts[i] != parts[j]
}

// ---------------------------------------------------------------------------
// Conversions
// ---------------------------------------------------------------------------

/// The characters of `s`, in order.
pub fn chars_of(s: &str) -> (v: Vec<char>)
    ensures
        v@ == s@,
{
    let mut v: Vec<char> = Vec::new();
    for c in it: s.chars()
        invariant
            v@ == it.seq().take(it.index() as int),
    {
        v.push(c);
    }
    v
}

/// Builds a `String` from characters: `String::from_iter` over the slice.
#[verifier::external_body]
pub fn string_from_chars(chars: &[char]) -> (s: String)
    ensures
        s@ == chars@,
{
    chars.iter().collect()
}

/// `std::str::from_utf8`: succeeds exactly on valid UTF-8 and then yields the
/// decoded characters.
#[verifier::external_body]
pub fn utf8_to_str(bytes: &[u8]) -> (r: Option<&str>)
    ensures
        r is Some <==> valid_utf8(bytes@),
        r matches Some(s) ==> s@ == decode_utf8(bytes@),
{
    std::str::from_utf8(bytes).ok()
}

/// The UTF-8 bytes of `s`.
pub fn str_bytes(s: &str) -> (b: Vec<u8>)
    ensures
        b@ == encode_utf8(s@),
{
    s.as_bytes_vec()
}

pub fn owned(s: &str) -> (r: String)
    ensures
        r@ == s@,
{
    String::from_str(s)
}

pub fn concat2(a: &str, b: &str) -> (r: String)
    ensures
        r@ == a@ + b@,
{
    let mut r = String::from_str(a);
    r.append(b);
    r
}

pub fn concat3(a: &str, b: &str, c: &str) -> (r: String)
    ensures
        r@ == a@ + b@ + c@,
{
    let mut r = String::from_str(a);
    r.append(b);
    r.append(c);
    r
}

pub proof fn lemma_decode_encode(s: Seq<char>)
    ensures
        valid_utf8(encode_utf8(s)),
        decode_utf8(encode_utf8(s)) == s,
{
    encode_utf8_valid_utf8(s);
    encode_utf8_decode_utf8(s);
}

// ---------------------------------------------------------------------------
// Searching
// ---------------------------------------------------------------------------

/// Whether `p` occurs in `s` at index `i`.
pub fn occurs_at_exec(s: &[char], p: &[char], i: usize) -> (r: bool)
    ensures
        r == occurs_at(s@, p@, i as int),
{
    if i > s.len() || p.len() > s.len() - i {
        return false;
    }
    let mut k: usize = 0;
    while k < p.len()
        invariant
            i + p.len() <= s.len(),
            k <= p.len(),
            forall|j: int| 0 <= j < k ==> s@[i + j] == p@[j],
        decreases p.len() - k,
    {
        if s[i + k] != p[k] {
            assert(s@.subrange(i as int, i + p.len())[k as int] != p@[k as int]);
            return false;
        }
        k = k + 1;
    }
    assert(s@.subrange(i as int, i + p.len()) =~= p@);
    true
}

pub fn seq_has_prefix(s: &[char], p: &[char]) -> (r: bool)
    ensures
        r == has_prefix(s@, p@),
{
    occurs_at_exec(s, p, 0)
}

pub fn seq_has_suffix(s: &[char], p: &[char]) -> (r: bool)
    ensures
        r == has_suffix(s@, p@),
{
    if p.len() > s.len() {
        return false;
    }
    occurs_at_exec(s, p, s.len() - p.len())
}

pub fn seq_contains(s: &[char], p: &[char]) -> (r: bool)
    ensures
        r == contains(s@, p@),
{
    if p.len() > s.len() {
        assert forall|i: int| !occurs_at(s@, p@, i) by {}
        return false;
    }
    if p.len() == 0 {
        assert(s@.subrange(0, 0) =~= p@);
        assert(occurs_at(s@, p@, 0));
        return true;
    }
    let mut i: usize = 0;
    while i <= s.len() - p.len()
        invariant
            0 < p.len() <= s.len(),
            forall|j: int| 0 <= j < i ==> !occurs_at(s@, p@, j),
        decreases s.len() - p.len() + 1 - i,
    {
        if occurs_at_exec(s, p, i) {
            return true;
        }
        i = i + 1;
    }
    assert forall|j: int| !occurs_at(s@, p@, j) by {
        if 0 <= j < i {
        }
    }
    false
}

pub fn seq_contains_char(s: &[char], c: char) -> (r: bool)
    ensures
        r == contains_char(s@, c),
{
    let mut i: usize = 0;
    while i < s.len()
        invariant
            i <= s.len(),
            forall|j: int| 0 <= j < i ==> s@[j] != c,
        decreases s.len() - i,
    {
        if s[i] == c {
            return true;
        }
        i = i + 1;
    }
    false
}

pub fn str_has_prefix(s: &str, p: &str) -> (r: bool)
    ensures
        r == has_prefix(s@, p@),
{
    let sv = chars_of(s);
    let pv = chars_of(p);
    seq_has_prefix(sv.as_slice(), pv.as_slice())
}

pub fn str_has_suffix(s: &str, p: &str) -> (r: bool)
    ensures
        r == has_suffix(s@, p@),
{
    let sv = chars_of(s);
    let pv = chars_of(p);
    seq_has_suffix(sv.as_slice(), pv.as_slice())
}

pub fn str_contains(s: &str, p: &str) -> (r: bool)
    ensures
        r == contains(s@, p@),
{
    let sv = chars_of(s);
    let pv = chars_of(p);
    seq_contains(sv.as_slice(), pv.as_slice())
}

pub fn str_contains_char(s: &str, c: char) -> (r: bool)
    ensures
        r == contains_char(s@, c),
{
    let sv = chars_of(s);
    seq_contains_char(sv.as_slice(), c)
}

pub fn str_eq(a: &str, b: &str) -> (r: bool)
    ensures
        r == (a@ == b@),
{
    let av = chars_of(a);
    let bv = chars_of(b);
    if av.len() != bv.len() {
        return false;
    }
    let r = seq_has_prefix(av.as_slice(), bv.as_slice());
    proof {
        if r {
            assert(av@.subrange(0, bv@.len() as int) =~= av@);
        }
    }
    r
}

/// `str::strip_prefix`.
pub fn strip_prefix<'a>(s: &'a str, p: &str) -> (r: Option<&'a str>)
    ensures
        r is Some <==> has_prefix(s@, p@),
        r matches Some(t) ==> t@ == s@.skip(p@.len() as int),
{
    let sv = chars_of(s);
    let pv = chars_of(p);
    if seq_has_prefix(sv.as_slice(), pv.as_slice()) {
        let t = s.substring_char(pv.len(), sv.len());
        Some(t)
    } else {
        None
    }
}

/// `str::strip_suffix`.
pub fn strip_suffix<'a>(s: &'a str, p: &str) -> (r: Option<&'a str>)
    ensures
        r is Some <==> has_suffix(s@, p@),
        r matches Some(t) ==> t@ == s@.subrange(0, s@.len() - p@.len()),
{
    let sv = chars_of(s);
    let pv = chars_of(p);
    if seq_has_suffix(sv.as_slice(), pv.as_slice()) {
        let t = s.substring_char(0, sv.len() - pv.len());
        Some(t)
    } else {
        None
    }
}

// ---------------------------------------------------------------------------
// Counting and replacing
// ---------------------------------------------------------------------------

pub proof fn lemma_count_matches_step(s: Seq<char>, p: Seq<char>, i: int)
    requires
        p.len() > 0,
        0 <= i <= s.len(),
    ensures
        count_matches(s.skip(i), p) == if s.len() - i < p.len() {
            0
        } else if s.skip(i).subrange(0, p.len() as int) == p {
            1 + count_matches(s.skip(i + p.len()), p)
        } else {
            count_matches(s.skip(i + 1), p)
        },
{
    let t = s.skip(i);
    if t.len() >= p.len() {
        if t.subrange(0, p.len() as int) == p {
            assert(t.skip(p.len() as int) =~= s.skip(i + p.len()));
        } else {
            assert(t.drop_first() =~= s.skip(i + 1));
        }
    }
}

/// `str::matches(p).count()`.
pub fn count_matches_exec(s: &[char], p: &[char]) -> (n: usize)
    requires
        p.len() > 0,
    ensures
        n == count_matches(s@, p@),
{
    let mut i: usize = 0;
    let mut n: usize = 0;
    assert(s@.skip(0) =~= s@);
    while i < s.len()
        invariant
            p.len() > 0,
            i <= s.len(),
            n <= i,
            n + count_matches(s@.skip(i as int), p@) == count_matches(s@, p@),
        decreases s.len() - i,
    {
        proof {
            lemma_count_matches_step(s@, p@, i as int);
        }
        if p.len() > s.len() - i {
            assert(count_matches(s@.skip(i as int), p@) == 0);
            return n;
        }
        if occurs_at_exec(s, p, i) {
            assert(s@.skip(i as int).subrange(0, p@.len() as int) =~= s@.subrange(
                i as int,
                i + p@.len(),
            ));
            n = n + 1;
            i = i + p.len();
        } else {
            assert(s@.skip(i as int).subrange(0, p@.len() as int) =~= s@.subrange(
                i as int,
                i + p@.len(),
            ));
            i = i + 1;
        }
    }
    assert(s@.skip(i as int).len() == 0);
    n
}

pub proof fn lemma_replace_step(s: Seq<char>, from: Seq<char>, to: Seq<char>, i: int)
    requires
        from.len() > 0,
        0 <= i <= s.len(),
    ensures
        replace_all(s.skip(i), from, to) == if s.len() - i < from.len() {
            s.skip(i)
        } else if s.skip(i).subrange(0, from.len() as int) == from {
            to + replace_all(s.skip(i + from.len()), from, to)
        } else {
            seq![s[i]] + replace_all(s.skip(i + 1), from, to)
        },
{
    let t = s.skip(i);
    if t.len() >= from.len() {
        if t.subrange(0, from.len() as int) == from {
            assert(t.skip(from.len() as int) =~= s.skip(i + from.len()));
        } else {
            assert(t.drop_first() =~= s.skip(i + 1));
        }
    }
}

/// Appends `src[a..b]` to `out`.
pub fn extend_range(out: &mut Vec<char>, src: &[char], a: usize, b: usize)
    requires
        a <= b <= src.len(),
    ensures
        final(out)@ == old(out)@ + src@.subrange(a as int, b as int),
{
    let ghost before = out@;
    let mut k = a;
    while k < b
        invariant
            a <= k <= b <= src.len(),
            out@ == before + src@.subrange(a as int, k as int),
        decreases b - k,
    {
        out.push(src[k]);
        k = k + 1;
        assert(out@ =~= before + src@.subrange(a as int, k as int));
    }
}

/// `str::replace`.
pub fn replace_all_exec(s: &[char], from: &[char], to: &[char]) -> (out: Vec<char>)
    requires
        from.len() > 0,
    ensures
        out@ == replace_all(s@, from@, to@),
{
    let mut out: Vec<char> = Vec::new();
    let mut i: usize = 0;
    assert(s@.skip(0) =~= s@);
    while i < s.len()
        invariant
            from.len() > 0,
            i <= s.len(),
            out@ + replace_all(s@.skip(i as int), from@, to@) == replace_all(s@, from@, to@),
        decreases s.len() - i,
    {
        let ghost before = out@;
        let ghost rest = replace_all(s@.skip(i as int), from@, to@);
        proof {
            lemma_replace_step(s@, from@, to@, i as int);
        }
        if from.len() > s.len() - i {
            extend_range(&mut out, s, i, s.len());
            assert(s@.subrange(i as int, s.len() as int) =~= s@.skip(i as int));
            return out;
        }
        let hit = occurs_at_exec(s, from, i);
        assert(s@.skip(i as int).subrange(0, from@.len() as int) =~= s@.subrange(
            i as int,
            i + from@.len(),
        ));
        if hit {
            extend_range(&mut out, to, 0, to.len());
            assert(to@.subrange(0, to@.len() as int) =~= to@);
            let ghost tail = replace_all(s@.skip(i + from@.len()), from@, to@);
            assert(rest == to@ + tail);
            assert(out@ + tail =~= before + rest);
            i = i + from.len();
        } else {
            out.push(s[i]);
            let ghost tail = replace_all(s@.skip(i + 1), from@, to@);
            assert(rest == seq![s@[i as int]] + tail);
            assert(out@ + tail =~= before + rest);
            i = i + 1;
        }
    }
    assert(s@.skip(i as int) =~= Seq::<char>::empty());
    assert(out@ + Seq::<char>::empty() =~= out@);
    out
}

/// `str::replace` on strings.
pub fn replace_str(s: &str, from: &str, to: &str) -> (r: String)
    requires
        from@.len() > 0,
    ensures
        r@ == replace_all(s@, from@, to@),
{
    let sv = chars_of(s);
    let fv = chars_of(from);
    let tv = chars_of(to);
    let out = replace_all_exec(sv.as_slice(), fv.as_slice(), tv.as_slice());
    string_from_chars(out.as_slice())
}

// ---------------------------------------------------------------------------
// Trimming and splitting
// ---------------------------------------------------------------------------

pub proof fn lemma_trim_start_skip(s: Seq<char>, i: int)
    requires
        0 <= i < s.len(),
        is_ws(s[i]),
        trim_start(s) == trim_start(s.skip(i)),
    ensures
        trim_start(s) == trim_start(s.skip(i + 1)),
{
    assert(s.skip(i).drop_first() =~= s.skip(i + 1));
}

pub proof fn lemma_trim_end_take(s: Seq<char>, j: int)
    requires
        0 < j <= s.len(),
        is_ws(s[j - 1]),
        trim_end(s) == trim_end(s.take(j)),
    ensures
        trim_end(s) == trim_end(s.take(j - 1)),
{
    assert(s.take(j).drop_last() =~= s.take(j - 1));
}

/// Bounds `(a, b)` with `trim(s) == s[a..b]`.
pub fn trim_bounds(s: &[char]) -> (r: (usize, usize))
    ensures
        r.0 <= r.1 <= s.len(),
        trim(s@) == s@.subrange(r.0 as int, r.1 as int),
{
    let mut a: usize = 0;
    assert(s@.skip(0) =~= s@);
    while a < s.len() && char_is_ws(s[a])
        invariant
            a <= s.len(),
            trim_start(s@) == trim_start(s@.skip(a as int)),
        decreases s.len() - a,
    {
        proof {
            lemma_trim_start_skip(s@, a as int);
        }
        a = a + 1;
    }
    let ghost t = s@.skip(a as int);
    assert(trim_start(t) == t);
    let mut b: usize = s.len();
    assert(t.take(t.len() as int) =~= t);
    while b > a && char_is_ws(s[b - 1])
        invariant
            a <= b <= s.len(),
            t == s@.skip(a as int),
            trim_end(t) == trim_end(t.take(b - a)),
        decreases b,
    {
        proof {
            lemma_trim_end_take(t, (b - a) as int);
        }
        b = b - 1;
    }
    let ghost u = t.take(b - a);
    if b > a {
        assert(!is_ws(u.last()));
    }
    assert(trim_end(u) == u);
    assert(u =~= s@.subrange(a as int, b as int));
    (a, b)
}

/// The index where `trim_start(s)` begins.
pub fn trim_start_index(s: &[char]) -> (a: usize)
    ensures
        a <= s.len(),
        trim_start(s@) == s@.skip(a as int),
{
    let mut a: usize = 0;
    assert(s@.skip(0) =~= s@);
    while a < s.len() && char_is_ws(s[a])
        invariant
            a <= s.len(),
            trim_start(s@) == trim_start(s@.skip(a as int)),
        decreases s.len() - a,
    {
        proof {
            lemma_trim_start_skip(s@, a as int);
        }
        a = a + 1;
    }
    assert(trim_start(s@.skip(a as int)) == s@.skip(a as int));
    a
}

/// The length of `trim_end(s)`.
pub fn trim_end_index(s: &[char]) -> (b: usize)
    ensures
        b <= s.len(),
        trim_end(s@) == s@.take(b as int),
{
    let mut b: usize = s.len();
    assert(s@.take(b as int) =~= s@);
    while b > 0 && char_is_ws(s[b - 1])
        invariant
            b <= s.len(),
            trim_end(s@) == trim_end(s@.take(b as int)),
        decreases b,
    {
        proof {
            lemma_trim_end_take(s@, b as int);
        }
        b = b - 1;
    }
    if b > 0 {
        assert(!is_ws(s@.take(b as int).last()));
    }
    assert(trim_end(s@.take(b as int)) == s@.take(b as int));
    b
}

/// The concatenation of `parts`.
pub open spec fn concat_all(parts: Seq<Seq<char>>) -> Seq<char>
    decreases parts.len(),
{
    if parts.len() == 0 {
        seq![]
    } else {
        concat_all(parts.drop_last()) + parts.last()
    }
}

/// `str::trim` as characters.
pub fn trim_chars(s: &[char]) -> (r: Vec<char>)
    ensures
        r@ == trim(s@),
{
    let (a, b) = trim_bounds(s);
    slice_range(s, a, b)
}

/// A copy of `s[a..b]`.
pub fn slice_range(s: &[char], a: usize, b: usize) -> (r: Vec<char>)
    requires
        a <= b <= s.len(),
    ensures
        r@ == s@.subrange(a as int, b as int),
{
    let mut r: Vec<char> = Vec::new();
    let mut k = a;
    while k < b
        invariant
            a <= k <= b <= s.len(),
            r@ == s@.subrange(a as int, k as int),
        decreases b - k,
    {
        r.push(s[k]);
        k = k + 1;
        assert(r@ =~= s@.subrange(a as int, k as int));
    }
    r
}

/// `str::split_inclusive('\n')`.
pub fn split_inclusive_nl_exec(s: &[char]) -> (r: Vec<Vec<char>>)
    ensures
        r@.len() == split_inclusive_nl(s@).len(),
        forall|i: int| 0 <= i < r@.len() ==> #[trigger] r@[i]@ == split_inclusive_nl(s@)[i],
{
    let mut done: Vec<Vec<char>> = Vec::new();
    let mut cur: Vec<char> = Vec::new();
    let mut i: usize = 0;
    while i < s.len()
        invariant
            i <= s.len(),
            done@.len() == split_nl_fold(s@.take(i as int)).0.len(),
            forall|k: int|
                0 <= k < done@.len() ==> #[trigger] done@[k]@ == split_nl_fold(
                    s@.take(i as int),
                ).0[k],
            cur@ == split_nl_fold(s@.take(i as int)).1,
        decreases s.len() - i,
    {
        assert(s@.take(i + 1).drop_last() =~= s@.take(i as int));
        let c = s[i];
        cur.push(c);
        if c == '\n' {
            let piece = cur;
            done.push(piece);
            cur = Vec::new();
        }
        i = i + 1;
    }
    assert(s@.take(s.len() as int) =~= s@);
    if cur.len() > 0 {
        done.push(cur);
    }
    done
}

/// `str::split_ascii_whitespace` (`ascii`) or `str::split_whitespace` as
/// character vectors.
pub fn split_ws_exec(s: &[char], ascii: bool) -> (r: Vec<Vec<char>>)
    ensures
        r@.len() == split_ws(s@, ascii).len(),
        forall|i: int| 0 <= i < r@.len() ==> #[trigger] r@[i]@ == split_ws(s@, ascii)[i],
{
    let mut done: Vec<Vec<char>> = Vec::new();
    let mut cur: Vec<char> = Vec::new();
    let mut i: usize = 0;
    while i < s.len()
        invariant
            i <= s.len(),
            done@.len() == split_ws_fold(s@.take(i as int), ascii).0.len(),
            forall|k: int|
                0 <= k < done@.len() ==> #[trigger] done@[k]@ == split_ws_fold(
                    s@.take(i as int),
                    ascii,
                ).0[k],
            cur@ == split_ws_fold(s@.take(i as int), ascii).1,
        decreases s.len() - i,
    {
        assert(s@.take(i + 1).drop_last() =~= s@.take(i as int));
        let c = s[i];
        let sep = if ascii {
            char_is_ascii_ws(c)
        } else {
            char_is_ws(c)
        };
        if sep {
            if cur.len() > 0 {
                let piece = cur;
                done.push(piece);
                cur = Vec::new();
            }
        } else {
            cur.push(c);
        }
        i = i + 1;
    }
    assert(s@.take(s.len() as int) =~= s@);
    if cur.len() > 0 {
        done.push(cur);
    }
    done
}

/// `line_body` of one piece.
pub fn line_body_exec(piece: &[char]) -> (r: Vec<char>)
    ensures
        r@ == line_body(piece@),
{
    let mut end = piece.len();
    if end > 0 && piece[end - 1] == '\n' {
        end = end - 1;
    }
    if end > 0 && piece[end - 1] == '\r' {
        end = end - 1;
    }
    let r = slice_range(piece, 0, end);
    proof {
        let a = if piece@.len() > 0 && piece@.last() == '\n' {
            piece@.drop_last()
        } else {
            piece@
        };
        assert(a =~= piece@.subrange(0, a.len() as int));
    }
    r
}

/// `str::lines` as character vectors.
pub fn lines_exec(s: &[char]) -> (r: Vec<Vec<char>>)
    ensures
        r@.len() == lines(s@).len(),
        forall|i: int| 0 <= i < r@.len() ==> #[trigger] r@[i]@ == lines(s@)[i],
{
    let pieces = split_inclusive_nl_exec(s);
    let mut out: Vec<Vec<char>> = Vec::new();
    let mut i: usize = 0;
    while i < pieces.len()
        invariant
            i <= pieces@.len(),
            pieces@.len() == split_inclusive_nl(s@).len(),
            forall|k: int|
                0 <= k < pieces@.len() ==> #[trigger] pieces@[k]@ == split_inclusive_nl(s@)[k],
            out@.len() == i,
            forall|k: int| 0 <= k < i ==> #[trigger] out@[k]@ == lines(s@)[k],
        decreases pieces.len() - i,
    {
        let body = line_body_exec(pieces[i].as_slice());
        out.push(body);
        i = i + 1;
    }
    out
}

/// `[String]::join(" ")` over character vectors.
pub fn join_space_exec(parts: &Vec<Vec<char>>) -> (r: Vec<char>)
    ensures
        r@ == join_space(parts@.map_values(|p: Vec<char>| p@)),
{
    let ghost views = parts@.map_values(|p: Vec<char>| p@);
    let mut out: Vec<char> = Vec::new();
    let mut i: usize = 0;
    while i < parts.len()
        invariant
            i <= parts@.len(),
            views == parts@.map_values(|p: Vec<char>| p@),
            out@ == join_space(views.take(i as int)),
        decreases parts.len() - i,
    {
        let ghost before = out@;
        if i > 0 {
            out.push(' ');
        }
        let part = &parts[i];
        let mut k: usize = 0;
        let ghost mid = out@;
        while k < part.len()
            invariant
                k <= part@.len(),
                out@ == mid + part@.subrange(0, k as int),
            decreases part.len() - k,
        {
            out.push(part[k]);
            k = k + 1;
            assert(out@ =~= mid + part@.subrange(0, k as int));
        }
        assert(part@.subrange(0, part@.len() as int) =~= part@);
        assert(views.take(i + 1).drop_last() =~= views.take(i as int));
        if i == 0 {
            assert(views.take(1) =~= seq![part@]);
            assert(out@ =~= part@);
        } else {
            assert(out@ =~= before + seq![' '] + part@);
        }
        i = i + 1;
    }
    assert(views.take(parts@.len() as int) =~= views);
    out
}

// ---------------------------------------------------------------------------
// Character classes of reviewed tokens
// ---------------------------------------------------------------------------

/// The token alphabets accepted by the installer's validators.
#[derive(Debug, Clone, Copy, PartialEq, Eq, Structural)]
pub enum CharClass {
    /// ASCII alphanumerics and `.`, `_`, `+`, `-`.
    KernelVersion,
    /// ASCII hex digits and `-`.
    Uuid,
    /// Tab, space, and ASCII graphic characters.
    CommandLine,
    /// ASCII alphanumerics and `-`.
    TransactionId,
    /// ASCII alphanumerics and `_`, `+`, `-`.
    Flavor,
    /// ASCII alphanumerics and `_`, `-`.
    HookToken,
    /// ASCII alphanumerics and `_`.
    ShellKey,
    /// Anything but ASCII control characters.
    NotControl,
    /// ASCII alphanumerics and `-`, `_`, `.`.
    InsertionPoint,
}

pub open spec fn in_class(c: char, class: CharClass) -> bool {
    match class {
        CharClass::KernelVersion => is_alnum(c) || c == '.' || c == '_' || c == '+' || c == '-',
        CharClass::Uuid => is_hex(c) || c == '-',
        CharClass::CommandLine => c == '\t' || c == ' ' || is_graphic(c),
        CharClass::TransactionId => is_alnum(c) || c == '-',
        CharClass::Flavor => is_alnum(c) || c == '_' || c == '+' || c == '-',
        CharClass::HookToken => is_alnum(c) || c == '_' || c == '-',
        CharClass::ShellKey => is_alnum(c) || c == '_',
        CharClass::NotControl => !is_control(c),
        CharClass::InsertionPoint => is_alnum(c) || c == '-' || c == '_' || c == '.',
    }
}

pub open spec fn all_in_class(s: Seq<char>, class: CharClass) -> bool {
    forall|i: int| 0 <= i < s.len() ==> in_class(#[trigger] s[i], class)
}

pub fn char_in_class(c: char, class: CharClass) -> (r: bool)
    ensures
        r == in_class(c, class),
{
    match class {
        CharClass::KernelVersion => char_is_alnum(c) || c == '.' || c == '_' || c == '+' || c
            == '-',
        CharClass::Uuid => char_is_hex(c) || c == '-',
        CharClass::CommandLine => c == '\t' || c == ' ' || char_is_graphic(c),
        CharClass::TransactionId => char_is_alnum(c) || c == '-',
        CharClass::Flavor => char_is_alnum(c) || c == '_' || c == '+' || c == '-',
        CharClass::HookToken => char_is_alnum(c) || c == '_' || c == '-',
        CharClass::ShellKey => char_is_alnum(c) || c == '_',
        CharClass::NotControl => !char_is_control(c),
        CharClass::InsertionPoint => char_is_alnum(c) || c == '-' || c == '_' || c == '.',
    }
}

pub fn all_chars_in_class(s: &[char], class: CharClass) -> (r: bool)
    ensures
        r == all_in_class(s@, class),
{
    let mut i: usize = 0;
    while i < s.len()
        invariant
            i <= s.len(),
            forall|j: int| 0 <= j < i ==> in_class(#[trigger] s@[j], class),
        decreases s.len() - i,
    {
        if !char_in_class(s[i], class) {
            return false;
        }
        i = i + 1;
    }
    true
}

/// A nonempty token of at most `max` characters drawn from `class`.
pub open spec fn bounded_token(s: Seq<char>, max: nat, class: CharClass) -> bool {
    0 < s.len() <= max && all_in_class(s, class)
}

pub fn is_bounded_token(s: &[char], max: usize, class: CharClass) -> (r: bool)
    ensures
        r == bounded_token(s@, max as nat, class),
{
    s.len() > 0 && s.len() <= max && all_chars_in_class(s, class)
}

pub fn str_is_bounded_token(s: &str, max: usize, class: CharClass) -> (r: bool)
    ensures
        r == bounded_token(s@, max as nat, class),
{
    let v = chars_of(s);
    is_bounded_token(v.as_slice(), max, class)
}

// ---------------------------------------------------------------------------
// Vectors of strings
// ---------------------------------------------------------------------------

pub open spec fn string_views(v: Seq<String>) -> Seq<Seq<char>> {
    v.map_values(|s: String| s@)
}

pub open spec fn str_views(v: Seq<&str>) -> Seq<Seq<char>> {
    v.map_values(|s: &str| s@)
}

/// Whether the strings of `v` are exactly `lits`, in order.
pub fn strings_equal_strs(v: &Vec<String>, lits: &[&str]) -> (r: bool)
    ensures
        r == (string_views(v@) == str_views(lits@)),
{
    if v.len() != lits.len() {
        assert(string_views(v@).len() != str_views(lits@).len());
        return false;
    }
    let mut i: usize = 0;
    while i < v.len()
        invariant
            v.len() == lits.len(),
            i <= v.len(),
            forall|j: int| 0 <= j < i ==> v@[j]@ == lits@[j]@,
        decreases v.len() - i,
    {
        if !str_eq(v[i].as_str(), lits[i]) {
            assert(string_views(v@)[i as int] != str_views(lits@)[i as int]);
            return false;
        }
        i = i + 1;
    }
    assert(string_views(v@) =~= str_views(lits@));
    true
}

/// Whether the strings of `a` and `b` agree, in order.
pub fn strings_equal(a: &Vec<String>, b: &Vec<String>) -> (r: bool)
    ensures
        r == (string_views(a@) == string_views(b@)),
{
    if a.len() != b.len() {
        assert(string_views(a@).len() != string_views(b@).len());
        return false;
    }
    let mut i: usize = 0;
    while i < a.len()
        invariant
            a.len() == b.len(),
            i <= a.len(),
            forall|j: int| 0 <= j < i ==> a@[j]@ == b@[j]@,
        decreases a.len() - i,
    {
        if !str_eq(a[i].as_str(), b[i].as_str()) {
            assert(string_views(a@)[i as int] != string_views(b@)[i as int]);
            return false;
        }
        i = i + 1;
    }
    assert(string_views(a@) =~= string_views(b@));
    true
}

/// Owned copies of `lits`.
pub fn strings_of(lits: &[&str]) -> (v: Vec<String>)
    ensures
        string_views(v@) == str_views(lits@),
{
    let mut v: Vec<String> = Vec::new();
    let mut i: usize = 0;
    while i < lits.len()
        invariant
            i <= lits.len(),
            v@.len() == i,
            forall|j: int| 0 <= j < i ==> v@[j]@ == lits@[j]@,
        decreases lits.len() - i,
    {
        v.push(String::from_str(lits[i]));
        i = i + 1;
    }
    assert(string_views(v@) =~= str_views(lits@));
    v
}

/// Whether some string of `v` equals `s`.
pub fn strings_contain(v: &Vec<String>, s: &str) -> (r: bool)
    ensures
        r == string_views(v@).contains(s@),
{
    let mut i: usize = 0;
    while i < v.len()
        invariant
            i <= v.len(),
            forall|j: int| 0 <= j < i ==> v@[j]@ != s@,
        decreases v.len() - i,
    {
        if str_eq(v[i].as_str(), s) {
            assert(string_views(v@)[i as int] == s@);
            return true;
        }
        i = i + 1;
    }
    assert forall|j: int| 0 <= j < string_views(v@).len() implies string_views(v@)[j] != s@ by {}
    false
}

/// Whether the strings of `v` are pairwise distinct.
pub fn strings_distinct(v: &Vec<String>) -> (r: bool)
    ensures
        r == distinct_seqs(string_views(v@)),
{
    let mut i: usize = 0;
    while i < v.len()
        invariant
            i <= v.len(),
            forall|a: int, b: int| 0 <= a < b < v.len() && a < i ==> v@[a]@ != v@[b]@,
        decreases v.len() - i,
    {
        let mut j: usize = i + 1;
        while j < v.len()
            invariant
                i < v.len(),
                i + 1 <= j <= v.len(),
                forall|a: int, b: int| 0 <= a < b < v.len() && a < i ==> v@[a]@ != v@[b]@,
                forall|b: int| i < b < j ==> v@[i as int]@ != v@[b]@,
            decreases v.len() - j,
        {
            if str_eq(v[i].as_str(), v[j].as_str()) {
                assert(string_views(v@)[i as int] == string_views(v@)[j as int]);
                return false;
            }
            j = j + 1;
        }
        i = i + 1;
    }
    true
}


// ---------------------------------------------------------------------------
// Number formatting
// ---------------------------------------------------------------------------

/// The digit character for `d` (less than 10).
pub open spec fn digit_char(d: int) -> char {
    if d == 0 { '0' } else if d == 1 { '1' } else if d == 2 { '2' } else if d == 3 { '3' }
    else if d == 4 { '4' } else if d == 5 { '5' } else if d == 6 { '6' } else if d == 7 { '7' }
    else if d == 8 { '8' } else { '9' }
}

/// `n` written in base `base` (2 to 10) without leading zeros.
pub open spec fn spec_digits(n: nat, base: nat) -> Seq<char>
    decreases n,
{
    if base < 2 || n < base {
        seq![digit_char(n as int)]
    } else {
        proof {
            assert(n / base < n) by (nonlinear_arith)
                requires
                    base >= 2,
                    n >= base,
            ;
        }
        spec_digits(n / base, base).push(digit_char((n % base) as int))
    }
}

/// `n` in decimal, as `{}` formats it.
pub open spec fn spec_decimal(n: nat) -> Seq<char> {
    spec_digits(n, 10)
}

/// `n` in octal, zero-padded to at least four digits, as `{:04o}` formats it.
pub open spec fn spec_octal4(n: nat) -> Seq<char> {
    let d = spec_digits(n, 8);
    if d.len() >= 4 {
        d
    } else {
        Seq::new((4 - d.len()) as nat, |i: int| '0') + d
    }
}

fn digit_of(d: u64) -> (c: char)
    requires
        d < 10,
    ensures
        c == digit_char(d as int),
{
    match d {
        0 => '0',
        1 => '1',
        2 => '2',
        3 => '3',
        4 => '4',
        5 => '5',
        6 => '6',
        7 => '7',
        8 => '8',
        _ => '9',
    }
}

fn push_digits(out: &mut Vec<char>, n: u64, base: u64)
    requires
        2 <= base <= 10,
    ensures
        final(out)@ == old(out)@ + spec_digits(n as nat, base as nat),
    decreases n,
{
    if n >= base {
        assert(n / base < n) by (nonlinear_arith)
            requires
                base >= 2,
                n >= base,
        ;
        push_digits(out, n / base, base);
    }
    out.push(digit_of(n % base));
    proof {
        if n >= base {
            assert(spec_digits(n as nat, base as nat) == spec_digits((n / base) as nat, base as nat).push(
                digit_char((n % base) as int),
            ));
        } else {
            vstd::arithmetic::div_mod::lemma_small_mod(n as nat, base as nat);
        }
    }
}

/// `n` in decimal.
pub fn decimal(n: u64) -> (s: String)
    ensures
        s@ == spec_decimal(n as nat),
{
    let mut v: Vec<char> = Vec::new();
    push_digits(&mut v, n, 10);
    assert(v@ == spec_decimal(n as nat));
    string_from_chars(v.as_slice())
}

/// `n` in decimal, zero-padded to at least three digits, as `{:03}`
/// formats it.
pub open spec fn spec_index3(n: nat) -> Seq<char> {
    let d = spec_digits(n, 10);
    if d.len() >= 3 {
        d
    } else {
        Seq::new((3 - d.len()) as nat, |i: int| '0') + d
    }
}

fn push_digits_wide(out: &mut Vec<char>, n: u128)
    ensures
        final(out)@ == old(out)@ + spec_digits(n as nat, 10),
    decreases n,
{
    if n >= 10 {
        push_digits_wide(out, n / 10);
    }
    out.push(digit_of((n % 10) as u64));
    proof {
        if n >= 10 {
            assert(spec_digits(n as nat, 10) == spec_digits((n / 10) as nat, 10).push(digit_char((n % 10) as int)));
        } else {
            vstd::arithmetic::div_mod::lemma_small_mod(n as nat, 10);
        }
    }
}

/// `n` in decimal, at least three digits.
pub fn index3(n: u128) -> (s: String)
    ensures
        s@ == spec_index3(n as nat),
{
    let mut d: Vec<char> = Vec::new();
    push_digits_wide(&mut d, n);
    let mut v: Vec<char> = Vec::new();
    if d.len() < 3 {
        let pad = 3 - d.len();
        let mut i: usize = 0;
        while i < pad
            invariant
                i <= pad,
                v@ == Seq::new(i as nat, |k: int| '0'),
            decreases pad - i,
        {
            v.push('0');
            i = i + 1;
            assert(v@ =~= Seq::new(i as nat, |k: int| '0'));
        }
    }
    let mut j: usize = 0;
    let ghost z = v@;
    while j < d.len()
        invariant
            j <= d@.len(),
            v@ == z + d@.take(j as int),
        decreases d.len() - j,
    {
        v.push(d[j]);
        assert(d@.take(j as int + 1) =~= d@.take(j as int).push(d@[j as int]));
        j = j + 1;
    }
    assert(d@.take(d@.len() as int) =~= d@);
    assert(v@ =~= spec_index3(n as nat));
    string_from_chars(v.as_slice())
}

/// `n` in octal, at least four digits.
pub fn octal4(n: u32) -> (s: String)
    ensures
        s@ == spec_octal4(n as nat),
{
    let mut d: Vec<char> = Vec::new();
    push_digits(&mut d, n as u64, 8);
    let mut v: Vec<char> = Vec::new();
    if d.len() < 4 {
        let pad = 4 - d.len();
        let mut i: usize = 0;
        while i < pad
            invariant
                i <= pad,
                v@ == Seq::new(i as nat, |k: int| '0'),
            decreases pad - i,
        {
            v.push('0');
            i = i + 1;
            assert(v@ =~= Seq::new(i as nat, |k: int| '0'));
        }
    }
    let mut j: usize = 0;
    let ghost base = v@;
    while j < d.len()
        invariant
            j <= d.len(),
            v@ == base + d@.take(j as int),
        decreases d.len() - j,
    {
        v.push(d[j]);
        j = j + 1;
        assert(v@ =~= base + d@.take(j as int));
    }
    assert(d@.take(d.len() as int) =~= d@);
    assert(v@ =~= spec_octal4(n as nat));
    string_from_chars(v.as_slice())
}

} // verus!
