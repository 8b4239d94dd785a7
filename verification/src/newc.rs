//! The `newc` cpio stream format, read without an external unpacker.
//!
//! A stream is a sequence of records.  Each has a 110-byte ASCII header
//! (`070701` or `070702`, then thirteen 8-digit hex fields), a NUL-terminated
//! name padded to four bytes, and data padded to four bytes.  A record named
//! `TRAILER!!!` ends the archive; only zero bytes may follow it.

use crate::text::utf8_to_str;
use vstd::prelude::*;
use vstd::utf8::*;

verus! {

// ---------------------------------------------------------------------------
// Hex fields, as `u64::from_str_radix(text, 16)` reads them
// ---------------------------------------------------------------------------

pub open spec fn is_hex_byte(b: u8) -> bool {
    (48 <= b <= 57) || (65 <= b <= 70) || (97 <= b <= 102)
}

pub open spec fn hex_byte_value(b: u8) -> int {
    if 48 <= b <= 57 {
        b - 48
    } else if 65 <= b <= 70 {
        b - 55
    } else {
        b - 87
    }
}

pub open spec fn all_hex(f: Seq<u8>) -> bool {
    forall|i: int| 0 <= i < f.len() ==> #[trigger] is_hex_byte(f[i])
}

/// Big-endian value of hex digits.
pub open spec fn hex_digits_value(f: Seq<u8>) -> int
    decreases f.len(),
{
    if f.len() == 0 {
        0
    } else {
        hex_digits_value(f.drop_last()) * 16 + hex_byte_value(f.last())
    }
}

/// The field parses: nonempty hex digits, optionally after one `+`.
pub open spec fn hex_field_ok(f: Seq<u8>) -> bool {
    ||| f.len() > 0 && all_hex(f)
    ||| f.len() > 1 && f[0] == 43 && all_hex(f.skip(1))
}

pub open spec fn hex_field_value(f: Seq<u8>) -> int {
    if f.len() > 0 && f[0] == 43 {
        hex_digits_value(f.skip(1))
    } else {
        hex_digits_value(f)
    }
}

pub open spec fn pow16(n: nat) -> int
    decreases n,
{
    if n == 0 {
        1
    } else {
        16 * pow16((n - 1) as nat)
    }
}

proof fn lemma_hex_bound(f: Seq<u8>)
    requires
        all_hex(f),
    ensures
        0 <= hex_digits_value(f) < pow16(f.len()),
    decreases f.len(),
{
    if f.len() > 0 {
        let p = f.drop_last();
        assert(all_hex(p)) by {
            assert forall|i: int| 0 <= i < p.len() implies #[trigger] is_hex_byte(p[i]) by {
                assert(is_hex_byte(f[i]));
            }
        }
        assert(is_hex_byte(f[f.len() - 1]));
        lemma_hex_bound(p);
    }
}

/// Parses the 8-byte header field `c[at..at + 8]`.
fn parse_hex_field(c: &[u8], at: usize) -> (r: Option<u64>)
    requires
        at + 8 <= c.len(),
    ensures
        r is Some <==> hex_field_ok(c@.subrange(at as int, at + 8)),
        r matches Some(v) ==> v == hex_field_value(c@.subrange(at as int, at + 8)),
        r matches Some(v) ==> v < 0x1_0000_0000,
{
    let ghost f = c@.subrange(at as int, at + 8);
    let start: usize = if c[at] == 43 {
        at + 1
    } else {
        at
    };
    let ghost digits = c@.subrange(start as int, at + 8);
    proof {
        if c[at as int] == 43 {
            assert(digits =~= f.skip(1));
        } else {
            assert(digits =~= f);
        }
    }
    if start == at + 8 {
        return None;
    }
    let mut acc: u64 = 0;
    let mut k: usize = start;
    while k < at + 8
        invariant
            at <= start <= k <= at + 8,
            at + 8 <= c.len(),
            digits == c@.subrange(start as int, at + 8),
            f == c@.subrange(at as int, at + 8),
            c@[at as int] == 43 ==> digits == f.skip(1) && start == at + 1,
            c@[at as int] != 43 ==> digits == f && start == at,
            all_hex(c@.subrange(start as int, k as int)),
            acc == hex_digits_value(c@.subrange(start as int, k as int)),
            acc < pow16((k - start) as nat),
            (k - start) <= 8,
        decreases at + 8 - k,
    {
        let b = c[k];
        let ghost prefix = c@.subrange(start as int, k as int);
        let ghost next = c@.subrange(start as int, k + 1);
        assert(next.drop_last() =~= prefix);
        assert(next.last() == b);
        let d: u64 = if 48 <= b && b <= 57 {
            (b - 48) as u64
        } else if 65 <= b && b <= 70 {
            (b - 55) as u64
        } else if 97 <= b && b <= 102 {
            (b - 87) as u64
        } else {
            proof {
                assert(digits[k - start] == b);
                assert(!is_hex_byte(digits[k - start]));
                assert(!all_hex(digits));
                assert(!is_hex_byte(43u8));
                if c[at as int] == 43 {
                    assert(!all_hex(f)) by {
                        assert(f[0] == 43u8);
                    }
                } else {
                    assert(f[0] != 43u8);
                }
            }
            return None;
        };
        proof {
            assert(pow16((k + 1 - start) as nat) == 16 * pow16((k - start) as nat));
            assert(pow16(8) == 4294967296) by {
                reveal_with_fuel(pow16, 9);
            }
            lemma_pow16_mono((k - start) as nat, 7);
        }
        acc = acc * 16 + d;
        k = k + 1;
        proof {
            assert forall|i: int| 0 <= i < next.len() implies #[trigger] is_hex_byte(next[i]) by {
                if i < prefix.len() {
                    assert(next[i] == prefix[i]);
                }
            }
        }
    }
    proof {
        assert(c@.subrange(start as int, k as int) =~= digits);
        lemma_pow16_mono((k - start) as nat, 8);
        assert(pow16(8) == 4294967296) by {
            reveal_with_fuel(pow16, 9);
        }
    }
    Some(acc)
}

proof fn lemma_pow16_mono(a: nat, b: nat)
    requires
        a <= b,
    ensures
        1 <= pow16(a) <= pow16(b),
    decreases b,
{
    if b > 0 {
        if a < b {
            lemma_pow16_mono(a, (b - 1) as nat);
        } else {
            lemma_pow16_mono((a - 1) as nat, (b - 1) as nat);
        }
    }
}

// ---------------------------------------------------------------------------
// Records and streams
// ---------------------------------------------------------------------------

/// Field `k` occupies bytes `6 + 8k .. 14 + 8k` of the header.
pub open spec fn header_field(c: Seq<u8>, off: int, k: int) -> Seq<u8> {
    c.subrange(off + 6 + 8 * k, off + 14 + 8 * k)
}

pub open spec fn magic_ok(c: Seq<u8>, off: int) -> bool {
    let m = c.subrange(off, off + 6);
    m == seq![48u8, 55, 48, 55, 48, 49] || m == seq![48u8, 55, 48, 55, 48, 50]
}

/// Largest data size a single member may declare.
pub open spec fn max_member_bytes() -> int {
    805306368
}

/// Rounds up to a multiple of four.
pub open spec fn align4(v: int) -> int {
    (v + 3) / 4 * 4
}

pub proof fn lemma_align4(v: int)
    requires
        v >= 0,
    ensures
        v <= align4(v) <= v + 3,
{
    assert(v <= (v + 3) / 4 * 4 <= v + 3) by (nonlinear_arith)
        requires
            v >= 0,
    ;
}

/// The record at `off`: `(name, mode, uid, filesize, name_end)`.
pub open spec fn record_at(c: Seq<u8>, off: int) -> Option<(Seq<char>, u32, u64, int, int)> {
    if !(0 <= off && off + 110 <= c.len()) || !magic_ok(c, off) || !hex_field_ok(
        header_field(c, off, 1),
    ) || !hex_field_ok(header_field(c, off, 2)) || !hex_field_ok(header_field(c, off, 6))
        || !hex_field_ok(header_field(c, off, 11)) {
        None
    } else {
        let mode = hex_field_value(header_field(c, off, 1));
        let uid = hex_field_value(header_field(c, off, 2));
        let filesize = hex_field_value(header_field(c, off, 6));
        let namesize = hex_field_value(header_field(c, off, 11));
        let name_end = off + 110 + namesize;
        if namesize <= 0 || namesize > 4096 || filesize < 0 || filesize > max_member_bytes()
            || name_end > c.len() {
            None
        } else {
            let raw = c.subrange(off + 110, name_end - 1);
            if c[name_end - 1] != 0 || raw.contains(0u8) || !valid_utf8(raw) {
                None
            } else {
                Some((decode_utf8(raw), mode as u32, uid as u64, filesize, name_end))
            }
        }
    }
}

/// Only zero bytes remain from `off`.
pub open spec fn zero_tail(c: Seq<u8>, off: int) -> bool {
    forall|k: int| off <= k < c.len() ==> c[k] == 0
}

pub open spec fn trailer_name() -> Seq<char> {
    "TRAILER!!!"@
}

/// The members from `off` on, `(name, mode, uid, data)`, with `trailer`
/// telling whether the trailer was already read; `None` if the stream is
/// malformed.
pub open spec fn walk(c: Seq<u8>, off: int, trailer: bool) -> Option<Seq<(Seq<char>, u32, u64, Seq<u8>)>>
    decreases c.len() + 4 - off,
{
    if off < 0 {
        None
    } else if off >= c.len() || zero_tail(c, off) {
        if trailer {
            Some(Seq::empty())
        } else {
            None
        }
    } else {
        match record_at(c, off) {
            None => None,
            Some((name, mode, uid, filesize, name_end)) => {
                proof {
                    lemma_align4(name_end);
                    lemma_align4(align4(name_end) + filesize);
                }
                if name == trailer_name() {
                    if filesize != 0 || trailer {
                        None
                    } else {
                        walk(c, align4(name_end), true)
                    }
                } else if trailer {
                    None
                } else {
                    let data_start = align4(name_end);
                    let data_end = data_start + filesize;
                    if data_end > c.len() {
                        None
                    } else {
                        match walk(c, align4(data_end), false) {
                            None => None,
                            Some(rest) => Some(
                                seq![(name, mode, uid, c.subrange(data_start, data_end))] + rest,
                            ),
                        }
                    }
                }
            },
        }
    }
}

/// The members of a well-formed stream.
pub open spec fn newc_members(c: Seq<u8>) -> Option<Seq<(Seq<char>, u32, u64, Seq<u8>)>> {
    walk(c, 0, false)
}

/// One member as read: its name, mode, owner, and where its data lies.
#[derive(Debug, Clone, PartialEq, Eq)]
pub struct NewcEntry {
    pub name: String,
    pub mode: u32,
    pub uid: u64,
    pub data_start: usize,
    pub data_len: usize,
}

pub open spec fn entry_view(c: Seq<u8>, e: NewcEntry) -> (Seq<char>, u32, u64, Seq<u8>) {
    (e.name@, e.mode, e.uid, c.subrange(e.data_start as int, e.data_start + e.data_len))
}

pub open spec fn entries_view(c: Seq<u8>, es: Seq<NewcEntry>) -> Seq<(Seq<char>, u32, u64, Seq<u8>)> {
    es.map_values(|e: NewcEntry| entry_view(c, e))
}

/// The data of every entry lies inside `c`.
pub open spec fn entries_in_bounds(c: Seq<u8>, es: Seq<NewcEntry>) -> bool {
    forall|i: int|
        0 <= i < es.len() ==> (#[trigger] es[i]).data_start + es[i].data_len <= c.len()
}

fn zero_from(c: &[u8], off: usize) -> (r: bool)
    ensures
        r == zero_tail(c@, off as int),
{
    let mut k = off;
    while k < c.len()
        invariant
            off <= k,
            forall|j: int| off <= j < k ==> c@[j] == 0,
        decreases c.len() - k,
    {
        if c[k] != 0 {
            return false;
        }
        k = k + 1;
    }
    true
}

fn magic_at(c: &[u8], off: usize) -> (r: bool)
    requires
        off + 110 <= c.len(),
    ensures
        r == magic_ok(c@, off as int),
{
    let ok = c[off] == 48 && c[off + 1] == 55 && c[off + 2] == 48 && c[off + 3] == 55 && c[off
        + 4] == 48 && (c[off + 5] == 49 || c[off + 5] == 50);
    let ghost m = c@.subrange(off as int, off + 6);
    proof {
        if ok {
            if c[off + 5] == 49 {
                assert(m =~= seq![48u8, 55, 48, 55, 48, 49]);
            } else {
                assert(m =~= seq![48u8, 55, 48, 55, 48, 50]);
            }
        } else {
            if m == seq![48u8, 55, 48, 55, 48, 49] {
                assert(m[5] == 49);
            }
            if m == seq![48u8, 55, 48, 55, 48, 50] {
                assert(m[5] == 50);
            }
        }
    }
    ok
}

fn contains_nul(c: &[u8], a: usize, b: usize) -> (r: bool)
    requires
        a <= b <= c.len(),
    ensures
        r == c@.subrange(a as int, b as int).contains(0u8),
{
    let mut k = a;
    while k < b
        invariant
            a <= k <= b <= c.len(),
            forall|j: int| a <= j < k ==> c@[j] != 0,
        decreases b - k,
    {
        if c[k] == 0 {
            assert(c@.subrange(a as int, b as int)[k - a] == 0);
            return true;
        }
        k = k + 1;
    }
    assert forall|j: int| 0 <= j < b - a implies c@.subrange(a as int, b as int)[j] != 0 by {
        assert(c@[a + j] != 0);
    }
    false
}

/// The record at `off`, as [`record_at`] reads it.
fn read_record(c: &[u8], off: usize) -> (r: Option<(String, u32, u64, u64, usize)>)
    requires
        c.len() <= max_member_bytes(),
    ensures
        match record_at(c@, off as int) {
            None => r is None,
            Some((name, mode, uid, size, end)) => r matches Some((n, m, u, s, e)) && n@ == name
                && m == mode && u == uid && s == size && e == end,
        },
{
    if off > c.len() || c.len() - off < 110 {
        return None;
    }
    if !magic_at(c, off) {
        return None;
    }
    let mode = match parse_hex_field(c, off + 14) {
        Some(v) => v,
        None => {
            return None;
        },
    };
    let uid = match parse_hex_field(c, off + 22) {
        Some(v) => v,
        None => {
            return None;
        },
    };
    let filesize = match parse_hex_field(c, off + 54) {
        Some(v) => v,
        None => {
            return None;
        },
    };
    let namesize = match parse_hex_field(c, off + 94) {
        Some(v) => v,
        None => {
            return None;
        },
    };
    proof {
        assert(c@.subrange(off + 14, off + 22) == header_field(c@, off as int, 1));
        assert(c@.subrange(off + 22, off + 30) == header_field(c@, off as int, 2));
        assert(c@.subrange(off + 54, off + 62) == header_field(c@, off as int, 6));
        assert(c@.subrange(off + 94, off + 102) == header_field(c@, off as int, 11));
    }
    if namesize == 0 || namesize > 4096 || filesize > 805306368 {
        return None;
    }
    let name_end = off + 110 + namesize as usize;
    if name_end > c.len() {
        return None;
    }
    if c[name_end - 1] != 0 || contains_nul(c, off + 110, name_end - 1) {
        return None;
    }
    let raw = slice_bytes(c, off + 110, name_end - 1);
    let name = match utf8_to_str(raw.as_slice()) {
        Some(s) => s,
        None => {
            return None;
        },
    };
    Some((String::from_str(name), mode as u32, uid, filesize, name_end))
}

fn slice_bytes(c: &[u8], a: usize, b: usize) -> (r: Vec<u8>)
    requires
        a <= b <= c.len(),
    ensures
        r@ == c@.subrange(a as int, b as int),
{
    let mut r: Vec<u8> = Vec::new();
    let mut k = a;
    while k < b
        invariant
            a <= k <= b <= c.len(),
            r@ == c@.subrange(a as int, k as int),
        decreases b - k,
    {
        r.push(c[k]);
        k = k + 1;
        assert(r@ =~= c@.subrange(a as int, k as int));
    }
    r
}

fn align4_exec(v: usize) -> (r: usize)
    requires
        v + 3 <= usize::MAX,
    ensures
        r == align4(v as int),
        v <= r <= v + 3,
{
    proof {
        lemma_align4(v as int);
    }
    (v + 3) / 4 * 4
}

/// Reads every member of the stream `c`; `None` if it is not one
/// well-formed `newc` archive ending in a trailer.
pub fn parse_newc(c: &[u8]) -> (r: Option<Vec<NewcEntry>>)
    requires
        c.len() <= max_member_bytes(),
    ensures
        r is Some <==> newc_members(c@) is Some,
        r matches Some(es) ==> entries_view(c@, es@) == newc_members(c@)->0 && entries_in_bounds(
            c@,
            es@,
        ),
{
    let mut entries: Vec<NewcEntry> = Vec::new();
    let mut offset: usize = 0;
    let mut trailer = false;
    loop
        invariant
            c.len() <= max_member_bytes(),
            entries_in_bounds(c@, entries@),
            offset <= c.len() + 3,
            newc_members(c@) == match walk(c@, offset as int, trailer) {
                None => None,
                Some(rest) => Some(entries_view(c@, entries@) + rest),
            },
        decreases c.len() + 4 - offset,
    {
        if offset >= c.len() || zero_from(c, offset) {
            if trailer {
                proof {
                    assert(entries_view(c@, entries@) + Seq::<(Seq<char>, u32, u64, Seq<u8>)>::empty()
                        =~= entries_view(c@, entries@));
                }
                return Some(entries);
            }
            return None;
        }
        let (name, mode, uid, filesize, name_end) = match read_record(c, offset) {
            Some(rec) => rec,
            None => {
                return None;
            },
        };
        proof {
            reveal_strlit("TRAILER!!!");
        }
        if crate::text::str_eq(name.as_str(), "TRAILER!!!") {
            if filesize != 0 || trailer {
                return None;
            }
            trailer = true;
            offset = align4_exec(name_end);
        } else {
            if trailer {
                return None;
            }
            let data_start = align4_exec(name_end);
            if data_start > c.len() || c.len() - data_start < filesize as usize {
                return None;
            }
            let data_end = data_start + filesize as usize;
            let ghost before = entries@;
            let entry = NewcEntry { name, mode, uid, data_start, data_len: filesize as usize };
            entries.push(entry);
            proof {
                let ghost tail = walk(c@, align4(data_end as int), false);
                assert(entries_view(c@, entries@) =~= entries_view(c@, before) + seq![
                    entry_view(c@, entry),
                ]);
                if tail is Some {
                    assert(entries_view(c@, entries@) + tail->0 =~= entries_view(c@, before) + (
                    seq![entry_view(c@, entry)] + tail->0));
                }
            }
            offset = align4_exec(data_end);
        }
    }
}

// ---------------------------------------------------------------------------
// Member paths, as `std::path::Path` reads a relative name
// ---------------------------------------------------------------------------

/// `s` split at every `sep`, keeping empty pieces.
pub open spec fn split_on(s: Seq<char>, sep: char) -> Seq<Seq<char>>
    decreases s.len(),
{
    if s.len() == 0 {
        seq![Seq::empty()]
    } else {
        let prev = split_on(s.drop_last(), sep);
        if s.last() == sep {
            prev.push(Seq::empty())
        } else {
            prev.update(prev.len() - 1, prev.last().push(s.last()))
        }
    }
}

/// A piece that is a normal path component.
pub open spec fn normal_piece(p: Seq<char>) -> bool {
    p.len() > 0 && p != seq!['.']
}

/// The normal components among `pieces`, in order.
pub open spec fn normal_pieces(pieces: Seq<Seq<char>>) -> Seq<Seq<char>>
    decreases pieces.len(),
{
    if pieces.len() == 0 {
        Seq::empty()
    } else {
        let prev = normal_pieces(pieces.drop_last());
        if normal_piece(pieces.last()) {
            prev.push(pieces.last())
        } else {
            prev
        }
    }
}

/// `parts` joined with `/`.
pub open spec fn join_slash(parts: Seq<Seq<char>>) -> Seq<char>
    decreases parts.len(),
{
    if parts.len() == 0 {
        Seq::empty()
    } else if parts.len() == 1 {
        parts[0]
    } else {
        join_slash(parts.drop_last()) + seq!['/'] + parts.last()
    }
}

/// The components of a relative name, if all are normal (a `.` after the
/// first is dropped, as `Path::components` does).
pub open spec fn relative_components(n: Seq<char>) -> Option<Seq<char>> {
    let pieces = split_on(n, '/');
    if n.len() == 0 || n[0] == '/' || encode_utf8(n).len() > 4096 || pieces[0] == seq!['.'] || pieces.contains(
        seq!['.', '.'],
    ) {
        None
    } else {
        Some(join_slash(normal_pieces(pieces)))
    }
}

/// `n` without one leading `./`.
pub open spec fn strip_dot_slash(n: Seq<char>) -> Seq<char> {
    if n.len() >= 2 && n[0] == '.' && n[1] == '/' {
        n.skip(2)
    } else {
        n
    }
}

proof fn lemma_split_nonempty(s: Seq<char>, sep: char)
    ensures
        split_on(s, sep).len() >= 1,
    decreases s.len(),
{
    if s.len() > 0 {
        lemma_split_nonempty(s.drop_last(), sep);
    }
}

proof fn lemma_join_push(np: Seq<Seq<char>>, piece: Seq<char>)
    ensures
        join_slash(np.push(piece)) == if np.len() == 0 {
            piece
        } else {
            join_slash(np) + seq!['/'] + piece
        },
{
    assert(np.push(piece).drop_last() =~= np);
}

/// Appends `piece` to the joined components in `out`.
fn push_piece(out: &mut Vec<char>, kept: usize, piece: &Vec<char>)
    ensures
        final(out)@ == if kept == 0 {
            old(out)@ + piece@
        } else {
            old(out)@ + seq!['/'] + piece@
        },
{
    if kept > 0 {
        out.push('/');
    }
    let ghost base = out@;
    let mut k: usize = 0;
    while k < piece.len()
        invariant
            k <= piece.len(),
            out@ == base + piece@.take(k as int),
        decreases piece.len() - k,
    {
        out.push(piece[k]);
        k = k + 1;
        assert(out@ =~= base + piece@.take(k as int));
    }
    assert(piece@.take(piece.len() as int) =~= piece@);
}

proof fn lemma_contains_push(done: Seq<Seq<char>>, piece: Seq<char>, x: Seq<char>)
    ensures
        done.push(piece).contains(x) == (done.contains(x) || piece == x),
{
    let d = done.push(piece);
    if d.contains(x) {
        let j = choose|j: int| 0 <= j < d.len() && d[j] == x;
        if j < done.len() {
            assert(done[j] == d[j]);
        }
    }
    if done.contains(x) {
        let j = choose|j: int| 0 <= j < done.len() && done[j] == x;
        assert(d[j] == done[j]);
    }
    if piece == x {
        assert(d[done.len() as int] == piece);
    }
}

fn is_piece(cur: &Vec<char>, a: char, b: Option<char>) -> (r: bool)
    ensures
        r == (cur@ == match b {
            None => seq![a],
            Some(c2) => seq![a, c2],
        }),
{
    match b {
        None => {
            let r = cur.len() == 1 && cur[0] == a;
            proof {
                if cur@ == seq![a] {
                    assert(cur@.len() == 1);
                }
                if r {
                    assert(cur@ =~= seq![a]);
                }
            }
            r
        },
        Some(c2) => {
            let r = cur.len() == 2 && cur[0] == a && cur[1] == c2;
            proof {
                if cur@ == seq![a, c2] {
                    assert(cur@.len() == 2);
                }
                if r {
                    assert(cur@ =~= seq![a, c2]);
                }
            }
            r
        },
    }
}

/// The normalized components of `n`, as [`relative_components`] states.
pub fn relative_components_exec(n: &str) -> (r: Option<String>)
    ensures
        r is Some <==> relative_components(n@) is Some,
        r matches Some(p) ==> p@ == relative_components(n@)->0,
{
    let v = crate::text::chars_of(n);
    if v.len() == 0 || v[0] == '/' || crate::text::str_bytes(n).len() > 4096 {
        return None;
    }
    // `done` holds the finished pieces; `cur` the one being read.
    let ghost mut done: Seq<Seq<char>> = Seq::empty();
    let mut n_done: usize = 0;
    let mut cur: Vec<char> = Vec::new();
    let mut out: Vec<char> = Vec::new();
    let mut kept: usize = 0;
    let mut first_dot = false;
    let mut parent = false;
    let mut i: usize = 0;
    assert(v@.take(0) =~= Seq::<char>::empty());
    while i < v.len()
        invariant
            i <= v.len(),
            v@ == n@,
            split_on(v@.take(i as int), '/') == done.push(cur@),
            out@ == join_slash(normal_pieces(done)),
            kept == normal_pieces(done).len(),
            n_done == done.len(),
            n_done <= i,
            kept <= n_done,
            parent == done.contains(seq!['.', '.']),
            done.len() > 0 ==> (first_dot <==> done[0] == seq!['.']),
        decreases v.len() - i,
    {
        let ch = v[i];
        proof {
            assert(v@.take(i + 1).drop_last() =~= v@.take(i as int));
            assert(v@.take(i + 1).last() == ch);
        }
        if ch == '/' {
            let ghost old_done = done;
            let is_dot = is_piece(&cur, '.', None);
            let is_dotdot = is_piece(&cur, '.', Some('.'));
            proof {
                done = done.push(cur@);
                assert(done.drop_last() =~= old_done);
                assert(split_on(v@.take(i + 1), '/') =~= done.push(Seq::<char>::empty()));
                lemma_contains_push(old_done, cur@, seq!['.', '.']);
                if old_done.len() == 0 {
                    assert(done[0] == cur@);
                } else {
                    assert(done[0] == old_done[0]);
                }
            }
            if n_done == 0 {
                first_dot = is_dot;
            }
            if is_dotdot {
                parent = true;
            }
            if cur.len() > 0 && !is_dot {
                proof {
                    lemma_join_push(normal_pieces(old_done), cur@);
                }
                push_piece(&mut out, kept, &cur);
                kept = kept + 1;
            }
            n_done = n_done + 1;
            cur = Vec::new();
        } else {
            cur.push(ch);
            proof {
                assert(split_on(v@.take(i + 1), '/') =~= done.push(cur@));
            }
        }
        i = i + 1;
    }
    assert(v@.take(v.len() as int) =~= v@);
    let is_dot = is_piece(&cur, '.', None);
    let is_dotdot = is_piece(&cur, '.', Some('.'));
    let ghost pieces = done.push(cur@);
    proof {
        assert(pieces.drop_last() =~= done);
        lemma_contains_push(done, cur@, seq!['.', '.']);
        if done.len() == 0 {
            assert(pieces[0] == cur@);
        } else {
            assert(pieces[0] == done[0]);
        }
    }
    let leading_dot = if n_done == 0 {
        is_dot
    } else {
        first_dot
    };
    if leading_dot || parent || is_dotdot {
        return None;
    }
    if cur.len() > 0 && !is_dot {
        proof {
            lemma_join_push(normal_pieces(done), cur@);
        }
        push_piece(&mut out, kept, &cur);
    }
    Some(crate::text::string_from_chars(out.as_slice()))
}


// ---------------------------------------------------------------------------
// Member paths and totals
// ---------------------------------------------------------------------------

/// The archive path of a member named `name`.  The explicit root record `.`
/// maps to the empty path, or stays `.` where `keep_root_dot` asks for it;
/// every other name loses one leading `./` and must be a relative path of
/// normal components.
pub open spec fn member_path(name: Seq<char>, keep_root_dot: bool) -> Option<Seq<char>> {
    if keep_root_dot && name == seq!['.'] {
        Some(seq!['.'])
    } else {
        let n = strip_dot_slash(name);
        if !keep_root_dot && n == seq!['.'] {
            Some(Seq::empty())
        } else {
            relative_components(n)
        }
    }
}

/// Every member has a path.
pub open spec fn all_paths_ok(ms: Seq<(Seq<char>, u32, u64, Seq<u8>)>, keep_root_dot: bool) -> bool {
    forall|i: int| 0 <= i < ms.len() ==> (#[trigger] member_path(ms[i].0, keep_root_dot)) is Some
}

/// The members' paths, in order.
pub open spec fn member_paths(ms: Seq<(Seq<char>, u32, u64, Seq<u8>)>, keep_root_dot: bool) -> Seq<
    Seq<char>,
> {
    Seq::new(ms.len(), |i: int| member_path(ms[i].0, keep_root_dot)->0)
}

/// Total data bytes of the members.
pub open spec fn total_data(ms: Seq<(Seq<char>, u32, u64, Seq<u8>)>) -> int
    decreases ms.len(),
{
    if ms.len() == 0 {
        0
    } else {
        total_data(ms.drop_last()) + ms.last().3.len()
    }
}

/// Some member has path `p` and data `data`.
pub open spec fn has_member_with(
    ms: Seq<(Seq<char>, u32, u64, Seq<u8>)>,
    keep_root_dot: bool,
    p: Seq<char>,
    data: Seq<u8>,
) -> bool {
    exists|i: int|
        0 <= i < ms.len() && #[trigger] member_paths(ms, keep_root_dot)[i] == p && ms[i].3 == data
}

/// The file-type bits name a regular file.
pub open spec fn is_regular_mode(mode: u32) -> bool {
    mode & 0o170000u32 == 0o100000u32
}

/// The file-type bits name a directory.
pub open spec fn is_directory_mode(mode: u32) -> bool {
    mode & 0o170000u32 == 0o040000u32
}

/// The path of member `name`.
pub fn member_path_exec(name: &str, keep_root_dot: bool) -> (r: Option<String>)
    ensures
        r is Some <==> member_path(name@, keep_root_dot) is Some,
        r matches Some(p) ==> p@ == member_path(name@, keep_root_dot)->0,
{
    proof {
        reveal_strlit("./");
        reveal_strlit(".");
    }
    let v = crate::text::chars_of(name);
    if keep_root_dot && v.len() == 1 && v[0] == '.' {
        assert(name@ =~= seq!['.']);
        return Some(String::from_str("."));
    }
    proof {
        if keep_root_dot && name@ == seq!['.'] {
            assert(v@.len() == 1);
        }
    }
    let n = match crate::text::strip_prefix(name, "./") {
        Some(rest) => rest,
        None => name,
    };
    proof {
        assert("./"@ =~= seq!['.', '/']);
        if name@.len() >= 2 && name@[0] == '.' && name@[1] == '/' {
            assert(name@.subrange(0, 2) =~= seq!['.', '/']);
            assert(crate::text::has_prefix(name@, "./"@));
            assert(n@ == name@.skip(2));
        } else {
            assert(!crate::text::has_prefix(name@, "./"@)) by {
                if crate::text::has_prefix(name@, "./"@) {
                    assert(name@.subrange(0, 2) == "./"@);
                    assert(name@[0] == name@.subrange(0, 2)[0]);
                    assert(name@[1] == name@.subrange(0, 2)[1]);
                }
            }
        }
        assert(n@ == strip_dot_slash(name@));
    }
    let w = crate::text::chars_of(n);
    if !keep_root_dot && w.len() == 1 && w[0] == '.' {
        assert(n@ =~= seq!['.']);
        return Some(String::new());
    }
    proof {
        if !keep_root_dot && n@ == seq!['.'] {
            assert(w@.len() == 1);
        }
    }
    relative_components_exec(n)
}

/// The paths of all entries, if every name is acceptable.
pub fn entry_paths(c: &[u8], entries: &Vec<NewcEntry>, keep_root_dot: bool) -> (r: Option<Vec<String>>)
    ensures
        r is Some <==> all_paths_ok(entries_view(c@, entries@), keep_root_dot),
        r matches Some(ps) ==> ps.len() == entries.len() && crate::text::string_views(ps@)
            == member_paths(entries_view(c@, entries@), keep_root_dot),
{
    let ghost ms = entries_view(c@, entries@);
    let mut ps: Vec<String> = Vec::new();
    let mut i: usize = 0;
    while i < entries.len()
        invariant
            i <= entries.len(),
            ms == entries_view(c@, entries@),
            ps.len() == i,
            forall|k: int| 0 <= k < i ==> (#[trigger] member_path(ms[k].0, keep_root_dot)) is Some,
            forall|k: int| 0 <= k < i ==> ps@[k]@ == member_path(ms[k].0, keep_root_dot)->0,
        decreases entries.len() - i,
    {
        assert(ms[i as int].0 == entries@[i as int].name@);
        match member_path_exec(entries[i].name.as_str(), keep_root_dot) {
            Some(p) => {
                ps.push(p);
            },
            None => {
                return None;
            },
        }
        i = i + 1;
    }
    assert(crate::text::string_views(ps@) =~= member_paths(ms, keep_root_dot));
    Some(ps)
}

proof fn lemma_total_prefix(ms: Seq<(Seq<char>, u32, u64, Seq<u8>)>, k: int)
    requires
        0 <= k <= ms.len(),
    ensures
        0 <= total_data(ms.take(k)) <= total_data(ms),
    decreases ms.len() - k,
{
    lemma_total_nonneg(ms.take(k));
    if k < ms.len() {
        lemma_total_prefix(ms, k + 1);
        assert(ms.take(k + 1).drop_last() =~= ms.take(k));
    } else {
        assert(ms.take(k) =~= ms);
        lemma_total_nonneg(ms);
    }
}

proof fn lemma_total_nonneg(ms: Seq<(Seq<char>, u32, u64, Seq<u8>)>)
    ensures
        total_data(ms) >= 0,
    decreases ms.len(),
{
    if ms.len() > 0 {
        lemma_total_nonneg(ms.drop_last());
    }
}

/// The total data bytes of the entries, if at most `limit`.
pub fn total_data_within(c: &[u8], entries: &Vec<NewcEntry>, limit: u64) -> (r: Option<u64>)
    requires
        entries_in_bounds(c@, entries@),
    ensures
        r is Some <==> total_data(entries_view(c@, entries@)) <= limit,
        r matches Some(t) ==> t == total_data(entries_view(c@, entries@)),
{
    let ghost ms = entries_view(c@, entries@);
    let mut total: u64 = 0;
    let mut i: usize = 0;
    while i < entries.len()
        invariant
            i <= entries.len(),
            ms == entries_view(c@, entries@),
            entries_in_bounds(c@, entries@),
            total <= limit,
            total == total_data(ms.take(i as int)),
        decreases entries.len() - i,
    {
        let n = entries[i].data_len;
        proof {
            assert(ms.take(i + 1).drop_last() =~= ms.take(i as int));
            assert(ms.take(i + 1).last() == ms[i as int]);
            assert(ms[i as int].3.len() == entries@[i as int].data_len) by {
                assert(ms[i as int] == entry_view(c@, entries@[i as int]));
                assert(entries@[i as int].data_start + entries@[i as int].data_len <= c.len());
            }
        }
        if n as u64 > limit - total {
            proof {
                lemma_total_prefix(ms, i + 1);
            }
            return None;
        }
        total = total + n as u64;
        i = i + 1;
    }
    assert(ms.take(entries.len() as int) =~= ms);
    Some(total)
}

/// Whether entry `e`'s data equals `expected`.
pub fn entry_data_eq(c: &[u8], e: &NewcEntry, expected: &[u8]) -> (r: bool)
    requires
        e.data_start + e.data_len <= c.len(),
    ensures
        r == (entry_view(c@, *e).3 == expected@),
{
    if e.data_len != expected.len() {
        return false;
    }
    let mut k: usize = 0;
    while k < e.data_len
        invariant
            k <= e.data_len == expected.len(),
            e.data_start + e.data_len <= c.len(),
            forall|j: int| 0 <= j < k ==> c@[e.data_start + j] == expected@[j],
        decreases e.data_len - k,
    {
        if c[e.data_start + k] != expected[k] {
            assert(entry_view(c@, *e).3[k as int] != expected@[k as int]);
            return false;
        }
        k = k + 1;
    }
    assert(entry_view(c@, *e).3 =~= expected@);
    true
}

/// The first index of `p` among `paths`.
pub fn find_path(paths: &Vec<String>, p: &str) -> (r: Option<usize>)
    ensures
        r matches Some(i) ==> i < paths.len() && paths@[i as int]@ == p@,
        r is None ==> forall|i: int| 0 <= i < paths.len() ==> paths@[i]@ != p@,
{
    let mut i: usize = 0;
    while i < paths.len()
        invariant
            i <= paths.len(),
            forall|k: int| 0 <= k < i ==> paths@[k]@ != p@,
        decreases paths.len() - i,
    {
        if crate::text::str_eq(paths[i].as_str(), p) {
            return Some(i);
        }
        i = i + 1;
    }
    None
}

pub proof fn lemma_unique_member(
    ms: Seq<(Seq<char>, u32, u64, Seq<u8>)>,
    keep: bool,
    i: int,
    p: Seq<char>,
    data: Seq<u8>,
)
    requires
        crate::text::distinct_seqs(member_paths(ms, keep)),
        0 <= i < ms.len(),
        member_paths(ms, keep)[i] == p,
    ensures
        has_member_with(ms, keep, p, data) <==> ms[i].3 == data,
{
    if has_member_with(ms, keep, p, data) {
        let j = choose|j: int|
            0 <= j < ms.len() && #[trigger] member_paths(ms, keep)[j] == p && ms[j].3 == data;
        if j != i {
            if j < i {
                assert(member_paths(ms, keep)[j] != member_paths(ms, keep)[i]);
            } else {
                assert(member_paths(ms, keep)[i] != member_paths(ms, keep)[j]);
            }
        }
    }
}

/// Whether the member at path `p` exists and carries exactly `data`.
pub fn member_with_data(
    c: &[u8],
    entries: &Vec<NewcEntry>,
    ps: &Vec<String>,
    keep: bool,
    p: &str,
    data: &[u8],
) -> (r: Option<usize>)
    requires
        ps.len() == entries.len(),
        entries_in_bounds(c@, entries@),
        crate::text::string_views(ps@) == member_paths(entries_view(c@, entries@), keep),
        crate::text::distinct_seqs(member_paths(entries_view(c@, entries@), keep)),
    ensures
        r is Some <==> has_member_with(entries_view(c@, entries@), keep, p@, data@),
        r matches Some(i) ==> i < entries.len() && member_paths(entries_view(c@, entries@), keep)[i as int] == p@,
{
    let ghost ms = entries_view(c@, entries@);
    match crate::newc::find_path(ps, p) {
        None => {
            proof {
                if has_member_with(ms, keep, p@, data@) {
                    let j = choose|j: int|
                        0 <= j < ms.len() && #[trigger] member_paths(ms, keep)[j] == p@ && ms[j].3 == data@;
                    assert(crate::text::string_views(ps@)[j] == ps@[j]@);
                }
            }
            None
        },
        Some(i) => {
            proof {
                assert(crate::text::string_views(ps@)[i as int] == ps@[i as int]@);
                lemma_unique_member(ms, keep, i as int, p@, data@);
                assert(ms[i as int] == entry_view(c@, entries@[i as int]));
            }
            if crate::newc::entry_data_eq(c, &entries[i], data) {
                Some(i)
            } else {
                None
            }
        },
    }
}

} // verus!
