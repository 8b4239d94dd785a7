//! Unpacked initramfs inventories: the entries an archive inspector reports
//! and the relations every backend's inspection shares.

use crate::paths::{archive_path_is_safe, spec_archive_path_is_safe};
use crate::text::{contains, str_contains, str_eq};
use vstd::prelude::*;

verus! {

/// The kind of one unpacked archive member.
#[derive(Debug, Clone, Copy, PartialEq, Eq, Structural)]
pub enum ArchiveEntryKind {
    File,
    Directory,
    Symlink,
    CharacterDevice { major: u32, minor: u32 },
}

/// One unpacked archive member.
#[derive(Debug, Clone, PartialEq, Eq)]
pub struct ArchiveEntry {
    pub path: String,
    pub kind: ArchiveEntryKind,
    pub mode: u32,
    /// Exact bytes for bounded regular files; symlinks store their target.
    pub bytes: Vec<u8>,
}

/// Total bytes recorded by `es`.
pub open spec fn archive_bytes(es: Seq<ArchiveEntry>) -> int
    decreases es.len(),
{
    if es.len() == 0 {
        0
    } else {
        archive_bytes(es.drop_last()) + es.last().bytes@.len()
    }
}

pub proof fn lemma_archive_bytes_monotone(es: Seq<ArchiveEntry>, i: int)
    requires
        0 <= i <= es.len(),
    ensures
        0 <= archive_bytes(es.take(i)) <= archive_bytes(es),
    decreases es.len() - i,
{
    if i < es.len() {
        lemma_archive_bytes_monotone(es, i + 1);
        lemma_archive_bytes_nonneg(es.take(i));
        assert(es.take(i + 1).drop_last() =~= es.take(i));
    } else {
        assert(es.take(i) =~= es);
        lemma_archive_bytes_nonneg(es);
    }
}

pub proof fn lemma_archive_bytes_nonneg(es: Seq<ArchiveEntry>)
    ensures
        archive_bytes(es) >= 0,
    decreases es.len(),
{
    if es.len() > 0 {
        lemma_archive_bytes_nonneg(es.drop_last());
    }
}

/// No two members share a path.
pub open spec fn archive_paths_distinct(es: Seq<ArchiveEntry>) -> bool {
    forall|i: int, j: int| 0 <= i < j < es.len() ==> es[i].path@ != es[j].path@
}

/// The member at `p` is a regular file with some execute bit.
pub open spec fn has_executable_file(es: Seq<ArchiveEntry>, p: Seq<char>) -> bool {
    exists|i: int|
        0 <= i < es.len() && es[i].path@ == p && es[i].kind == ArchiveEntryKind::File && es[i].mode
            & 0o111u32 != 0
}

/// The member at `p` has exactly this kind, mode and bytes.
pub open spec fn entry_is(
    es: Seq<ArchiveEntry>,
    p: Seq<char>,
    kind: ArchiveEntryKind,
    mode: u32,
    bytes: Seq<u8>,
) -> bool {
    exists|i: int|
        0 <= i < es.len() && es[i].path@ == p && es[i].kind == kind && es[i].mode == mode
            && es[i].bytes@ == bytes
}

/// The member at `p` is a symlink to `target`.
pub open spec fn symlink_is(es: Seq<ArchiveEntry>, p: Seq<char>, target: Seq<u8>) -> bool {
    exists|i: int|
        0 <= i < es.len() && es[i].path@ == p && es[i].kind == ArchiveEntryKind::Symlink
            && es[i].bytes@ == target
}

/// Some member path contains `needle`.
pub open spec fn some_path_contains(es: Seq<ArchiveEntry>, needle: Seq<char>) -> bool {
    exists|i: int| 0 <= i < es.len() && contains(es[i].path@, needle)
}

/// The index of the member at `p`, if any.
pub fn find_entry(es: &[ArchiveEntry], p: &str) -> (r: Option<usize>)
    ensures
        r matches Some(i) ==> i < es@.len() && es@[i as int].path@ == p@,
        r is None ==> forall|i: int| 0 <= i < es@.len() ==> es@[i].path@ != p@,
{
    let mut i: usize = 0;
    while i < es.len()
        invariant
            i <= es@.len(),
            forall|j: int| 0 <= j < i ==> es@[j].path@ != p@,
        decreases es.len() - i,
    {
        if str_eq(es[i].path.as_str(), p) {
            return Some(i);
        }
        i = i + 1;
    }
    None
}

/// Whether the member at `p` is an executable regular file.
pub fn has_executable_file_exec(es: &[ArchiveEntry], p: &str) -> (r: bool)
    requires
        archive_paths_distinct(es@),
    ensures
        r == has_executable_file(es@, p@),
{
    match find_entry(es, p) {
        Some(i) => es[i].kind == ArchiveEntryKind::File && es[i].mode & 0o111u32 != 0,
        None => false,
    }
}

/// Whether the member at `p` has exactly this kind, mode and bytes.
pub fn entry_is_exec(
    es: &[ArchiveEntry],
    p: &str,
    kind: ArchiveEntryKind,
    mode: u32,
    bytes: &[u8],
) -> (r: bool)
    requires
        archive_paths_distinct(es@),
    ensures
        r == entry_is(es@, p@, kind, mode, bytes@),
{
    match find_entry(es, p) {
        Some(i) => es[i].kind == kind && es[i].mode == mode && bytes_eq(es[i].bytes.as_slice(), bytes),
        None => false,
    }
}

/// Whether the member at `p` is a symlink to `target`.
pub fn symlink_is_exec(es: &[ArchiveEntry], p: &str, target: &[u8]) -> (r: bool)
    requires
        archive_paths_distinct(es@),
    ensures
        r == symlink_is(es@, p@, target@),
{
    match find_entry(es, p) {
        Some(i) => es[i].kind == ArchiveEntryKind::Symlink && bytes_eq(es[i].bytes.as_slice(), target),
        None => false,
    }
}

/// Whether some member path contains `needle`.
pub fn some_path_contains_exec(es: &[ArchiveEntry], needle: &str) -> (r: bool)
    ensures
        r == some_path_contains(es@, needle@),
{
    let mut i: usize = 0;
    while i < es.len()
        invariant
            i <= es@.len(),
            forall|j: int| 0 <= j < i ==> !contains(#[trigger] es@[j].path@, needle@),
        decreases es.len() - i,
    {
        if str_contains(es[i].path.as_str(), needle) {
            return true;
        }
        i = i + 1;
    }
    false
}

/// A copy of `b`.
pub fn copy_bytes(b: &[u8]) -> (r: Vec<u8>)
    ensures
        r@ == b@,
{
    let mut r: Vec<u8> = Vec::new();
    let mut i: usize = 0;
    while i < b.len()
        invariant
            i <= b@.len(),
            r@ =~= b@.take(i as int),
        decreases b.len() - i,
    {
        r.push(b[i]);
        i = i + 1;
    }
    assert(b@.take(i as int) =~= b@);
    r
}

/// A copy of `b[a..c]`.
pub fn slice_bytes(b: &[u8], a: usize, c: usize) -> (r: Vec<u8>)
    requires
        a <= c <= b@.len(),
    ensures
        r@ == b@.subrange(a as int, c as int),
{
    let mut r: Vec<u8> = Vec::new();
    let mut i: usize = a;
    while i < c
        invariant
            a <= i <= c <= b@.len(),
            r@ =~= b@.subrange(a as int, i as int),
        decreases c - i,
    {
        r.push(b[i]);
        i = i + 1;
    }
    r
}

/// Byte-wise equality.
pub fn bytes_eq(a: &[u8], b: &[u8]) -> (r: bool)
    ensures
        r == (a@ == b@),
{
    if a.len() != b.len() {
        return false;
    }
    let mut i: usize = 0;
    while i < a.len()
        invariant
            a.len() == b.len(),
            i <= a.len(),
            forall|j: int| 0 <= j < i ==> a@[j] == b@[j],
        decreases a.len() - i,
    {
        if a[i] != b[i] {
            return false;
        }
        i = i + 1;
    }
    assert(a@ =~= b@);
    true
}

/// Whether no two members share a path.
pub fn archive_paths_distinct_exec(es: &[ArchiveEntry]) -> (r: bool)
    ensures
        r == archive_paths_distinct(es@),
{
    let mut i: usize = 0;
    while i < es.len()
        invariant
            i <= es@.len(),
            forall|a: int, b: int| 0 <= a < b < es@.len() && a < i ==> es@[a].path@ != es@[b].path@,
        decreases es.len() - i,
    {
        let mut j: usize = i + 1;
        while j < es.len()
            invariant
                i < es@.len(),
                i + 1 <= j <= es@.len(),
                forall|a: int, b: int|
                    0 <= a < b < es@.len() && a < i ==> es@[a].path@ != es@[b].path@,
                forall|b: int| i < b < j ==> es@[i as int].path@ != es@[b].path@,
            decreases es.len() - j,
        {
            if str_eq(es[i].path.as_str(), es[j].path.as_str()) {
                return false;
            }
            j = j + 1;
        }
        i = i + 1;
    }
    true
}

/// Sums member sizes, refusing past `limit`.
pub fn archive_total(es: &[ArchiveEntry], limit: u64) -> (r: Option<u64>)
    ensures
        r is Some <==> archive_bytes(es@) <= limit,
        r matches Some(t) ==> t == archive_bytes(es@),
{
    let mut total: u64 = 0;
    let mut i: usize = 0;
    while i < es.len()
        invariant
            i <= es@.len(),
            total == archive_bytes(es@.take(i as int)),
            total <= limit,
        decreases es.len() - i,
    {
        assert(es@.take(i as int + 1).drop_last() =~= es@.take(i as int));
        let n = es[i].bytes.len() as u64;
        if n > limit - total {
            proof {
                lemma_archive_bytes_monotone(es@, i as int + 1);
            }
            return None;
        }
        total = total + n;
        i = i + 1;
    }
    assert(es@.take(i as int) =~= es@);
    Some(total)
}

/// Whether every member path is safe and every mode fits permission bits.
pub fn archive_members_safe(es: &[ArchiveEntry]) -> (r: bool)
    ensures
        r == forall|i: int|
            0 <= i < es@.len() ==> spec_archive_path_is_safe(#[trigger] es@[i].path@) && es@[i].mode
                <= 0o7777u32,
{
    let mut i: usize = 0;
    while i < es.len()
        invariant
            i <= es@.len(),
            forall|j: int|
                #![trigger es@[j]]
                0 <= j < i ==> spec_archive_path_is_safe(es@[j].path@) && es@[j].mode <= 0o7777u32,
        decreases es.len() - i,
    {
        if !archive_path_is_safe(es[i].path.as_str()) || es[i].mode > 0o7777u32 {
            return false;
        }
        assert(spec_archive_path_is_safe(es@[i as int].path@) && es@[i as int].mode <= 0o7777u32);
        i = i + 1;
    }
    true
}

} // verus!
