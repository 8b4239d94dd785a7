//! Distribution-neutral mkinitfs + OpenRC installation contract.
//!
//! Consumes descriptor-derived facts and produces fixed mkinitfs, extlinux,
//! image and archive-inspection contracts.  It identifies no distribution
//! and mutates nothing.

use crate::archive::bytes_eq;
use crate::digest::{sha256, spec_sha256, Sha256Digest};
use crate::dracut_systemd::{safe_kernel_version, spec_safe_kernel_version, tools_match_exactly, tools_match_exactly_exec, ArchiveInspection, DracutSystemdImageRecord, ToolFact, KNOWN_GOOD_SUFFIX, MAX_ARCHIVE_ENTRIES, MAX_CANDIDATE_BYTES, MAX_INSPECTED_ARCHIVE_BYTES, MIN_BOOT_FREE_BYTES, MIN_BOOT_FREE_INODES, PRODUCT_ARCHITECTURE};
use crate::error::{invalid, InstallError};
use crate::mkinitfs_init::{init_patchable, patch_initramfs_init};
use crate::embedded::{
    MKINITFS_EARLY_CALL_SNIPPET, MKINITFS_FINDFS_WRAPPER, MKINITFS_HANDOFF_CALL_SNIPPET,
    MKINITFS_RUNTIME_HOOK,
};
use crate::newc::{all_paths_ok, entries_view, entry_paths, entry_view, has_member_with, is_regular_mode, member_paths, member_with_data, newc_members, parse_newc, total_data, total_data_within, NewcEntry};
use crate::generator::{GeneratorKind, GeneratorRequest};
use crate::paths::{safe_alternate_root, spec_safe_alternate_root};
use crate::text::{bounded_token, chars_of, concat_all, concat2, concat3, contains, contains_char, distinct_seqs, has_prefix, has_suffix, is_bounded_token, join_space, join_space_exec, lines, lines_exec, owned, replace_all, replace_str, seq_contains_char, seq_has_prefix, seq_has_suffix, slice_range, split_inclusive_nl, split_inclusive_nl_exec, split_ws, split_ws_exec, str_bytes, str_eq, str_is_bounded_token, string_from_chars, string_views, str_views, strip_prefix, strip_suffix, trim, trim_bounds, trim_chars, trim_end, trim_start, CharClass, count_matches, count_matches_exec, str_contains, strings_distinct, utf8_to_str};
use vstd::prelude::*;
use vstd::string::*;
use vstd::utf8::*;

verus! {

pub const MKINITFS_EXECUTABLE: &'static str = "/sbin/mkinitfs";
pub const UPDATE_EXTLINUX_EXECUTABLE: &'static str = "/sbin/update-extlinux";
pub const EXTLINUX_EXECUTABLE: &'static str = "/sbin/extlinux";
pub const OPENRC_EXECUTABLE: &'static str = "/sbin/openrc";
pub const INITRAMFS_INIT_PATH: &'static str = "/usr/share/mkinitfs/initramfs-init";
pub const MKINITFS_CONFIG_PATH: &'static str = "/etc/mkinitfs/mkinitfs.conf";
pub const UPDATE_EXTLINUX_CONFIG_PATH: &'static str = "/etc/update-extlinux.conf";
pub const EXTLINUX_CONFIG_PATH: &'static str = "/boot/extlinux.conf";
pub const EXTLINUX_KNOWN_GOOD_FRAGMENT_PATH: &'static str =
    "/etc/update-extlinux.d/50-bootart-known-good";
pub const MAX_TEXT_BYTES: usize = 65536;
pub const MAX_EXTLINUX_BYTES: usize = 1048576;
pub const ACTIVE_PREFIX: &'static str = "/boot/initramfs-";
pub const CANDIDATE_PREFIX: &'static str = "/boot/.bootart-candidate-initramfs-";
pub const KERNEL_PREFIX: &'static str = "/boot/vmlinuz-";

/// The exact tools of the mkinitfs-openrc mechanism.
pub const MKINITFS_OPENRC_TOOLS: [&'static str; 4] = [
    MKINITFS_EXECUTABLE,
    UPDATE_EXTLINUX_EXECUTABLE,
    EXTLINUX_EXECUTABLE,
    OPENRC_EXECUTABLE,
];

/// The reviewed prerequisite files besides the kernel image.
pub const MKINITFS_OPENRC_CONTRACT_FILES: [&'static str; 4] = [
    INITRAMFS_INIT_PATH,
    MKINITFS_CONFIG_PATH,
    UPDATE_EXTLINUX_CONFIG_PATH,
    EXTLINUX_CONFIG_PATH,
];

pub open spec fn mkinitfs_openrc_tools() -> Seq<&'static str> {
    seq![MKINITFS_EXECUTABLE, UPDATE_EXTLINUX_EXECUTABLE, EXTLINUX_EXECUTABLE, OPENRC_EXECUTABLE]
}

/// A descriptor-derived fact about a prerequisite file, with its digest.
#[derive(Debug, Clone, PartialEq, Eq)]
pub struct MkinitfsOpenRcPathFact {
    pub path: String,
    pub root_owned: bool,
    pub regular: bool,
    pub symlink: bool,
    pub executable: bool,
    pub mode: u32,
    pub digest: Sha256Digest,
}

impl MkinitfsOpenRcPathFact {
    /// A safe root-owned regular file at `path` holding `bytes`.
    pub fn exact(path: &str, executable: bool, mode: u32, bytes: &[u8]) -> (r: Self)
        ensures
            r.path@ == path@,
            r.root_owned && r.regular && !r.symlink,
            r.executable == executable,
            r.mode == mode,
            r.digest == spec_sha256(bytes@),
    {
        MkinitfsOpenRcPathFact {
            path: owned(path),
            root_owned: true,
            regular: true,
            symlink: false,
            executable,
            mode,
            digest: sha256(bytes),
        }
    }
}

#[derive(Debug, Clone, PartialEq, Eq)]
pub struct MkinitfsOpenRcFacts {
    pub architecture: String,
    pub pid1_comm: String,
    pub kernel_versions: Vec<String>,
    pub boot_writable: bool,
    pub boot_free_bytes: u64,
    pub boot_free_inodes: u64,
    pub tools: Vec<ToolFact>,
    pub contract_files: Vec<MkinitfsOpenRcPathFact>,
    pub initramfs_init_source: String,
    pub mkinitfs_config_source: String,
    pub mkinitfs_features: Vec<String>,
    pub extlinux_overwrite: bool,
    pub extlinux_default_label: String,
    pub kernel_command_line: String,
    pub known_good_path: String,
    pub known_good_digest: Sha256Digest,
    pub known_good_bytes: u64,
}

#[derive(Debug, Clone, PartialEq, Eq)]
pub struct MkinitfsOpenRcContract {
    pub kernel_version: String,
    pub kernel_flavor: String,
    pub kernel_image: String,
    pub active_image: String,
    pub candidate_image: String,
    pub known_good_image: String,
    pub known_good_digest: Sha256Digest,
    pub extlinux_fragment_path: String,
    pub extlinux_config_path: String,
    pub extlinux_fragment: Vec<u8>,
    pub mkinitfs_config_path: String,
    pub mkinitfs_config_mode: u32,
    pub mkinitfs_config_original: Vec<u8>,
    pub mkinitfs_config_activated: Vec<u8>,
    pub mkinitfs_config_already_active: bool,
    pub prerequisites: Vec<MkinitfsOpenRcPathFact>,
    pub generate: GeneratorRequest,
    pub update_extlinux: GeneratorRequest,
}

// ---------------------------------------------------------------------------
// Tokens
// ---------------------------------------------------------------------------

pub open spec fn spec_safe_flavor(v: Seq<char>) -> bool {
    bounded_token(v, 64, CharClass::Flavor)
}

fn safe_flavor(v: &str) -> (r: bool)
    ensures
        r == spec_safe_flavor(v@),
{
    str_is_bounded_token(v, 64, CharClass::Flavor)
}

/// A kernel command line of at most 4096 tabs, spaces and ASCII graphic
/// characters.
pub open spec fn spec_safe_command_line(v: Seq<char>) -> bool {
    bounded_token(v, 4096, CharClass::CommandLine)
}

fn safe_command_line(v: &str) -> (r: bool)
    ensures
        r == spec_safe_command_line(v@),
{
    str_is_bounded_token(v, 4096, CharClass::CommandLine)
}

/// The index of the last `c` in `s`, or -1.
pub open spec fn last_index_of(s: Seq<char>, c: char) -> int
    decreases s.len(),
{
    if s.len() == 0 {
        -1
    } else if s.last() == c {
        s.len() - 1
    } else {
        last_index_of(s.drop_last(), c)
    }
}

pub proof fn lemma_last_index_of(s: Seq<char>, c: char)
    ensures
        -1 <= last_index_of(s, c) < s.len(),
        last_index_of(s, c) >= 0 ==> s[last_index_of(s, c)] == c,
        forall|j: int| last_index_of(s, c) < j < s.len() ==> s[j] != c,
    decreases s.len(),
{
    if s.len() > 0 && s.last() != c {
        let d = s.drop_last();
        lemma_last_index_of(d, c);
        assert forall|j: int| last_index_of(s, c) < j < s.len() implies s[j] != c by {
            if j < s.len() - 1 {
                assert(s[j] == d[j]);
            }
        }
    }
}

fn last_index_of_exec(s: &[char], c: char) -> (r: Option<usize>)
    ensures
        r matches Some(i) ==> i == last_index_of(s@, c) && i < s.len(),
        r is None ==> last_index_of(s@, c) == -1,
{
    let mut j: usize = s.len();
    assert(s@.take(j as int) =~= s@);
    while j > 0
        invariant
            j <= s@.len(),
            last_index_of(s@, c) == last_index_of(s@.take(j as int), c),
        decreases j,
    {
        if s[j - 1] == c {
            return Some(j - 1);
        }
        assert(s@.take(j as int).drop_last() =~= s@.take(j as int - 1));
        j = j - 1;
    }
    None
}

/// The flavor after the kernel version's last `-`.
pub open spec fn spec_kernel_flavor(k: Seq<char>) -> Option<Seq<char>> {
    let i = last_index_of(k, '-');
    if i >= 0 && spec_safe_flavor(k.skip(i + 1)) {
        Some(k.skip(i + 1))
    } else {
        None
    }
}

fn kernel_flavor(k: &str) -> (r: Option<String>)
    ensures
        r is Some <==> spec_kernel_flavor(k@) is Some,
        r matches Some(f) ==> spec_kernel_flavor(k@) == Some(f@),
{
    let v = chars_of(k);
    proof {
        lemma_last_index_of(v@, '-');
    }
    match last_index_of_exec(v.as_slice(), '-') {
        Some(i) => {
            let rest = slice_range(v.as_slice(), i + 1, v.len());
            assert(rest@ =~= k@.skip(i + 1));
            let f = string_from_chars(rest.as_slice());
            if safe_flavor(f.as_str()) {
                Some(f)
            } else {
                None
            }
        },
        None => None,
    }
}

pub open spec fn openrc_active(f: Seq<char>) -> Seq<char> {
    ACTIVE_PREFIX@ + f
}

pub open spec fn openrc_candidate(f: Seq<char>) -> Seq<char> {
    CANDIDATE_PREFIX@ + f
}

pub open spec fn openrc_kernel_image(f: Seq<char>) -> Seq<char> {
    KERNEL_PREFIX@ + f
}

pub open spec fn spec_mkinitfs_openrc_managed_image_path(path: Seq<char>) -> bool {
    ||| path == MKINITFS_CONFIG_PATH@
    ||| path == EXTLINUX_KNOWN_GOOD_FRAGMENT_PATH@
    ||| path == EXTLINUX_CONFIG_PATH@
    ||| has_prefix(path, ACTIVE_PREFIX@) && spec_safe_flavor(
        {
            let name = path.skip(ACTIVE_PREFIX@.len() as int);
            if has_suffix(name, KNOWN_GOOD_SUFFIX@) {
                name.subrange(0, name.len() - KNOWN_GOOD_SUFFIX@.len())
            } else {
                name
            }
        },
    )
    ||| has_prefix(path, CANDIDATE_PREFIX@) && spec_safe_flavor(
        path.skip(CANDIDATE_PREFIX@.len() as int),
    )
}

/// Whether the mkinitfs-openrc backend owns `path`.
pub fn mkinitfs_openrc_managed_image_path(path: &str) -> (r: bool)
    ensures
        r == spec_mkinitfs_openrc_managed_image_path(path@),
{
    if str_eq(path, MKINITFS_CONFIG_PATH) || str_eq(path, EXTLINUX_KNOWN_GOOD_FRAGMENT_PATH)
        || str_eq(path, EXTLINUX_CONFIG_PATH) {
        return true;
    }
    let active_ok = match strip_prefix(path, ACTIVE_PREFIX) {
        Some(name) => {
            let base = match strip_suffix(name, KNOWN_GOOD_SUFFIX) {
                Some(b) => b,
                None => name,
            };
            safe_flavor(base)
        },
        None => false,
    };
    if active_ok {
        return true;
    }
    match strip_prefix(path, CANDIDATE_PREFIX) {
        Some(name) => safe_flavor(name),
        None => false,
    }
}

// ---------------------------------------------------------------------------
// mkinitfs features
// ---------------------------------------------------------------------------

/// At most `max` bytes and no NUL.
pub open spec fn text_ok(s: Seq<char>, max: nat) -> bool {
    encode_utf8(s).len() <= max && !contains_char(s, '\0')
}

/// A trimmed line that is neither blank nor a comment.
pub open spec fn is_record(t: Seq<char>) -> bool {
    t.len() > 0 && t[0] != '#'
}

/// The trimmed records among `ls`, in order.
pub open spec fn records(ls: Seq<Seq<char>>) -> Seq<Seq<char>>
    decreases ls.len(),
{
    if ls.len() == 0 {
        seq![]
    } else if is_record(trim(ls.last())) {
        records(ls.drop_last()).push(trim(ls.last()))
    } else {
        records(ls.drop_last())
    }
}

/// The value of `features="..."`.
pub open spec fn features_value(rec: Seq<char>) -> Option<Seq<char>> {
    if has_prefix(rec, "features=\""@) && has_suffix(rec.skip(10), "\""@) {
        Some(rec.skip(10).drop_last())
    } else {
        None
    }
}

/// A nonempty set of at most 64 distinct safe feature names.
pub open spec fn features_safe(fs: Seq<Seq<char>>) -> bool {
    &&& 0 < fs.len() <= 64
    &&& forall|i: int| 0 <= i < fs.len() ==> spec_safe_flavor(#[trigger] fs[i])
    &&& distinct_seqs(fs)
}

/// The features `parse_mkinitfs_features` reads from `s`.
pub open spec fn spec_parse_features(s: Seq<char>) -> Option<Seq<Seq<char>>> {
    let recs = records(lines(s));
    if text_ok(s, MAX_TEXT_BYTES as nat) && recs.len() == 1 && features_value(recs[0]) is Some
        && features_safe(split_ws(features_value(recs[0])->0, true)) {
        Some(split_ws(features_value(recs[0])->0, true))
    } else {
        None
    }
}

fn records_exec(ls: &Vec<Vec<char>>) -> (r: Vec<Vec<char>>)
    ensures
        r@.map_values(|v: Vec<char>| v@) == records(ls@.map_values(|v: Vec<char>| v@)),
{
    let ghost lv = ls@.map_values(|v: Vec<char>| v@);
    let mut r: Vec<Vec<char>> = Vec::new();
    let mut i: usize = 0;
    while i < ls.len()
        invariant
            i <= ls@.len(),
            lv == ls@.map_values(|v: Vec<char>| v@),
            r@.map_values(|v: Vec<char>| v@) == records(lv.take(i as int)),
        decreases ls.len() - i,
    {
        assert(lv.take(i + 1).drop_last() =~= lv.take(i as int));
        assert(lv.take(i + 1).last() == ls@[i as int]@);
        let t = trim_chars(ls[i].as_slice());
        let ghost before = r@;
        if t.len() > 0 && t[0] != '#' {
            r.push(t);
            assert(r@.map_values(|v: Vec<char>| v@) =~= before.map_values(|v: Vec<char>| v@).push(
                trim(lv.take(i + 1).last()),
            ));
        }
        i = i + 1;
    }
    assert(lv.take(i as int) =~= lv);
    r
}

fn features_safe_exec(fs: &Vec<Vec<char>>) -> (r: bool)
    ensures
        r == features_safe(fs@.map_values(|v: Vec<char>| v@)),
{
    let ghost fv = fs@.map_values(|v: Vec<char>| v@);
    if fs.len() == 0 || fs.len() > 64 {
        return false;
    }
    let mut i: usize = 0;
    while i < fs.len()
        invariant
            i <= fs@.len(),
            fv == fs@.map_values(|v: Vec<char>| v@),
            forall|j: int| 0 <= j < i ==> spec_safe_flavor(#[trigger] fv[j]),
        decreases fs.len() - i,
    {
        if !is_bounded_token(fs[i].as_slice(), 64, CharClass::Flavor) {
            assert(!spec_safe_flavor(fv[i as int]));
            return false;
        }
        i = i + 1;
    }
    let mut a: usize = 0;
    while a < fs.len()
        invariant
            a <= fs@.len(),
            fv == fs@.map_values(|v: Vec<char>| v@),
            forall|x: int, y: int| 0 <= x < y < fs@.len() && x < a ==> fv[x] != fv[y],
        decreases fs.len() - a,
    {
        let mut b: usize = a + 1;
        while b < fs.len()
            invariant
                a < fs@.len(),
                a + 1 <= b <= fs@.len(),
                fv == fs@.map_values(|v: Vec<char>| v@),
                forall|x: int, y: int| 0 <= x < y < fs@.len() && x < a ==> fv[x] != fv[y],
                forall|y: int| a < y < b ==> fv[a as int] != fv[y],
            decreases fs.len() - b,
        {
            if chars_equal(fs[a].as_slice(), fs[b].as_slice()) {
                assert(fv[a as int] == fv[b as int]);
                return false;
            }
            b = b + 1;
        }
        a = a + 1;
    }
    true
}

fn chars_equal(a: &[char], b: &[char]) -> (r: bool)
    ensures
        r == (a@ == b@),
{
    if a.len() != b.len() {
        return false;
    }
    let mut i: usize = 0;
    while i < a.len()
        invariant
            a.len() == b.len(),
            i <= a.len(),
            forall|j: int| 0 <= j < i ==> a@[j] == b@[j],
        decreases a.len() - i,
    {
        if a[i] != b[i] {
            return false;
        }
        i = i + 1;
    }
    assert(a@ =~= b@);
    true
}

fn to_strings(vs: &Vec<Vec<char>>) -> (r: Vec<String>)
    ensures
        string_views(r@) == vs@.map_values(|v: Vec<char>| v@),
{
    let mut r: Vec<String> = Vec::new();
    let mut i: usize = 0;
    while i < vs.len()
        invariant
            i <= vs@.len(),
            r@.len() == i,
            forall|j: int| 0 <= j < i ==> #[trigger] r@[j]@ == vs@[j]@,
        decreases vs.len() - i,
    {
        r.push(string_from_chars(vs[i].as_slice()));
        i = i + 1;
    }
    assert(string_views(r@) =~= vs@.map_values(|v: Vec<char>| v@));
    r
}

fn parse_features_chars(source: &str) -> (r: Option<Vec<Vec<char>>>)
    ensures
        r is Some <==> spec_parse_features(source@) is Some,
        r matches Some(v) ==> spec_parse_features(source@) == Some(
            v@.map_values(|x: Vec<char>| x@),
        ),
{
    let s = chars_of(source);
    if source.as_bytes().len() > MAX_TEXT_BYTES || seq_contains_char(s.as_slice(), '\0') {
        return None;
    }
    let ls = lines_exec(s.as_slice());
    assert(ls@.map_values(|v: Vec<char>| v@) =~= lines(source@));
    let recs = records_exec(&ls);
    if recs.len() != 1 {
        return None;
    }
    let rec = &recs[0];
    assert(rec@ == records(lines(source@))[0]);
    let open = chars_of("features=\"");
    let quote = chars_of("\"");
    proof {
        reveal_strlit("features=\"");
        reveal_strlit("\"");
    }
    if !seq_has_prefix(rec.as_slice(), open.as_slice()) {
        return None;
    }
    let after = slice_range(rec.as_slice(), 10, rec.len());
    assert(after@ =~= rec@.skip(10));
    if !seq_has_suffix(after.as_slice(), quote.as_slice()) {
        return None;
    }
    let value = slice_range(after.as_slice(), 0, after.len() - 1);
    assert(value@ =~= after@.drop_last());
    let fs = split_ws_exec(value.as_slice(), true);
    assert(fs@.map_values(|x: Vec<char>| x@) =~= split_ws(value@, true));
    if !features_safe_exec(&fs) {
        return None;
    }
    Some(fs)
}

/// Reads the one canonical `features="..."` assignment of an mkinitfs
/// configuration.
pub fn parse_mkinitfs_features(source: &str) -> (r: Result<Vec<String>, InstallError>)
    ensures
        r is Ok <==> spec_parse_features(source@) is Some,
        r matches Ok(v) ==> spec_parse_features(source@) == Some(string_views(v@)),
        r matches Err(e) ==> e is InvalidPlan,
{
    match parse_features_chars(source) {
        Some(fs) => Ok(to_strings(&fs)),
        None => Err(invalid("mkinitfs feature configuration is outside its text contract")),
    }
}

/// A piece of `split_inclusive('\n')` without its newline.
pub open spec fn piece_body(p: Seq<char>) -> Seq<char> {
    if p.len() > 0 && p.last() == '\n' {
        p.drop_last()
    } else {
        p
    }
}

pub open spec fn piece_is_record(p: Seq<char>) -> bool {
    is_record(trim(piece_body(p)))
}

/// How many pieces hold a record.
pub open spec fn record_piece_count(ps: Seq<Seq<char>>) -> nat
    decreases ps.len(),
{
    if ps.len() == 0 {
        0
    } else {
        record_piece_count(ps.drop_last()) + if piece_is_record(ps.last()) {
            1nat
        } else {
            0nat
        }
    }
}

/// The record piece with its assignment replaced, keeping its surrounding
/// whitespace and newline.
pub open spec fn rendered_piece(p: Seq<char>, replacement: Seq<char>) -> Seq<char> {
    let body = piece_body(p);
    body.take(body.len() - trim_start(body).len()) + replacement + body.skip(
        trim_end(body).len() as int,
    ) + if p.len() > 0 && p.last() == '\n' {
        seq!['\n']
    } else {
        Seq::<char>::empty()
    }
}

/// The configuration with `features` written into its one record.
pub open spec fn spec_render_features(s: Seq<char>, fs: Seq<Seq<char>>) -> Seq<char> {
    let replacement = "features=\""@ + join_space(fs) + "\""@;
    concat_all(
        split_inclusive_nl(s).map_values(
            |p: Seq<char>|
                if piece_is_record(p) {
                    rendered_piece(p, replacement)
                } else {
                    p
                },
        ),
    )
}

pub proof fn lemma_trim_end_prefix(s: Seq<char>)
    ensures
        trim_end(s) =~= s.take(trim_end(s).len() as int),
        trim_end(s).len() <= s.len(),
    decreases s.len(),
{
    if s.len() > 0 && crate::text::is_ws(s.last()) {
        lemma_trim_end_prefix(s.drop_last());
    }
}

/// Rewrites the one record of `source` to assign `features`, keeping
/// comments, whitespace and the final newline.
fn render_mkinitfs_features(source: &str, features: &Vec<Vec<char>>) -> (r: Result<
    Vec<u8>,
    InstallError,
>)
    ensures
        r is Ok <==> record_piece_count(split_inclusive_nl(source@)) == 1,
        r matches Ok(b) ==> b@ == encode_utf8(
            spec_render_features(source@, features@.map_values(|x: Vec<char>| x@)),
        ),
        r matches Err(e) ==> e is InvalidPlan,
{
    let ghost fv = features@.map_values(|x: Vec<char>| x@);
    let joined = join_space_exec(features);
    let mut replacement = chars_of("features=\"");
    crate::mkinitcpio_systemd::append_chars(&mut replacement, joined.as_slice());
    replacement.push('"');
    proof {
        reveal_strlit("features=\"");
        reveal_strlit("\"");
    }
    let ghost repl = "features=\""@ + join_space(fv) + "\""@;
    assert(replacement@ =~= repl);
    let s = chars_of(source);
    let pieces = split_inclusive_nl_exec(s.as_slice());
    let ghost ps = split_inclusive_nl(source@);
    let ghost mapped = ps.map_values(
        |p: Seq<char>|
            if piece_is_record(p) {
                rendered_piece(p, repl)
            } else {
                p
            },
    );
    let mut out: Vec<char> = Vec::new();
    let mut count: usize = 0;
    let mut j: usize = 0;
    while j < pieces.len()
        invariant
            j <= pieces@.len(),
            ps == split_inclusive_nl(source@),
            pieces@.len() == ps.len(),
            forall|q: int| 0 <= q < pieces@.len() ==> #[trigger] pieces@[q]@ == ps[q],
            mapped == ps.map_values(
                |p: Seq<char>|
                    if piece_is_record(p) {
                        rendered_piece(p, repl)
                    } else {
                        p
                    },
            ),
            replacement@ == repl,
            count == record_piece_count(ps.take(j as int)),
            count <= 1,
            out@ == concat_all(mapped.take(j as int)),
        decreases pieces.len() - j,
    {
        let piece = &pieces[j];
        let ghost before = out@;
        let has_nl = piece.len() > 0 && piece[piece.len() - 1] == '\n';
        let body_len = if has_nl {
            piece.len() - 1
        } else {
            piece.len()
        };
        let body = slice_range(piece.as_slice(), 0, body_len);
        assert(body@ =~= piece_body(piece@));
        let (a, b) = trim_bounds(body.as_slice());
        let is_rec = a < b && body[a] != '#';
        assert(is_rec == is_record(trim(body@)));
        assert(ps.take(j + 1).drop_last() =~= ps.take(j as int));
        if is_rec {
            if count == 1 {
                proof {
                    assert(ps.take(j + 1).last() == ps[j as int]);
                    assert(piece_is_record(ps[j as int]));
                    assert(record_piece_count(ps.take(j + 1)) == 2);
                    lemma_record_piece_count_monotone(ps, j as int + 1);
                }
                return Err(invalid("mkinitfs configuration has multiple active assignments"));
            }
            let a2 = crate::text::trim_start_index(body.as_slice());
            let b2 = crate::text::trim_end_index(body.as_slice());
            let lead = slice_range(body.as_slice(), 0, a2);
            let trail = slice_range(body.as_slice(), b2, body.len());
            crate::mkinitcpio_systemd::append_chars(&mut out, lead.as_slice());
            crate::mkinitcpio_systemd::append_chars(&mut out, replacement.as_slice());
            crate::mkinitcpio_systemd::append_chars(&mut out, trail.as_slice());
            if has_nl {
                out.push('\n');
            }
            count = count + 1;
            proof {
                assert(out@ =~= before + rendered_piece(piece@, repl));
            }
        } else {
            crate::mkinitcpio_systemd::append_chars(&mut out, piece.as_slice());
        }
        proof {
            assert(mapped.take(j + 1).drop_last() =~= mapped.take(j as int));
        }
        j = j + 1;
    }
    assert(ps.take(j as int) =~= ps);
    assert(mapped.take(j as int) =~= mapped);
    if count == 0 {
        return Err(invalid("mkinitfs configuration omits its features assignment"));
    }
    let text = string_from_chars(out.as_slice());
    Ok(str_bytes(text.as_str()))
}

pub proof fn lemma_record_piece_count_monotone(ps: Seq<Seq<char>>, n: int)
    requires
        0 <= n <= ps.len(),
    ensures
        record_piece_count(ps.take(n)) <= record_piece_count(ps),
    decreases ps.len() - n,
{
    if n < ps.len() {
        lemma_record_piece_count_monotone(ps, n + 1);
        assert(ps.take(n + 1).drop_last() =~= ps.take(n));
    } else {
        assert(ps.take(n) =~= ps);
    }
}


/// The configuration with `bootart` appended to its features.
pub open spec fn spec_activate_features(s: Seq<char>) -> Seq<char> {
    spec_render_features(s, spec_parse_features(s)->0.push("bootart"@))
}

/// The configurations `activate_mkinitfs_bootart_feature` accepts: a
/// pre-existing `bootart` feature is foreign state, not an installation.
pub open spec fn activate_features_ok(s: Seq<char>) -> bool {
    &&& spec_parse_features(s) is Some
    &&& !spec_parse_features(s)->0.contains("bootart"@)
    &&& record_piece_count(split_inclusive_nl(s)) == 1
}

fn contains_bootart(fs: &Vec<Vec<char>>) -> (r: Option<usize>)
    ensures
        r is None <==> !fs@.map_values(|x: Vec<char>| x@).contains("bootart"@),
        r matches Some(i) ==> i < fs@.len() && fs@[i as int]@ == "bootart"@,
{
    let b = chars_of("bootart");
    let mut i: usize = 0;
    while i < fs.len()
        invariant
            i <= fs@.len(),
            b@ == "bootart"@,
            forall|j: int| 0 <= j < i ==> fs@[j]@ != "bootart"@,
        decreases fs.len() - i,
    {
        if chars_equal(fs[i].as_slice(), b.as_slice()) {
            let ghost fv = fs@.map_values(|x: Vec<char>| x@);
            assert(fv[i as int] == "bootart"@);
            return Some(i);
        }
        i = i + 1;
    }
    let ghost fv = fs@.map_values(|x: Vec<char>| x@);
    assert forall|j: int| 0 <= j < fv.len() implies #[trigger] fv[j] != "bootart"@ by {
        assert(fs@[j]@ != "bootart"@);
    }
    None
}

/// Appends the `bootart` feature to the one features assignment.
pub fn activate_mkinitfs_bootart_feature(source: &str) -> (r: Result<Vec<u8>, InstallError>)
    ensures
        r is Ok <==> activate_features_ok(source@),
        r matches Ok(b) ==> b@ == encode_utf8(spec_activate_features(source@)),
        r matches Err(e) ==> e is InvalidPlan,
{
    let mut fs = match parse_features_chars(source) {
        Some(fs) => fs,
        None => return Err(invalid("mkinitfs feature configuration is outside its text contract")),
    };
    if contains_bootart(&fs).is_some() {
        return Err(invalid("mkinitfs configuration already contains an unmanaged bootart feature"));
    }
    let ghost before = fs@.map_values(|x: Vec<char>| x@);
    fs.push(chars_of("bootart"));
    assert(fs@.map_values(|x: Vec<char>| x@) =~= before.push("bootart"@));
    render_mkinitfs_features(source, &fs)
}

/// The configuration with its `bootart` feature removed.
pub open spec fn spec_deactivate_features(s: Seq<char>) -> Seq<char> {
    let fs = spec_parse_features(s)->0;
    spec_render_features(s, fs.remove(fs.index_of("bootart"@)))
}

pub open spec fn deactivate_features_ok(s: Seq<char>) -> bool {
    &&& spec_parse_features(s) is Some
    &&& spec_parse_features(s)->0.contains("bootart"@)
    &&& spec_parse_features(s)->0.len() > 1
    &&& record_piece_count(split_inclusive_nl(s)) == 1
}

fn deactivate_mkinitfs_bootart_feature(source: &str) -> (r: Result<Vec<u8>, InstallError>)
    ensures
        r is Ok <==> deactivate_features_ok(source@),
        r matches Ok(b) ==> b@ == encode_utf8(spec_deactivate_features(source@)),
        r matches Err(e) ==> e is InvalidPlan,
{
    let mut fs = match parse_features_chars(source) {
        Some(fs) => fs,
        None => return Err(invalid("mkinitfs feature configuration is outside its text contract")),
    };
    let ghost before = fs@.map_values(|x: Vec<char>| x@);
    let index = match contains_bootart(&fs) {
        Some(i) => i,
        None => return Err(invalid("mkinitfs configuration omits its bootart feature")),
    };
    proof {
        assert(distinct_seqs(before));
        assert(before[index as int] == "bootart"@);
        assert(before.index_of("bootart"@) == index) by {
            assert forall|j: int| 0 <= j < before.len() && before[j] == "bootart"@ implies j
                == index by {
                if j != index {
                    if j < index {
                        assert(before[j] != before[index as int]);
                    } else {
                        assert(before[index as int] != before[j]);
                    }
                }
            }
        }
    }
    fs.remove(index);
    assert(fs@.map_values(|x: Vec<char>| x@) =~= before.remove(index as int));
    if fs.len() == 0 {
        return Err(invalid("mkinitfs configuration cannot contain only the bootart feature"));
    }
    render_mkinitfs_features(source, &fs)
}

// ---------------------------------------------------------------------------
// update-extlinux and extlinux configuration
// ---------------------------------------------------------------------------

/// The update-extlinux settings the planner consumes.
#[derive(Debug, Clone, PartialEq, Eq)]
pub struct ExtlinuxSettings {
    pub overwrite: bool,
    pub default_label: String,
    pub kernel_command_line: String,
}

/// The index of the first `c` in `s`, or -1.
pub open spec fn first_index_of(s: Seq<char>, c: char) -> int
    decreases s.len(),
{
    if s.len() == 0 {
        -1
    } else if first_index_of(s.drop_last(), c) >= 0 {
        first_index_of(s.drop_last(), c)
    } else if s.last() == c {
        s.len() - 1
    } else {
        -1
    }
}

pub proof fn lemma_first_index_of(s: Seq<char>, c: char)
    ensures
        -1 <= first_index_of(s, c) < s.len(),
        first_index_of(s, c) >= 0 ==> s[first_index_of(s, c)] == c,
        first_index_of(s, c) < 0 ==> forall|j: int| 0 <= j < s.len() ==> s[j] != c,
        first_index_of(s, c) >= 0 ==> forall|j: int| 0 <= j < first_index_of(s, c) ==> s[j] != c,
    decreases s.len(),
{
    if s.len() > 0 {
        let d = s.drop_last();
        lemma_first_index_of(d, c);
        assert forall|j: int| 0 <= j < s.len() - 1 implies s[j] == d[j] by {}
    }
}

fn first_index_of_exec(s: &[char], c: char) -> (r: Option<usize>)
    ensures
        r matches Some(i) ==> i == first_index_of(s@, c) && i < s@.len(),
        r is None ==> first_index_of(s@, c) == -1,
{
    proof {
        lemma_first_index_of(s@, c);
    }
    let mut i: usize = 0;
    while i < s.len()
        invariant
            i <= s@.len(),
            forall|j: int| 0 <= j < i ==> s@[j] != c,
            -1 <= first_index_of(s@, c) < s@.len(),
            first_index_of(s@, c) >= 0 ==> s@[first_index_of(s@, c)] == c,
            first_index_of(s@, c) >= 0 ==> forall|j: int|
                0 <= j < first_index_of(s@, c) ==> s@[j] != c,
            first_index_of(s@, c) < 0 ==> forall|j: int| 0 <= j < s@.len() ==> s@[j] != c,
        decreases s.len() - i,
    {
        if s[i] == c {
            return Some(i);
        }
        i = i + 1;
    }
    None
}

/// The key of an assignment record.
pub open spec fn record_key(rec: Seq<char>) -> Seq<char> {
    rec.take(first_index_of(rec, '='))
}

/// Every record is `KEY=...` with a distinct nonempty shell key.
pub open spec fn assignments_ok(recs: Seq<Seq<char>>) -> bool {
    &&& forall|i: int|
        0 <= i < recs.len() ==> first_index_of(#[trigger] recs[i], '=') >= 0 && bounded_token(
            record_key(recs[i]),
            recs[i].len(),
            CharClass::ShellKey,
        )
    &&& forall|i: int, j: int|
        0 <= i < j < recs.len() ==> record_key(#[trigger] recs[i]) != record_key(#[trigger] recs[j])
}

/// A shell value with one level of matching quotes removed.
pub open spec fn unquote(v: Seq<char>) -> Seq<char> {
    if has_prefix(v, "\""@) && has_suffix(v.skip(1), "\""@) {
        v.skip(1).drop_last()
    } else if has_prefix(v, "'"@) && has_suffix(v.skip(1), "'"@) {
        v.skip(1).drop_last()
    } else {
        v
    }
}

/// The record that assigns `key`, if any.
pub open spec fn assignment_of(recs: Seq<Seq<char>>, key: Seq<char>) -> Option<Seq<char>> {
    if exists|i: int| 0 <= i < recs.len() && record_key(recs[i]) == key {
        let i = choose|i: int| 0 <= i < recs.len() && record_key(recs[i]) == key;
        Some(unquote(recs[i].skip(key.len() + 1int)))
    } else {
        None
    }
}

/// The boot settings of an update-extlinux configuration.
pub open spec fn spec_extlinux_settings(s: Seq<char>) -> Option<(bool, Seq<char>, Seq<char>)> {
    let recs = records(lines(s));
    let ov = assignment_of(recs, "overwrite"@);
    let d = assignment_of(recs, "default"@);
    let root = assignment_of(recs, "root"@);
    let m = assignment_of(recs, "modules"@);
    let o = assignment_of(recs, "default_kernel_opts"@);
    let cmd = "root="@ + root->0 + " modules="@ + m->0 + " "@ + o->0;
    if text_ok(s, MAX_TEXT_BYTES as nat) && assignments_ok(recs) && ov is Some && d is Some
        && root is Some && m is Some && o is Some && spec_safe_flavor(d->0) && spec_safe_command_line(
        root->0,
    ) && spec_safe_command_line(m->0) && spec_safe_command_line(o->0) && spec_safe_command_line(
        cmd,
    ) {
        Some((ov->0 == "1"@, d->0, cmd))
    } else {
        None
    }
}

fn record_keys(recs: &Vec<Vec<char>>) -> (r: Option<Vec<Vec<char>>>)
    ensures
        r is Some <==> assignments_ok(recs@.map_values(|x: Vec<char>| x@)),
        r matches Some(keys) ==> keys@.len() == recs@.len() && forall|i: int|
            0 <= i < keys@.len() ==> #[trigger] keys@[i]@ == record_key(recs@[i]@),
{
    let ghost rv = recs@.map_values(|x: Vec<char>| x@);
    let mut keys: Vec<Vec<char>> = Vec::new();
    let mut i: usize = 0;
    while i < recs.len()
        invariant
            i <= recs@.len(),
            rv == recs@.map_values(|x: Vec<char>| x@),
            keys@.len() == i,
            forall|j: int| 0 <= j < i ==> #[trigger] keys@[j]@ == record_key(rv[j]),
            forall|j: int|
                0 <= j < i ==> first_index_of(#[trigger] rv[j], '=') >= 0 && bounded_token(
                    record_key(rv[j]),
                    rv[j].len(),
                    CharClass::ShellKey,
                ),
        decreases recs.len() - i,
    {
        let rec = &recs[i];
        assert(rv[i as int] == rec@);
        let eq = match first_index_of_exec(rec.as_slice(), '=') {
            Some(eq) => eq,
            None => return None,
        };
        let key = slice_range(rec.as_slice(), 0, eq);
        assert(key@ =~= record_key(rec@));
        if !is_bounded_token(key.as_slice(), rec.len(), CharClass::ShellKey) {
            return None;
        }
        keys.push(key);
        i = i + 1;
    }
    let mut a: usize = 0;
    while a < keys.len()
        invariant
            a <= keys@.len(),
            rv == recs@.map_values(|x: Vec<char>| x@),
            forall|j: int|
                0 <= j < rv.len() ==> first_index_of(#[trigger] rv[j], '=') >= 0 && bounded_token(
                    record_key(rv[j]),
                    rv[j].len(),
                    CharClass::ShellKey,
                ),
            keys@.len() == rv.len(),
            forall|j: int| 0 <= j < keys@.len() ==> #[trigger] keys@[j]@ == record_key(rv[j]),
            forall|x: int, y: int| 0 <= x < y < rv.len() && x < a ==> record_key(rv[x]) != record_key(rv[y]),
        decreases keys.len() - a,
    {
        let mut b: usize = a + 1;
        while b < keys.len()
            invariant
                a < keys@.len(),
                a + 1 <= b <= keys@.len(),
                rv == recs@.map_values(|x: Vec<char>| x@),
                keys@.len() == rv.len(),
                forall|j: int| 0 <= j < keys@.len() ==> #[trigger] keys@[j]@ == record_key(rv[j]),
                forall|x: int, y: int|
                    0 <= x < y < rv.len() && x < a ==> record_key(rv[x]) != record_key(rv[y]),
                forall|y: int| a < y < b ==> record_key(rv[a as int]) != record_key(rv[y]),
            decreases keys.len() - b,
        {
            if chars_equal(keys[a].as_slice(), keys[b].as_slice()) {
                assert(record_key(rv[a as int]) == record_key(rv[b as int]));
                return None;
            }
            b = b + 1;
        }
        a = a + 1;
    }
    Some(keys)
}

fn unquote_exec(v: &[char]) -> (r: Vec<char>)
    ensures
        r@ == unquote(v@),
{
    proof {
        reveal_strlit("\"");
        reveal_strlit("'");
    }
    if v.len() >= 2 && v[0] == '"' && v[v.len() - 1] == '"' {
        let r = slice_range(v, 1, v.len() - 1);
        assert(v@.subrange(0, 1) =~= "\""@);
        assert(v@.skip(1).subrange(v@.skip(1).len() - 1, v@.skip(1).len() as int) =~= "\""@);
        assert(r@ =~= v@.skip(1).drop_last());
        return r;
    }
    if v.len() >= 2 && v[0] == '\'' && v[v.len() - 1] == '\'' {
        let r = slice_range(v, 1, v.len() - 1);
        assert(v@.subrange(0, 1) =~= "'"@);
        assert(v@.skip(1).subrange(v@.skip(1).len() - 1, v@.skip(1).len() as int) =~= "'"@);
        assert(r@ =~= v@.skip(1).drop_last());
        proof {
            if has_prefix(v@, "\""@) && has_suffix(v@.skip(1), "\""@) {
                assert(v@.subrange(0, 1)[0] == '"');
            }
        }
        return r;
    }
    proof {
        if has_prefix(v@, "\""@) && has_suffix(v@.skip(1), "\""@) {
            assert(v@.subrange(0, 1)[0] == '"');
            assert(v@.skip(1).subrange(v@.skip(1).len() - 1, v@.skip(1).len() as int)[0] == '"');
        }
        if has_prefix(v@, "'"@) && has_suffix(v@.skip(1), "'"@) {
            assert(v@.subrange(0, 1)[0] == '\'');
            assert(v@.skip(1).subrange(v@.skip(1).len() - 1, v@.skip(1).len() as int)[0] == '\'');
        }
    }
    slice_range(v, 0, v.len())
}

fn lookup_assignment(recs: &Vec<Vec<char>>, keys: &Vec<Vec<char>>, key: &str) -> (r: Option<Vec<char>>)
    requires
        keys@.len() == recs@.len(),
        forall|i: int| 0 <= i < keys@.len() ==> #[trigger] keys@[i]@ == record_key(recs@[i]@),
        assignments_ok(recs@.map_values(|x: Vec<char>| x@)),
    ensures
        r is Some <==> assignment_of(recs@.map_values(|x: Vec<char>| x@), key@) is Some,
        r matches Some(v) ==> assignment_of(recs@.map_values(|x: Vec<char>| x@), key@) == Some(v@),
{
    let ghost rv = recs@.map_values(|x: Vec<char>| x@);
    let k = chars_of(key);
    let mut i: usize = 0;
    while i < keys.len()
        invariant
            i <= keys@.len(),
            keys@.len() == recs@.len(),
            rv == recs@.map_values(|x: Vec<char>| x@),
            assignments_ok(rv),
            k@ == key@,
            forall|j: int| 0 <= j < keys@.len() ==> #[trigger] keys@[j]@ == record_key(recs@[j]@),
            forall|j: int| 0 <= j < i ==> record_key(#[trigger] rv[j]) != key@,
        decreases keys.len() - i,
    {
        assert(rv[i as int] == recs@[i as int]@);
        if chars_equal(keys[i].as_slice(), k.as_slice()) {
            let rec = &recs[i];
            proof {
                lemma_first_index_of(rec@, '=');
                let c = choose|c: int| 0 <= c < rv.len() && record_key(rv[c]) == key@;
                if c != i {
                    if c < i {
                        assert(record_key(rv[c]) != record_key(rv[i as int]));
                    } else {
                        assert(record_key(rv[i as int]) != record_key(rv[c]));
                    }
                }
            }
            assert(first_index_of(rv[i as int], '=') >= 0);
            assert(record_key(rv[i as int]).len() == first_index_of(rv[i as int], '='));
            assert(keys@[i as int]@ == record_key(recs@[i as int]@));
            assert(k@.len() < rec@.len());
            assert(k.len() < rec.len());
            let n = k.len() + 1;
            let rest = slice_range(rec.as_slice(), n, rec.len());
            assert(rest@ =~= rv[i as int].skip(key@.len() + 1int));
            return Some(unquote_exec(rest.as_slice()));
        }
        i = i + 1;
    }
    None
}

/// Reads the update-extlinux boot settings.
pub fn parse_update_extlinux_settings(source: &str) -> (r: Result<ExtlinuxSettings, InstallError>)
    ensures
        r is Ok <==> spec_extlinux_settings(source@) is Some,
        r matches Ok(st) ==> spec_extlinux_settings(source@) == Some(
            (st.overwrite, st.default_label@, st.kernel_command_line@),
        ),
        r matches Err(e) ==> e is InvalidPlan,
{
    let s = chars_of(source);
    if source.as_bytes().len() > MAX_TEXT_BYTES || seq_contains_char(s.as_slice(), '\0') {
        return Err(invalid("update-extlinux configuration exceeds its text contract"));
    }
    let ls = lines_exec(s.as_slice());
    assert(ls@.map_values(|v: Vec<char>| v@) =~= lines(source@));
    let recs = records_exec(&ls);
    let keys = match record_keys(&recs) {
        Some(k) => k,
        None => return Err(invalid("update-extlinux configuration contains an unsafe or duplicate key")),
    };
    let ov = lookup_assignment(&recs, &keys, "overwrite");
    let d = lookup_assignment(&recs, &keys, "default");
    let root = lookup_assignment(&recs, &keys, "root");
    let m = lookup_assignment(&recs, &keys, "modules");
    let o = lookup_assignment(&recs, &keys, "default_kernel_opts");
    let (ov, d, root, m, o) = match (ov, d, root, m, o) {
        (Some(ov), Some(d), Some(root), Some(m), Some(o)) => (ov, d, root, m, o),
        _ => return Err(invalid("update-extlinux configuration omits a required setting")),
    };
    if !is_bounded_token(d.as_slice(), 64, CharClass::Flavor) || !is_bounded_token(
        root.as_slice(),
        4096,
        CharClass::CommandLine,
    ) || !is_bounded_token(m.as_slice(), 4096, CharClass::CommandLine) || !is_bounded_token(
        o.as_slice(),
        4096,
        CharClass::CommandLine,
    ) {
        return Err(invalid("update-extlinux boot settings are unsafe"));
    }
    let mut cmd = chars_of("root=");
    crate::mkinitcpio_systemd::append_chars(&mut cmd, root.as_slice());
    let mid = chars_of(" modules=");
    crate::mkinitcpio_systemd::append_chars(&mut cmd, mid.as_slice());
    crate::mkinitcpio_systemd::append_chars(&mut cmd, m.as_slice());
    cmd.push(' ');
    crate::mkinitcpio_systemd::append_chars(&mut cmd, o.as_slice());
    proof {
        reveal_strlit(" ");
    }
    assert(cmd@ =~= "root="@ + root@ + " modules="@ + m@ + " "@ + o@);
    if !is_bounded_token(cmd.as_slice(), 4096, CharClass::CommandLine) {
        return Err(invalid("update-extlinux kernel command line is unsafe"));
    }
    let one = chars_of("1");
    Ok(
        ExtlinuxSettings {
            overwrite: chars_equal(ov.as_slice(), one.as_slice()),
            default_label: string_from_chars(d.as_slice()),
            kernel_command_line: string_from_chars(cmd.as_slice()),
        },
    )
}

/// Left fold over extlinux lines: inside the wanted entry, the `APPEND`
/// value seen so far, and whether a second `APPEND` was seen.
pub open spec fn entry_fold(ls: Seq<Seq<char>>, label: Seq<char>) -> (bool, Option<Seq<char>>, bool)
    decreases ls.len(),
{
    if ls.len() == 0 {
        (false, None, false)
    } else {
        let (inside, cl, dup) = entry_fold(ls.drop_last(), label);
        let t = trim(ls.last());
        if dup {
            (inside, cl, true)
        } else if has_prefix(t, "LABEL "@) {
            (t.skip(6) == label, cl, false)
        } else if inside && has_prefix(t, "APPEND "@) {
            if cl is Some {
                (inside, cl, true)
            } else {
                (inside, Some(t.skip(7)), false)
            }
        } else {
            (inside, cl, false)
        }
    }
}

/// The command line of the entry labelled `label`.
pub open spec fn spec_entry_command_line(s: Seq<char>, label: Seq<char>) -> Option<Seq<char>> {
    let (_, cl, dup) = entry_fold(lines(s), label);
    if text_ok(s, MAX_EXTLINUX_BYTES as nat) && spec_safe_flavor(label) && !dup && cl is Some
        && spec_safe_command_line(cl->0) {
        cl
    } else {
        None
    }
}

/// Reads the single `APPEND` record of the extlinux entry `label`.
pub fn parse_extlinux_entry_command_line(source: &str, label: &str) -> (r: Result<
    String,
    InstallError,
>)
    ensures
        r is Ok <==> spec_entry_command_line(source@, label@) is Some,
        r matches Ok(c) ==> spec_entry_command_line(source@, label@) == Some(c@),
        r matches Err(e) ==> e is InvalidPlan,
{
    let s = chars_of(source);
    if source.as_bytes().len() > MAX_EXTLINUX_BYTES || !safe_flavor(label) || seq_contains_char(
        s.as_slice(),
        '\0',
    ) {
        return Err(invalid("extlinux configuration exceeds its text contract"));
    }
    let ls = lines_exec(s.as_slice());
    let ghost lv = ls@.map_values(|v: Vec<char>| v@);
    assert(lv =~= lines(source@));
    let lab = chars_of(label);
    let label_kw = chars_of("LABEL ");
    let append_kw = chars_of("APPEND ");
    proof {
        reveal_strlit("LABEL ");
        reveal_strlit("APPEND ");
    }
    let mut inside = false;
    let mut command_line: Option<Vec<char>> = None;
    let mut i: usize = 0;
    while i < ls.len()
        invariant
            i <= ls@.len(),
            lv == ls@.map_values(|v: Vec<char>| v@),
            lv == lines(source@),
            lab@ == label@,
            label_kw@ == "LABEL "@,
            append_kw@ == "APPEND "@,
            entry_fold(lv.take(i as int), label@) == (
                inside,
                match command_line {
                    Some(c) => Some(c@),
                    None => None,
                },
                false,
            ),
        decreases ls.len() - i,
    {
        assert(lv.take(i + 1).drop_last() =~= lv.take(i as int));
        assert(lv.take(i + 1).last() == ls@[i as int]@);
        proof {
            reveal_strlit("LABEL ");
            reveal_strlit("APPEND ");
        }
        let t = trim_chars(ls[i].as_slice());
        if seq_has_prefix(t.as_slice(), label_kw.as_slice()) {
            let rest = slice_range(t.as_slice(), 6, t.len());
            assert(rest@ =~= t@.skip(6));
            inside = chars_equal(rest.as_slice(), lab.as_slice());
        } else if inside && seq_has_prefix(t.as_slice(), append_kw.as_slice()) {
            if command_line.is_some() {
                proof {
                    lemma_entry_fold_dup_sticks(lv, label@, i as int + 1);
                }
                return Err(invalid("extlinux entry has duplicate APPEND records"));
            }
            let rest = slice_range(t.as_slice(), 7, t.len());
            assert(rest@ =~= t@.skip(7));
            command_line = Some(rest);
        }
        i = i + 1;
    }
    assert(lv.take(i as int) =~= lv);
    match command_line {
        Some(c) => {
            if !is_bounded_token(c.as_slice(), 4096, CharClass::CommandLine) {
                return Err(invalid("extlinux active entry has no safe APPEND record"));
            }
            Ok(string_from_chars(c.as_slice()))
        },
        None => Err(invalid("extlinux active entry has no safe APPEND record")),
    }
}

/// Once a duplicate is seen it stays seen.
pub proof fn lemma_entry_fold_dup_sticks(ls: Seq<Seq<char>>, label: Seq<char>, n: int)
    requires
        0 <= n <= ls.len(),
        entry_fold(ls.take(n), label).2,
    ensures
        entry_fold(ls, label).2,
    decreases ls.len() - n,
{
    if n < ls.len() {
        assert(ls.take(n + 1).drop_last() =~= ls.take(n));
        lemma_entry_fold_dup_sticks(ls, label, n + 1);
    } else {
        assert(ls.take(n) =~= ls);
    }
}


// ---------------------------------------------------------------------------
// The known-good extlinux fragment
// ---------------------------------------------------------------------------

pub const EXTLINUX_KNOWN_GOOD_TEMPLATE: &'static str = "LABEL bootart-known-good\n  MENU LABEL Bootart known-good\n  LINUX @KERNEL_IMAGE@\n  INITRD @KNOWN_GOOD_IMAGE@\n  APPEND @CMDLINE@ bootart=0 rd.bootart=0\n";

/// The inputs `render_extlinux_fragment` accepts.
pub open spec fn fragment_inputs_ok(kernel_path: Seq<char>, known_good: Seq<char>, cmd: Seq<char>) -> bool {
    &&& has_prefix(kernel_path, "/boot/"@)
    &&& spec_safe_flavor(kernel_path.skip(6))
    &&& has_prefix(known_good, "/boot/"@)
    &&& bounded_token(known_good.skip(6), 192, CharClass::KernelVersion)
    &&& spec_safe_command_line(cmd)
}

/// The fragment text for the given names.
pub open spec fn fragment_text(kernel: Seq<char>, known_good: Seq<char>, cmd: Seq<char>) -> Seq<char> {
    replace_all(
        replace_all(
            replace_all(EXTLINUX_KNOWN_GOOD_TEMPLATE@, "@KERNEL_IMAGE@"@, kernel),
            "@KNOWN_GOOD_IMAGE@"@,
            known_good,
        ),
        "@CMDLINE@"@,
        cmd,
    )
}

fn render_extlinux_fragment(kernel_path: &str, known_good_path: &str, command_line: &str) -> (r:
    Result<Vec<u8>, InstallError>)
    ensures
        r is Ok <==> fragment_inputs_ok(kernel_path@, known_good_path@, command_line@),
        r matches Ok(b) ==> b@ == encode_utf8(
            fragment_text(kernel_path@.skip(6), known_good_path@.skip(6), command_line@),
        ),
        r matches Err(e) ==> e is InvalidPlan,
{
    proof {
        reveal_strlit("/boot/");
        reveal_strlit("@KERNEL_IMAGE@");
        reveal_strlit("@KNOWN_GOOD_IMAGE@");
        reveal_strlit("@CMDLINE@");
    }
    let kernel = match strip_prefix(kernel_path, "/boot/") {
        Some(k) => k,
        None => return Err(invalid("mkinitfs-openrc kernel image is outside the fixed /boot layout")),
    };
    if !safe_flavor(kernel) {
        return Err(invalid("mkinitfs-openrc kernel image is outside the fixed /boot layout"));
    }
    let known_good = match strip_prefix(known_good_path, "/boot/") {
        Some(k) => k,
        None => return Err(
            invalid("mkinitfs-openrc known-good image is outside the fixed /boot layout"),
        ),
    };
    if !str_is_bounded_token(known_good, 192, CharClass::KernelVersion) {
        return Err(invalid("mkinitfs-openrc known-good image is outside the fixed /boot layout"));
    }
    if !safe_command_line(command_line) {
        return Err(invalid("mkinitfs-openrc kernel command line is unsafe"));
    }
    let a = replace_str(EXTLINUX_KNOWN_GOOD_TEMPLATE, "@KERNEL_IMAGE@", kernel);
    let b = replace_str(a.as_str(), "@KNOWN_GOOD_IMAGE@", known_good);
    let c = replace_str(b.as_str(), "@CMDLINE@", command_line);
    Ok(str_bytes(c.as_str()))
}

// ---------------------------------------------------------------------------
// Generator requests
// ---------------------------------------------------------------------------

/// The fixed command language of the mkinitfs-openrc backend.
pub open spec fn openrc_generator_request_valid(r: GeneratorRequest) -> bool {
    let a = r.args();
    &&& spec_safe_alternate_root(r.alternate_root@)
    &&& r.clear_environment
    &&& r.working_directory is None
    &&& match r.generator {
        GeneratorKind::Mkinitfs => {
            &&& r.executable@ == MKINITFS_EXECUTABLE@
            &&& a.len() == 5
            &&& spec_kernel_flavor(a[4]) is Some
            &&& a[0] == "-C"@
            &&& a[1] == "none"@
            &&& a[2] == "-o"@
            &&& a[3] == openrc_candidate(spec_kernel_flavor(a[4])->0)
        },
        GeneratorKind::ExtlinuxUpdate => r.executable@ == UPDATE_EXTLINUX_EXECUTABLE@ && a.len()
            == 0,
        _ => false,
    }
}

/// Rejects every command except the fixed mkinitfs and update-extlinux runs.
pub fn validate_mkinitfs_openrc_generator_request(request: &GeneratorRequest) -> (r: Result<
    (),
    InstallError,
>)
    ensures
        r is Ok <==> openrc_generator_request_valid(*request),
        r matches Err(e) ==> e is InvalidPlan,
{
    if !safe_alternate_root(request.alternate_root.as_str()) || !request.clear_environment {
        return Err(invalid("mkinitfs-openrc generator request root/environment is unsafe"));
    }
    if request.working_directory.is_some() {
        return Err(invalid("mkinitfs-openrc generator request has an unreviewed working directory"));
    }
    let exe = request.executable.as_str();
    let a = &request.arguments;
    match request.generator {
        GeneratorKind::Mkinitfs => {
            if !str_eq(exe, MKINITFS_EXECUTABLE) {
                return Err(invalid("mkinitfs-openrc generator executable or kind is unreviewed"));
            }
            if a.len() != 5 {
                return Err(invalid("mkinitfs-openrc mkinitfs argv differs from the fixed contract"));
            }
            let flavor = match kernel_flavor(a[4].as_str()) {
                Some(f) => f,
                None => return Err(invalid("mkinitfs-openrc mkinitfs kernel is unsafe")),
            };
            let candidate = concat2(CANDIDATE_PREFIX, flavor.as_str());
            if !str_eq(a[0].as_str(), "-C") || !str_eq(a[1].as_str(), "none") || !str_eq(
                a[2].as_str(),
                "-o",
            ) || !str_eq(a[3].as_str(), candidate.as_str()) {
                return Err(invalid("mkinitfs-openrc mkinitfs argv differs from the fixed contract"));
            }
        },
        GeneratorKind::ExtlinuxUpdate => {
            if !str_eq(exe, UPDATE_EXTLINUX_EXECUTABLE) {
                return Err(invalid("mkinitfs-openrc generator executable or kind is unreviewed"));
            }
            if a.len() != 0 {
                return Err(invalid("mkinitfs-openrc update-extlinux accepts no installer arguments"));
            }
        },
        _ => {
            return Err(invalid("mkinitfs-openrc generator executable or kind is unreviewed"));
        },
    }
    Ok(())
}


// ---------------------------------------------------------------------------
// Contracts
// ---------------------------------------------------------------------------

/// The prerequisite files: four fixed ones and the flavor's kernel image.
pub open spec fn openrc_prerequisite_paths(kernel_image: Seq<char>) -> Seq<Seq<char>> {
    seq![
        INITRAMFS_INIT_PATH@,
        MKINITFS_CONFIG_PATH@,
        UPDATE_EXTLINUX_CONFIG_PATH@,
        EXTLINUX_CONFIG_PATH@,
        kernel_image,
    ]
}

/// The first fact about `path`, or -1.
pub open spec fn first_fact_index(ps: Seq<MkinitfsOpenRcPathFact>, path: Seq<char>) -> int
    decreases ps.len(),
{
    if ps.len() == 0 {
        -1
    } else if first_fact_index(ps.drop_last(), path) >= 0 {
        first_fact_index(ps.drop_last(), path)
    } else if ps.last().path@ == path {
        ps.len() - 1
    } else {
        -1
    }
}

pub proof fn lemma_first_fact_index(ps: Seq<MkinitfsOpenRcPathFact>, path: Seq<char>)
    ensures
        -1 <= first_fact_index(ps, path) < ps.len(),
        first_fact_index(ps, path) >= 0 ==> ps[first_fact_index(ps, path)].path@ == path,
        first_fact_index(ps, path) < 0 ==> forall|j: int| 0 <= j < ps.len() ==> ps[j].path@ != path,
    decreases ps.len(),
{
    if ps.len() > 0 {
        let d = ps.drop_last();
        lemma_first_fact_index(d, path);
        assert forall|j: int| 0 <= j < ps.len() - 1 implies ps[j] == d[j] by {}
    }
}

fn first_fact_index_exec(ps: &Vec<MkinitfsOpenRcPathFact>, path: &str) -> (r: Option<usize>)
    ensures
        r matches Some(i) ==> i == first_fact_index(ps@, path@) && i < ps@.len(),
        r is None ==> first_fact_index(ps@, path@) == -1,
{
    let mut i: usize = 0;
    while i < ps.len()
        invariant
            i <= ps@.len(),
            first_fact_index(ps@.take(i as int), path@) == -1,
        decreases ps.len() - i,
    {
        assert(ps@.take(i + 1).drop_last() =~= ps@.take(i as int));
        if str_eq(ps[i].path.as_str(), path) {
            assert(first_fact_index(ps@.take(i + 1), path@) == i);
            proof {
                lemma_first_fact_index_prefix(ps@, path@, i as int + 1);
            }
            return Some(i);
        }
        i = i + 1;
    }
    assert(ps@.take(i as int) =~= ps@);
    None
}

pub proof fn lemma_first_fact_index_prefix(ps: Seq<MkinitfsOpenRcPathFact>, path: Seq<char>, n: int)
    requires
        0 <= n <= ps.len(),
        first_fact_index(ps.take(n), path) >= 0,
    ensures
        first_fact_index(ps, path) == first_fact_index(ps.take(n), path),
    decreases ps.len() - n,
{
    if n < ps.len() {
        assert(ps.take(n + 1).drop_last() =~= ps.take(n));
        lemma_first_fact_index_prefix(ps, path, n + 1);
    } else {
        assert(ps.take(n) =~= ps);
    }
}

/// The prerequisite paths are exactly `expected`, as sets.
pub open spec fn prerequisite_set_is(ps: Seq<MkinitfsOpenRcPathFact>, expected: Seq<Seq<char>>) -> bool {
    &&& forall|k: int| 0 <= k < expected.len() ==> first_fact_index(ps, #[trigger] expected[k]) >= 0
    &&& forall|i: int| 0 <= i < ps.len() ==> expected.contains(#[trigger] ps[i].path@)
}

pub open spec fn openrc_contract_fields_ok(c: MkinitfsOpenRcContract) -> bool {
    let f = c.kernel_flavor@;
    &&& spec_safe_kernel_version(c.kernel_version@)
    &&& spec_kernel_flavor(c.kernel_version@) == Some(f)
    &&& c.kernel_image@ == openrc_kernel_image(f)
    &&& c.active_image@ == openrc_active(f)
    &&& c.candidate_image@ == openrc_candidate(f)
    &&& c.known_good_image@ == c.active_image@ + KNOWN_GOOD_SUFFIX@
    &&& c.extlinux_fragment_path@ == EXTLINUX_KNOWN_GOOD_FRAGMENT_PATH@
    &&& c.extlinux_config_path@ == EXTLINUX_CONFIG_PATH@
    &&& c.mkinitfs_config_path@ == MKINITFS_CONFIG_PATH@
    &&& c.generate.alternate_root@ == c.update_extlinux.alternate_root@
}

/// The recorded configuration pair is exactly one `bootart` feature apart
/// and bound to the configuration fact.
pub open spec fn openrc_config_ok(
    original: Seq<u8>,
    activated: Seq<u8>,
    already: bool,
    mode: u32,
    fact: MkinitfsOpenRcPathFact,
) -> bool {
    &&& 0 < original.len() <= MAX_TEXT_BYTES
    &&& mode == fact.mode
    &&& valid_utf8(original)
    &&& valid_utf8(activated)
    &&& activate_features_ok(decode_utf8(original))
    &&& encode_utf8(spec_activate_features(decode_utf8(original))) == activated
    &&& already ==> spec_sha256(activated) == fact.digest && deactivate_features_ok(
        decode_utf8(activated),
    ) && encode_utf8(spec_deactivate_features(decode_utf8(activated))) == original
    &&& !already ==> spec_sha256(original) == fact.digest
}

/// The fragment boots the recorded kernel with the known-good image.
pub open spec fn openrc_fragment_ok(fragment: Seq<u8>, kernel_image: Seq<char>, known_good: Seq<char>) -> bool {
    &&& valid_utf8(fragment)
    &&& has_prefix(decode_utf8(fragment), "LABEL bootart-known-good\n"@)
    &&& contains(decode_utf8(fragment), "  LINUX "@ + kernel_image.skip(6) + "\n"@)
    &&& contains(decode_utf8(fragment), "  INITRD "@ + known_good.skip(6) + "\n"@)
    &&& contains(decode_utf8(fragment), " bootart=0 rd.bootart=0\n"@)
    &&& !contains_char(decode_utf8(fragment), '@')
}

/// Every cross-field relation of a resolved contract.
pub open spec fn openrc_contract_valid(c: MkinitfsOpenRcContract) -> bool {
    let ps = c.prerequisites@;
    let ci = first_fact_index(ps, MKINITFS_CONFIG_PATH@);
    &&& openrc_contract_fields_ok(c)
    &&& openrc_generator_request_valid(c.generate)
    &&& openrc_generator_request_valid(c.update_extlinux)
    &&& c.generate.args().len() > 4
    &&& c.generate.args()[3] == c.candidate_image@
    &&& c.generate.args()[4] == c.kernel_version@
    &&& ci >= 0
    &&& openrc_config_ok(
        c.mkinitfs_config_original@,
        c.mkinitfs_config_activated@,
        c.mkinitfs_config_already_active,
        c.mkinitfs_config_mode,
        ps[ci],
    )
    &&& openrc_fragment_ok(c.extlinux_fragment@, c.kernel_image@, c.known_good_image@)
    &&& prerequisite_set_is(ps, openrc_prerequisite_paths(c.kernel_image@))
}

fn openrc_contract_fields_ok_exec(c: &MkinitfsOpenRcContract) -> (r: bool)
    ensures
        r == openrc_contract_fields_ok(*c),
{
    if !safe_kernel_version(c.kernel_version.as_str()) {
        return false;
    }
    let flavor_ok = match kernel_flavor(c.kernel_version.as_str()) {
        Some(f) => str_eq(f.as_str(), c.kernel_flavor.as_str()),
        None => false,
    };
    if !flavor_ok {
        return false;
    }
    let f = c.kernel_flavor.as_str();
    let kernel_image = concat2(KERNEL_PREFIX, f);
    let active = concat2(ACTIVE_PREFIX, f);
    let candidate = concat2(CANDIDATE_PREFIX, f);
    let known_good = concat2(c.active_image.as_str(), KNOWN_GOOD_SUFFIX);
    str_eq(c.kernel_image.as_str(), kernel_image.as_str()) && str_eq(
        c.active_image.as_str(),
        active.as_str(),
    ) && str_eq(c.candidate_image.as_str(), candidate.as_str()) && str_eq(
        c.known_good_image.as_str(),
        known_good.as_str(),
    ) && str_eq(c.extlinux_fragment_path.as_str(), EXTLINUX_KNOWN_GOOD_FRAGMENT_PATH) && str_eq(
        c.extlinux_config_path.as_str(),
        EXTLINUX_CONFIG_PATH,
    ) && str_eq(c.mkinitfs_config_path.as_str(), MKINITFS_CONFIG_PATH) && str_eq(
        c.generate.alternate_root.as_str(),
        c.update_extlinux.alternate_root.as_str(),
    )
}

fn openrc_config_ok_exec(
    original: &Vec<u8>,
    activated: &Vec<u8>,
    already: bool,
    mode: u32,
    fact: &MkinitfsOpenRcPathFact,
) -> (r: bool)
    ensures
        r == openrc_config_ok(original@, activated@, already, mode, *fact),
{
    if original.len() == 0 || original.len() > MAX_TEXT_BYTES || mode != fact.mode {
        return false;
    }
    let o = match crate::text::utf8_to_str(original.as_slice()) {
        Some(o) => o,
        None => return false,
    };
    let a = match crate::text::utf8_to_str(activated.as_slice()) {
        Some(a) => a,
        None => return false,
    };
    let reactivated = match activate_mkinitfs_bootart_feature(o) {
        Ok(b) => b,
        Err(_) => return false,
    };
    if !bytes_eq(reactivated.as_slice(), activated.as_slice()) {
        return false;
    }
    if already {
        if sha256(activated.as_slice()) != fact.digest {
            return false;
        }
        let deactivated = match deactivate_mkinitfs_bootart_feature(a) {
            Ok(b) => b,
            Err(_) => return false,
        };
        bytes_eq(deactivated.as_slice(), original.as_slice())
    } else {
        sha256(original.as_slice()) == fact.digest
    }
}

fn openrc_fragment_ok_exec(fragment: &Vec<u8>, kernel_image: &str, known_good: &str) -> (r: bool)
    requires
        kernel_image@.len() >= 6,
        known_good@.len() >= 6,
    ensures
        r == openrc_fragment_ok(fragment@, kernel_image@, known_good@),
{
    let text = match crate::text::utf8_to_str(fragment.as_slice()) {
        Some(t) => t,
        None => return false,
    };
    let k = slice_from(kernel_image, 6);
    let g = slice_from(known_good, 6);
    let linux = concat3("  LINUX ", k.as_str(), "\n");
    let initrd = concat3("  INITRD ", g.as_str(), "\n");
    crate::text::str_has_prefix(text, "LABEL bootart-known-good\n") && crate::text::str_contains(
        text,
        linux.as_str(),
    ) && crate::text::str_contains(text, initrd.as_str()) && crate::text::str_contains(
        text,
        " bootart=0 rd.bootart=0\n",
    ) && !crate::text::str_contains_char(text, '@')
}

/// `s` without its first `n` characters.
fn slice_from(s: &str, n: usize) -> (r: String)
    requires
        n <= s@.len(),
    ensures
        r@ == s@.skip(n as int),
{
    let v = chars_of(s);
    let rest = slice_range(v.as_slice(), n, v.len());
    assert(rest@ =~= s@.skip(n as int));
    string_from_chars(rest.as_slice())
}

fn prerequisite_set_is_exec(ps: &Vec<MkinitfsOpenRcPathFact>, kernel_image: &str) -> (r: bool)
    ensures
        r == prerequisite_set_is(ps@, openrc_prerequisite_paths(kernel_image@)),
{
    let expected = vec![
        INITRAMFS_INIT_PATH,
        MKINITFS_CONFIG_PATH,
        UPDATE_EXTLINUX_CONFIG_PATH,
        EXTLINUX_CONFIG_PATH,
        kernel_image,
    ];
    let ghost ev = openrc_prerequisite_paths(kernel_image@);
    assert(str_views(expected@) =~= ev);
    let mut k: usize = 0;
    while k < 5
        invariant
            k <= 5,
            expected@.len() == 5,
            str_views(expected@) == ev,
            ev == openrc_prerequisite_paths(kernel_image@),
            forall|j: int| 0 <= j < k ==> first_fact_index(ps@, #[trigger] ev[j]) >= 0,
        decreases 5 - k,
    {
        assert(ev[k as int] == expected@[k as int]@);
        if first_fact_index_exec(ps, expected[k]).is_none() {
            return false;
        }
        k = k + 1;
    }
    let mut i: usize = 0;
    while i < ps.len()
        invariant
            i <= ps@.len(),
            expected@.len() == 5,
            str_views(expected@) == ev,
            ev == openrc_prerequisite_paths(kernel_image@),
            forall|j: int| 0 <= j < 5 ==> first_fact_index(ps@, #[trigger] ev[j]) >= 0,
            forall|j: int| 0 <= j < i ==> ev.contains(#[trigger] ps@[j].path@),
        decreases ps.len() - i,
    {
        let p = ps[i].path.as_str();
        let mut found = false;
        let mut k: usize = 0;
        while k < 5
            invariant
                k <= 5,
                expected@.len() == 5,
                str_views(expected@) == ev,
                found == exists|j: int| 0 <= j < k && ev[j] == p@,
            decreases 5 - k,
        {
            assert(ev[k as int] == expected@[k as int]@);
            if str_eq(p, expected[k]) {
                found = true;
            }
            k = k + 1;
        }
        if !found {
            assert(!ev.contains(ps@[i as int].path@));
            return false;
        }
        i = i + 1;
    }
    true
}

/// Revalidates every cross-field relation of a resolved contract.
pub fn validate_mkinitfs_openrc_contract(contract: &MkinitfsOpenRcContract) -> (r: Result<
    (),
    InstallError,
>)
    ensures
        r is Ok <==> openrc_contract_valid(*contract),
        r matches Err(e) ==> e is InvalidPlan,
{
    if !openrc_contract_fields_ok_exec(contract) {
        return Err(
            invalid("mkinitfs-openrc contract mixes incompatible image or extlinux capabilities"),
        );
    }
    validate_mkinitfs_openrc_generator_request(&contract.generate)?;
    validate_mkinitfs_openrc_generator_request(&contract.update_extlinux)?;
    let args = &contract.generate.arguments;
    if args.len() <= 4 || !str_eq(args[3].as_str(), contract.candidate_image.as_str()) || !str_eq(
        args[4].as_str(),
        contract.kernel_version.as_str(),
    ) {
        return Err(
            invalid("mkinitfs-openrc generation request is not bound to its resolved image contract"),
        );
    }
    let ci = match first_fact_index_exec(&contract.prerequisites, MKINITFS_CONFIG_PATH) {
        Some(i) => i,
        None => return Err(invalid("mkinitfs-openrc contract omits its configuration fact")),
    };
    if !openrc_config_ok_exec(
        &contract.mkinitfs_config_original,
        &contract.mkinitfs_config_activated,
        contract.mkinitfs_config_already_active,
        contract.mkinitfs_config_mode,
        &contract.prerequisites[ci],
    ) {
        return Err(
            invalid("mkinitfs-openrc activated configuration differs from the exact feature contract"),
        );
    }
    proof {
        reveal_strlit("/boot/vmlinuz-");
        reveal_strlit("/boot/initramfs-");
    }
    if !openrc_fragment_ok_exec(
        &contract.extlinux_fragment,
        contract.kernel_image.as_str(),
        contract.known_good_image.as_str(),
    ) {
        return Err(invalid("mkinitfs-openrc extlinux fragment differs from the resolved image contract"));
    }
    if !prerequisite_set_is_exec(&contract.prerequisites, contract.kernel_image.as_str()) {
        return Err(invalid("mkinitfs-openrc contract prerequisite set is incomplete"));
    }
    Ok(())
}

/// The fixed path and hash relations of a mkinitfs-openrc image record.
pub open spec fn openrc_image_record_valid(r: DracutSystemdImageRecord) -> bool {
    &&& spec_kernel_flavor(r.kernel_version@) is Some
    &&& r.active_image@ == openrc_active(spec_kernel_flavor(r.kernel_version@)->0)
    &&& r.candidate_image@ == openrc_candidate(spec_kernel_flavor(r.kernel_version@)->0)
    &&& r.known_good_image@ == r.active_image@ + KNOWN_GOOD_SUFFIX@
    &&& r.grub_script_path@ == EXTLINUX_KNOWN_GOOD_FRAGMENT_PATH@
    &&& r.grub_config_path@ == EXTLINUX_CONFIG_PATH@
    &&& 0 < r.candidate_bytes <= MAX_CANDIDATE_BYTES
    &&& r.active_digest == r.candidate_digest
}

/// Checks a record's fixed path and hash relations.
pub fn validate_mkinitfs_openrc_image_record(record: &DracutSystemdImageRecord) -> (r: Result<
    (),
    InstallError,
>)
    ensures
        r is Ok <==> openrc_image_record_valid(*record),
        r matches Err(e) ==> e is InvalidPlan,
{
    let flavor = match kernel_flavor(record.kernel_version.as_str()) {
        Some(f) => f,
        None => return Err(invalid("mkinitfs-openrc image record kernel is unsafe")),
    };
    let active = concat2(ACTIVE_PREFIX, flavor.as_str());
    let candidate = concat2(CANDIDATE_PREFIX, flavor.as_str());
    let known_good = concat2(record.active_image.as_str(), KNOWN_GOOD_SUFFIX);
    if !str_eq(record.active_image.as_str(), active.as_str()) || !str_eq(
        record.candidate_image.as_str(),
        candidate.as_str(),
    ) || !str_eq(record.known_good_image.as_str(), known_good.as_str()) || !str_eq(
        record.grub_script_path.as_str(),
        EXTLINUX_KNOWN_GOOD_FRAGMENT_PATH,
    ) || !str_eq(record.grub_config_path.as_str(), EXTLINUX_CONFIG_PATH)
        || record.candidate_bytes == 0 || record.candidate_bytes > MAX_CANDIDATE_BYTES
        || record.active_digest != record.candidate_digest {
        return Err(invalid("mkinitfs-openrc image record violates the fixed path/hash contract"));
    }
    Ok(())
}

/// Binds an inspection to the exact candidate bytes before activation.
pub fn verified_mkinitfs_openrc_image_record(
    contract: &MkinitfsOpenRcContract,
    candidate: &[u8],
    inspection: &ArchiveInspection,
    expected_bootart: &[u8],
) -> (r: Result<DracutSystemdImageRecord, InstallError>)
    ensures
        r is Ok <==> openrc_contract_valid(*contract) && 0 < candidate@.len()
            <= MAX_CANDIDATE_BYTES && inspection.bootart_digest == spec_sha256(expected_bootart@)
            && inspection.inspected_entries != 0 && inspection.inspected_bytes != 0,
        r matches Ok(rec) ==> openrc_image_record_valid(rec) && rec.kernel_version@
            == contract.kernel_version@ && rec.active_image@ == contract.active_image@
            && rec.active_digest == spec_sha256(candidate@) && rec.candidate_image@
            == contract.candidate_image@ && rec.candidate_digest == spec_sha256(candidate@)
            && rec.candidate_bytes == candidate@.len() && rec.known_good_image@
            == contract.known_good_image@ && rec.known_good_digest == contract.known_good_digest
            && rec.grub_script_path@ == contract.extlinux_fragment_path@ && rec.grub_script_digest
            == spec_sha256(contract.extlinux_fragment@) && rec.grub_config_path@
            == contract.extlinux_config_path@ && rec.bootart_digest == spec_sha256(
            expected_bootart@,
        ),
        r matches Err(e) ==> e is InvalidPlan,
{
    validate_mkinitfs_openrc_contract(contract)?;
    let expected_digest = sha256(expected_bootart);
    if candidate.len() == 0 || candidate.len() as u64 > MAX_CANDIDATE_BYTES
        || inspection.bootart_digest != expected_digest || inspection.inspected_entries == 0
        || inspection.inspected_bytes == 0 {
        return Err(invalid("mkinitfs-openrc candidate inspection is incomplete or inconsistent"));
    }
    let digest = sha256(candidate);
    let record = DracutSystemdImageRecord {
        kernel_version: owned(contract.kernel_version.as_str()),
        active_image: owned(contract.active_image.as_str()),
        active_digest: digest,
        candidate_image: owned(contract.candidate_image.as_str()),
        candidate_digest: digest,
        candidate_bytes: candidate.len() as u64,
        known_good_image: owned(contract.known_good_image.as_str()),
        known_good_digest: contract.known_good_digest,
        grub_script_path: owned(contract.extlinux_fragment_path.as_str()),
        grub_script_digest: sha256(contract.extlinux_fragment.as_slice()),
        grub_config_path: owned(contract.extlinux_config_path.as_str()),
        bootart_digest: expected_digest,
    };
    validate_mkinitfs_openrc_image_record(&record)?;
    Ok(record)
}


// ---------------------------------------------------------------------------
// Planning
// ---------------------------------------------------------------------------

pub open spec fn openrc_kernel(f: MkinitfsOpenRcFacts) -> Seq<char> {
    f.kernel_versions@[0]@
}

pub open spec fn openrc_flavor(f: MkinitfsOpenRcFacts) -> Seq<char> {
    spec_kernel_flavor(openrc_kernel(f))->0
}

pub open spec fn openrc_known_good(f: MkinitfsOpenRcFacts) -> Seq<char> {
    openrc_active(openrc_flavor(f)) + KNOWN_GOOD_SUFFIX@
}

pub open spec fn openrc_host_ok(f: MkinitfsOpenRcFacts, root: Seq<char>) -> bool {
    &&& spec_safe_alternate_root(root)
    &&& f.architecture@ == PRODUCT_ARCHITECTURE@
    &&& f.pid1_comm@ == "init"@
    &&& f.kernel_versions.len() == 1
    &&& spec_safe_kernel_version(openrc_kernel(f))
    &&& spec_kernel_flavor(openrc_kernel(f)) is Some
    &&& f.boot_writable
}

pub open spec fn openrc_before_size_ok(f: MkinitfsOpenRcFacts, root: Seq<char>) -> bool {
    &&& openrc_host_ok(f, root)
    &&& f.boot_free_bytes >= MIN_BOOT_FREE_BYTES
    &&& f.boot_free_inodes >= MIN_BOOT_FREE_INODES
    &&& f.known_good_path@ == openrc_active(openrc_flavor(f))
}

/// A prerequisite the installer may read but never executes.
pub open spec fn prerequisite_fact_safe(p: MkinitfsOpenRcPathFact) -> bool {
    p.root_owned && p.regular && !p.symlink && !p.executable && p.mode & 0o022u32 == 0 && p.mode
        & 0o400u32 != 0
}

/// The facts describe exactly `expected`, each once and safely.
pub open spec fn prerequisites_exact(ps: Seq<MkinitfsOpenRcPathFact>, expected: Seq<Seq<char>>) -> bool {
    &&& forall|i: int, j: int| 0 <= i < j < ps.len() ==> ps[i].path@ != ps[j].path@
    &&& ps.len() == expected.len()
    &&& forall|k: int|
        0 <= k < expected.len() ==> exists|i: int|
            0 <= i < ps.len() && ps[i].path@ == #[trigger] expected[k] && prerequisite_fact_safe(
                ps[i],
            )
    &&& forall|i: int| 0 <= i < ps.len() ==> expected.contains(#[trigger] ps[i].path@)
}

/// The fact about `path` among the prerequisites.
pub open spec fn fact_at(f: MkinitfsOpenRcFacts, path: Seq<char>) -> MkinitfsOpenRcPathFact {
    f.contract_files@[first_fact_index(f.contract_files@, path)]
}

pub open spec fn openrc_already(f: MkinitfsOpenRcFacts) -> bool {
    string_views(f.mkinitfs_features@).contains("bootart"@)
}

/// The recorded configuration before activation.
pub open spec fn openrc_original(f: MkinitfsOpenRcFacts) -> Seq<u8> {
    if openrc_already(f) {
        encode_utf8(spec_deactivate_features(f.mkinitfs_config_source@))
    } else {
        encode_utf8(f.mkinitfs_config_source@)
    }
}

/// The recorded configuration after activation.
pub open spec fn openrc_activated(f: MkinitfsOpenRcFacts) -> Seq<u8> {
    if openrc_already(f) {
        encode_utf8(f.mkinitfs_config_source@)
    } else {
        encode_utf8(spec_activate_features(f.mkinitfs_config_source@))
    }
}

pub open spec fn openrc_fragment(f: MkinitfsOpenRcFacts) -> Seq<u8> {
    encode_utf8(
        fragment_text(
            openrc_kernel_image(openrc_flavor(f)).skip(6),
            openrc_known_good(f).skip(6),
            f.kernel_command_line@,
        ),
    )
}

pub open spec fn openrc_preflight_ok(f: MkinitfsOpenRcFacts, root: Seq<char>) -> bool {
    let kimg = openrc_kernel_image(openrc_flavor(f));
    let config = f.mkinitfs_config_source@;
    &&& openrc_before_size_ok(f, root)
    &&& 0 < f.known_good_bytes <= MAX_CANDIDATE_BYTES
    &&& tools_match_exactly(f.tools@, str_views(mkinitfs_openrc_tools()))
    &&& prerequisites_exact(f.contract_files@, openrc_prerequisite_paths(kimg))
    &&& fact_at(f, INITRAMFS_INIT_PATH@).digest == spec_sha256(
        encode_utf8(f.initramfs_init_source@),
    )
    &&& init_patchable(f.initramfs_init_source@)
    &&& fact_at(f, MKINITFS_CONFIG_PATH@).digest == spec_sha256(encode_utf8(config))
    &&& spec_parse_features(config) == Some(string_views(f.mkinitfs_features@))
    &&& openrc_already(f) ==> deactivate_features_ok(config)
    &&& !openrc_already(f) ==> activate_features_ok(config)
    &&& f.extlinux_overwrite
    &&& f.extlinux_default_label@ == openrc_flavor(f)
    &&& spec_safe_command_line(f.kernel_command_line@)
    &&& fragment_inputs_ok(kimg, openrc_known_good(f), f.kernel_command_line@)
}

/// The relations the planned contract satisfies only on some facts: the
/// configuration pair round-trips and the fragment names its images.
pub open spec fn openrc_outputs_ok(f: MkinitfsOpenRcFacts) -> bool {
    &&& openrc_config_ok(
        openrc_original(f),
        openrc_activated(f),
        openrc_already(f),
        fact_at(f, MKINITFS_CONFIG_PATH@).mode,
        fact_at(f, MKINITFS_CONFIG_PATH@),
    )
    &&& openrc_fragment_ok(
        openrc_fragment(f),
        openrc_kernel_image(openrc_flavor(f)),
        openrc_known_good(f),
    )
}

/// The inputs on which the planner succeeds.
pub open spec fn openrc_plan_ok(f: MkinitfsOpenRcFacts, root: Seq<char>) -> bool {
    openrc_preflight_ok(f, root) && openrc_outputs_ok(f)
}

/// The contract the planner resolves from `f` for `root`.
pub open spec fn openrc_contract_for(c: MkinitfsOpenRcContract, f: MkinitfsOpenRcFacts, root: Seq<char>) -> bool {
    let fl = openrc_flavor(f);
    &&& c.kernel_version@ == openrc_kernel(f)
    &&& c.kernel_flavor@ == fl
    &&& c.kernel_image@ == openrc_kernel_image(fl)
    &&& c.active_image@ == openrc_active(fl)
    &&& c.candidate_image@ == openrc_candidate(fl)
    &&& c.known_good_image@ == openrc_known_good(f)
    &&& c.known_good_digest == f.known_good_digest
    &&& c.extlinux_fragment_path@ == EXTLINUX_KNOWN_GOOD_FRAGMENT_PATH@
    &&& c.extlinux_config_path@ == EXTLINUX_CONFIG_PATH@
    &&& c.extlinux_fragment@ == openrc_fragment(f)
    &&& c.mkinitfs_config_path@ == MKINITFS_CONFIG_PATH@
    &&& c.mkinitfs_config_mode == fact_at(f, MKINITFS_CONFIG_PATH@).mode
    &&& c.mkinitfs_config_original@ == openrc_original(f)
    &&& c.mkinitfs_config_activated@ == openrc_activated(f)
    &&& c.mkinitfs_config_already_active == openrc_already(f)
    &&& c.prerequisites@ == f.contract_files@
    &&& c.generate.is_exactly(
        GeneratorKind::Mkinitfs,
        MKINITFS_EXECUTABLE@,
        root,
        None,
        seq!["-C"@, "none"@, "-o"@, openrc_candidate(fl), openrc_kernel(f)],
    )
    &&& c.update_extlinux.is_exactly(
        GeneratorKind::ExtlinuxUpdate,
        UPDATE_EXTLINUX_EXECUTABLE@,
        root,
        None,
        seq![],
    )
}

pub open spec fn openrc_plan_error(f: MkinitfsOpenRcFacts, root: Seq<char>, e: InstallError) -> bool {
    if openrc_host_ok(f, root) && f.boot_free_bytes < MIN_BOOT_FREE_BYTES {
        e matches InstallError::InsufficientFreeSpace { path, required, available } && path@
            == "/boot"@ && required == MIN_BOOT_FREE_BYTES && available == f.boot_free_bytes
    } else if openrc_before_size_ok(f, root) && (f.known_good_bytes == 0 || f.known_good_bytes
        > MAX_CANDIDATE_BYTES) {
        e matches InstallError::FileTooLarge { path, size, limit } && path@ == f.known_good_path@
            && size == f.known_good_bytes && limit == MAX_CANDIDATE_BYTES
    } else {
        e is InvalidPlan
    }
}

/// A planned contract satisfies every validated relation except the output
/// relations, which it satisfies exactly when the facts' outputs do.
pub proof fn lemma_openrc_planned_contract_shape(
    c: MkinitfsOpenRcContract,
    f: MkinitfsOpenRcFacts,
    root: Seq<char>,
)
    requires
        openrc_preflight_ok(f, root),
        openrc_contract_for(c, f, root),
    ensures
        openrc_contract_valid(c) <==> openrc_outputs_ok(f),
{
    let fl = openrc_flavor(f);
    let kimg = openrc_kernel_image(fl);
    let ps = f.contract_files@;
    let ev = openrc_prerequisite_paths(kimg);
    assert(ev[1] == MKINITFS_CONFIG_PATH@);
    let i = choose|i: int| 0 <= i < ps.len() && ps[i].path@ == #[trigger] ev[1] && prerequisite_fact_safe(ps[i]);
    lemma_first_fact_index(ps, MKINITFS_CONFIG_PATH@);
    assert(first_fact_index(ps, MKINITFS_CONFIG_PATH@) >= 0);
    assert forall|k: int| 0 <= k < ev.len() implies first_fact_index(ps, #[trigger] ev[k]) >= 0 by {
        lemma_first_fact_index(ps, ev[k]);
        let w = choose|w: int| 0 <= w < ps.len() && ps[w].path@ == ev[k] && prerequisite_fact_safe(ps[w]);
        assert(ps[w].path@ == ev[k]);
    }
    assert(prerequisite_set_is(ps, ev));
    assert(openrc_contract_fields_ok(c));
    assert(c.generate.args()[4] == openrc_kernel(f));
    assert(openrc_generator_request_valid(c.generate));
    assert(openrc_generator_request_valid(c.update_extlinux));
}

fn copy_facts(ps: &Vec<MkinitfsOpenRcPathFact>) -> (r: Vec<MkinitfsOpenRcPathFact>)
    ensures
        r@ == ps@,
{
    let mut r: Vec<MkinitfsOpenRcPathFact> = Vec::new();
    let mut i: usize = 0;
    while i < ps.len()
        invariant
            i <= ps@.len(),
            r@ =~= ps@.take(i as int),
        decreases ps.len() - i,
    {
        let p = &ps[i];
        r.push(
            MkinitfsOpenRcPathFact {
                path: p.path.clone(),
                root_owned: p.root_owned,
                regular: p.regular,
                symlink: p.symlink,
                executable: p.executable,
                mode: p.mode,
                digest: p.digest,
            },
        );
        i = i + 1;
    }
    assert(ps@.take(i as int) =~= ps@);
    r
}

fn prerequisites_exact_exec(ps: &Vec<MkinitfsOpenRcPathFact>, kernel_image: &str) -> (r: bool)
    ensures
        r == prerequisites_exact(ps@, openrc_prerequisite_paths(kernel_image@)),
{
    let ghost ev = openrc_prerequisite_paths(kernel_image@);
    let mut a: usize = 0;
    while a < ps.len()
        invariant
            a <= ps@.len(),
            forall|x: int, y: int| 0 <= x < y < ps@.len() && x < a ==> ps@[x].path@ != ps@[y].path@,
        decreases ps.len() - a,
    {
        let mut b: usize = a + 1;
        while b < ps.len()
            invariant
                a < ps@.len(),
                a + 1 <= b <= ps@.len(),
                forall|x: int, y: int|
                    0 <= x < y < ps@.len() && x < a ==> ps@[x].path@ != ps@[y].path@,
                forall|y: int| a < y < b ==> ps@[a as int].path@ != ps@[y].path@,
            decreases ps.len() - b,
        {
            if str_eq(ps[a].path.as_str(), ps[b].path.as_str()) {
                return false;
            }
            b = b + 1;
        }
        a = a + 1;
    }
    if ps.len() != 5 {
        return false;
    }
    let expected = vec![
        INITRAMFS_INIT_PATH,
        MKINITFS_CONFIG_PATH,
        UPDATE_EXTLINUX_CONFIG_PATH,
        EXTLINUX_CONFIG_PATH,
        kernel_image,
    ];
    assert(str_views(expected@) =~= ev);
    let mut k: usize = 0;
    while k < 5
        invariant
            k <= 5,
            ps@.len() == 5,
            expected@.len() == 5,
            str_views(expected@) == ev,
            ev == openrc_prerequisite_paths(kernel_image@),
            forall|x: int, y: int| 0 <= x < y < ps@.len() ==> ps@[x].path@ != ps@[y].path@,
            forall|m: int|
                0 <= m < k ==> exists|i: int|
                    0 <= i < ps@.len() && ps@[i].path@ == #[trigger] ev[m] && prerequisite_fact_safe(
                        ps@[i],
                    ),
        decreases 5 - k,
    {
        assert(ev[k as int] == expected@[k as int]@);
        let idx = match first_fact_index_exec(ps, expected[k]) {
            Some(i) => i,
            None => {
                proof {
                    lemma_first_fact_index(ps@, ev[k as int]);
                }
                return false;
            },
        };
        proof {
            lemma_first_fact_index(ps@, ev[k as int]);
        }
        let p = &ps[idx];
        if !(p.root_owned && p.regular && !p.symlink && !p.executable && p.mode & 0o022u32 == 0
            && p.mode & 0o400u32 != 0) {
            assert forall|i: int|
                0 <= i < ps@.len() && ps@[i].path@ == ev[k as int] implies !prerequisite_fact_safe(
                ps@[i],
            ) by {
                if i != idx {
                    if i < idx {
                        assert(ps@[i].path@ != ps@[idx as int].path@);
                    } else {
                        assert(ps@[idx as int].path@ != ps@[i].path@);
                    }
                }
            }
            return false;
        }
        k = k + 1;
    }
    let mut i: usize = 0;
    while i < ps.len()
        invariant
            i <= ps@.len(),
            expected@.len() == 5,
            str_views(expected@) == ev,
            ev == openrc_prerequisite_paths(kernel_image@),
            forall|j: int| 0 <= j < i ==> ev.contains(#[trigger] ps@[j].path@),
        decreases ps.len() - i,
    {
        let p = ps[i].path.as_str();
        let mut found = false;
        let mut m: usize = 0;
        while m < 5
            invariant
                m <= 5,
                expected@.len() == 5,
                str_views(expected@) == ev,
                found == exists|j: int| 0 <= j < m && ev[j] == p@,
            decreases 5 - m,
        {
            assert(ev[m as int] == expected@[m as int]@);
            if str_eq(p, expected[m]) {
                found = true;
            }
            m = m + 1;
        }
        if !found {
            assert(!ev.contains(ps@[i as int].path@));
            return false;
        }
        i = i + 1;
    }
    true
}

fn openrc_preflight(facts: &MkinitfsOpenRcFacts, alternate_root: &str) -> (r: Result<
    (String, Vec<u8>, Vec<u8>, bool, u32),
    InstallError,
>)
    ensures
        r is Ok <==> openrc_preflight_ok(*facts, alternate_root@),
        r matches Ok((flavor, original, activated, already, mode)) ==> flavor@ == openrc_flavor(
            *facts,
        ) && original@ == openrc_original(*facts) && activated@ == openrc_activated(*facts)
            && already == openrc_already(*facts) && mode == fact_at(
            *facts,
            MKINITFS_CONFIG_PATH@,
        ).mode,
        r matches Err(e) ==> openrc_plan_error(*facts, alternate_root@, e),
{
    if !safe_alternate_root(alternate_root) {
        return Err(invalid("mkinitfs-openrc alternate root is unsafe"));
    }
    if !str_eq(facts.architecture.as_str(), PRODUCT_ARCHITECTURE) {
        return Err(invalid("mkinitfs-openrc architecture does not match this Bootart ELF"));
    }
    if !str_eq(facts.pid1_comm.as_str(), "init") {
        return Err(invalid("mkinitfs-openrc PID 1 is not the reviewed init entry"));
    }
    if facts.kernel_versions.len() != 1 {
        return Err(invalid("mkinitfs-openrc must have one selected running kernel module tree"));
    }
    let kernel = facts.kernel_versions[0].as_str();
    if !safe_kernel_version(kernel) {
        return Err(invalid("mkinitfs-openrc kernel version is unsafe"));
    }
    let flavor = match kernel_flavor(kernel) {
        Some(f) => f,
        None => return Err(invalid("mkinitfs-openrc kernel version has no safe flavor")),
    };
    if !facts.boot_writable {
        return Err(invalid("mkinitfs-openrc /boot is not writable"));
    }
    if facts.boot_free_bytes < MIN_BOOT_FREE_BYTES {
        return Err(
            InstallError::InsufficientFreeSpace {
                path: owned("/boot"),
                required: MIN_BOOT_FREE_BYTES,
                available: facts.boot_free_bytes,
            },
        );
    }
    if facts.boot_free_inodes < MIN_BOOT_FREE_INODES {
        return Err(invalid("mkinitfs-openrc /boot has insufficient free inodes"));
    }
    let active = concat2(ACTIVE_PREFIX, flavor.as_str());
    if !str_eq(facts.known_good_path.as_str(), active.as_str()) {
        return Err(invalid("mkinitfs-openrc known-good initramfs path is not canonical"));
    }
    if facts.known_good_bytes == 0 || facts.known_good_bytes > MAX_CANDIDATE_BYTES {
        return Err(
            InstallError::FileTooLarge {
                path: owned(facts.known_good_path.as_str()),
                size: facts.known_good_bytes,
                limit: MAX_CANDIDATE_BYTES,
            },
        );
    }
    let tools = vec![
        MKINITFS_EXECUTABLE,
        UPDATE_EXTLINUX_EXECUTABLE,
        EXTLINUX_EXECUTABLE,
        OPENRC_EXECUTABLE,
    ];
    assert(tools@ =~= mkinitfs_openrc_tools());
    if !tools_match_exactly_exec(&facts.tools, &tools) {
        return Err(invalid("mkinitfs-openrc tool facts differ from the fixed contract"));
    }
    let kernel_image = concat2(KERNEL_PREFIX, flavor.as_str());
    if !prerequisites_exact_exec(&facts.contract_files, kernel_image.as_str()) {
        return Err(invalid("mkinitfs-openrc prerequisite facts differ from the fixed contract"));
    }
    proof {
        let ev = openrc_prerequisite_paths(kernel_image@);
        assert(ev[0] == INITRAMFS_INIT_PATH@);
        assert(ev[1] == MKINITFS_CONFIG_PATH@);
        lemma_first_fact_index(facts.contract_files@, INITRAMFS_INIT_PATH@);
        lemma_first_fact_index(facts.contract_files@, MKINITFS_CONFIG_PATH@);
        let w0 = choose|w: int| 0 <= w < facts.contract_files@.len() && facts.contract_files@[w].path@ == #[trigger] ev[0] && prerequisite_fact_safe(facts.contract_files@[w]);
        let w1 = choose|w: int| 0 <= w < facts.contract_files@.len() && facts.contract_files@[w].path@ == #[trigger] ev[1] && prerequisite_fact_safe(facts.contract_files@[w]);
        assert(facts.contract_files@[w0].path@ == INITRAMFS_INIT_PATH@);
        assert(facts.contract_files@[w1].path@ == MKINITFS_CONFIG_PATH@);
    }
    let init_index = match first_fact_index_exec(&facts.contract_files, INITRAMFS_INIT_PATH) {
        Some(i) => i,
        None => return Err(invalid("mkinitfs-openrc preflight is missing initramfs-init")),
    };
    let init_bytes = str_bytes(facts.initramfs_init_source.as_str());
    if facts.contract_files[init_index].digest != sha256(init_bytes.as_slice()) {
        return Err(invalid("mkinitfs-openrc initramfs-init bytes differ from their descriptor fact"));
    }
    if patch_initramfs_init(facts.initramfs_init_source.as_str()).is_err() {
        return Err(invalid("mkinitfs-openrc initramfs-init is outside the reviewed patch contract"));
    }
    let config_index = match first_fact_index_exec(&facts.contract_files, MKINITFS_CONFIG_PATH) {
        Some(i) => i,
        None => return Err(invalid("mkinitfs-openrc preflight is missing its configuration")),
    };
    let config = facts.mkinitfs_config_source.as_str();
    let config_bytes = str_bytes(config);
    if facts.contract_files[config_index].digest != sha256(config_bytes.as_slice()) {
        return Err(invalid("mkinitfs-openrc configuration bytes differ from their descriptor facts"));
    }
    let parsed = parse_mkinitfs_features(config)?;
    if !crate::text::strings_equal(&parsed, &facts.mkinitfs_features) {
        return Err(invalid("mkinitfs-openrc configuration bytes differ from their descriptor facts"));
    }
    let already = crate::text::strings_contain(&facts.mkinitfs_features, "bootart");
    let (original, activated) = if already {
        (deactivate_mkinitfs_bootart_feature(config)?, config_bytes)
    } else {
        let a = activate_mkinitfs_bootart_feature(config)?;
        (config_bytes, a)
    };
    if !facts.extlinux_overwrite || !str_eq(facts.extlinux_default_label.as_str(), flavor.as_str())
        || !safe_command_line(facts.kernel_command_line.as_str()) {
        return Err(
            invalid("mkinitfs-openrc extlinux settings differ from the fixed active-kernel contract"),
        );
    }
    let known_good = concat2(active.as_str(), KNOWN_GOOD_SUFFIX);
    if render_extlinux_fragment(
        kernel_image.as_str(),
        known_good.as_str(),
        facts.kernel_command_line.as_str(),
    ).is_err() {
        return Err(invalid("mkinitfs-openrc extlinux fragment inputs are unsafe"));
    }
    let mode = facts.contract_files[config_index].mode;
    Ok((flavor, original, activated, already, mode))
}

/// Resolves the guest-visible paths, configuration and commands.
pub fn plan_mkinitfs_openrc_for_root(facts: &MkinitfsOpenRcFacts, alternate_root: &str) -> (r:
    Result<MkinitfsOpenRcContract, InstallError>)
    ensures
        r is Ok <==> openrc_plan_ok(*facts, alternate_root@),
        r matches Ok(c) ==> openrc_contract_for(c, *facts, alternate_root@),
        r matches Err(e) ==> openrc_plan_error(*facts, alternate_root@, e),
{
    let (flavor, original, activated, already, mode) = openrc_preflight(facts, alternate_root)?;
    let kernel = facts.kernel_versions[0].as_str();
    let f = flavor.as_str();
    let kernel_image = concat2(KERNEL_PREFIX, f);
    let active = concat2(ACTIVE_PREFIX, f);
    let candidate = concat2(CANDIDATE_PREFIX, f);
    let known_good = concat2(active.as_str(), KNOWN_GOOD_SUFFIX);
    let fragment = match render_extlinux_fragment(
        kernel_image.as_str(),
        known_good.as_str(),
        facts.kernel_command_line.as_str(),
    ) {
        Ok(b) => b,
        Err(e) => return Err(e),
    };
    let generate = GeneratorRequest {
        generator: GeneratorKind::Mkinitfs,
        executable: owned(MKINITFS_EXECUTABLE),
        alternate_root: owned(alternate_root),
        working_directory: None,
        arguments: vec![
            owned("-C"),
            owned("none"),
            owned("-o"),
            owned(candidate.as_str()),
            owned(kernel),
        ],
        clear_environment: true,
    };
    let update_extlinux = GeneratorRequest {
        generator: GeneratorKind::ExtlinuxUpdate,
        executable: owned(UPDATE_EXTLINUX_EXECUTABLE),
        alternate_root: owned(alternate_root),
        working_directory: None,
        arguments: Vec::new(),
        clear_environment: true,
    };
    let contract = MkinitfsOpenRcContract {
        kernel_version: owned(kernel),
        kernel_flavor: flavor,
        kernel_image,
        active_image: active,
        candidate_image: candidate,
        known_good_image: known_good,
        known_good_digest: facts.known_good_digest,
        extlinux_fragment_path: owned(EXTLINUX_KNOWN_GOOD_FRAGMENT_PATH),
        extlinux_config_path: owned(EXTLINUX_CONFIG_PATH),
        extlinux_fragment: fragment,
        mkinitfs_config_path: owned(MKINITFS_CONFIG_PATH),
        mkinitfs_config_mode: mode,
        mkinitfs_config_original: original,
        mkinitfs_config_activated: activated,
        mkinitfs_config_already_active: already,
        prerequisites: copy_facts(&facts.contract_files),
        generate,
        update_extlinux,
    };
    proof {
        assert(contract.generate.args() =~= seq![
            "-C"@,
            "none"@,
            "-o"@,
            openrc_candidate(openrc_flavor(*facts)),
            openrc_kernel(*facts),
        ]);
        assert(contract.update_extlinux.args() =~= Seq::<Seq<char>>::empty());
        assert(openrc_contract_for(contract, *facts, alternate_root@));
        lemma_openrc_planned_contract_shape(contract, *facts, alternate_root@);
    }
    match validate_mkinitfs_openrc_contract(&contract) {
        Ok(()) => Ok(contract),
        Err(e) => Err(e),
    }
}

/// Plans against the running system's root.
pub fn plan_mkinitfs_openrc(facts: &MkinitfsOpenRcFacts) -> (r: Result<
    MkinitfsOpenRcContract,
    InstallError,
>)
    ensures
        r is Ok <==> openrc_plan_ok(*facts, "/"@),
        r matches Ok(c) ==> openrc_contract_for(c, *facts, "/"@),
        r matches Err(e) ==> openrc_plan_error(*facts, "/"@, e),
{
    plan_mkinitfs_openrc_for_root(facts, "/")
}


// ---------------------------------------------------------------------------
// Raw newc candidate inspection
// ---------------------------------------------------------------------------

/// Bootart-named paths the mkinitfs feature may place in the image.
pub open spec fn openrc_owned_path(p: Seq<char>) -> bool {
    ||| p == "usr/bin/bootart"@
    ||| p == "usr/libexec/bootart"@
    ||| p == "usr/libexec/bootart/mkinitfs-runtime"@
    ||| p == "usr/libexec/bootart/mkinitfs-findfs"@
}

/// Private executables whose metadata is fixed.
pub open spec fn openrc_private_file(p: Seq<char>) -> bool {
    ||| p == "usr/bin/bootart"@
    ||| p == "usr/libexec/bootart/mkinitfs-runtime"@
    ||| p == "usr/libexec/bootart/mkinitfs-findfs"@
}

/// One member's path and metadata are acceptable.
pub open spec fn openrc_member_ok(p: Seq<char>, mode: u32, uid: u64) -> bool {
    &&& !(contains(p, "bootart"@) && !openrc_owned_path(p))
    &&& openrc_private_file(p) ==> is_regular_mode(mode) && uid == 0 && mode & 0o7777u32 == 0o755u32
    &&& p == "init"@ ==> is_regular_mode(mode) && uid == 0 && mode & 0o111u32 != 0
}

/// The init script carries exactly one early and one hand-off call.
pub open spec fn init_has_lifecycle_calls(data: Seq<u8>) -> bool {
    &&& valid_utf8(data)
    &&& count_matches(decode_utf8(data), MKINITFS_EARLY_CALL_SNIPPET@) == 1
    &&& count_matches(decode_utf8(data), MKINITFS_HANDOFF_CALL_SNIPPET@) == 1
}

/// The members of a raw candidate satisfy the reviewed inventory.
pub open spec fn openrc_members_ok(ms: Seq<(Seq<char>, u32, u64, Seq<u8>)>, expected_bootart: Seq<
    u8,
>) -> bool {
    &&& all_paths_ok(ms, false)
    &&& forall|i: int|
        0 <= i < ms.len() ==> openrc_member_ok(
            #[trigger] member_paths(ms, false)[i],
            ms[i].1,
            ms[i].2,
        )
    &&& distinct_seqs(member_paths(ms, false))
    &&& ms.len() <= MAX_ARCHIVE_ENTRIES
    &&& total_data(ms) <= MAX_INSPECTED_ARCHIVE_BYTES
    &&& has_member_with(ms, false, "usr/bin/bootart"@, expected_bootart)
    &&& has_member_with(
        ms,
        false,
        "usr/libexec/bootart/mkinitfs-runtime"@,
        encode_utf8(MKINITFS_RUNTIME_HOOK@),
    )
    &&& has_member_with(
        ms,
        false,
        "usr/libexec/bootart/mkinitfs-findfs"@,
        encode_utf8(MKINITFS_FINDFS_WRAPPER@),
    )
    &&& exists|i: int|
        0 <= i < ms.len() && #[trigger] member_paths(ms, false)[i] == "init"@
            && init_has_lifecycle_calls(ms[i].3)
}

/// The raw candidate is one bounded newc stream with the reviewed inventory.
pub open spec fn openrc_archive_ok(c: Seq<u8>, expected_bootart: Seq<u8>) -> bool {
    &&& 0 < c.len() <= MAX_CANDIDATE_BYTES
    &&& newc_members(c) is Some
    &&& openrc_members_ok(newc_members(c)->0, expected_bootart)
}

/// Checks every member path and its metadata.
fn openrc_members_checked(ps: &Vec<String>, entries: &Vec<NewcEntry>) -> (r: bool)
    requires
        ps.len() == entries.len(),
    ensures
        r == forall|i: int|
            0 <= i < entries.len() ==> openrc_member_ok(
                #[trigger] string_views(ps@)[i],
                entries@[i].mode,
                entries@[i].uid,
            ),
{
    proof {
        reveal_strlit("bootart");
        reveal_strlit("usr/bin/bootart");
        reveal_strlit("usr/libexec/bootart");
        reveal_strlit("usr/libexec/bootart/mkinitfs-runtime");
        reveal_strlit("usr/libexec/bootart/mkinitfs-findfs");
        reveal_strlit("init");
    }
    let mut i: usize = 0;
    while i < entries.len()
        invariant
            i <= entries.len() == ps.len(),
            forall|k: int|
                0 <= k < i ==> openrc_member_ok(
                    #[trigger] string_views(ps@)[k],
                    entries@[k].mode,
                    entries@[k].uid,
                ),
        decreases entries.len() - i,
    {
        let p = ps[i].as_str();
        let mode = entries[i].mode;
        let uid = entries[i].uid;
        assert(string_views(ps@)[i as int] == p@);
        let owned_path = str_eq(p, "usr/bin/bootart") || str_eq(p, "usr/libexec/bootart") || str_eq(
            p,
            "usr/libexec/bootart/mkinitfs-runtime",
        ) || str_eq(p, "usr/libexec/bootart/mkinitfs-findfs");
        let private_file = str_eq(p, "usr/bin/bootart") || str_eq(
            p,
            "usr/libexec/bootart/mkinitfs-runtime",
        ) || str_eq(p, "usr/libexec/bootart/mkinitfs-findfs");
        if str_contains(p, "bootart") && !owned_path {
            return false;
        }
        if private_file && !(mode & 0o170000u32 == 0o100000u32 && uid == 0 && mode & 0o7777u32
            == 0o755u32) {
            return false;
        }
        if str_eq(p, "init") && !(mode & 0o170000u32 == 0o100000u32 && uid == 0 && mode & 0o111u32
            != 0) {
            return false;
        }
        i = i + 1;
    }
    true
}

/// Whether the member's data is the init script with both lifecycle calls.
fn init_calls_present(c: &[u8], e: &NewcEntry) -> (r: bool)
    requires
        e.data_start + e.data_len <= c.len(),
    ensures
        r == init_has_lifecycle_calls(entry_view(c@, *e).3),
{
    proof {
        reveal_strlit(
            "[ -x /usr/libexec/bootart/mkinitfs-runtime ] && /usr/libexec/bootart/mkinitfs-runtime start\n",
        );
        reveal_strlit(
            "[ -x /usr/libexec/bootart/mkinitfs-runtime ] && /usr/libexec/bootart/mkinitfs-runtime handoff\n",
        );
    }
    let data = crate::archive::slice_bytes(c, e.data_start, e.data_start + e.data_len);
    let text = match utf8_to_str(data.as_slice()) {
        Some(t) => t,
        None => {
            return false;
        },
    };
    let v = chars_of(text);
    let early = chars_of(MKINITFS_EARLY_CALL_SNIPPET);
    let handoff = chars_of(MKINITFS_HANDOFF_CALL_SNIPPET);
    count_matches_exec(v.as_slice(), early.as_slice()) == 1 && count_matches_exec(
        v.as_slice(),
        handoff.as_slice(),
    ) == 1
}

/// Inspects the bounded, uncompressed newc candidate: the stream must be
/// well formed, paths normal and distinct, Bootart-named members only the
/// owned ones with fixed metadata, the ELF identical to `expected_bootart`,
/// the runtime hook and findfs wrapper identical to the embedded bytes, and
/// `init` must carry exactly one early and one hand-off call.
pub fn inspect_mkinitfs_openrc_archive(candidate: &[u8], expected_bootart: &[u8]) -> (r: Result<
    ArchiveInspection,
    InstallError,
>)
    ensures
        r is Ok <==> openrc_archive_ok(candidate@, expected_bootart@),
        r matches Err(e) ==> e is InvalidPlan,
        r matches Ok(i) ==> i.bootart_digest == spec_sha256(expected_bootart@) && i.inspected_entries
            == newc_members(candidate@)->0.len() && i.inspected_bytes == total_data(
            newc_members(candidate@)->0,
        ),
{
    if candidate.len() == 0 || candidate.len() as u64 > MAX_CANDIDATE_BYTES {
        return Err(invalid("mkinitfs archive size is outside the bounded contract"));
    }
    let entries = match parse_newc(candidate) {
        Some(es) => es,
        None => {
            return Err(invalid("mkinitfs archive is not one well-formed newc stream"));
        },
    };
    let ghost ms = entries_view(candidate@, entries@);
    let ps = match entry_paths(candidate, &entries, false) {
        Some(ps) => ps,
        None => {
            return Err(invalid("mkinitfs archive contains an unsafe member path"));
        },
    };
    proof {
        assert forall|i: int| 0 <= i < entries.len() implies (#[trigger] string_views(ps@)[i]
            == member_paths(ms, false)[i] && entries@[i].mode == ms[i].1 && entries@[i].uid
            == ms[i].2) by {
            assert(ms[i] == entry_view(candidate@, entries@[i]));
        }
    }
    if !openrc_members_checked(&ps, &entries) {
        proof {
            let i = choose|i: int|
                0 <= i < entries.len() && !openrc_member_ok(
                    #[trigger] string_views(ps@)[i],
                    entries@[i].mode,
                    entries@[i].uid,
                );
            assert(!openrc_member_ok(member_paths(ms, false)[i], ms[i].1, ms[i].2));
        }
        return Err(invalid("mkinitfs archive contains a foreign or unsafe Bootart member"));
    }
    proof {
        assert forall|i: int| 0 <= i < ms.len() implies openrc_member_ok(
            #[trigger] member_paths(ms, false)[i],
            ms[i].1,
            ms[i].2,
        ) by {
            assert(string_views(ps@)[i] == member_paths(ms, false)[i]);
        }
    }
    if !strings_distinct(&ps) {
        return Err(invalid("mkinitfs archive contains duplicate normalized paths"));
    }
    if entries.len() > MAX_ARCHIVE_ENTRIES {
        return Err(invalid("mkinitfs archive contains too many entries"));
    }
    let total = match total_data_within(candidate, &entries, MAX_INSPECTED_ARCHIVE_BYTES) {
        Some(t) => t,
        None => {
            return Err(invalid("mkinitfs archive inspected-byte limit was exceeded"));
        },
    };
    if member_with_data(candidate, &entries, &ps, false, "usr/bin/bootart", expected_bootart).is_none() {
        return Err(invalid("mkinitfs archive Bootart ELF is missing or differs from the running ELF"));
    }
    let runtime = str_bytes(MKINITFS_RUNTIME_HOOK);
    if member_with_data(
        candidate,
        &entries,
        &ps,
        false,
        "usr/libexec/bootart/mkinitfs-runtime",
        runtime.as_slice(),
    ).is_none() {
        return Err(invalid("mkinitfs archive runtime hook is missing or differs from embedded bytes"));
    }
    let findfs = str_bytes(MKINITFS_FINDFS_WRAPPER);
    if member_with_data(
        candidate,
        &entries,
        &ps,
        false,
        "usr/libexec/bootart/mkinitfs-findfs",
        findfs.as_slice(),
    ).is_none() {
        return Err(invalid("mkinitfs archive findfs wrapper is missing or differs from embedded bytes"));
    }
    match crate::newc::find_path(&ps, "init") {
        None => {
            proof {
                if exists|i: int|
                    0 <= i < ms.len() && #[trigger] member_paths(ms, false)[i] == "init"@
                        && init_has_lifecycle_calls(ms[i].3) {
                    let j = choose|j: int|
                        0 <= j < ms.len() && #[trigger] member_paths(ms, false)[j] == "init"@
                            && init_has_lifecycle_calls(ms[j].3);
                    assert(string_views(ps@)[j] == ps@[j]@);
                }
            }
            return Err(invalid("mkinitfs archive omits initramfs init"));
        },
        Some(i) => {
            proof {
                assert(string_views(ps@)[i as int] == ps@[i as int]@);
                assert(ms[i as int] == entry_view(candidate@, entries@[i as int]));
            }
            if !init_calls_present(candidate, &entries[i]) {
                proof {
                    if exists|k: int|
                        0 <= k < ms.len() && #[trigger] member_paths(ms, false)[k] == "init"@
                            && init_has_lifecycle_calls(ms[k].3) {
                        let k = choose|k: int|
                            0 <= k < ms.len() && #[trigger] member_paths(ms, false)[k] == "init"@
                                && init_has_lifecycle_calls(ms[k].3);
                        if k < i {
                            assert(member_paths(ms, false)[k] != member_paths(ms, false)[i as int]);
                        } else if k > i {
                            assert(member_paths(ms, false)[i as int] != member_paths(ms, false)[k]);
                        }
                    }
                }
                return Err(invalid("mkinitfs archive initramfs init lacks the exact managed lifecycle calls"));
            }
        },
    }
    Ok(ArchiveInspection {
        bootart_digest: sha256(expected_bootart),
        inspected_entries: entries.len(),
        inspected_bytes: total,
    })
}

} // verus!
