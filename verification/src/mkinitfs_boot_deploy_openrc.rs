//! Distribution-neutral mkinitfs + boot-deploy + OpenRC image contract.
//!
//! The generator writes into a same-filesystem private candidate directory.
//! The current kernel is seeded there because boot-deploy uses its output
//! directory as a kernel input; only the finalized initramfs is activated.
//! The current boot entry is rewritten only to drop the exact stock `splash`
//! word, so Bootart owns the early display; its preimage and the known-good
//! entry keep the stock recovery path.

use crate::archive::bytes_eq;
use crate::boot_deploy_init::{
    functions_patchable, patch_init_functions_2nd, patched_functions, CLEANUP_HOOK, FDE_WRAPPER,
    NATIVE_UNL0KR, REVIEWED_INITRAMFS_VERSION, RUNTIME_HOOK, START_HOOK, STOCK_FDE_UNLOCK,
};
use crate::newc::{
    all_paths_ok, entries_in_bounds, entries_view, entry_paths, entry_view, has_member_with,
    is_directory_mode, is_regular_mode, member_paths, member_with_data, newc_members, parse_newc,
    total_data, total_data_within, NewcEntry,
};
use crate::digest::{sha256, spec_sha256, Sha256Digest};
use crate::dracut_systemd::{
    facts_match_exactly, facts_match_exactly_exec, tools_match_exactly, tools_match_exactly_exec,
    ArchiveInspection, DracutSystemdImageRecord, ToolFact, MAX_ARCHIVE_ENTRIES,
    MAX_CANDIDATE_BYTES, MAX_INSPECTED_ARCHIVE_BYTES, MIN_BOOT_FREE_BYTES, MIN_BOOT_FREE_INODES,
    PRODUCT_ARCHITECTURE,
};
use crate::error::{invalid, InstallError};
use crate::generator::{GeneratorKind, GeneratorRequest};
use crate::mkinitfs_openrc::piece_body;
use crate::paths::{safe_alternate_root, spec_safe_alternate_root};
use crate::text::{all_in_class, bounded_token, chars_of, concat_all, concat2, concat3, contains_char, count_matches, count_matches_exec, has_prefix, has_suffix, join_space, join_space_exec, lines, lines_exec, owned, seq_contains_char, seq_has_prefix, slice_range, split_inclusive_nl, split_inclusive_nl_exec, split_ws, split_ws_exec, str_bytes, str_eq, str_has_prefix, string_from_chars, str_views, strings_equal_strs, strip_prefix, strip_suffix, trim, trim_chars, trim_start, utf8_to_str, CharClass, contains, str_contains, string_views, strings_distinct, distinct_seqs};
use vstd::prelude::*;
use vstd::string::*;
use vstd::utf8::*;

verus! {

pub const MKINITFS_BOOT_DEPLOY_EXECUTABLE: &'static str = "/usr/sbin/mkinitfs";
pub const BOOT_DEPLOY_EXECUTABLE: &'static str = "/usr/bin/boot-deploy";
pub const OPENRC_BOOT_DEPLOY_EXECUTABLE: &'static str = "/usr/sbin/openrc";
pub const ACTIVE_INITRAMFS_PATH: &'static str = "/boot/initramfs";
pub const CANDIDATE_DIRECTORY: &'static str = "/boot/.bootart-candidate";
pub const CANDIDATE_INITRAMFS_PATH: &'static str = "/boot/.bootart-candidate/initramfs";
pub const KNOWN_GOOD_INITRAMFS_PATH: &'static str = "/boot/initramfs.bootart-known-good";
pub const KNOWN_GOOD_ENTRY_PATH: &'static str = "/boot/loader/entries/bootart-known-good.conf";
pub const LOADER_ENTRIES_DIRECTORY: &'static str = "/boot/loader/entries";
pub const MAX_ENTRY_BYTES: usize = 16384;
pub const MAX_FUNCTIONS_BYTES: usize = 1048576;

/// The exact tools of the mkinitfs boot-deploy mechanism.
pub const MKINITFS_BOOT_DEPLOY_OPENRC_TOOLS: [&'static str; 3] = [
    MKINITFS_BOOT_DEPLOY_EXECUTABLE,
    BOOT_DEPLOY_EXECUTABLE,
    OPENRC_BOOT_DEPLOY_EXECUTABLE,
];

/// The reviewed build and runtime files, each with its executability.
pub const MKINITFS_BOOT_DEPLOY_OPENRC_CONTRACT_FILES: [(&'static str, bool); 6] = [
    ("/usr/share/initramfs/init.sh", true),
    ("/usr/share/initramfs/init_2nd.sh", true),
    ("/usr/share/initramfs/init_functions_2nd.sh", false),
    ("/usr/share/boot-deploy/boot-deploy-functions.sh", true),
    ("/usr/share/boot-deploy/os-customization", false),
    ("/usr/bin/fde-unlock", true),
];

pub open spec fn boot_deploy_tools() -> Seq<&'static str> {
    seq![MKINITFS_BOOT_DEPLOY_EXECUTABLE, BOOT_DEPLOY_EXECUTABLE, OPENRC_BOOT_DEPLOY_EXECUTABLE]
}

pub open spec fn boot_deploy_contract_paths() -> Seq<Seq<char>> {
    seq![
        "/usr/share/initramfs/init.sh"@,
        "/usr/share/initramfs/init_2nd.sh"@,
        "/usr/share/initramfs/init_functions_2nd.sh"@,
        "/usr/share/boot-deploy/boot-deploy-functions.sh"@,
        "/usr/share/boot-deploy/os-customization"@,
        "/usr/bin/fde-unlock"@,
    ]
}

pub open spec fn boot_deploy_contract_modes() -> Seq<bool> {
    seq![true, true, false, true, false, true]
}

/// A descriptor-derived file fact with its reviewed executability.
#[derive(Debug, Clone, PartialEq, Eq)]
pub struct MkinitfsBootDeployPathFact {
    pub path: String,
    pub root_owned: bool,
    pub regular: bool,
    pub symlink: bool,
    pub executable: bool,
}

impl MkinitfsBootDeployPathFact {
    /// A safe root-owned regular file at `path`.
    pub fn exact(path: &str, executable: bool) -> (r: Self)
        ensures
            r.path@ == path@,
            r.root_owned && r.regular && !r.symlink && r.executable == executable,
    {
        MkinitfsBootDeployPathFact {
            path: owned(path),
            root_owned: true,
            regular: true,
            symlink: false,
            executable,
        }
    }
}

pub open spec fn bd_tool_facts(s: Seq<MkinitfsBootDeployPathFact>) -> Seq<ToolFact> {
    s.map_values(
        |f: MkinitfsBootDeployPathFact|
            ToolFact {
                path: f.path,
                root_owned: f.root_owned,
                regular: f.regular,
                symlink: f.symlink,
                executable: f.executable,
            },
    )
}

fn bd_facts_as_tools(s: &Vec<MkinitfsBootDeployPathFact>) -> (r: Vec<ToolFact>)
    ensures
        r@ == bd_tool_facts(s@),
{
    let mut r: Vec<ToolFact> = Vec::new();
    let mut i: usize = 0;
    while i < s.len()
        invariant
            i <= s@.len(),
            r@ =~= bd_tool_facts(s@).take(i as int),
        decreases s.len() - i,
    {
        let f = &s[i];
        r.push(
            ToolFact {
                path: f.path.clone(),
                root_owned: f.root_owned,
                regular: f.regular,
                symlink: f.symlink,
                executable: f.executable,
            },
        );
        i = i + 1;
    }
    r
}

#[derive(Debug, Clone, PartialEq, Eq)]
pub struct MkinitfsBootDeployOpenRcFacts {
    pub architecture: String,
    pub pid1_comm: String,
    pub root_filesystem_device: u64,
    pub boot_filesystem_device: u64,
    pub boot_writable: bool,
    pub boot_free_bytes: u64,
    pub boot_total_inodes: u64,
    pub boot_free_inodes: u64,
    pub tools: Vec<ToolFact>,
    pub contract_files: Vec<MkinitfsBootDeployPathFact>,
    pub initramfs_version: String,
    pub init_functions_2nd: String,
    pub kernel_image: String,
    pub active_image: String,
    pub known_good_digest: Sha256Digest,
    pub known_good_bytes: u64,
    pub active_loader_entry: String,
    pub active_loader_entry_mode: u32,
    pub active_loader_entry_bytes: Vec<u8>,
    pub kernel_command_line: String,
}

#[derive(Debug, Clone, PartialEq, Eq)]
pub struct MkinitfsBootDeployOpenRcContract {
    pub kernel_image: String,
    pub active_image: String,
    pub candidate_directory: String,
    pub candidate_image: String,
    pub candidate_kernel: String,
    pub known_good_image: String,
    pub known_good_digest: Sha256Digest,
    pub known_good_entry_path: String,
    pub known_good_entry_mode: u32,
    pub known_good_entry: Vec<u8>,
    pub active_loader_entry: String,
    pub active_loader_entry_mode: u32,
    pub active_loader_entry_original: Vec<u8>,
    pub active_loader_entry_activated: Vec<u8>,
    pub patched_init_functions_2nd: Vec<u8>,
    pub generate: GeneratorRequest,
}

// ---------------------------------------------------------------------------
// Tokens
// ---------------------------------------------------------------------------

/// `vmlinuz` or `vmlinuz-<suffix>` with a suffix of at most 192 kernel
/// version characters.
pub open spec fn spec_safe_kernel_filename(v: Seq<char>) -> bool {
    ||| v == "vmlinuz"@
    ||| has_prefix(v, "vmlinuz-"@) && v.skip(8).len() <= 192 && all_in_class(
        v.skip(8),
        CharClass::KernelVersion,
    )
}

fn safe_kernel_filename(v: &str) -> (r: bool)
    ensures
        r == spec_safe_kernel_filename(v@),
{
    proof {
        reveal_strlit("vmlinuz");
        reveal_strlit("vmlinuz-");
    }
    if str_eq(v, "vmlinuz") {
        return true;
    }
    match strip_prefix(v, "vmlinuz-") {
        Some(suffix) => {
            let c = chars_of(suffix);
            c.len() <= 192 && crate::text::all_chars_in_class(c.as_slice(), CharClass::KernelVersion)
        },
        None => false,
    }
}

pub open spec fn spec_safe_kernel_image(v: Seq<char>) -> bool {
    has_prefix(v, "/boot/"@) && spec_safe_kernel_filename(v.skip(6))
}

fn safe_kernel_image(v: &str) -> (r: bool)
    ensures
        r == spec_safe_kernel_image(v@),
{
    proof {
        reveal_strlit("/boot/");
    }
    match strip_prefix(v, "/boot/") {
        Some(name) => safe_kernel_filename(name),
        None => false,
    }
}

/// `/boot/loader/entries/<name>.conf` with a short safe name.
pub open spec fn spec_safe_loader_entry(v: Seq<char>) -> bool {
    let p = "/boot/loader/entries/"@;
    &&& has_prefix(v, p)
    &&& has_suffix(v.skip(p.len() as int), ".conf"@)
    &&& bounded_token(
        v.skip(p.len() as int).subrange(0, v.len() - p.len() - 5),
        128,
        CharClass::Flavor,
    )
}

fn safe_loader_entry(v: &str) -> (r: bool)
    ensures
        r == spec_safe_loader_entry(v@),
{
    proof {
        reveal_strlit(".conf");
    }
    let rest = match strip_prefix(v, "/boot/loader/entries/") {
        Some(r) => r,
        None => return false,
    };
    let name = match strip_suffix(rest, ".conf") {
        Some(n) => n,
        None => return false,
    };
    crate::text::str_is_bounded_token(name, 128, CharClass::Flavor)
}

/// A nonempty option line of at most 8192 bytes without control characters.
pub open spec fn spec_safe_entry_command_line(v: Seq<char>) -> bool {
    v.len() > 0 && encode_utf8(v).len() <= 8192 && all_in_class(v, CharClass::NotControl)
}

fn safe_entry_command_line(v: &str) -> (r: bool)
    ensures
        r == spec_safe_entry_command_line(v@),
{
    let c = chars_of(v);
    c.len() > 0 && v.as_bytes().len() <= 8192 && crate::text::all_chars_in_class(
        c.as_slice(),
        CharClass::NotControl,
    )
}

pub open spec fn spec_safe_bls_entry_mode(mode: u32) -> bool {
    mode == 0o600u32 || mode == 0o644u32 || mode == 0o700u32 || mode == 0o755u32
}

/// Whether `mode` is one of the boot-entry modes a boot filesystem keeps.
pub fn safe_bls_entry_mode(mode: u32) -> (r: bool)
    ensures
        r == spec_safe_bls_entry_mode(mode),
{
    mode == 0o600u32 || mode == 0o644u32 || mode == 0o700u32 || mode == 0o755u32
}

// ---------------------------------------------------------------------------
// Boot Loader Specification entries
// ---------------------------------------------------------------------------

/// Left fold over entry lines: the `linux` value, the number of
/// `initrd initramfs` records, the `options` value, and whether a `linux` or
/// `options` record repeated.
pub open spec fn entry_fold(ls: Seq<Seq<char>>) -> (Option<Seq<char>>, nat, Option<Seq<char>>, bool)
    decreases ls.len(),
{
    if ls.len() == 0 {
        (None, 0, None, false)
    } else {
        let (k, n, o, dup) = entry_fold(ls.drop_last());
        let t = trim(ls.last());
        if dup {
            (k, n, o, true)
        } else if has_prefix(t, "linux "@) {
            if k is Some {
                (k, n, o, true)
            } else {
                (Some(trim(t.skip(6))), n, o, false)
            }
        } else if has_prefix(t, "initrd "@) {
            (k, if trim(t.skip(7)) == "initramfs"@ {
                n + 1
            } else {
                n
            }, o, false)
        } else if has_prefix(t, "options "@) {
            if o is Some {
                (k, n, o, true)
            } else {
                (k, n, Some(trim(t.skip(8))), false)
            }
        } else {
            (k, n, o, false)
        }
    }
}

/// The kernel path and options of a reviewed boot entry.
pub open spec fn spec_parse_loader_entry(s: Seq<char>) -> Option<(Seq<char>, Seq<char>)> {
    let (k, n, o, dup) = entry_fold(lines(s));
    if s.len() > 0 && encode_utf8(s).len() <= MAX_ENTRY_BYTES && !contains_char(s, '\r') && !dup
        && k is Some && spec_safe_kernel_filename(k->0) && o is Some
        && spec_safe_entry_command_line(o->0) && n == 1 {
        Some(("/boot/"@ + k->0, o->0))
    } else {
        None
    }
}

/// Reads the kernel and options of the reviewed boot entry.  Unknown records
/// stay with the boot loader but cannot widen the identity used here.
pub fn parse_mkinitfs_boot_deploy_loader_entry(source: &str) -> (r: Result<
    (String, String),
    InstallError,
>)
    ensures
        r is Ok <==> spec_parse_loader_entry(source@) is Some,
        r matches Ok((k, o)) ==> spec_parse_loader_entry(source@) == Some((k@, o@)),
        r matches Err(e) ==> e is InvalidPlan,
{
    let s = chars_of(source);
    if s.len() == 0 || source.as_bytes().len() > MAX_ENTRY_BYTES || seq_contains_char(
        s.as_slice(),
        '\r',
    ) {
        return Err(invalid("mkinitfs-boot-deploy loader entry exceeds its text contract"));
    }
    let ls = lines_exec(s.as_slice());
    let ghost lv = ls@.map_values(|v: Vec<char>| v@);
    assert(lv =~= lines(source@));
    let linux_kw = chars_of("linux ");
    let initrd_kw = chars_of("initrd ");
    let options_kw = chars_of("options ");
    let initramfs = chars_of("initramfs");
    let mut kernel: Option<Vec<char>> = None;
    let mut count: usize = 0;
    let mut options: Option<Vec<char>> = None;
    let mut i: usize = 0;
    while i < ls.len()
        invariant
            i <= ls@.len(),
            lv == ls@.map_values(|v: Vec<char>| v@),
            lv == lines(source@),
            linux_kw@ == "linux "@,
            initrd_kw@ == "initrd "@,
            options_kw@ == "options "@,
            initramfs@ == "initramfs"@,
            count <= i,
            entry_fold(lv.take(i as int)) == (
                match kernel {
                    Some(k) => Some(k@),
                    None => None,
                },
                count as nat,
                match options {
                    Some(o) => Some(o@),
                    None => None,
                },
                false,
            ),
        decreases ls.len() - i,
    {
        proof {
            reveal_strlit("linux ");
            reveal_strlit("initrd ");
            reveal_strlit("options ");
        }
        assert(lv.take(i + 1).drop_last() =~= lv.take(i as int));
        assert(lv.take(i + 1).last() == ls@[i as int]@);
        let t = trim_chars(ls[i].as_slice());
        if seq_has_prefix(t.as_slice(), linux_kw.as_slice()) {
            if kernel.is_some() {
                proof {
                    lemma_entry_fold_dup_sticks(lv, i as int + 1);
                }
                return Err(invalid("mkinitfs-boot-deploy loader entry has duplicate linux records"));
            }
            let rest = slice_range(t.as_slice(), 6, t.len());
            assert(rest@ =~= t@.skip(6));
            kernel = Some(trim_chars(rest.as_slice()));
        } else if seq_has_prefix(t.as_slice(), initrd_kw.as_slice()) {
            let rest = slice_range(t.as_slice(), 7, t.len());
            assert(rest@ =~= t@.skip(7));
            let v = trim_chars(rest.as_slice());
            if crate::mkinitcpio_systemd::chars_eq_pub(v.as_slice(), initramfs.as_slice()) {
                count = count + 1;
            }
        } else if seq_has_prefix(t.as_slice(), options_kw.as_slice()) {
            if options.is_some() {
                proof {
                    lemma_entry_fold_dup_sticks(lv, i as int + 1);
                }
                return Err(
                    invalid("mkinitfs-boot-deploy loader entry has duplicate options records"),
                );
            }
            let rest = slice_range(t.as_slice(), 8, t.len());
            assert(rest@ =~= t@.skip(8));
            options = Some(trim_chars(rest.as_slice()));
        }
        i = i + 1;
    }
    assert(lv.take(i as int) =~= lv);
    let kernel = match kernel {
        Some(k) => string_from_chars(k.as_slice()),
        None => return Err(invalid("mkinitfs-boot-deploy loader kernel path is unsafe")),
    };
    if !safe_kernel_filename(kernel.as_str()) {
        return Err(invalid("mkinitfs-boot-deploy loader kernel path is unsafe"));
    }
    let options = match options {
        Some(o) => string_from_chars(o.as_slice()),
        None => return Err(invalid("mkinitfs-boot-deploy loader options are unsafe")),
    };
    if !safe_entry_command_line(options.as_str()) {
        return Err(invalid("mkinitfs-boot-deploy loader options are unsafe"));
    }
    if count != 1 {
        return Err(invalid("mkinitfs-boot-deploy loader entry must reference initramfs exactly once"));
    }
    Ok((concat2("/boot/", kernel.as_str()), options))
}

pub proof fn lemma_entry_fold_dup_sticks(ls: Seq<Seq<char>>, n: int)
    requires
        0 <= n <= ls.len(),
        entry_fold(ls.take(n)).3,
    ensures
        entry_fold(ls).3,
    decreases ls.len() - n,
{
    if n < ls.len() {
        assert(ls.take(n + 1).drop_last() =~= ls.take(n));
        lemma_entry_fold_dup_sticks(ls, n + 1);
    } else {
        assert(ls.take(n) =~= ls);
    }
}


/// A piece holding the `options` record.
pub open spec fn options_piece(p: Seq<char>) -> bool {
    has_prefix(trim(piece_body(p)), "options "@)
}

/// The option tokens of an `options` piece.
pub open spec fn option_tokens(p: Seq<char>) -> Seq<Seq<char>> {
    split_ws(trim(piece_body(p)).skip(8), true)
}

/// `ts` without its `splash` tokens.
pub open spec fn without_splash(ts: Seq<Seq<char>>) -> Seq<Seq<char>>
    decreases ts.len(),
{
    if ts.len() == 0 {
        seq![]
    } else if ts.last() == "splash"@ {
        without_splash(ts.drop_last())
    } else {
        without_splash(ts.drop_last()).push(ts.last())
    }
}

/// How many `splash` tokens `ts` holds.
pub open spec fn splash_count(ts: Seq<Seq<char>>) -> nat
    decreases ts.len(),
{
    if ts.len() == 0 {
        0
    } else {
        splash_count(ts.drop_last()) + if ts.last() == "splash"@ {
            1nat
        } else {
            0nat
        }
    }
}

/// The `options` piece without `splash`, keeping its indentation.
pub open spec fn taken_over_piece(p: Seq<char>) -> Seq<char> {
    let body = piece_body(p);
    body.take(body.len() - trim_start(body).len()) + "options "@ + join_space(
        without_splash(option_tokens(p)),
    ) + if p.len() > 0 && p.last() == '\n' {
        seq!['\n']
    } else {
        Seq::<char>::empty()
    }
}

/// The entry with its `options` record taken over.
pub open spec fn spec_taken_over_entry(s: Seq<char>) -> Seq<char> {
    concat_all(
        split_inclusive_nl(s).map_values(
            |p: Seq<char>|
                if options_piece(p) {
                    taken_over_piece(p)
                } else {
                    p
                },
        ),
    )
}

/// How many pieces hold an `options` record.
pub open spec fn options_piece_count(ps: Seq<Seq<char>>) -> nat
    decreases ps.len(),
{
    if ps.len() == 0 {
        0
    } else {
        options_piece_count(ps.drop_last()) + if options_piece(ps.last()) {
            1nat
        } else {
            0nat
        }
    }
}

/// The number of `splash` tokens over all `options` pieces.
pub open spec fn total_splash(ps: Seq<Seq<char>>) -> nat
    decreases ps.len(),
{
    if ps.len() == 0 {
        0
    } else {
        total_splash(ps.drop_last()) + if options_piece(ps.last()) {
            splash_count(option_tokens(ps.last()))
        } else {
            0nat
        }
    }
}

/// The entries `activate_mkinitfs_boot_deploy_loader_entry` accepts.
pub open spec fn takeover_ok(s: Seq<char>) -> bool {
    let ps = split_inclusive_nl(s);
    &&& spec_parse_loader_entry(s) is Some
    &&& forall|i: int|
        0 <= i < ps.len() && options_piece(#[trigger] ps[i]) ==> without_splash(
            option_tokens(ps[i]),
        ).len() > 0
    &&& options_piece_count(ps) == 1
    &&& total_splash(ps) <= 1
    &&& spec_taken_over_entry(s).len() > 0
    &&& encode_utf8(spec_taken_over_entry(s)).len() <= MAX_ENTRY_BYTES
}

proof fn lemma_ws_fold_no_newline(s: Seq<char>)
    ensures
        forall|k: int, j: int|
            0 <= k < crate::text::split_ws_fold(s, true).0.len() && 0 <= j < crate::text::split_ws_fold(s, true).0[k].len()
                ==> #[trigger] crate::text::split_ws_fold(s, true).0[k][j] != '\n',
        forall|j: int| 0 <= j < crate::text::split_ws_fold(s, true).1.len() ==> #[trigger] crate::text::split_ws_fold(s, true).1[j] != '\n',
    decreases s.len(),
{
    if s.len() > 0 {
        lemma_ws_fold_no_newline(s.drop_last());
        let (done, cur) = crate::text::split_ws_fold(s.drop_last(), true);
        let c = s.last();
        if crate::text::is_ascii_ws(c) {
            if cur.len() > 0 {
                let d = done.push(cur);
                assert forall|k: int, j: int| 0 <= k < d.len() && 0 <= j < d[k].len() implies #[trigger] d[k][j]
                    != '\n' by {
                    if k < done.len() {
                        assert(d[k] == done[k]);
                    }
                }
            }
        } else {
            let n = cur.push(c);
            assert forall|j: int| 0 <= j < n.len() implies #[trigger] n[j] != '\n' by {
                if j < cur.len() {
                    assert(n[j] == cur[j]);
                }
            }
        }
    }
}

proof fn lemma_tokens_no_newline(s: Seq<char>)
    ensures
        forall|k: int, j: int|
            0 <= k < split_ws(s, true).len() && 0 <= j < split_ws(s, true)[k].len() ==> #[trigger] split_ws(
                s,
                true,
            )[k][j] != '\n',
{
    lemma_ws_fold_no_newline(s);
    let (done, cur) = crate::text::split_ws_fold(s, true);
    if cur.len() > 0 {
        let d = done.push(cur);
        assert forall|k: int, j: int| 0 <= k < d.len() && 0 <= j < d[k].len() implies #[trigger] d[k][j] != '\n' by {
            if k < done.len() {
                assert(d[k] == done[k]);
            }
        }
    }
}

proof fn lemma_without_splash_no_newline(ts: Seq<Seq<char>>)
    requires
        forall|k: int, j: int| 0 <= k < ts.len() && 0 <= j < ts[k].len() ==> #[trigger] ts[k][j] != '\n',
    ensures
        forall|k: int, j: int|
            0 <= k < without_splash(ts).len() && 0 <= j < without_splash(ts)[k].len() ==> #[trigger] without_splash(
                ts,
            )[k][j] != '\n',
    decreases ts.len(),
{
    if ts.len() > 0 {
        let q = ts.drop_last();
        assert forall|k: int, j: int| 0 <= k < q.len() && 0 <= j < q[k].len() implies #[trigger] q[k][j] != '\n' by {
            assert(q[k] == ts[k]);
        }
        lemma_without_splash_no_newline(q);
        if ts.last() != "splash"@ {
            let w = without_splash(q);
            let d = w.push(ts.last());
            assert forall|k: int, j: int| 0 <= k < d.len() && 0 <= j < d[k].len() implies #[trigger] d[k][j] != '\n' by {
                if k < w.len() {
                    assert(d[k] == w[k]);
                } else {
                    assert(d[k] == ts[ts.len() - 1]);
                }
            }
        }
    }
}

proof fn lemma_join_space_no_newline(parts: Seq<Seq<char>>)
    requires
        forall|k: int, j: int| 0 <= k < parts.len() && 0 <= j < parts[k].len() ==> #[trigger] parts[k][j] != '\n',
    ensures
        forall|j: int| 0 <= j < join_space(parts).len() ==> #[trigger] join_space(parts)[j] != '\n',
    decreases parts.len(),
{
    if parts.len() == 1 {
        assert forall|j: int| 0 <= j < join_space(parts).len() implies #[trigger] join_space(parts)[j] != '\n' by {
            assert(join_space(parts)[j] == parts[0][j]);
        }
    } else if parts.len() > 1 {
        let q = parts.drop_last();
        assert forall|k: int, j: int| 0 <= k < q.len() && 0 <= j < q[k].len() implies #[trigger] q[k][j] != '\n' by {
            assert(q[k] == parts[k]);
        }
        lemma_join_space_no_newline(q);
        let a = join_space(q);
        let l = parts.last();
        assert forall|j: int| 0 <= j < join_space(parts).len() implies #[trigger] join_space(parts)[j] != '\n' by {
            if j < a.len() {
                assert(join_space(parts)[j] == a[j]);
            } else if j == a.len() {
                assert(join_space(parts)[j] == ' ');
            } else {
                assert(join_space(parts)[j] == l[j - a.len() - 1]);
                assert(l == parts[parts.len() - 1]);
            }
        }
    }
}

/// A taken-over `options` piece is still one line: its newline, if any,
/// only at its end, and there whenever the source piece had one.
proof fn lemma_taken_over_piece_ok(p: Seq<char>, last: bool)
    requires
        crate::text_facts::piece_ok(p, last),
    ensures
        crate::text_facts::piece_ok(taken_over_piece(p), last),
{
    let body = piece_body(p);
    crate::text_facts::lemma_trim_start_split(body);
    let ws = body.take(body.len() - trim_start(body).len());
    reveal_strlit("options ");
    let ts = without_splash(option_tokens(p));
    lemma_tokens_no_newline(trim(body).skip(8));
    lemma_without_splash_no_newline(option_tokens(p));
    lemma_join_space_no_newline(ts);
    let head = ws + "options "@ + join_space(ts);
    assert forall|j: int| 0 <= j < head.len() implies #[trigger] head[j] != '\n' by {
        if j < ws.len() {
            assert(head[j] == ws[j]);
            assert(ws[j] == body[j]);
            assert(body[j] == p[j]);
            if p.len() > 0 && p.last() == '\n' {
                assert(j < p.len() - 1);
            } else if j == p.len() - 1 {
                assert(p[j] == p.last());
            }
        } else if j < ws.len() + 8 {
            assert(head[j] == "options "@[j - ws.len()]);
        } else {
            assert(head[j] == join_space(ts)[j - ws.len() - 8]);
        }
    }
    let t = taken_over_piece(p);
    assert(t == head + if p.len() > 0 && p.last() == '\n' {
        seq!['\n']
    } else {
        Seq::<char>::empty()
    });
    assert forall|j: int| 0 <= j < t.len() - 1 implies t[j] != '\n' by {
        assert(t[j] == head[j]);
    }
}

proof fn lemma_single_options_piece(ps: Seq<Seq<char>>)
    requires
        options_piece_count(ps) == 1,
    ensures
        exists|i: int|
            0 <= i < ps.len() && options_piece(#[trigger] ps[i]) && forall|j: int|
                0 <= j < ps.len() && j != i ==> !options_piece(#[trigger] ps[j]),
    decreases ps.len(),
{
    let q = ps.drop_last();
    if options_piece(ps.last()) {
        assert(options_piece_count(q) == 0);
        lemma_no_options_piece(q);
        assert(options_piece(ps[ps.len() - 1]));
        assert forall|j: int| 0 <= j < ps.len() && j != ps.len() - 1 implies !options_piece(#[trigger] ps[j]) by {
            assert(ps[j] == q[j]);
        }
    } else {
        lemma_single_options_piece(q);
        let i = choose|i: int|
            0 <= i < q.len() && options_piece(#[trigger] q[i]) && forall|j: int|
                0 <= j < q.len() && j != i ==> !options_piece(#[trigger] q[j]);
        assert(ps[i] == q[i]);
        assert forall|j: int| 0 <= j < ps.len() && j != i implies !options_piece(#[trigger] ps[j]) by {
            if j < q.len() {
                assert(ps[j] == q[j]);
            }
        }
    }
}

proof fn lemma_no_options_piece(ps: Seq<Seq<char>>)
    requires
        options_piece_count(ps) == 0,
    ensures
        forall|j: int| 0 <= j < ps.len() ==> !options_piece(#[trigger] ps[j]),
    decreases ps.len(),
{
    if ps.len() > 0 {
        let q = ps.drop_last();
        lemma_no_options_piece(q);
        assert forall|j: int| 0 <= j < ps.len() implies !options_piece(#[trigger] ps[j]) by {
            if j < q.len() {
                assert(ps[j] == q[j]);
            }
        }
    }
}

/// Taking over a loader entry changes only its `options` record: the
/// entry's lines are the source's, except that the one `options` line
/// becomes its leading whitespace, `options ` and its tokens other than
/// `splash` joined by single spaces, keeping its line ending.
pub proof fn lemma_takeover_changes_only_the_options_line(s: Seq<char>)
    requires
        takeover_ok(s),
    ensures
        exists|i: int|
            0 <= i < split_inclusive_nl(s).len() && options_piece(#[trigger] split_inclusive_nl(s)[i])
                && split_inclusive_nl(spec_taken_over_entry(s)) == split_inclusive_nl(s).update(
                i,
                taken_over_piece(split_inclusive_nl(s)[i]),
            ) && forall|j: int|
                0 <= j < split_inclusive_nl(s).len() && j != i ==> !options_piece(
                    #[trigger] split_inclusive_nl(s)[j],
                ),
{
    let ps = split_inclusive_nl(s);
    lemma_single_options_piece(ps);
    let i = choose|i: int|
        0 <= i < ps.len() && options_piece(#[trigger] ps[i]) && forall|j: int|
            0 <= j < ps.len() && j != i ==> !options_piece(#[trigger] ps[j]);
    crate::text_facts::lemma_split_pieces(s);
    assert(crate::text_facts::piece_ok(ps[i], i == ps.len() - 1));
    lemma_taken_over_piece_ok(ps[i], i == ps.len() - 1);
    let t = taken_over_piece(ps[i]);
    let mapped = ps.map_values(
        |p: Seq<char>|
            if options_piece(p) {
                taken_over_piece(p)
            } else {
                p
            },
    );
    assert(mapped =~= ps.update(i, t));
    crate::text_facts::lemma_lines_update(s, i, t);
    assert(spec_taken_over_entry(s) == concat_all(ps.update(i, t)));
}

/// `trim_end` gives a prefix.
proof fn lemma_trim_end_prefix(x: Seq<char>)
    ensures
        crate::text::trim_end(x).len() <= x.len(),
        crate::text::trim_end(x) == x.take(crate::text::trim_end(x).len() as int),
    decreases x.len(),
{
    if x.len() > 0 && crate::text::is_ws(x.last()) {
        lemma_trim_end_prefix(x.drop_last());
        let t = crate::text::trim_end(x.drop_last());
        assert(x.drop_last().take(t.len() as int) =~= x.take(t.len() as int));
    } else {
        assert(x.take(x.len() as int) =~= x);
    }
}

/// `trim_end` keeps every character up to the last non-whitespace one.
proof fn lemma_trim_end_keeps(x: Seq<char>, k: int)
    requires
        0 <= k < x.len(),
        !crate::text::is_ws(x[k]),
    ensures
        crate::text::trim_end(x).len() > k,
        crate::text::trim_end(x) == x.take(crate::text::trim_end(x).len() as int),
    decreases x.len(),
{
    lemma_trim_end_prefix(x);
    if x.len() > 0 && crate::text::is_ws(x.last()) {
        assert(k < x.len() - 1);
        assert(x.drop_last()[k] == x[k]);
        lemma_trim_end_keeps(x.drop_last(), k);
    }
}

/// Text that is whitespace, then `options`, then anything, trims to text
/// that starts with `o`: it is neither a `linux` nor an `initrd` record.
proof fn lemma_options_text_trims_to_o(y: Seq<char>, u: int)
    requires
        0 <= u,
        y.len() >= u + 7,
        forall|j: int| 0 <= j < u ==> crate::text::is_ws(#[trigger] y[j]),
        y.subrange(u, u + 7) == "options"@,
    ensures
        trim(y).len() > 0,
        trim(y)[0] == 'o',
        !has_prefix(trim(y), "linux "@),
        !has_prefix(trim(y), "initrd "@),
{
    reveal_strlit("options");
    reveal_strlit("linux ");
    reveal_strlit("initrd ");
    let w = y.take(u);
    let x = y.skip(u);
    assert(y =~= w + x);
    assert(x[0] == y.subrange(u, u + 7)[0]);
    assert(x[6] == y.subrange(u, u + 7)[6]);
    crate::text_facts::lemma_trim_start_ws_prefix(w, x);
    lemma_trim_end_keeps(x, 6);
    lemma_trim_end_prefix(x);
    let t = trim(y);
    assert(t == crate::text::trim_end(x));
    assert(x.take(t.len() as int)[0] == x[0]);
    assert(t[0] == x[0]);
    if has_prefix(t, "linux "@) {
        assert(t.subrange(0, 6)[0] == t[0]);
    }
    if has_prefix(t, "initrd "@) {
        assert(t.subrange(0, 7)[0] == t[0]);
    }
}

/// A character of a piece is a character of the concatenation.
proof fn lemma_concat_char(ps: Seq<Seq<char>>, i: int, j: int)
    requires
        0 <= i < ps.len(),
        0 <= j < ps[i].len(),
    ensures
        contains_char(concat_all(ps), ps[i][j]),
    decreases ps.len(),
{
    let q = ps.drop_last();
    assert(concat_all(ps) == concat_all(q) + ps.last());
    if i < ps.len() - 1 {
        assert(ps[i] == q[i]);
        lemma_concat_char(q, i, j);
        let k = choose|k: int| 0 <= k < concat_all(q).len() && concat_all(q)[k] == ps[i][j];
        assert(concat_all(ps)[k] == concat_all(q)[k]);
    } else {
        let k = concat_all(q).len() + j;
        assert(concat_all(ps)[k] == ps.last()[j]);
    }
}

/// A piece of an entry without `\r` has the piece's body as its line.
proof fn lemma_line_is_body(s: Seq<char>, i: int)
    requires
        !contains_char(s, '\r'),
        0 <= i < split_inclusive_nl(s).len(),
    ensures
        lines(s)[i] == piece_body(split_inclusive_nl(s)[i]),
{
    let ps = split_inclusive_nl(s);
    crate::text_facts::lemma_split_pieces(s);
    let b = piece_body(ps[i]);
    if b.len() > 0 && b.last() == '\r' {
        assert(b.last() == ps[i][b.len() - 1]);
        lemma_concat_char(ps, i, b.len() - 1);
    }
}

/// Folding over two line sequences that differ only at `i`, where the old
/// line is an `options` record and neither is a `linux` or `initrd`
/// record: while the old fold saw no repeat, the new one saw none either,
/// and the two read the same kernel and initramfs count.
proof fn lemma_fold_agree(ls: Seq<Seq<char>>, ms: Seq<Seq<char>>, i: int, m: int)
    requires
        ls.len() == ms.len(),
        0 <= i < ls.len(),
        0 <= m <= ls.len(),
        forall|j: int| 0 <= j < ls.len() && j != i ==> ls[j] == ms[j],
        has_prefix(trim(ls[i]), "options "@),
        !has_prefix(trim(ls[i]), "linux "@),
        !has_prefix(trim(ls[i]), "initrd "@),
        !has_prefix(trim(ms[i]), "linux "@),
        !has_prefix(trim(ms[i]), "initrd "@),
    ensures
        !entry_fold(ls.take(m)).3 ==> {
            let a = entry_fold(ls.take(m));
            let b = entry_fold(ms.take(m));
            &&& a.0 == b.0
            &&& a.1 == b.1
            &&& !b.3
            &&& (b.2 is Some ==> a.2 is Some)
        },
    decreases m,
{
    if m > 0 {
        lemma_fold_agree(ls, ms, i, m - 1);
        assert(ls.take(m).drop_last() =~= ls.take(m - 1));
        assert(ms.take(m).drop_last() =~= ms.take(m - 1));
        assert(ls.take(m).last() == ls[m - 1]);
        assert(ms.take(m).last() == ms[m - 1]);
        if m - 1 != i {
            assert(ls[m - 1] == ms[m - 1]);
        }
    } else {
        assert(ls.take(0) =~= Seq::<Seq<char>>::empty());
        assert(ms.take(0) =~= Seq::<Seq<char>>::empty());
    }
}

/// The line of an `options` piece is neither a `linux` nor an `initrd`
/// record.
proof fn lemma_options_piece_not_kernel(p: Seq<char>)
    requires
        options_piece(p),
    ensures
        !has_prefix(trim(piece_body(p)), "linux "@),
        !has_prefix(trim(piece_body(p)), "initrd "@),
{
    reveal_strlit("options ");
    reveal_strlit("options");
    let body = piece_body(p);
    crate::text_facts::lemma_trim_start_split(body);
    let u = body.len() - trim_start(body).len();
    assert(trim(body) == crate::text::trim_end(trim_start(body)));
    lemma_trim_end_prefix(trim_start(body));
    assert(trim(body).len() >= 8);
    assert(body.subrange(u, u + 7) =~= "options"@) by {
        assert forall|j: int| 0 <= j < 7 implies body[u + j] == "options"@[j] by {
            assert(trim(body).subrange(0, 8)[j] == trim(body)[j]);
            assert(trim(body)[j] == "options "@[j]);
            assert(trim(body)[j] == trim_start(body)[j]);
            assert(trim_start(body)[j] == body.skip(u)[j]);
        }
    }
    lemma_options_text_trims_to_o(body, u);
}

/// `line_body` keeps a prefix of at least all but two characters, and all
/// of a piece that ends in neither `\n` nor `\r`.
proof fn lemma_line_body_prefix(t: Seq<char>)
    ensures
        crate::text::line_body(t) == t.take(crate::text::line_body(t).len() as int),
        crate::text::line_body(t).len() + 2 >= t.len(),
        (t.len() > 0 && t.last() != '\n' && t.last() != '\r') ==> crate::text::line_body(t) == t,
{
    let a = if t.len() > 0 && t.last() == '\n' {
        t.drop_last()
    } else {
        t
    };
    assert(a == t.take(a.len() as int));
    if a.len() > 0 && a.last() == '\r' {
        assert(a.drop_last() =~= t.take(a.len() - 1));
    }
    assert(t.take(t.len() as int) =~= t);
}

/// The line of a taken-over `options` piece is neither a `linux` nor an
/// `initrd` record.
proof fn lemma_taken_over_line_not_kernel(p: Seq<char>)
    requires
        options_piece(p),
    ensures
        !has_prefix(trim(crate::text::line_body(taken_over_piece(p))), "linux "@),
        !has_prefix(trim(crate::text::line_body(taken_over_piece(p))), "initrd "@),
{
    reveal_strlit("options ");
    reveal_strlit("options");
    let body = piece_body(p);
    let u = body.len() - trim_start(body).len();
    crate::text_facts::lemma_trim_start_split(body);
    let ws = body.take(u);
    let tail = if p.len() > 0 && p.last() == '\n' {
        seq!['\n']
    } else {
        Seq::<char>::empty()
    };
    let t = taken_over_piece(p);
    let rest = join_space(without_splash(option_tokens(p))) + tail;
    assert(t =~= ws + "options "@ + rest);
    assert(t.len() >= u + 8);
    let nb = crate::text::line_body(t);
    lemma_line_body_prefix(t);
    if t.len() == u + 8 {
        assert(t.last() == "options "@[7]);
    }
    assert(nb.len() >= u + 7);
    assert forall|j: int| 0 <= j < u implies crate::text::is_ws(#[trigger] nb[j]) by {
        assert(nb[j] == t[j]);
        assert(t[j] == ws[j]);
        assert(ws[j] == body[j]);
    }
    assert(nb.subrange(u, u + 7) =~= "options"@) by {
        assert forall|j: int| 0 <= j < 7 implies nb[u + j] == "options"@[j] by {
            assert(nb[u + j] == t[u + j]);
            assert(t[u + j] == "options "@[j]);
        }
    }
    lemma_options_text_trims_to_o(nb, u);
}

/// Taking over a loader entry keeps its kernel: the `linux` record and the
/// `initrd` records read from the result are the source's, no record
/// repeats, and where the result parses, its kernel path is the source's.
pub proof fn lemma_takeover_keeps_the_kernel(s: Seq<char>)
    requires
        takeover_ok(s),
    ensures
        entry_fold(lines(spec_taken_over_entry(s))).0 == entry_fold(lines(s)).0,
        entry_fold(lines(spec_taken_over_entry(s))).1 == entry_fold(lines(s)).1,
        !entry_fold(lines(spec_taken_over_entry(s))).3,
        spec_parse_loader_entry(spec_taken_over_entry(s)) matches Some(r) ==> (
        spec_parse_loader_entry(s) matches Some(q) && r.0 == q.0),
{
    reveal_strlit("options ");
    reveal_strlit("options");
    let ps = split_inclusive_nl(s);
    lemma_takeover_changes_only_the_options_line(s);
    let i = choose|i: int|
        0 <= i < ps.len() && options_piece(#[trigger] ps[i]) && split_inclusive_nl(
            spec_taken_over_entry(s),
        ) == ps.update(i, taken_over_piece(ps[i])) && forall|j: int|
            0 <= j < ps.len() && j != i ==> !options_piece(#[trigger] ps[j]);
    let p = ps[i];
    let t = taken_over_piece(p);
    crate::text_facts::lemma_split_pieces(s);
    assert(crate::text_facts::piece_ok(ps[i], i == ps.len() - 1));
    lemma_taken_over_piece_ok(p, i == ps.len() - 1);
    crate::text_facts::lemma_lines_update(s, i, t);
    assert(spec_taken_over_entry(s) == concat_all(ps.update(i, t))) by {
        crate::text_facts::lemma_split_pieces(spec_taken_over_entry(s));
    }
    let ls = lines(s);
    let ms = lines(spec_taken_over_entry(s));
    assert(ms == ls.update(i, crate::text::line_body(t)));
    lemma_line_is_body(s, i);
    lemma_options_piece_not_kernel(p);
    lemma_taken_over_line_not_kernel(p);
    assert forall|j: int| 0 <= j < ls.len() && j != i implies ls[j] == ms[j] by {}
    lemma_fold_agree(ls, ms, i, ls.len() as int);
    assert(ls.take(ls.len() as int) =~= ls);
    assert(ms.take(ms.len() as int) =~= ms);
}

fn take_over_tokens(tokens: &Vec<Vec<char>>) -> (r: (Vec<Vec<char>>, usize))
    ensures
        r.0@.map_values(|x: Vec<char>| x@) == without_splash(
            tokens@.map_values(|x: Vec<char>| x@),
        ),
        r.1 == if splash_count(tokens@.map_values(|x: Vec<char>| x@)) < 2 {
            splash_count(tokens@.map_values(|x: Vec<char>| x@))
        } else {
            2
        },
{
    let ghost tv = tokens@.map_values(|x: Vec<char>| x@);
    let splash = chars_of("splash");
    let mut kept: Vec<Vec<char>> = Vec::new();
    let mut n: usize = 0;
    let mut i: usize = 0;
    while i < tokens.len()
        invariant
            i <= tokens@.len(),
            tv == tokens@.map_values(|x: Vec<char>| x@),
            splash@ == "splash"@,
            kept@.map_values(|x: Vec<char>| x@) == without_splash(tv.take(i as int)),
            n == if splash_count(tv.take(i as int)) < 2 {
                splash_count(tv.take(i as int))
            } else {
                2
            },
        decreases tokens.len() - i,
    {
        assert(tv.take(i + 1).drop_last() =~= tv.take(i as int));
        assert(tv.take(i + 1).last() == tokens@[i as int]@);
        if crate::mkinitcpio_systemd::chars_eq_pub(tokens[i].as_slice(), splash.as_slice()) {
            if n < 2 {
                n = n + 1;
            }
        } else {
            let ghost before = kept@.map_values(|x: Vec<char>| x@);
            kept.push(tokens[i].clone());
            assert(kept@.map_values(|x: Vec<char>| x@) =~= before.push(tokens@[i as int]@));
        }
        i = i + 1;
    }
    assert(tv.take(i as int) =~= tv);
    (kept, n)
}

/// Keeps the reviewed boot entry byte for byte except for one exact
/// `splash` word of its unique `options` record, so the stock presentation
/// daemon cannot race Bootart for the display.
pub fn activate_mkinitfs_boot_deploy_loader_entry(source: &str) -> (r: Result<
    Vec<u8>,
    InstallError,
>)
    ensures
        r is Ok <==> takeover_ok(source@),
        r matches Ok(b) ==> b@ == encode_utf8(spec_taken_over_entry(source@)),
        r matches Err(e) ==> e is InvalidPlan,
{
    parse_mkinitfs_boot_deploy_loader_entry(source)?;
    let s = chars_of(source);
    let pieces = split_inclusive_nl_exec(s.as_slice());
    let ghost ps = split_inclusive_nl(source@);
    let ghost mapped = ps.map_values(
        |p: Seq<char>|
            if options_piece(p) {
                taken_over_piece(p)
            } else {
                p
            },
    );
    let options_kw = chars_of("options ");
    let mut out: Vec<char> = Vec::new();
    let mut records: usize = 0;
    let mut splash: usize = 0;
    let mut j: usize = 0;
    while j < pieces.len()
        invariant
            j <= pieces@.len(),
            ps == split_inclusive_nl(source@),
            pieces@.len() == ps.len(),
            forall|q: int| 0 <= q < pieces@.len() ==> #[trigger] pieces@[q]@ == ps[q],
            mapped == ps.map_values(
                |p: Seq<char>|
                    if options_piece(p) {
                        taken_over_piece(p)
                    } else {
                        p
                    },
            ),
            options_kw@ == "options "@,
            records == options_piece_count(ps.take(j as int)),
            records <= j,
            splash == if total_splash(ps.take(j as int)) < 2 {
                total_splash(ps.take(j as int))
            } else {
                2
            },
            forall|i: int|
                0 <= i < j && options_piece(#[trigger] ps[i]) ==> without_splash(
                    option_tokens(ps[i]),
                ).len() > 0,
            out@ == concat_all(mapped.take(j as int)),
        decreases pieces.len() - j,
    {
        proof {
            reveal_strlit("options ");
        }
        let piece = &pieces[j];
        let ghost before = out@;
        let has_nl = piece.len() > 0 && piece[piece.len() - 1] == '\n';
        let body_len = if has_nl {
            piece.len() - 1
        } else {
            piece.len()
        };
        let body = slice_range(piece.as_slice(), 0, body_len);
        assert(body@ =~= piece_body(piece@));
        let t = trim_chars(body.as_slice());
        assert(ps.take(j + 1).drop_last() =~= ps.take(j as int));
        assert(ps.take(j + 1).last() == ps[j as int]);
        if seq_has_prefix(t.as_slice(), options_kw.as_slice()) {
            let rest = slice_range(t.as_slice(), 8, t.len());
            assert(rest@ =~= t@.skip(8));
            let tokens = split_ws_exec(rest.as_slice(), true);
            assert(tokens@.map_values(|x: Vec<char>| x@) =~= option_tokens(piece@));
            let (kept, n) = take_over_tokens(&tokens);
            if kept.len() == 0 {
                return Err(
                    invalid("mkinitfs-boot-deploy loader options become empty after splash takeover"),
                );
            }
            records = records + 1;
            splash = if splash + n < 2 {
                splash + n
            } else {
                2
            };
            let a = crate::text::trim_start_index(body.as_slice());
            let lead = slice_range(body.as_slice(), 0, a);
            crate::mkinitcpio_systemd::append_chars(&mut out, lead.as_slice());
            crate::mkinitcpio_systemd::append_chars(&mut out, options_kw.as_slice());
            let joined = join_space_exec(&kept);
            crate::mkinitcpio_systemd::append_chars(&mut out, joined.as_slice());
            if has_nl {
                out.push('\n');
            }
            assert(out@ =~= before + taken_over_piece(piece@));
        } else {
            crate::mkinitcpio_systemd::append_chars(&mut out, piece.as_slice());
        }
        assert(mapped.take(j + 1).drop_last() =~= mapped.take(j as int));
        j = j + 1;
    }
    assert(ps.take(j as int) =~= ps);
    assert(mapped.take(j as int) =~= mapped);
    if records != 1 || splash > 1 {
        return Err(invalid("mkinitfs-boot-deploy loader entry has ambiguous splash takeover state"));
    }
    let text = string_from_chars(out.as_slice());
    let bytes = str_bytes(text.as_str());
    if out.len() == 0 || bytes.len() > MAX_ENTRY_BYTES {
        return Err(
            invalid("mkinitfs-boot-deploy activated loader entry exceeds its text contract"),
        );
    }
    Ok(bytes)
}

/// `INITRAMFS_PKG_VERSION="<reviewed>"`.
pub open spec fn version_marker() -> Seq<char> {
    "INITRAMFS_PKG_VERSION=\""@ + REVIEWED_INITRAMFS_VERSION@ + "\""@
}

/// How many lines assign the initramfs package version.
pub open spec fn version_line_count(ls: Seq<Seq<char>>) -> nat
    decreases ls.len(),
{
    if ls.len() == 0 {
        0
    } else {
        version_line_count(ls.drop_last()) + if has_prefix(
            trim_start(ls.last()),
            "INITRAMFS_PKG_VERSION="@,
        ) {
            1nat
        } else {
            0nat
        }
    }
}

/// Reads the reviewed initramfs release from its init script.
pub fn parse_mkinitfs_boot_deploy_version(source: &str) -> (r: Result<String, InstallError>)
    ensures
        r is Ok <==> count_matches(source@, version_marker()) == 1 && version_line_count(
            lines(source@),
        ) == 1,
        r matches Ok(v) ==> v@ == REVIEWED_INITRAMFS_VERSION@,
        r matches Err(e) ==> e is InvalidPlan,
{
    let marker = concat3("INITRAMFS_PKG_VERSION=\"", REVIEWED_INITRAMFS_VERSION, "\"");
    let s = chars_of(source);
    let m = chars_of(marker.as_str());
    proof {
        reveal_strlit("INITRAMFS_PKG_VERSION=\"");
    }
    if count_matches_exec(s.as_slice(), m.as_slice()) != 1 {
        return Err(
            invalid("mkinitfs-boot-deploy initramfs version marker differs from the reviewed contract"),
        );
    }
    let ls = lines_exec(s.as_slice());
    let ghost lv = ls@.map_values(|v: Vec<char>| v@);
    assert(lv =~= lines(source@));
    let kw = chars_of("INITRAMFS_PKG_VERSION=");
    let mut n: usize = 0;
    let mut i: usize = 0;
    while i < ls.len()
        invariant
            i <= ls@.len(),
            lv == ls@.map_values(|v: Vec<char>| v@),
            kw@ == "INITRAMFS_PKG_VERSION="@,
            n == version_line_count(lv.take(i as int)),
            n <= i,
        decreases ls.len() - i,
    {
        assert(lv.take(i + 1).drop_last() =~= lv.take(i as int));
        assert(lv.take(i + 1).last() == ls@[i as int]@);
        let a = crate::text::trim_start_index(ls[i].as_slice());
        let rest = slice_range(ls[i].as_slice(), a, ls[i].len());
        assert(rest@ =~= trim_start(ls@[i as int]@));
        if seq_has_prefix(rest.as_slice(), kw.as_slice()) {
            n = n + 1;
        }
        i = i + 1;
    }
    assert(lv.take(i as int) =~= lv);
    if n != 1 {
        return Err(
            invalid("mkinitfs-boot-deploy initramfs version marker differs from the reviewed contract"),
        );
    }
    Ok(owned(REVIEWED_INITRAMFS_VERSION))
}

/// The Bootart-disabled known-good entry.
pub open spec fn known_good_entry_text(kernel_image: Seq<char>, cmd: Seq<char>) -> Seq<char> {
    "title Bootart known-good\nlinux "@ + kernel_image.skip(6)
        + "\ninitrd initramfs.bootart-known-good\noptions "@ + cmd + " bootart=0 rd.bootart=0\n"@
}

fn render_known_good_entry(kernel_image: &str, command_line: &str) -> (r: Result<
    Vec<u8>,
    InstallError,
>)
    ensures
        r is Ok <==> spec_safe_kernel_image(kernel_image@) && spec_safe_entry_command_line(
            command_line@,
        ),
        r matches Ok(b) ==> b@ == encode_utf8(known_good_entry_text(kernel_image@, command_line@)),
        r matches Err(e) ==> e is InvalidPlan,
{
    if !safe_kernel_image(kernel_image) {
        return Err(invalid("mkinitfs-boot-deploy kernel path is outside the fixed layout"));
    }
    if !safe_entry_command_line(command_line) {
        return Err(invalid("mkinitfs-boot-deploy kernel command line is unsafe"));
    }
    proof {
        reveal_strlit("/boot/");
    }
    let kernel = match strip_prefix(kernel_image, "/boot/") {
        Some(k) => k,
        None => return Err(invalid("mkinitfs-boot-deploy kernel path is outside the fixed layout")),
    };
    let a = concat3("title Bootart known-good\nlinux ", kernel, "\ninitrd initramfs.bootart-known-good\noptions ");
    let b = concat3(a.as_str(), command_line, " bootart=0 rd.bootart=0\n");
    Ok(str_bytes(b.as_str()))
}

/// Whether the boot-deploy backend owns `path`.
pub open spec fn spec_mkinitfs_boot_deploy_openrc_managed_image_path(path: Seq<char>) -> bool {
    ||| path == ACTIVE_INITRAMFS_PATH@
    ||| path == KNOWN_GOOD_INITRAMFS_PATH@
    ||| path == KNOWN_GOOD_ENTRY_PATH@
    ||| path == CANDIDATE_DIRECTORY@
    ||| has_prefix(path, CANDIDATE_DIRECTORY@ + "/"@)
}

pub fn mkinitfs_boot_deploy_openrc_managed_image_path(path: &str) -> (r: bool)
    ensures
        r == spec_mkinitfs_boot_deploy_openrc_managed_image_path(path@),
{
    let dir = concat2(CANDIDATE_DIRECTORY, "/");
    str_eq(path, ACTIVE_INITRAMFS_PATH) || str_eq(path, KNOWN_GOOD_INITRAMFS_PATH) || str_eq(
        path,
        KNOWN_GOOD_ENTRY_PATH,
    ) || str_eq(path, CANDIDATE_DIRECTORY) || str_has_prefix(path, dir.as_str())
}

/// The one command of the boot-deploy backend.
pub open spec fn bd_generator_request_valid(r: GeneratorRequest) -> bool {
    r.is_exactly(
        GeneratorKind::MkinitfsBootDeploy,
        MKINITFS_BOOT_DEPLOY_EXECUTABLE@,
        r.alternate_root@,
        None,
        seq!["-d"@, CANDIDATE_DIRECTORY@],
    ) && spec_safe_alternate_root(r.alternate_root@)
}

/// Rejects every command but `mkinitfs -d <candidate directory>`.
pub fn validate_mkinitfs_boot_deploy_openrc_generator_request(request: &GeneratorRequest) -> (r:
    Result<(), InstallError>)
    ensures
        r is Ok <==> bd_generator_request_valid(*request),
        r matches Err(e) ==> e is InvalidPlan,
{
    let lits = ["-d", CANDIDATE_DIRECTORY];
    assert(str_views(lits@) =~= seq!["-d"@, CANDIDATE_DIRECTORY@]);
    if request.generator != GeneratorKind::MkinitfsBootDeploy || !str_eq(
        request.executable.as_str(),
        MKINITFS_BOOT_DEPLOY_EXECUTABLE,
    ) || !request.clear_environment || !safe_alternate_root(request.alternate_root.as_str())
        || request.working_directory.is_some() || !strings_equal_strs(&request.arguments, &lits) {
        return Err(invalid("mkinitfs-boot-deploy generator request differs from the fixed contract"));
    }
    assert(request.args() =~= crate::text::string_views(request.arguments@));
    Ok(())
}


// ---------------------------------------------------------------------------
// Contracts and planning
// ---------------------------------------------------------------------------

/// `/boot/.bootart-candidate/<kernel file>`.
pub open spec fn candidate_kernel(kernel_image: Seq<char>) -> Seq<char> {
    CANDIDATE_DIRECTORY@ + "/"@ + kernel_image.skip(6)
}

/// The fixed paths, modes and command of a contract.
pub open spec fn bd_contract_layout_ok(c: MkinitfsBootDeployOpenRcContract) -> bool {
    &&& bd_generator_request_valid(c.generate)
    &&& spec_safe_kernel_image(c.kernel_image@)
    &&& c.active_image@ == ACTIVE_INITRAMFS_PATH@
    &&& c.candidate_directory@ == CANDIDATE_DIRECTORY@
    &&& c.candidate_image@ == CANDIDATE_INITRAMFS_PATH@
    &&& c.candidate_kernel@ == candidate_kernel(c.kernel_image@)
    &&& c.known_good_image@ == KNOWN_GOOD_INITRAMFS_PATH@
    &&& c.known_good_entry_path@ == KNOWN_GOOD_ENTRY_PATH@
    &&& spec_safe_bls_entry_mode(c.known_good_entry_mode)
    &&& spec_safe_loader_entry(c.active_loader_entry@)
    &&& spec_safe_bls_entry_mode(c.active_loader_entry_mode)
    &&& c.active_loader_entry_mode == c.known_good_entry_mode
}

/// The entry pair differs only by the takeover, the known-good entry
/// disables Bootart, and the patched functions stay within the reviewed
/// unlock contract.
pub open spec fn bd_contents_ok(
    kernel_image: Seq<char>,
    original: Seq<u8>,
    activated: Seq<u8>,
    known_good_entry: Seq<u8>,
    patched: Seq<u8>,
) -> bool {
    &&& 0 < original.len() <= MAX_ENTRY_BYTES
    &&& 0 < activated.len() <= MAX_ENTRY_BYTES
    &&& 0 < known_good_entry.len() <= MAX_ENTRY_BYTES
    &&& has_suffix_bytes(known_good_entry, " bootart=0 rd.bootart=0\n"@)
    &&& patched.len() <= MAX_FUNCTIONS_BYTES
    &&& valid_utf8(original)
    &&& valid_utf8(activated)
    &&& spec_parse_loader_entry(decode_utf8(original)) matches Some((k, _)) && k == kernel_image
    &&& spec_parse_loader_entry(decode_utf8(activated)) matches Some((k, o)) && k == kernel_image
        && !split_ws(o, true).contains("splash"@)
    &&& takeover_ok(decode_utf8(original))
    &&& encode_utf8(spec_taken_over_entry(decode_utf8(original))) == activated
    &&& valid_utf8(patched)
    &&& functions_patchable(decode_utf8(patched), REVIEWED_INITRAMFS_VERSION@)
}

/// `bytes` ends with the UTF-8 encoding of `suffix`.
pub open spec fn has_suffix_bytes(bytes: Seq<u8>, suffix: Seq<char>) -> bool {
    encode_utf8(suffix).len() <= bytes.len() && bytes.subrange(
        bytes.len() - encode_utf8(suffix).len(),
        bytes.len() as int,
    ) == encode_utf8(suffix)
}

pub open spec fn bd_contract_valid(c: MkinitfsBootDeployOpenRcContract) -> bool {
    &&& bd_contract_layout_ok(c)
    &&& bd_contents_ok(
        c.kernel_image@,
        c.active_loader_entry_original@,
        c.active_loader_entry_activated@,
        c.known_good_entry@,
        c.patched_init_functions_2nd@,
    )
}

fn has_suffix_bytes_exec(bytes: &Vec<u8>, suffix: &str) -> (r: bool)
    ensures
        r == has_suffix_bytes(bytes@, suffix@),
{
    let sb = str_bytes(suffix);
    if sb.len() > bytes.len() {
        return false;
    }
    let tail = crate::archive::slice_bytes(bytes.as_slice(), bytes.len() - sb.len(), bytes.len());
    bytes_eq(tail.as_slice(), sb.as_slice())
}

fn bd_contents_ok_exec(
    kernel_image: &str,
    original: &Vec<u8>,
    activated: &Vec<u8>,
    known_good_entry: &Vec<u8>,
    patched: &Vec<u8>,
) -> (r: bool)
    ensures
        r == bd_contents_ok(kernel_image@, original@, activated@, known_good_entry@, patched@),
{
    if original.len() == 0 || original.len() > MAX_ENTRY_BYTES || activated.len() == 0
        || activated.len() > MAX_ENTRY_BYTES || known_good_entry.len() == 0
        || known_good_entry.len() > MAX_ENTRY_BYTES || patched.len() > MAX_FUNCTIONS_BYTES {
        return false;
    }
    proof {
        reveal_strlit(" bootart=0 rd.bootart=0\n");
    }
    if !has_suffix_bytes_exec(known_good_entry, " bootart=0 rd.bootart=0\n") {
        return false;
    }
    let o = match utf8_to_str(original.as_slice()) {
        Some(o) => o,
        None => return false,
    };
    let a = match utf8_to_str(activated.as_slice()) {
        Some(a) => a,
        None => return false,
    };
    let (ok_kernel, _) = match parse_mkinitfs_boot_deploy_loader_entry(o) {
        Ok(x) => x,
        Err(_) => return false,
    };
    let (ak_kernel, ak_options) = match parse_mkinitfs_boot_deploy_loader_entry(a) {
        Ok(x) => x,
        Err(_) => return false,
    };
    if !str_eq(ok_kernel.as_str(), kernel_image) || !str_eq(ak_kernel.as_str(), kernel_image) {
        return false;
    }
    let oc = chars_of(ak_options.as_str());
    let tokens = split_ws_exec(oc.as_slice(), true);
    let ghost tv = tokens@.map_values(|x: Vec<char>| x@);
    assert(tv =~= split_ws(ak_options@, true));
    let splash = chars_of("splash");
    let mut i: usize = 0;
    while i < tokens.len()
        invariant
            i <= tokens@.len(),
            tv == tokens@.map_values(|x: Vec<char>| x@),
            tv == split_ws(ak_options@, true),
            spec_parse_loader_entry(decode_utf8(activated@)) == Some((ak_kernel@, ak_options@)),
            splash@ == "splash"@,
            forall|j: int| 0 <= j < i ==> tv[j] != "splash"@,
        decreases tokens.len() - i,
    {
        if crate::mkinitcpio_systemd::chars_eq_pub(tokens[i].as_slice(), splash.as_slice()) {
            assert(tv[i as int] == "splash"@);
            assert(tv.contains("splash"@));
            assert(split_ws(ak_options@, true).contains("splash"@));
            return false;
        }
        i = i + 1;
    }
    assert(!tv.contains("splash"@));
    let taken = match activate_mkinitfs_boot_deploy_loader_entry(o) {
        Ok(b) => b,
        Err(_) => return false,
    };
    if !bytes_eq(taken.as_slice(), activated.as_slice()) {
        return false;
    }
    let p = match utf8_to_str(patched.as_slice()) {
        Some(p) => p,
        None => return false,
    };
    patch_init_functions_2nd(p, REVIEWED_INITRAMFS_VERSION).is_ok()
}

/// Revalidates every relation of a resolved contract.
pub fn validate_mkinitfs_boot_deploy_openrc_contract(contract: &MkinitfsBootDeployOpenRcContract) -> (r:
    Result<(), InstallError>)
    ensures
        r is Ok <==> bd_contract_valid(*contract),
        r matches Err(e) ==> e is InvalidPlan,
{
    validate_mkinitfs_boot_deploy_openrc_generator_request(&contract.generate)?;
    if !safe_kernel_image(contract.kernel_image.as_str()) {
        return Err(invalid("mkinitfs-boot-deploy contract kernel path is unsafe"));
    }
    proof {
        reveal_strlit("/boot/");
    }
    let kernel_name = match strip_prefix(contract.kernel_image.as_str(), "/boot/") {
        Some(k) => k,
        None => return Err(invalid("mkinitfs-boot-deploy contract kernel path is unsafe")),
    };
    let cand_kernel = concat3(CANDIDATE_DIRECTORY, "/", kernel_name);
    if !str_eq(contract.active_image.as_str(), ACTIVE_INITRAMFS_PATH) || !str_eq(
        contract.candidate_directory.as_str(),
        CANDIDATE_DIRECTORY,
    ) || !str_eq(contract.candidate_image.as_str(), CANDIDATE_INITRAMFS_PATH) || !str_eq(
        contract.candidate_kernel.as_str(),
        cand_kernel.as_str(),
    ) || !str_eq(contract.known_good_image.as_str(), KNOWN_GOOD_INITRAMFS_PATH) || !str_eq(
        contract.known_good_entry_path.as_str(),
        KNOWN_GOOD_ENTRY_PATH,
    ) || !safe_bls_entry_mode(contract.known_good_entry_mode) || !safe_loader_entry(
        contract.active_loader_entry.as_str(),
    ) || !safe_bls_entry_mode(contract.active_loader_entry_mode)
        || contract.active_loader_entry_mode != contract.known_good_entry_mode {
        return Err(invalid("mkinitfs-boot-deploy contract violates the fixed path/content contract"));
    }
    if !bd_contents_ok_exec(
        contract.kernel_image.as_str(),
        &contract.active_loader_entry_original,
        &contract.active_loader_entry_activated,
        &contract.known_good_entry,
        &contract.patched_init_functions_2nd,
    ) {
        return Err(invalid("mkinitfs-boot-deploy active loader takeover or resources are inconsistent"));
    }
    Ok(())
}

/// The inode accounting a boot filesystem reports: none at all (FAT
/// families) or consistent with enough free inodes.
pub open spec fn inode_accounting_ok(total: u64, free: u64) -> bool {
    if total == 0 {
        free == 0
    } else {
        free <= total && free >= MIN_BOOT_FREE_INODES
    }
}

pub open spec fn bd_host_ok(f: MkinitfsBootDeployOpenRcFacts, root: Seq<char>) -> bool {
    &&& spec_safe_alternate_root(root)
    &&& f.architecture@ == PRODUCT_ARCHITECTURE@
    &&& f.pid1_comm@ == "init"@
    &&& f.root_filesystem_device != f.boot_filesystem_device
    &&& f.boot_writable
}

pub open spec fn bd_preflight_ok(f: MkinitfsBootDeployOpenRcFacts, root: Seq<char>) -> bool {
    &&& bd_host_ok(f, root)
    &&& f.boot_free_bytes >= MIN_BOOT_FREE_BYTES
    &&& inode_accounting_ok(f.boot_total_inodes, f.boot_free_inodes)
    &&& f.initramfs_version@ == REVIEWED_INITRAMFS_VERSION@
    &&& functions_patchable(f.init_functions_2nd@, f.initramfs_version@)
    &&& tools_match_exactly(f.tools@, str_views(boot_deploy_tools()))
    &&& facts_match_exactly(
        bd_tool_facts(f.contract_files@),
        boot_deploy_contract_paths(),
        boot_deploy_contract_modes(),
    )
    &&& f.active_image@ == ACTIVE_INITRAMFS_PATH@
    &&& 0 < f.known_good_bytes <= MAX_CANDIDATE_BYTES
    &&& spec_safe_kernel_image(f.kernel_image@)
    &&& spec_safe_loader_entry(f.active_loader_entry@)
    &&& spec_safe_bls_entry_mode(f.active_loader_entry_mode)
    &&& valid_utf8(f.active_loader_entry_bytes@)
    &&& spec_parse_loader_entry(decode_utf8(f.active_loader_entry_bytes@)) == Some(
        (f.kernel_image@, f.kernel_command_line@),
    )
    &&& takeover_ok(decode_utf8(f.active_loader_entry_bytes@))
}

pub open spec fn bd_known_good_entry(f: MkinitfsBootDeployOpenRcFacts) -> Seq<u8> {
    encode_utf8(known_good_entry_text(f.kernel_image@, f.kernel_command_line@))
}

pub open spec fn bd_activated(f: MkinitfsBootDeployOpenRcFacts) -> Seq<u8> {
    encode_utf8(spec_taken_over_entry(decode_utf8(f.active_loader_entry_bytes@)))
}

pub open spec fn bd_patched(f: MkinitfsBootDeployOpenRcFacts) -> Seq<u8> {
    encode_utf8(patched_functions(f.init_functions_2nd@))
}

/// The inputs on which the planner succeeds.
pub open spec fn bd_plan_ok(f: MkinitfsBootDeployOpenRcFacts, root: Seq<char>) -> bool {
    &&& bd_preflight_ok(f, root)
    &&& bd_contents_ok(
        f.kernel_image@,
        f.active_loader_entry_bytes@,
        bd_activated(f),
        bd_known_good_entry(f),
        bd_patched(f),
    )
}

pub open spec fn bd_contract_for(
    c: MkinitfsBootDeployOpenRcContract,
    f: MkinitfsBootDeployOpenRcFacts,
    root: Seq<char>,
) -> bool {
    &&& c.kernel_image@ == f.kernel_image@
    &&& c.active_image@ == f.active_image@
    &&& c.candidate_directory@ == CANDIDATE_DIRECTORY@
    &&& c.candidate_image@ == CANDIDATE_INITRAMFS_PATH@
    &&& c.candidate_kernel@ == candidate_kernel(f.kernel_image@)
    &&& c.known_good_image@ == KNOWN_GOOD_INITRAMFS_PATH@
    &&& c.known_good_digest == f.known_good_digest
    &&& c.known_good_entry_path@ == KNOWN_GOOD_ENTRY_PATH@
    &&& c.known_good_entry_mode == f.active_loader_entry_mode
    &&& c.known_good_entry@ == bd_known_good_entry(f)
    &&& c.active_loader_entry@ == f.active_loader_entry@
    &&& c.active_loader_entry_mode == f.active_loader_entry_mode
    &&& c.active_loader_entry_original@ == f.active_loader_entry_bytes@
    &&& c.active_loader_entry_activated@ == bd_activated(f)
    &&& c.patched_init_functions_2nd@ == bd_patched(f)
    &&& c.generate.is_exactly(
        GeneratorKind::MkinitfsBootDeploy,
        MKINITFS_BOOT_DEPLOY_EXECUTABLE@,
        root,
        None,
        seq!["-d"@, CANDIDATE_DIRECTORY@],
    )
}

/// Every contract the planner produces passes the contract validator.
pub proof fn lemma_bd_planned_contract_valid(
    c: MkinitfsBootDeployOpenRcContract,
    f: MkinitfsBootDeployOpenRcFacts,
    root: Seq<char>,
)
    requires
        bd_plan_ok(f, root),
        bd_contract_for(c, f, root),
    ensures
        bd_contract_valid(c),
{
    assert(c.generate.alternate_root@ == root);
    assert(bd_generator_request_valid(c.generate));
    assert(bd_contract_layout_ok(c));
}

pub open spec fn bd_plan_error(f: MkinitfsBootDeployOpenRcFacts, root: Seq<char>, e: InstallError) -> bool {
    if bd_host_ok(f, root) && f.boot_free_bytes < MIN_BOOT_FREE_BYTES {
        e matches InstallError::InsufficientFreeSpace { path, required, available } && path@
            == "/boot"@ && required == MIN_BOOT_FREE_BYTES && available == f.boot_free_bytes
    } else {
        e is InvalidPlan
    }
}

fn bd_preflight(facts: &MkinitfsBootDeployOpenRcFacts, alternate_root: &str) -> (r: Result<
    (String, Vec<u8>),
    InstallError,
>)
    ensures
        r is Ok <==> bd_preflight_ok(*facts, alternate_root@),
        r matches Ok((patched, activated)) ==> patched@ == patched_functions(
            facts.init_functions_2nd@,
        ) && activated@ == bd_activated(*facts),
        r matches Err(e) ==> bd_plan_error(*facts, alternate_root@, e),
{
    if !safe_alternate_root(alternate_root) {
        return Err(invalid("mkinitfs-boot-deploy alternate root is unsafe"));
    }
    if !str_eq(facts.architecture.as_str(), PRODUCT_ARCHITECTURE) {
        return Err(invalid("mkinitfs-boot-deploy architecture does not match this Bootart ELF"));
    }
    if !str_eq(facts.pid1_comm.as_str(), "init") {
        return Err(invalid("mkinitfs-boot-deploy PID 1 is not init"));
    }
    if facts.root_filesystem_device == facts.boot_filesystem_device {
        return Err(invalid("mkinitfs-boot-deploy /boot is not a separate filesystem"));
    }
    if !facts.boot_writable {
        return Err(invalid("mkinitfs-boot-deploy /boot is not writable"));
    }
    if facts.boot_free_bytes < MIN_BOOT_FREE_BYTES {
        return Err(
            InstallError::InsufficientFreeSpace {
                path: owned("/boot"),
                required: MIN_BOOT_FREE_BYTES,
                available: facts.boot_free_bytes,
            },
        );
    }
    if (facts.boot_total_inodes == 0 && facts.boot_free_inodes != 0) || (facts.boot_total_inodes
        != 0 && (facts.boot_free_inodes > facts.boot_total_inodes || facts.boot_free_inodes
        < MIN_BOOT_FREE_INODES)) {
        return Err(invalid("mkinitfs-boot-deploy /boot inode accounting is inconsistent or exhausted"));
    }
    if !str_eq(facts.initramfs_version.as_str(), REVIEWED_INITRAMFS_VERSION) {
        return Err(invalid("mkinitfs-boot-deploy initramfs version differs from the reviewed contract"));
    }
    let patched = match patch_init_functions_2nd(
        facts.init_functions_2nd.as_str(),
        facts.initramfs_version.as_str(),
    ) {
        Ok(p) => p,
        Err(_) => return Err(invalid("mkinitfs-boot-deploy init functions are outside the reviewed unlock contract")),
    };
    let tools = vec![
        MKINITFS_BOOT_DEPLOY_EXECUTABLE,
        BOOT_DEPLOY_EXECUTABLE,
        OPENRC_BOOT_DEPLOY_EXECUTABLE,
    ];
    assert(tools@ =~= boot_deploy_tools());
    if !tools_match_exactly_exec(&facts.tools, &tools) {
        return Err(invalid("mkinitfs-boot-deploy tool set differs from the fixed contract"));
    }
    let files = bd_facts_as_tools(&facts.contract_files);
    let paths = vec![
        "/usr/share/initramfs/init.sh",
        "/usr/share/initramfs/init_2nd.sh",
        "/usr/share/initramfs/init_functions_2nd.sh",
        "/usr/share/boot-deploy/boot-deploy-functions.sh",
        "/usr/share/boot-deploy/os-customization",
        "/usr/bin/fde-unlock",
    ];
    let modes = vec![true, true, false, true, false, true];
    assert(str_views(paths@) =~= boot_deploy_contract_paths());
    assert(modes@ =~= boot_deploy_contract_modes());
    if !facts_match_exactly_exec(&files, &paths, &modes) {
        return Err(invalid("mkinitfs-boot-deploy runtime file set differs from the fixed contract"));
    }
    if !str_eq(facts.active_image.as_str(), ACTIVE_INITRAMFS_PATH) || facts.known_good_bytes == 0
        || facts.known_good_bytes > MAX_CANDIDATE_BYTES || !safe_kernel_image(
        facts.kernel_image.as_str(),
    ) || !safe_loader_entry(facts.active_loader_entry.as_str()) || !safe_bls_entry_mode(
        facts.active_loader_entry_mode,
    ) {
        return Err(invalid("mkinitfs-boot-deploy active boot layout differs from the fixed contract"));
    }
    let source = match utf8_to_str(facts.active_loader_entry_bytes.as_slice()) {
        Some(s) => s,
        None => return Err(invalid("mkinitfs-boot-deploy active loader entry is not UTF-8")),
    };
    let (loader_kernel, loader_command_line) = parse_mkinitfs_boot_deploy_loader_entry(source)?;
    if !str_eq(loader_kernel.as_str(), facts.kernel_image.as_str()) || !str_eq(
        loader_command_line.as_str(),
        facts.kernel_command_line.as_str(),
    ) {
        return Err(invalid("mkinitfs-boot-deploy active loader entry changed after discovery"));
    }
    let activated = activate_mkinitfs_boot_deploy_loader_entry(source)?;
    Ok((patched, activated))
}

/// Resolves the boot-deploy candidate, entries and command.
pub fn plan_mkinitfs_boot_deploy_openrc_for_root(
    facts: &MkinitfsBootDeployOpenRcFacts,
    alternate_root: &str,
) -> (r: Result<MkinitfsBootDeployOpenRcContract, InstallError>)
    ensures
        r is Ok <==> bd_plan_ok(*facts, alternate_root@),
        r matches Ok(c) ==> bd_contract_for(c, *facts, alternate_root@),
        r matches Err(e) ==> bd_plan_error(*facts, alternate_root@, e),
{
    let (patched, activated) = bd_preflight(facts, alternate_root)?;
    proof {
        reveal_strlit("/boot/");
        crate::text::lemma_decode_encode(facts.kernel_command_line@);
    }
    let kernel_name = match strip_prefix(facts.kernel_image.as_str(), "/boot/") {
        Some(k) => k,
        None => return Err(invalid("mkinitfs-boot-deploy kernel path is outside the fixed layout")),
    };
    let known_good_entry = match render_known_good_entry(
        facts.kernel_image.as_str(),
        facts.kernel_command_line.as_str(),
    ) {
        Ok(b) => b,
        Err(e) => return Err(e),
    };
    let lits = ["-d", CANDIDATE_DIRECTORY];
    let contract = MkinitfsBootDeployOpenRcContract {
        kernel_image: owned(facts.kernel_image.as_str()),
        active_image: owned(facts.active_image.as_str()),
        candidate_directory: owned(CANDIDATE_DIRECTORY),
        candidate_image: owned(CANDIDATE_INITRAMFS_PATH),
        candidate_kernel: concat3(CANDIDATE_DIRECTORY, "/", kernel_name),
        known_good_image: owned(KNOWN_GOOD_INITRAMFS_PATH),
        known_good_digest: facts.known_good_digest,
        known_good_entry_path: owned(KNOWN_GOOD_ENTRY_PATH),
        known_good_entry_mode: facts.active_loader_entry_mode,
        known_good_entry,
        active_loader_entry: owned(facts.active_loader_entry.as_str()),
        active_loader_entry_mode: facts.active_loader_entry_mode,
        active_loader_entry_original: crate::archive::copy_bytes(
            facts.active_loader_entry_bytes.as_slice(),
        ),
        active_loader_entry_activated: activated,
        patched_init_functions_2nd: str_bytes(patched.as_str()),
        generate: GeneratorRequest {
            generator: GeneratorKind::MkinitfsBootDeploy,
            executable: owned(MKINITFS_BOOT_DEPLOY_EXECUTABLE),
            alternate_root: owned(alternate_root),
            working_directory: None,
            arguments: crate::text::strings_of(&lits),
            clear_environment: true,
        },
    };
    proof {
        assert(str_views(lits@) =~= seq!["-d"@, CANDIDATE_DIRECTORY@]);
        assert(contract.generate.args() =~= crate::text::string_views(contract.generate.arguments@));
        assert(bd_contract_for(contract, *facts, alternate_root@));
        assert(bd_contract_layout_ok(contract));
    }
    match validate_mkinitfs_boot_deploy_openrc_contract(&contract) {
        Ok(()) => Ok(contract),
        Err(e) => Err(e),
    }
}

/// Plans against the running system's root.
pub fn plan_mkinitfs_boot_deploy_openrc(facts: &MkinitfsBootDeployOpenRcFacts) -> (r: Result<
    MkinitfsBootDeployOpenRcContract,
    InstallError,
>)
    ensures
        r is Ok <==> bd_plan_ok(*facts, "/"@),
        r matches Ok(c) ==> bd_contract_for(c, *facts, "/"@),
        r matches Err(e) ==> bd_plan_error(*facts, "/"@, e),
{
    plan_mkinitfs_boot_deploy_openrc_for_root(facts, "/")
}


// ---------------------------------------------------------------------------
// Zstandard candidate frames
// ---------------------------------------------------------------------------

/// What `ruzstd`'s streaming decoder yields for `frame` when at most `cap`
/// decoded bytes are read: the output with the number of input bytes the
/// decoder consumed, or, when the frame header (`true`) or a block
/// (`false`) fails to decode, the text of the decoder's error.
pub uninterp spec fn zstd_frame_decode(frame: Seq<u8>, cap: nat) -> Result<(Seq<u8>, nat), (bool, Seq<char>)>;

/// Decodes one Zstandard frame with `ruzstd::decoding::StreamingDecoder`
/// over an in-memory cursor, reading at most `cap` decoded bytes, and
/// reports the cursor position afterwards, or which stage failed with the
/// error's display text.  The contract only names the result; what the
/// decoder yields is not restated here.  That a malformed frame ends in an
/// error rather than a panic inside the decoder rests on `ruzstd` itself
/// and is not shown here.
#[verifier::external_body]
fn zstd_decode_frame(frame: &[u8], cap: u64) -> (r: Result<(Vec<u8>, u64), (bool, String)>)
    ensures
        match r {
            Ok((out, pos)) => zstd_frame_decode(frame@, cap as nat) == Ok::<(Seq<u8>, nat), (bool, Seq<char>)>(
                (out@, pos as nat),
            ),
            Err((header, text)) => zstd_frame_decode(frame@, cap as nat) == Err::<(Seq<u8>, nat), (bool, Seq<char>)>(
                (header, text@),
            ),
        },
{
    let mut decoder = match ruzstd::decoding::StreamingDecoder::new(std::io::Cursor::new(frame)) {
        Ok(d) => d,
        Err(error) => return Err((true, format!("{error}"))),
    };
    let mut out = Vec::new();
    let mut bounded = std::io::Read::take(&mut decoder, cap);
    if let Err(error) = std::io::Read::read_to_end(&mut bounded, &mut out) {
        return Err((false, format!("{error}")));
    }
    Ok((out, decoder.into_inner().position()))
}

/// The decoded archive of a candidate: one complete frame, no trailing or
/// concatenated data, nonempty and within the inspection bound.  A frame
/// whose header or a block fails to decode is refused with the decoder's
/// own words.
pub fn accept_decoded_archive(candidate_len: usize, decoded: Result<(Vec<u8>, u64), (bool, String)>) -> (r: Result<
    Vec<u8>,
    InstallError,
>)
    ensures
        r is Ok <==> (decoded matches Ok((out, pos)) && 0 < out@.len()
            <= MAX_INSPECTED_ARCHIVE_BYTES && pos == candidate_len),
        r matches Ok(out) ==> decoded matches Ok((o, _)) && out@ == o@,
        decoded matches Err((true, t)) ==> (r matches Err(InstallError::InvalidPlan(m)) && m@
            == "mkinitfs-boot-deploy candidate is not one supported Zstandard frame: "@ + t@),
        decoded matches Err((false, t)) ==> (r matches Err(InstallError::InvalidPlan(m)) && m@
            == "mkinitfs-boot-deploy Zstandard decoding failed: "@ + t@),
        r matches Err(e) ==> e is InvalidPlan,
{
    let (out, pos) = match decoded {
        Ok(d) => d,
        Err((header, text)) => {
            let message = if header {
                concat2("mkinitfs-boot-deploy candidate is not one supported Zstandard frame: ", text.as_str())
            } else {
                concat2("mkinitfs-boot-deploy Zstandard decoding failed: ", text.as_str())
            };
            return Err(invalid(message.as_str()));
        },
    };
    if out.len() as u64 > MAX_INSPECTED_ARCHIVE_BYTES {
        return Err(invalid("mkinitfs-boot-deploy decompressed archive exceeds its fixed bound"));
    }
    if pos != candidate_len as u64 {
        return Err(
            invalid("mkinitfs-boot-deploy candidate contains trailing or concatenated frame data"),
        );
    }
    if out.len() == 0 {
        return Err(invalid("mkinitfs-boot-deploy decompressed archive is empty"));
    }
    Ok(out)
}

/// Decompresses one bounded Zstandard frame with the decoder linked into
/// the Bootart ELF, so inspection needs no second host executable.
pub fn decompress_mkinitfs_boot_deploy_openrc_archive(candidate: &[u8]) -> (r: Result<
    Vec<u8>,
    InstallError,
>)
    ensures
        r is Ok <==> 0 < candidate@.len() <= MAX_CANDIDATE_BYTES && (zstd_frame_decode(
            candidate@,
            MAX_INSPECTED_ARCHIVE_BYTES as nat + 1,
        ) matches Ok((out, pos)) && 0 < out.len() <= MAX_INSPECTED_ARCHIVE_BYTES && pos
            == candidate@.len()),
        r matches Ok(out) ==> zstd_frame_decode(candidate@, MAX_INSPECTED_ARCHIVE_BYTES as nat + 1) matches Ok(
            (o, _),
        ) && out@ == o,
        0 < candidate@.len() <= MAX_CANDIDATE_BYTES ==> (zstd_frame_decode(
            candidate@,
            MAX_INSPECTED_ARCHIVE_BYTES as nat + 1,
        ) matches Err((header, t)) ==> r matches Err(InstallError::InvalidPlan(m)) && m@ == (if header {
            "mkinitfs-boot-deploy candidate is not one supported Zstandard frame: "@
        } else {
            "mkinitfs-boot-deploy Zstandard decoding failed: "@
        }) + t),
        r matches Err(e) ==> e is InvalidPlan,
{
    if candidate.len() == 0 || candidate.len() as u64 > MAX_CANDIDATE_BYTES {
        return Err(
            invalid("mkinitfs-boot-deploy compressed archive size is outside the bounded contract"),
        );
    }
    // One byte past the bound shows that a frame decodes beyond it.
    let cap: u64 = 805306369;
    assert(cap == MAX_INSPECTED_ARCHIVE_BYTES + 1);
    let decoded = zstd_decode_frame(candidate, cap);
    accept_decoded_archive(candidate.len(), decoded)
}

// ---------------------------------------------------------------------------
// Image records
// ---------------------------------------------------------------------------

/// The fixed path and hash relations of a boot-deploy image record; its
/// kernel field holds the validated boot file name.
pub open spec fn bd_image_record_valid(r: DracutSystemdImageRecord) -> bool {
    &&& spec_safe_kernel_filename(r.kernel_version@)
    &&& r.active_image@ == ACTIVE_INITRAMFS_PATH@
    &&& r.candidate_image@ == CANDIDATE_INITRAMFS_PATH@
    &&& r.known_good_image@ == KNOWN_GOOD_INITRAMFS_PATH@
    &&& r.grub_script_path@ == KNOWN_GOOD_ENTRY_PATH@
    &&& spec_safe_loader_entry(r.grub_config_path@)
    &&& 0 < r.candidate_bytes <= MAX_CANDIDATE_BYTES
    &&& r.active_digest == r.candidate_digest
}

/// Checks a record's fixed path and hash relations.
pub fn validate_mkinitfs_boot_deploy_openrc_image_record(record: &DracutSystemdImageRecord) -> (r:
    Result<(), InstallError>)
    ensures
        r is Ok <==> bd_image_record_valid(*record),
        r matches Err(e) ==> e is InvalidPlan,
{
    if !safe_kernel_filename(record.kernel_version.as_str()) || !str_eq(
        record.active_image.as_str(),
        ACTIVE_INITRAMFS_PATH,
    ) || !str_eq(record.candidate_image.as_str(), CANDIDATE_INITRAMFS_PATH) || !str_eq(
        record.known_good_image.as_str(),
        KNOWN_GOOD_INITRAMFS_PATH,
    ) || !str_eq(record.grub_script_path.as_str(), KNOWN_GOOD_ENTRY_PATH) || !safe_loader_entry(
        record.grub_config_path.as_str(),
    ) || record.candidate_bytes == 0 || record.candidate_bytes > MAX_CANDIDATE_BYTES
        || record.active_digest != record.candidate_digest {
        return Err(invalid("mkinitfs-boot-deploy image record violates the fixed path/hash contract"));
    }
    Ok(())
}

/// Binds an inspection to the exact compressed candidate before activation.
pub fn verified_mkinitfs_boot_deploy_openrc_image_record(
    contract: &MkinitfsBootDeployOpenRcContract,
    candidate: &[u8],
    inspection: &ArchiveInspection,
    expected_bootart: &[u8],
) -> (r: Result<DracutSystemdImageRecord, InstallError>)
    ensures
        r is Ok <==> bd_contract_valid(*contract) && 0 < candidate@.len() <= MAX_CANDIDATE_BYTES
            && inspection.bootart_digest == spec_sha256(expected_bootart@)
            && inspection.inspected_entries != 0 && 0 < inspection.inspected_bytes
            <= MAX_INSPECTED_ARCHIVE_BYTES,
        r matches Ok(rec) ==> bd_image_record_valid(rec) && rec.kernel_version@
            == contract.kernel_image@.skip(6) && rec.active_image@ == contract.active_image@
            && rec.active_digest == spec_sha256(candidate@) && rec.candidate_image@
            == contract.candidate_image@ && rec.candidate_digest == spec_sha256(candidate@)
            && rec.candidate_bytes == candidate@.len() && rec.known_good_image@
            == contract.known_good_image@ && rec.known_good_digest == contract.known_good_digest
            && rec.grub_script_path@ == contract.known_good_entry_path@ && rec.grub_script_digest
            == spec_sha256(contract.known_good_entry@) && rec.grub_config_path@
            == contract.active_loader_entry@ && rec.bootart_digest == spec_sha256(
            expected_bootart@,
        ),
        r matches Err(e) ==> e is InvalidPlan,
{
    validate_mkinitfs_boot_deploy_openrc_contract(contract)?;
    let expected_digest = sha256(expected_bootart);
    if candidate.len() == 0 || candidate.len() as u64 > MAX_CANDIDATE_BYTES
        || inspection.bootart_digest != expected_digest || inspection.inspected_entries == 0
        || inspection.inspected_bytes == 0 || inspection.inspected_bytes
        > MAX_INSPECTED_ARCHIVE_BYTES {
        return Err(invalid("mkinitfs-boot-deploy candidate inspection is incomplete or inconsistent"));
    }
    proof {
        reveal_strlit("/boot/");
    }
    let kernel_name = match strip_prefix(contract.kernel_image.as_str(), "/boot/") {
        Some(k) => k,
        None => return Err(invalid("mkinitfs-boot-deploy kernel path is unsafe")),
    };
    let digest = sha256(candidate);
    let record = DracutSystemdImageRecord {
        kernel_version: owned(kernel_name),
        active_image: owned(contract.active_image.as_str()),
        active_digest: digest,
        candidate_image: owned(contract.candidate_image.as_str()),
        candidate_digest: digest,
        candidate_bytes: candidate.len() as u64,
        known_good_image: owned(contract.known_good_image.as_str()),
        known_good_digest: contract.known_good_digest,
        grub_script_path: owned(contract.known_good_entry_path.as_str()),
        grub_script_digest: sha256(contract.known_good_entry.as_slice()),
        grub_config_path: owned(contract.active_loader_entry.as_str()),
        bootart_digest: expected_digest,
    };
    validate_mkinitfs_boot_deploy_openrc_image_record(&record)?;
    Ok(record)
}


// ---------------------------------------------------------------------------
// Decompressed candidate inspection
// ---------------------------------------------------------------------------

/// The embedded private resources and their exact contents.
pub open spec fn bd_resource(p: Seq<char>) -> Option<Seq<char>> {
    if p == "usr/libexec/bootart/mkinitfs-boot-deploy-runtime"@ {
        Some(RUNTIME_HOOK@)
    } else if p == "usr/libexec/bootart/mkinitfs-boot-deploy-fde"@ {
        Some(FDE_WRAPPER@)
    } else if p == "usr/libexec/bootart/fde-unlock-stock"@ {
        Some(STOCK_FDE_UNLOCK@)
    } else if p == "usr/libexec/bootart/native-bin/unl0kr"@ {
        Some(NATIVE_UNL0KR@)
    } else if p == "hooks-extra/50-bootart-start.sh"@ {
        Some(START_HOOK@)
    } else if p == "hooks-cleanup/90-bootart-handoff.sh"@ {
        Some(CLEANUP_HOOK@)
    } else {
        None
    }
}

/// The private resource directories.
pub open spec fn bd_resource_directory(p: Seq<char>) -> bool {
    p == "usr/libexec/bootart"@ || p == "usr/libexec/bootart/native-bin"@
}

/// A directory record that is root-owned, empty, and not group/world writable.
pub open spec fn safe_directory_record(mode: u32, uid: u64, size: int) -> bool {
    is_directory_mode(mode) && uid == 0 && size == 0 && mode & 0o22u32 == 0
}

/// One member's path, metadata, and (for resources) contents are acceptable.
pub open spec fn bd_member_ok(p: Seq<char>, mode: u32, uid: u64, data: Seq<u8>) -> bool {
    &&& !(contains(p, "bootart"@) && p != "usr/bin/bootart"@ && bd_resource(p) is None
        && !bd_resource_directory(p))
    &&& p == seq!['.'] ==> safe_directory_record(mode, uid, data.len() as int)
    &&& bd_resource_directory(p) ==> safe_directory_record(mode, uid, data.len() as int)
    &&& p == "usr/bin/bootart"@ ==> is_regular_mode(mode) && uid == 0 && mode & 0o7777u32 == 0o755u32
    &&& p == "init_functions_2nd.sh"@ ==> is_regular_mode(mode) && uid == 0
    &&& bd_resource(p) matches Some(contents) ==> is_regular_mode(mode) && uid == 0 && mode & 0o7777u32
        == 0o755u32 && data == encode_utf8(contents)
}

/// The resource paths, in a fixed order.
pub open spec fn bd_resource_paths() -> Seq<Seq<char>> {
    seq![
        "usr/libexec/bootart/mkinitfs-boot-deploy-runtime"@,
        "usr/libexec/bootart/mkinitfs-boot-deploy-fde"@,
        "usr/libexec/bootart/fde-unlock-stock"@,
        "usr/libexec/bootart/native-bin/unl0kr"@,
        "hooks-extra/50-bootart-start.sh"@,
        "hooks-cleanup/90-bootart-handoff.sh"@,
    ]
}

/// Some member has path `p`.
pub open spec fn bd_has_path(ms: Seq<(Seq<char>, u32, u64, Seq<u8>)>, p: Seq<char>) -> bool {
    exists|i: int| 0 <= i < ms.len() && #[trigger] member_paths(ms, true)[i] == p
}

/// The members of a decompressed candidate satisfy the reviewed inventory.
pub open spec fn bd_members_ok(ms: Seq<(Seq<char>, u32, u64, Seq<u8>)>, expected_bootart: Seq<u8>) -> bool {
    &&& all_paths_ok(ms, true)
    &&& forall|i: int|
        0 <= i < ms.len() ==> bd_member_ok(#[trigger] member_paths(ms, true)[i], ms[i].1, ms[i].2, ms[i].3)
    &&& distinct_seqs(member_paths(ms, true))
    &&& ms.len() <= MAX_ARCHIVE_ENTRIES
    &&& total_data(ms) <= MAX_INSPECTED_ARCHIVE_BYTES
    &&& forall|k: int| 0 <= k < 6 ==> bd_has_path(ms, #[trigger] bd_resource_paths()[k])
    &&& has_member_with(ms, true, "usr/bin/bootart"@, expected_bootart)
    &&& exists|i: int|
        0 <= i < ms.len() && #[trigger] member_paths(ms, true)[i] == "init_functions_2nd.sh"@
            && valid_utf8(ms[i].3) && functions_patchable(decode_utf8(ms[i].3), REVIEWED_INITRAMFS_VERSION@)
}

/// The decompressed candidate is one bounded newc stream with the reviewed
/// inventory.
pub open spec fn bd_archive_ok(c: Seq<u8>, expected_bootart: Seq<u8>) -> bool {
    &&& 0 < c.len() <= MAX_CANDIDATE_BYTES
    &&& newc_members(c) is Some
    &&& bd_members_ok(newc_members(c)->0, expected_bootart)
}

fn bd_resource_exec(p: &str) -> (r: Option<&'static str>)
    ensures
        match bd_resource(p@) {
            None => r is None,
            Some(contents) => r matches Some(t) && t@ == contents,
        },
{
    if str_eq(p, "usr/libexec/bootart/mkinitfs-boot-deploy-runtime") {
        Some(RUNTIME_HOOK)
    } else if str_eq(p, "usr/libexec/bootart/mkinitfs-boot-deploy-fde") {
        Some(FDE_WRAPPER)
    } else if str_eq(p, "usr/libexec/bootart/fde-unlock-stock") {
        Some(STOCK_FDE_UNLOCK)
    } else if str_eq(p, "usr/libexec/bootart/native-bin/unl0kr") {
        Some(NATIVE_UNL0KR)
    } else if str_eq(p, "hooks-extra/50-bootart-start.sh") {
        Some(START_HOOK)
    } else if str_eq(p, "hooks-cleanup/90-bootart-handoff.sh") {
        Some(CLEANUP_HOOK)
    } else {
        None
    }
}


/// The refusal the first broken rule of one member gets, the member's path
/// appended where the rule concerns that path; `None` if it breaks none.
pub open spec fn bd_member_refusal(p: Seq<char>, mode: u32, uid: u64, data: Seq<u8>) -> Option<Seq<char>> {
    if contains(p, "bootart"@) && p != "usr/bin/bootart"@ && bd_resource(p) is None
        && !bd_resource_directory(p) {
        Some("mkinitfs-boot-deploy archive contains a foreign Bootart-named member: "@ + p)
    } else if p == seq!['.'] && !safe_directory_record(mode, uid, data.len() as int) {
        Some("mkinitfs-boot-deploy archive root metadata is unsafe"@)
    } else if bd_resource_directory(p) && !safe_directory_record(mode, uid, data.len() as int) {
        Some("mkinitfs-boot-deploy resource directory metadata is unsafe: "@ + p)
    } else if p == "usr/bin/bootart"@ && !(is_regular_mode(mode) && uid == 0 && mode & 0o7777u32
        == 0o755u32) {
        Some("mkinitfs-boot-deploy Bootart ELF metadata is unsafe"@)
    } else if p == "init_functions_2nd.sh"@ && !(is_regular_mode(mode) && uid == 0) {
        Some("mkinitfs-boot-deploy init functions metadata is unsafe"@)
    } else if bd_resource(p) is Some && !(is_regular_mode(mode) && uid == 0 && mode & 0o7777u32
        == 0o755u32 && data == encode_utf8(bd_resource(p)->0)) {
        Some("mkinitfs-boot-deploy resource differs from embedded bytes: "@ + p)
    } else {
        None
    }
}

/// The members before `k` break no rule and member `k` breaks one.
pub open spec fn bd_first_broken(ms: Seq<(Seq<char>, u32, u64, Seq<u8>)>, k: int) -> bool {
    &&& 0 <= k < ms.len()
    &&& bd_member_refusal(member_paths(ms, true)[k], ms[k].1, ms[k].2, ms[k].3) is Some
    &&& forall|j: int|
        0 <= j < k ==> bd_member_refusal(#[trigger] member_paths(ms, true)[j], ms[j].1, ms[j].2, ms[j].3)
            is None
}

/// The first rule the member breaks, as a refusal reason and whether the
/// path is appended to it; `None` if it breaks none.
fn bd_member_violation(c: &[u8], p: &str, e: &NewcEntry) -> (r: Option<(&'static str, bool)>)
    requires
        e.data_start + e.data_len <= c.len(),
    ensures
        r is None == bd_member_ok(p@, e.mode, e.uid, entry_view(c@, *e).3),
        r is None == (bd_member_refusal(p@, e.mode, e.uid, entry_view(c@, *e).3) is None),
        r matches Some((m, w)) ==> Some(if w {
            m@ + p@
        } else {
            m@
        }) == bd_member_refusal(p@, e.mode, e.uid, entry_view(c@, *e).3),
{
    proof {
        reveal_strlit("bootart");
        reveal_strlit("usr/bin/bootart");
        reveal_strlit("usr/libexec/bootart");
        reveal_strlit("usr/libexec/bootart/native-bin");
        reveal_strlit("init_functions_2nd.sh");
        reveal_strlit(".");
        assert("."@ =~= seq!['.']);
    }
    let mode = e.mode;
    let uid = e.uid;
    let ghost data = entry_view(c@, *e).3;
    assert(data.len() == e.data_len);
    let resource = bd_resource_exec(p);
    let directory = str_eq(p, "usr/libexec/bootart") || str_eq(p, "usr/libexec/bootart/native-bin");
    let is_bootart = str_eq(p, "usr/bin/bootart");
    if str_contains(p, "bootart") && !is_bootart && resource.is_none() && !directory {
        return Some(("mkinitfs-boot-deploy archive contains a foreign Bootart-named member: ", true));
    }
    let safe_dir = mode & 0o170000u32 == 0o040000u32 && uid == 0 && e.data_len == 0 && mode
        & 0o22u32 == 0;
    if str_eq(p, ".") && !safe_dir {
        return Some(("mkinitfs-boot-deploy archive root metadata is unsafe", false));
    }
    if directory && !safe_dir {
        return Some(("mkinitfs-boot-deploy resource directory metadata is unsafe: ", true));
    }
    if is_bootart && !(mode & 0o170000u32 == 0o100000u32 && uid == 0 && mode & 0o7777u32
        == 0o755u32) {
        return Some(("mkinitfs-boot-deploy Bootart ELF metadata is unsafe", false));
    }
    if str_eq(p, "init_functions_2nd.sh") && !(mode & 0o170000u32 == 0o100000u32 && uid == 0) {
        return Some(("mkinitfs-boot-deploy init functions metadata is unsafe", false));
    }
    match resource {
        Some(contents) => {
            let bytes = str_bytes(contents);
            if !(mode & 0o170000u32 == 0o100000u32 && uid == 0 && mode & 0o7777u32 == 0o755u32
                && crate::newc::entry_data_eq(c, e, bytes.as_slice())) {
                return Some(("mkinitfs-boot-deploy resource differs from embedded bytes: ", true));
            }
        },
        None => {},
    }
    None
}

/// Inspects the bounded, already-decompressed candidate newc stream: the
/// stream must be well formed, paths normal and distinct, the archive root
/// and resource directories root-owned and not writable by others, every
/// private resource present with its embedded bytes, no foreign
/// Bootart-named member, the ELF identical to `expected_bootart`, and the
/// archived `init_functions_2nd.sh` inside the reviewed unlock contract.
pub fn inspect_mkinitfs_boot_deploy_openrc_archive(candidate: &[u8], expected_bootart: &[u8]) -> (r:
    Result<ArchiveInspection, InstallError>)
    ensures
        r is Ok <==> bd_archive_ok(candidate@, expected_bootart@),
        r matches Err(e) ==> e is InvalidPlan,
        forall|k: int|
            0 < candidate@.len() <= MAX_CANDIDATE_BYTES && newc_members(candidate@) is Some
                && all_paths_ok(newc_members(candidate@)->0, true) && #[trigger] bd_first_broken(
                newc_members(candidate@)->0,
                k,
            ) ==> (r matches Err(InstallError::InvalidPlan(m)) && Some(m@) == bd_member_refusal(
                member_paths(newc_members(candidate@)->0, true)[k],
                newc_members(candidate@)->0[k].1,
                newc_members(candidate@)->0[k].2,
                newc_members(candidate@)->0[k].3,
            )),
        r matches Ok(i) ==> i.bootart_digest == spec_sha256(expected_bootart@) && i.inspected_entries
            == newc_members(candidate@)->0.len() && i.inspected_bytes == total_data(
            newc_members(candidate@)->0,
        ),
{
    if candidate.len() == 0 || candidate.len() as u64 > MAX_CANDIDATE_BYTES {
        return Err(invalid("mkinitfs-boot-deploy archive size is outside the bounded contract"));
    }
    let entries = match parse_newc(candidate) {
        Some(es) => es,
        None => {
            return Err(invalid("mkinitfs-boot-deploy archive is not one well-formed newc stream"));
        },
    };
    let ghost ms = entries_view(candidate@, entries@);
    let ps = match entry_paths(candidate, &entries, true) {
        Some(ps) => ps,
        None => {
            return Err(invalid("mkinitfs-boot-deploy archive has an unsafe path"));
        },
    };
    let mut i: usize = 0;
    while i < entries.len()
        invariant
            i <= entries.len() == ps.len(),
            ms == entries_view(candidate@, entries@),
            newc_members(candidate@) is Some,
            newc_members(candidate@)->0 == ms,
            entries_in_bounds(candidate@, entries@),
            string_views(ps@) == member_paths(ms, true),
            forall|k: int|
                0 <= k < i ==> bd_member_ok(
                    #[trigger] member_paths(ms, true)[k],
                    ms[k].1,
                    ms[k].2,
                    ms[k].3,
                ),
            forall|k: int|
                0 <= k < i ==> bd_member_refusal(
                    #[trigger] member_paths(ms, true)[k],
                    ms[k].1,
                    ms[k].2,
                    ms[k].3,
                ) is None,
        decreases entries.len() - i,
    {
        proof {
            assert(ms[i as int] == entry_view(candidate@, entries@[i as int]));
            assert(string_views(ps@)[i as int] == ps@[i as int]@);
        }
        if let Some((message, with_path)) = bd_member_violation(candidate, ps[i].as_str(), &entries[i]) {
            let p = ps[i].as_str();
            proof {
                assert(member_paths(ms, true)[i as int] == p@);
                assert(!bd_member_ok(
                    member_paths(ms, true)[i as int],
                    ms[i as int].1,
                    ms[i as int].2,
                    ms[i as int].3,
                ));
            }
            proof {
                assert forall|k: int| #[trigger] bd_first_broken(ms, k) implies k == i by {
                    if k < i {
                    } else if k > i {
                        assert(bd_member_refusal(
                            member_paths(ms, true)[i as int],
                            ms[i as int].1,
                            ms[i as int].2,
                            ms[i as int].3,
                        ) is None);
                    }
                }
            }
            if with_path {
                return Err(InstallError::InvalidPlan(concat2(message, p)));
            }
            return Err(invalid(message));
        }
        i = i + 1;
    }
    assert forall|k: int| !#[trigger] bd_first_broken(ms, k) by {
        if 0 <= k < ms.len() {
            assert(bd_member_refusal(member_paths(ms, true)[k], ms[k].1, ms[k].2, ms[k].3) is None);
        }
    }
    if !strings_distinct(&ps) {
        return Err(invalid("mkinitfs-boot-deploy archive contains duplicate paths"));
    }
    if entries.len() > MAX_ARCHIVE_ENTRIES {
        return Err(invalid("mkinitfs-boot-deploy archive has too many entries"));
    }
    let total = match total_data_within(candidate, &entries, MAX_INSPECTED_ARCHIVE_BYTES) {
        Some(t) => t,
        None => {
            return Err(invalid("mkinitfs-boot-deploy inspected-byte cap exceeded"));
        },
    };
    let resources: [&str; 6] = [
        "usr/libexec/bootart/mkinitfs-boot-deploy-runtime",
        "usr/libexec/bootart/mkinitfs-boot-deploy-fde",
        "usr/libexec/bootart/fde-unlock-stock",
        "usr/libexec/bootart/native-bin/unl0kr",
        "hooks-extra/50-bootart-start.sh",
        "hooks-cleanup/90-bootart-handoff.sh",
    ];
    proof {
        assert(resources@.map_values(|t: &str| t@) =~= bd_resource_paths());
    }
    let mut k: usize = 0;
    while k < 6
        invariant
            k <= 6,
            resources@.map_values(|t: &str| t@) == bd_resource_paths(),
            ps.len() == entries.len(),
            ms == entries_view(candidate@, entries@),
            newc_members(candidate@) is Some,
            newc_members(candidate@)->0 == ms,
            string_views(ps@) == member_paths(ms, true),
            forall|j: int| 0 <= j < k ==> bd_has_path(ms, #[trigger] bd_resource_paths()[j]),
            forall|j: int| !#[trigger] bd_first_broken(ms, j),
        decreases 6 - k,
    {
        let q = resources[k];
        assert(q@ == bd_resource_paths()[k as int]);
        match crate::newc::find_path(&ps, q) {
            Some(j) => {
                assert(string_views(ps@)[j as int] == ps@[j as int]@);
                assert(member_paths(ms, true)[j as int] == q@);
            },
            None => {
                proof {
                    if bd_has_path(ms, q@) {
                        let j = choose|j: int| 0 <= j < ms.len() && #[trigger] member_paths(ms, true)[j] == q@;
                        assert(string_views(ps@)[j] == ps@[j]@);
                    }
                }
                return Err(invalid("mkinitfs-boot-deploy archive lacks an embedded resource"));
            },
        }
        k = k + 1;
    }
    if member_with_data(candidate, &entries, &ps, true, "usr/bin/bootart", expected_bootart).is_none() {
        return Err(invalid("mkinitfs-boot-deploy archive ELF differs from the running ELF"));
    }
    match crate::newc::find_path(&ps, "init_functions_2nd.sh") {
        None => {
            proof {
                if exists|j: int|
                    0 <= j < ms.len() && #[trigger] member_paths(ms, true)[j] == "init_functions_2nd.sh"@
                        && valid_utf8(ms[j].3) && functions_patchable(
                        decode_utf8(ms[j].3),
                        REVIEWED_INITRAMFS_VERSION@,
                    ) {
                    let j = choose|j: int|
                        0 <= j < ms.len() && #[trigger] member_paths(ms, true)[j] == "init_functions_2nd.sh"@
                            && valid_utf8(ms[j].3) && functions_patchable(
                            decode_utf8(ms[j].3),
                            REVIEWED_INITRAMFS_VERSION@,
                        );
                    assert(string_views(ps@)[j] == ps@[j]@);
                }
            }
            return Err(invalid("mkinitfs-boot-deploy archive omits init_functions_2nd.sh"));
        },
        Some(j) => {
            proof {
                assert(string_views(ps@)[j as int] == ps@[j as int]@);
                assert(ms[j as int] == entry_view(candidate@, entries@[j as int]));
            }
            let e = &entries[j];
            let data = crate::archive::slice_bytes(candidate, e.data_start, e.data_start + e.data_len);
            let ok = match utf8_to_str(data.as_slice()) {
                None => false,
                Some(text) => patch_init_functions_2nd(text, REVIEWED_INITRAMFS_VERSION).is_ok(),
            };
            if !ok {
                proof {
                    if exists|m: int|
                        0 <= m < ms.len() && #[trigger] member_paths(ms, true)[m] == "init_functions_2nd.sh"@
                            && valid_utf8(ms[m].3) && functions_patchable(
                            decode_utf8(ms[m].3),
                            REVIEWED_INITRAMFS_VERSION@,
                        ) {
                        let m = choose|m: int|
                            0 <= m < ms.len() && #[trigger] member_paths(ms, true)[m]
                                == "init_functions_2nd.sh"@ && valid_utf8(ms[m].3)
                                && functions_patchable(decode_utf8(ms[m].3), REVIEWED_INITRAMFS_VERSION@);
                        if m < j {
                            assert(member_paths(ms, true)[m] != member_paths(ms, true)[j as int]);
                        } else if m > j {
                            assert(member_paths(ms, true)[j as int] != member_paths(ms, true)[m]);
                        }
                    }
                }
                return Err(invalid("mkinitfs-boot-deploy init functions are outside the reviewed unlock contract"));
            }
        },
    }
    Ok(ArchiveInspection {
        bootart_digest: sha256(expected_bootart),
        inspected_entries: entries.len(),
        inspected_bytes: total,
    })
}

} // verus!
