//! Distribution-neutral mkinitcpio BusyBox + systemd installation contract.
//!
//! The backend binds a running kernel to its `pkgbase` descriptor, validates
//! the active preset and configuration and the fixed tool set, creates a
//! separately named candidate, and inspects an owner-private `lsinitcpio`
//! extraction before activation.  Distribution identity is never consulted.

use crate::archive::{
    archive_bytes, archive_paths_distinct, archive_paths_distinct_exec, archive_total, entry_is,
    entry_is_exec, find_entry, ArchiveEntry, ArchiveEntryKind,
};
use crate::digest::{sha256, spec_sha256, Sha256Digest};
use crate::dracut_systemd::{
    dracut_image_record_valid, facts_match_exactly, facts_match_exactly_exec, grub_inputs_ok,
    grub_inputs_ok_exec, grub_script_text, lemma_active_image_parses,
    lemma_candidate_image_parses, render_grub_script, safe_kernel_version, safe_transaction_id,
    spec_safe_kernel_version, spec_safe_transaction_id, tools_match_exactly,
    tools_match_exactly_exec, transaction_of_dir, transaction_unpack_dir, unpack_dir,
    unpack_dir_exec, validate_dracut_systemd_image_record, ArchiveInspection, CryptsetupLocation,
    DracutImageLayout, DracutSystemdImageRecord, GrubRegeneration, ToolFact, FINDMNT_EXECUTABLE,
    GRUB_BIN_PROBE_EXECUTABLE, GRUB_MKCONFIG_EXECUTABLE, GRUB_SCRIPT_PATH, KNOWN_GOOD_SUFFIX,
    MAX_ARCHIVE_ENTRIES, MAX_CANDIDATE_BYTES, MAX_INSPECTED_ARCHIVE_BYTES, MIN_BOOT_FREE_BYTES,
    MIN_BOOT_FREE_INODES, PRODUCT_ARCHITECTURE, SYSTEMD_EXECUTABLE,
};
use crate::elf::{static_elf_valid, validate_static_elf};
use crate::embedded::{spec_template_resource, template_resource, TemplateId, TemplateMaterialization};
use crate::error::{invalid, InstallError};
use crate::generator::{GeneratorKind, GeneratorRequest};
use crate::initramfs_tools_systemd::{last_segment, last_segment_exec};
use crate::paths::{safe_alternate_root, spec_safe_alternate_root};
use crate::text::{all_in_class, all_chars_in_class, bounded_token, chars_of, concat_all, concat2, concat3, contains, contains_char, distinct_seqs, has_prefix, has_suffix, join_space, join_space_exec, lines, lines_exec, owned, seq_contains_char, seq_has_prefix, seq_has_suffix, slice_range, split_inclusive_nl, split_inclusive_nl_exec, split_ws, split_ws_exec, str_bytes, str_contains, str_eq, str_is_bounded_token, string_from_chars, str_views, strings_equal_strs, strip_prefix, strip_suffix, trim, trim_chars, trim_start, trim_start_index, utf8_to_str, CharClass};
use vstd::prelude::*;
use vstd::string::*;
use vstd::utf8::*;

verus! {

pub const MKINITCPIO_EXECUTABLE: &'static str = "/usr/bin/mkinitcpio";
pub const LSINITCPIO_EXECUTABLE: &'static str = "/usr/bin/lsinitcpio";
pub const MKINITCPIO_CONFIG_PATH: &'static str = "/etc/mkinitcpio.conf";
pub const MAX_CONFIG_BYTES: usize = 65536;

// ---------------------------------------------------------------------------
// HOOKS activation
// ---------------------------------------------------------------------------

/// A line whose trimmed text assigns `HOOKS`.
pub open spec fn is_hooks_line(l: Seq<char>) -> bool {
    has_prefix(trim(l), "HOOKS="@)
}

/// Line `i` is the one `HOOKS` assignment of `ls`.
pub open spec fn hooks_line_at(ls: Seq<Seq<char>>, i: int) -> bool {
    &&& 0 <= i < ls.len()
    &&& is_hooks_line(ls[i])
    &&& forall|j: int| 0 <= j < ls.len() && j != i ==> !is_hooks_line(#[trigger] ls[j])
}

/// The array body of `HOOKS=(...)`.
pub open spec fn hooks_body(line: Seq<char>) -> Option<Seq<char>> {
    let t = trim(line);
    if has_prefix(t, "HOOKS=("@) && has_suffix(t.skip(7), ")"@) {
        Some(t.skip(7).drop_last())
    } else {
        None
    }
}

/// The first index of `name` in `hs`, or -1.
pub open spec fn first_index(hs: Seq<Seq<char>>, name: Seq<char>) -> int
    decreases hs.len(),
{
    if hs.len() == 0 {
        -1
    } else if first_index(hs.drop_last(), name) >= 0 {
        first_index(hs.drop_last(), name)
    } else if hs.last() == name {
        hs.len() - 1
    } else {
        -1
    }
}

/// Nonempty, safe, distinct tokens of the BusyBox `encrypt` mechanism.
pub open spec fn hooks_safe(hs: Seq<Seq<char>>) -> bool {
    &&& hs.len() > 0
    &&& forall|i: int|
        0 <= i < hs.len() ==> (#[trigger] hs[i]).len() <= 64 && all_in_class(
            hs[i],
            CharClass::HookToken,
        )
    &&& distinct_seqs(hs)
    &&& first_index(hs, "systemd"@) < 0
    &&& first_index(hs, "sd-encrypt"@) < 0
}

/// `base`, `udev`, `block`, `encrypt`, `filesystems`, `fsck` in this order.
pub open spec fn hooks_ordered(hs: Seq<Seq<char>>) -> bool {
    &&& 0 <= first_index(hs, "base"@)
    &&& first_index(hs, "base"@) < first_index(hs, "udev"@)
    &&& first_index(hs, "udev"@) < first_index(hs, "block"@)
    &&& first_index(hs, "block"@) < first_index(hs, "encrypt"@)
    &&& first_index(hs, "encrypt"@) < first_index(hs, "filesystems"@)
    &&& first_index(hs, "filesystems"@) < first_index(hs, "fsck"@)
}

/// `bootart` is absent or directly after `encrypt`.
pub open spec fn bootart_placement_ok(hs: Seq<Seq<char>>) -> bool {
    first_index(hs, "bootart"@) < 0 || first_index(hs, "bootart"@) == first_index(
        hs,
        "encrypt"@,
    ) + 1
}

/// A nonempty configuration of at most 64 KiB without NUL.
pub open spec fn config_source_ok(s: Seq<char>) -> bool {
    s.len() > 0 && encode_utf8(s).len() <= MAX_CONFIG_BYTES && !contains_char(s, '\0')
}

/// The index of the single `HOOKS` line.
pub open spec fn hooks_line_index(s: Seq<char>) -> int {
    choose|i: int| hooks_line_at(lines(s), i)
}

/// The hooks of the single `HOOKS` line.
pub open spec fn config_hooks(s: Seq<char>) -> Seq<Seq<char>> {
    split_ws(hooks_body(lines(s)[hooks_line_index(s)])->0, false)
}

/// The configurations `activate_mkinitcpio_hooks` accepts.
pub open spec fn hooks_config_ok(s: Seq<char>) -> bool {
    &&& config_source_ok(s)
    &&& exists|i: int| hooks_line_at(lines(s), i)
    &&& hooks_body(lines(s)[hooks_line_index(s)]) is Some
    &&& hooks_safe(config_hooks(s))
    &&& hooks_ordered(config_hooks(s))
    &&& bootart_placement_ok(config_hooks(s))
}

/// The leading whitespace of `piece`.
pub open spec fn indent(piece: Seq<char>) -> Seq<char> {
    piece.take(piece.len() - trim_start(piece).len())
}

/// The rewritten `HOOKS` line with `bootart` right after `encrypt`.
pub open spec fn activated_hooks_line(piece: Seq<char>, hs: Seq<Seq<char>>) -> Seq<char> {
    indent(piece) + "HOOKS=("@ + join_space(
        hs.insert(first_index(hs, "encrypt"@) + 1, "bootart"@),
    ) + ")"@ + if piece.len() > 0 && piece.last() == '\n' {
        seq!['\n']
    } else {
        Seq::<char>::empty()
    }
}

/// The configuration with the `HOOKS` line rewritten and every other line
/// kept byte for byte.
pub open spec fn spec_activated_config(s: Seq<char>) -> Seq<char> {
    let pieces = split_inclusive_nl(s);
    let i = hooks_line_index(s);
    concat_all(pieces.update(i, activated_hooks_line(pieces[i], config_hooks(s))))
}

fn first_index_exec(hs: &Vec<Vec<char>>, name: &str) -> (r: Option<usize>)
    ensures
        r matches Some(i) ==> i == first_index(hs@.map_values(|h: Vec<char>| h@), name@),
        r is None ==> first_index(hs@.map_values(|h: Vec<char>| h@), name@) < 0,
{
    let ghost views = hs@.map_values(|h: Vec<char>| h@);
    let n = chars_of(name);
    let mut i: usize = 0;
    while i < hs.len()
        invariant
            i <= hs@.len(),
            views == hs@.map_values(|h: Vec<char>| h@),
            n@ == name@,
            first_index(views.take(i as int), name@) < 0,
        decreases hs.len() - i,
    {
        assert(views.take(i + 1).drop_last() =~= views.take(i as int));
        if chars_eq(hs[i].as_slice(), n.as_slice()) {
            assert(views.take(i + 1).last() == name@);
            proof {
                lemma_first_index_prefix(views, name@, i as int + 1);
            }
            return Some(i);
        }
        i = i + 1;
    }
    assert(views.take(i as int) =~= views);
    None
}

/// The first index found in a prefix is the first index of the whole.
pub proof fn lemma_first_index_prefix(hs: Seq<Seq<char>>, name: Seq<char>, n: int)
    requires
        0 <= n <= hs.len(),
        first_index(hs.take(n), name) >= 0,
    ensures
        first_index(hs, name) == first_index(hs.take(n), name),
    decreases hs.len() - n,
{
    if n < hs.len() {
        assert(hs.take(n + 1).drop_last() =~= hs.take(n));
        lemma_first_index_prefix(hs, name, n + 1);
    } else {
        assert(hs.take(n) =~= hs);
    }
}

/// The first index lies in range and names `name`.
pub proof fn lemma_first_index_found(hs: Seq<Seq<char>>, name: Seq<char>)
    ensures
        first_index(hs, name) < hs.len(),
        first_index(hs, name) >= 0 ==> hs[first_index(hs, name)] == name,
        first_index(hs, name) < 0 ==> forall|i: int| 0 <= i < hs.len() ==> hs[i] != name,
        first_index(hs, name) >= 0 ==> forall|i: int|
            0 <= i < first_index(hs, name) ==> hs[i] != name,
    decreases hs.len(),
{
    if hs.len() > 0 {
        let d = hs.drop_last();
        lemma_first_index_found(d, name);
        assert forall|i: int| 0 <= i < hs.len() && i != hs.len() - 1 implies hs[i] == d[i] by {}
    }
}

/// Character-wise equality.
pub fn chars_eq_pub(a: &[char], b: &[char]) -> (r: bool)
    ensures
        r == (a@ == b@),
{
    chars_eq(a, b)
}

fn chars_eq(a: &[char], b: &[char]) -> (r: bool)
    ensures
        r == (a@ == b@),
{
    if a.len() != b.len() {
        return false;
    }
    let mut i: usize = 0;
    while i < a.len()
        invariant
            a.len() == b.len(),
            i <= a.len(),
            forall|j: int| 0 <= j < i ==> a@[j] == b@[j],
        decreases a.len() - i,
    {
        if a[i] != b[i] {
            return false;
        }
        i = i + 1;
    }
    assert(a@ =~= b@);
    true
}

fn hooks_distinct(hs: &Vec<Vec<char>>) -> (r: bool)
    ensures
        r == distinct_seqs(hs@.map_values(|h: Vec<char>| h@)),
{
    let ghost views = hs@.map_values(|h: Vec<char>| h@);
    let mut i: usize = 0;
    while i < hs.len()
        invariant
            i <= hs@.len(),
            views == hs@.map_values(|h: Vec<char>| h@),
            forall|a: int, b: int| 0 <= a < b < hs@.len() && a < i ==> views[a] != views[b],
        decreases hs.len() - i,
    {
        let mut j: usize = i + 1;
        while j < hs.len()
            invariant
                i < hs@.len(),
                i + 1 <= j <= hs@.len(),
                views == hs@.map_values(|h: Vec<char>| h@),
                forall|a: int, b: int| 0 <= a < b < hs@.len() && a < i ==> views[a] != views[b],
                forall|b: int| i < b < j ==> views[i as int] != views[b],
            decreases hs.len() - j,
        {
            if chars_eq(hs[i].as_slice(), hs[j].as_slice()) {
                assert(views[i as int] == views[j as int]);
                return false;
            }
            j = j + 1;
        }
        i = i + 1;
    }
    true
}

fn hooks_tokens_safe(hs: &Vec<Vec<char>>) -> (r: bool)
    ensures
        r == forall|i: int|
            0 <= i < hs@.len() ==> (#[trigger] hs@[i])@.len() <= 64 && all_in_class(
                hs@[i]@,
                CharClass::HookToken,
            ),
{
    let mut i: usize = 0;
    while i < hs.len()
        invariant
            i <= hs@.len(),
            forall|j: int|
                0 <= j < i ==> (#[trigger] hs@[j])@.len() <= 64 && all_in_class(
                    hs@[j]@,
                    CharClass::HookToken,
                ),
        decreases hs.len() - i,
    {
        if hs[i].len() > 64 || !all_chars_in_class(hs[i].as_slice(), CharClass::HookToken) {
            return false;
        }
        i = i + 1;
    }
    true
}

/// Activates the `bootart` hook in a mkinitcpio configuration: parses the
/// one conservative Bash-array spelling and inserts `bootart` directly after
/// `encrypt`.  Unknown quoting, duplicate hooks, systemd-initramfs hooks and
/// unsafe tokens are refused.  Returns the new text and whether the hook was
/// already active (then the text is unchanged).
pub fn activate_mkinitcpio_hooks(source: &str) -> (r: Result<(String, bool), InstallError>)
    ensures
        r is Ok <==> hooks_config_ok(source@),
        r matches Ok((out, already)) ==> already == (first_index(
            config_hooks(source@),
            "bootart"@,
        ) >= 0) && out@ == if already {
            source@
        } else {
            spec_activated_config(source@)
        },
        r matches Err(e) ==> e is InvalidPlan,
{
    let s = chars_of(source);
    if s.len() == 0 || source.as_bytes().len() > MAX_CONFIG_BYTES || seq_contains_char(
        s.as_slice(),
        '\0',
    ) {
        return Err(invalid("mkinitcpio configuration is empty or oversized"));
    }
    let ls = lines_exec(s.as_slice());
    let prefix = chars_of("HOOKS=");
    let mut found: Option<usize> = None;
    let mut k: usize = 0;
    while k < ls.len()
        invariant
            k <= ls@.len(),
            ls@.len() == lines(source@).len(),
            forall|m: int| 0 <= m < ls@.len() ==> #[trigger] ls@[m]@ == lines(source@)[m],
            prefix@ == "HOOKS="@,
            found matches Some(f) ==> f < k && is_hooks_line(lines(source@)[f as int]) && forall|
                m: int,
            | 0 <= m < k && m != f ==> !is_hooks_line(#[trigger] lines(source@)[m]),
            found is None ==> forall|m: int| 0 <= m < k ==> !is_hooks_line(#[trigger] lines(source@)[m]),
        decreases ls.len() - k,
    {
        let t = trim_chars(ls[k].as_slice());
        if seq_has_prefix(t.as_slice(), prefix.as_slice()) {
            if found.is_some() {
                assert(is_hooks_line(lines(source@)[k as int]));
                proof {
                    let f = found->0;
                    assert forall|i: int| !hooks_line_at(lines(source@), i) by {
                        if hooks_line_at(lines(source@), i) {
                            if i == f as int {
                                assert(!is_hooks_line(lines(source@)[k as int]));
                            } else {
                                assert(!is_hooks_line(lines(source@)[f as int]));
                            }
                        }
                    }
                }
                return Err(invalid("mkinitcpio configuration has multiple HOOKS assignments"));
            }
            found = Some(k);
        }
        k = k + 1;
    }
    let line_index = match found {
        Some(f) => f,
        None => {
            assert forall|i: int| !hooks_line_at(lines(source@), i) by {
                if hooks_line_at(lines(source@), i) {
                    assert(!is_hooks_line(lines(source@)[i]));
                }
            }
            return Err(invalid("mkinitcpio configuration has no HOOKS assignment"));
        },
    };
    assert(hooks_line_at(lines(source@), line_index as int));
    assert forall|i: int| hooks_line_at(lines(source@), i) implies i == line_index by {}
    assert(hooks_line_index(source@) == line_index);
    let t = trim_chars(ls[line_index].as_slice());
    let open = chars_of("HOOKS=(");
    let close = chars_of(")");
    proof {
        reveal_strlit("HOOKS=(");
        reveal_strlit(")");
    }
    if !seq_has_prefix(t.as_slice(), open.as_slice()) {
        return Err(invalid("mkinitcpio HOOKS uses an unsupported array spelling"));
    }
    let after = slice_range(t.as_slice(), 7, t.len());
    assert(after@ =~= t@.skip(7));
    if !seq_has_suffix(after.as_slice(), close.as_slice()) {
        return Err(invalid("mkinitcpio HOOKS uses an unsupported array spelling"));
    }
    let body = slice_range(after.as_slice(), 0, after.len() - 1);
    assert(body@ =~= after@.drop_last());
    let hooks = split_ws_exec(body.as_slice(), false);
    let ghost views = hooks@.map_values(|h: Vec<char>| h@);
    assert(views =~= config_hooks(source@));
    if hooks.len() == 0 || !hooks_tokens_safe(&hooks) {
        return Err(invalid("mkinitcpio HOOKS contains an unsafe token"));
    }
    if !hooks_distinct(&hooks) {
        return Err(invalid("mkinitcpio HOOKS contains a duplicate hook"));
    }
    if first_index_exec(&hooks, "systemd").is_some() || first_index_exec(&hooks, "sd-encrypt").is_some() {
        return Err(invalid("mkinitcpio HOOKS is not the BusyBox encrypt mechanism"));
    }
    let base = first_index_exec(&hooks, "base");
    let udev = first_index_exec(&hooks, "udev");
    let block = first_index_exec(&hooks, "block");
    let encrypt = first_index_exec(&hooks, "encrypt");
    let filesystems = first_index_exec(&hooks, "filesystems");
    let fsck = first_index_exec(&hooks, "fsck");
    let (b, u, bl, e, f, fs) = match (base, udev, block, encrypt, filesystems, fsck) {
        (Some(b), Some(u), Some(bl), Some(e), Some(f), Some(fs)) => (b, u, bl, e, f, fs),
        _ => return Err(invalid("mkinitcpio HOOKS lacks the reviewed boot/encrypt sequence")),
    };
    if !(b < u && u < bl && bl < e && e < f && f < fs) {
        return Err(invalid("mkinitcpio HOOKS ordering differs from the reviewed contract"));
    }
    let already_active = match first_index_exec(&hooks, "bootart") {
        Some(index) => {
            if index == e + 1 {
                true
            } else {
                return Err(invalid("mkinitcpio bootart hook is in an unsafe position"));
            }
        },
        None => false,
    };
    if already_active {
        return Ok((owned(source), true));
    }
    proof {
        lemma_first_index_found(views, "encrypt"@);
    }
    let mut activated: Vec<Vec<char>> = Vec::new();
    let mut m: usize = 0;
    while m < hooks.len()
        invariant
            m <= hooks@.len(),
            e < hooks@.len(),
            activated@.len() == if m <= e { m as int } else { m + 1 },
            forall|j: int|
                0 <= j < activated@.len() ==> #[trigger] activated@[j]@ == views.insert(
                    e + 1,
                    "bootart"@,
                )[j],
            views == hooks@.map_values(|h: Vec<char>| h@),
        decreases hooks.len() - m,
    {
        activated.push(hooks[m].clone());
        assert(activated@[activated@.len() - 1]@ == views[m as int]);
        if m == e {
            activated.push(chars_of("bootart"));
        }
        m = m + 1;
    }
    let ghost new_hooks = views.insert(e + 1, "bootart"@);
    assert(activated@.map_values(|h: Vec<char>| h@) =~= new_hooks);
    let joined = join_space_exec(&activated);
    let pieces = split_inclusive_nl_exec(s.as_slice());
    let mut out: Vec<char> = Vec::new();
    let ghost spieces = split_inclusive_nl(source@);
    let ghost new_line = activated_hooks_line(spieces[line_index as int], views);
    assert(split_inclusive_nl(source@).len() == lines(source@).len());
    let mut j: usize = 0;
    while j < pieces.len()
        invariant
            j <= pieces@.len(),
            pieces@.len() == spieces.len(),
            spieces == split_inclusive_nl(source@),
            forall|q: int| 0 <= q < pieces@.len() ==> #[trigger] pieces@[q]@ == spieces[q],
            line_index < pieces@.len(),
            e < views.len(),
            joined@ == join_space(new_hooks),
            new_hooks == views.insert(e + 1, "bootart"@),
            new_line == activated_hooks_line(spieces[line_index as int], views),
            e == first_index(views, "encrypt"@),
            out@ == concat_all(spieces.update(line_index as int, new_line).take(j as int)),
        decreases pieces.len() - j,
    {
        let piece = &pieces[j];
        let ghost before = out@;
        if j == line_index {
            let a = trim_start_index(piece.as_slice());
            let ind = slice_range(piece.as_slice(), 0, a);
            append_chars(&mut out, ind.as_slice());
            let hdr = chars_of("HOOKS=(");
            append_chars(&mut out, hdr.as_slice());
            append_chars(&mut out, joined.as_slice());
            out.push(')');
            if piece.len() > 0 && piece[piece.len() - 1] == '\n' {
                out.push('\n');
            }
            proof {
                reveal_strlit("HOOKS=(");
                reveal_strlit(")");
                assert(indent(piece@) =~= piece@.take(a as int));
                assert(piece@ == spieces[line_index as int]);
                assert(hdr@ == "HOOKS=("@);
                assert(out@ =~= before + new_line);
            }
        } else {
            append_chars(&mut out, piece.as_slice());
        }
        proof {
            let upd = spieces.update(line_index as int, new_line);
            assert(upd.take(j + 1).drop_last() =~= upd.take(j as int));
            assert(upd[j as int] == if j == line_index { new_line } else { spieces[j as int] });
        }
        j = j + 1;
    }
    assert(spieces.update(line_index as int, new_line).take(j as int) =~= spieces.update(
        line_index as int,
        new_line,
    ));
    Ok((string_from_chars(out.as_slice()), false))
}

/// Appends `src` to `out`.
pub fn append_chars(out: &mut Vec<char>, src: &[char])
    ensures
        final(out)@ == old(out)@ + src@,
{
    let ghost start = out@;
    let mut i: usize = 0;
    while i < src.len()
        invariant
            i <= src@.len(),
            out@ == start + src@.take(i as int),
        decreases src.len() - i,
    {
        out.push(src[i]);
        i = i + 1;
        assert(out@ =~= start + src@.take(i as int));
    }
    assert(src@.take(i as int) =~= src@);
}


// ---------------------------------------------------------------------------
// Preset validation
// ---------------------------------------------------------------------------

/// How many lines of `ls` trim to one of `opts`.
pub open spec fn count_trimmed_among(ls: Seq<Seq<char>>, opts: Seq<Seq<char>>) -> nat
    decreases ls.len(),
{
    if ls.len() == 0 {
        0
    } else {
        count_trimmed_among(ls.drop_last(), opts) + if opts.contains(trim(ls.last())) {
            1nat
        } else {
            0nat
        }
    }
}

pub open spec fn kernel_assignments(pkg: Seq<char>) -> Seq<Seq<char>> {
    seq![
        "ALL_kver='/boot/vmlinuz-"@ + pkg + "'"@,
        "ALL_kver=\"/boot/vmlinuz-"@ + pkg + "\""@,
    ]
}

pub open spec fn image_assignments(pkg: Seq<char>) -> Seq<Seq<char>> {
    seq![
        "default_image='/boot/initramfs-"@ + pkg + ".img'"@,
        "default_image=\"/boot/initramfs-"@ + pkg + ".img\""@,
    ]
}

pub open spec fn preset_arrays() -> Seq<Seq<char>> {
    seq![
        "PRESETS=('default')"@,
        "PRESETS=(\"default\")"@,
        "PRESETS=('default' 'fallback')"@,
        "PRESETS=(\"default\" \"fallback\")"@,
    ]
}

/// A preset that names the package's kernel and image once each and has one
/// reviewed default preset array.
pub open spec fn preset_ok(src: Seq<char>, pkg: Seq<char>) -> bool {
    &&& config_source_ok(src)
    &&& count_trimmed_among(lines(src), kernel_assignments(pkg)) == 1
    &&& count_trimmed_among(lines(src), image_assignments(pkg)) == 1
    &&& count_trimmed_among(lines(src), preset_arrays()) == 1
}

proof fn lemma_count_trimmed_zero(ls: Seq<Seq<char>>, opts: Seq<Seq<char>>)
    requires
        count_trimmed_among(ls, opts) == 0,
    ensures
        forall|j: int| 0 <= j < ls.len() ==> !opts.contains(trim(#[trigger] ls[j])),
    decreases ls.len(),
{
    if ls.len() > 0 {
        lemma_count_trimmed_zero(ls.drop_last(), opts);
        assert forall|j: int| 0 <= j < ls.len() implies !opts.contains(trim(#[trigger] ls[j])) by {
            if j < ls.len() - 1 {
                assert(ls[j] == ls.drop_last()[j]);
            }
        }
    }
}

/// Counted once: exactly one line, trimmed, is among `opts`.
proof fn lemma_count_trimmed_one(ls: Seq<Seq<char>>, opts: Seq<Seq<char>>)
    requires
        count_trimmed_among(ls, opts) == 1,
    ensures
        exists|i: int|
            0 <= i < ls.len() && opts.contains(trim(#[trigger] ls[i])) && forall|j: int|
                0 <= j < ls.len() && opts.contains(trim(#[trigger] ls[j])) ==> j == i,
    decreases ls.len(),
{
    let d = ls.drop_last();
    if opts.contains(trim(ls.last())) {
        lemma_count_trimmed_zero(d, opts);
        let i = ls.len() - 1;
        assert forall|j: int| 0 <= j < ls.len() && opts.contains(trim(#[trigger] ls[j])) implies j == i by {
            if j < i {
                assert(ls[j] == d[j]);
            }
        }
        assert(opts.contains(trim(ls[i])));
    } else {
        lemma_count_trimmed_one(d, opts);
        let i = choose|i: int|
            0 <= i < d.len() && opts.contains(trim(#[trigger] d[i])) && forall|j: int|
                0 <= j < d.len() && opts.contains(trim(#[trigger] d[j])) ==> j == i;
        assert(ls[i] == d[i]);
        assert forall|j: int| 0 <= j < ls.len() && opts.contains(trim(#[trigger] ls[j])) implies j == i by {
            if j < ls.len() - 1 {
                assert(ls[j] == d[j]);
            }
        }
    }
}

/// The preset line that names the default image of `pkg`, in either
/// quoting.
pub open spec fn default_image_line(l: Seq<char>, pkg: Seq<char>) -> bool {
    l == "default_image='/boot/initramfs-"@ + pkg + ".img'"@ || l == "default_image=\"/boot/initramfs-"@
        + pkg + ".img\""@
}

/// The preset line that names the kernel of `pkg`, in either quoting.
pub open spec fn kernel_line(l: Seq<char>, pkg: Seq<char>) -> bool {
    l == "ALL_kver='/boot/vmlinuz-"@ + pkg + "'"@ || l == "ALL_kver=\"/boot/vmlinuz-"@ + pkg + "\""@
}

/// The preset line that declares the `default` preset, alone or with
/// `fallback`, in either quoting.
pub open spec fn presets_line(l: Seq<char>) -> bool {
    l == "PRESETS=('default')"@ || l == "PRESETS=(\"default\")"@ || l == "PRESETS=('default' 'fallback')"@
        || l == "PRESETS=(\"default\" \"fallback\")"@
}

/// An accepted preset has exactly one line that, trimmed, sets the default
/// image to `/boot/initramfs-<pkg>.img`, exactly one that sets the kernel
/// to `/boot/vmlinuz-<pkg>`, and exactly one that declares the presets.
pub proof fn lemma_accepted_preset_names_the_image_once(src: Seq<char>, pkg: Seq<char>)
    requires
        preset_ok(src, pkg),
    ensures
        exists|i: int|
            0 <= i < lines(src).len() && default_image_line(trim(#[trigger] lines(src)[i]), pkg)
                && forall|j: int|
                0 <= j < lines(src).len() && default_image_line(trim(#[trigger] lines(src)[j]), pkg)
                    ==> j == i,
        exists|i: int|
            0 <= i < lines(src).len() && kernel_line(trim(#[trigger] lines(src)[i]), pkg) && forall|j: int|
                0 <= j < lines(src).len() && kernel_line(trim(#[trigger] lines(src)[j]), pkg) ==> j == i,
        exists|i: int|
            0 <= i < lines(src).len() && presets_line(trim(#[trigger] lines(src)[i])) && forall|j: int|
                0 <= j < lines(src).len() && presets_line(trim(#[trigger] lines(src)[j])) ==> j == i,
{
    let ls = lines(src);
    let im = image_assignments(pkg);
    let km = kernel_assignments(pkg);
    assert forall|l: Seq<char>| im.contains(l) <==> default_image_line(l, pkg) by {
        if default_image_line(l, pkg) {
            if l == im[0] {
                assert(im.contains(l));
            } else {
                assert(l == im[1]);
                assert(im.contains(l));
            }
        }
    }
    assert forall|l: Seq<char>| km.contains(l) <==> kernel_line(l, pkg) by {
        if kernel_line(l, pkg) {
            if l == km[0] {
                assert(km.contains(l));
            } else {
                assert(l == km[1]);
                assert(km.contains(l));
            }
        }
    }
    let pm = preset_arrays();
    assert forall|l: Seq<char>| pm.contains(l) <==> presets_line(l) by {
        if presets_line(l) {
            if l == pm[0] {
                assert(pm.contains(l));
            } else if l == pm[1] {
                assert(pm.contains(l));
            } else if l == pm[2] {
                assert(pm.contains(l));
            } else {
                assert(l == pm[3]);
                assert(pm.contains(l));
            }
        }
    }
    lemma_count_trimmed_one(ls, im);
    lemma_count_trimmed_one(ls, km);
    lemma_count_trimmed_one(ls, pm);
}

fn count_trimmed_among_exec(ls: &Vec<Vec<char>>, opts: &Vec<Vec<char>>) -> (r: usize)
    ensures
        r == count_trimmed_among(
            ls@.map_values(|l: Vec<char>| l@),
            opts@.map_values(|o: Vec<char>| o@),
        ),
{
    let ghost lv = ls@.map_values(|l: Vec<char>| l@);
    let ghost ov = opts@.map_values(|o: Vec<char>| o@);
    let mut n: usize = 0;
    let mut i: usize = 0;
    while i < ls.len()
        invariant
            i <= ls@.len(),
            lv == ls@.map_values(|l: Vec<char>| l@),
            ov == opts@.map_values(|o: Vec<char>| o@),
            n == count_trimmed_among(lv.take(i as int), ov),
            n <= i,
        decreases ls.len() - i,
    {
        assert(lv.take(i + 1).drop_last() =~= lv.take(i as int));
        let t = trim_chars(ls[i].as_slice());
        let mut hit = false;
        let mut j: usize = 0;
        while j < opts.len()
            invariant
                j <= opts@.len(),
                ov == opts@.map_values(|o: Vec<char>| o@),
                hit == exists|q: int| 0 <= q < j && ov[q] == t@,
            decreases opts.len() - j,
        {
            assert(ov[j as int] == opts@[j as int]@);
            if chars_eq(t.as_slice(), opts[j].as_slice()) {
                hit = true;
            }
            j = j + 1;
        }
        assert(hit == ov.contains(t@));
        if hit {
            n = n + 1;
        }
        i = i + 1;
    }
    assert(lv.take(i as int) =~= lv);
    n
}

pub fn validate_preset(source: &str, package_base: &str) -> (r: Result<(), InstallError>)
    ensures
        r is Ok <==> preset_ok(source@, package_base@),
        r matches Err(e) ==> e is InvalidPlan,
{
    let s = chars_of(source);
    if s.len() == 0 || source.as_bytes().len() > MAX_CONFIG_BYTES || seq_contains_char(
        s.as_slice(),
        '\0',
    ) {
        return Err(invalid("mkinitcpio preset is empty or oversized"));
    }
    let ls = lines_exec(s.as_slice());
    assert(ls@.map_values(|l: Vec<char>| l@) =~= lines(source@));
    let kernels = vec![
        chars_of(concat3("ALL_kver='/boot/vmlinuz-", package_base, "'").as_str()),
        chars_of(concat3("ALL_kver=\"/boot/vmlinuz-", package_base, "\"").as_str()),
    ];
    assert(kernels@.map_values(|o: Vec<char>| o@) =~= kernel_assignments(package_base@));
    let images = vec![
        chars_of(concat3("default_image='/boot/initramfs-", package_base, ".img'").as_str()),
        chars_of(concat3("default_image=\"/boot/initramfs-", package_base, ".img\"").as_str()),
    ];
    assert(images@.map_values(|o: Vec<char>| o@) =~= image_assignments(package_base@));
    let presets = vec![
        chars_of("PRESETS=('default')"),
        chars_of("PRESETS=(\"default\")"),
        chars_of("PRESETS=('default' 'fallback')"),
        chars_of("PRESETS=(\"default\" \"fallback\")"),
    ];
    assert(presets@.map_values(|o: Vec<char>| o@) =~= preset_arrays());
    if count_trimmed_among_exec(&ls, &kernels) != 1 {
        return Err(invalid("mkinitcpio preset lacks one exact kernel assignment"));
    }
    if count_trimmed_among_exec(&ls, &images) != 1 {
        return Err(invalid("mkinitcpio preset lacks one exact image assignment"));
    }
    if count_trimmed_among_exec(&ls, &presets) != 1 {
        return Err(invalid("mkinitcpio preset must contain one reviewed default preset array"));
    }
    Ok(())
}


// ---------------------------------------------------------------------------
// Facts, paths and requests
// ---------------------------------------------------------------------------

pub open spec fn spec_mkinitcpio_systemd_required_tools(cryptsetup: CryptsetupLocation) -> Seq<
    &'static str,
> {
    seq![
        MKINITCPIO_EXECUTABLE,
        LSINITCPIO_EXECUTABLE,
        FINDMNT_EXECUTABLE,
        SYSTEMD_EXECUTABLE,
        GRUB_MKCONFIG_EXECUTABLE,
        GRUB_BIN_PROBE_EXECUTABLE,
        cryptsetup.spec_executable(),
    ]
}

/// The exact tool set of the mkinitcpio mechanism.
pub fn mkinitcpio_systemd_required_tools(cryptsetup: CryptsetupLocation) -> (r: Vec<&'static str>)
    ensures
        r@ == spec_mkinitcpio_systemd_required_tools(cryptsetup),
{
    let r = vec![
        MKINITCPIO_EXECUTABLE,
        LSINITCPIO_EXECUTABLE,
        FINDMNT_EXECUTABLE,
        SYSTEMD_EXECUTABLE,
        GRUB_MKCONFIG_EXECUTABLE,
        GRUB_BIN_PROBE_EXECUTABLE,
        cryptsetup.executable(),
    ];
    assert(r@ =~= spec_mkinitcpio_systemd_required_tools(cryptsetup));
    r
}

/// The mkinitcpio runtime files and their reviewed executability.
pub open spec fn mkinitcpio_contract_file_paths() -> Seq<Seq<char>> {
    seq![
        "/usr/lib/initcpio/functions"@,
        "/usr/lib/initcpio/init"@,
        "/usr/lib/initcpio/hooks/encrypt"@,
        "/usr/lib/initcpio/install/encrypt"@,
    ]
}

pub open spec fn mkinitcpio_contract_file_modes() -> Seq<bool> {
    seq![true, false, false, false]
}

/// A descriptor-derived file fact with its reviewed executability.
#[derive(Debug, Clone, PartialEq, Eq)]
pub struct MkinitcpioPathFact {
    pub path: String,
    pub root_owned: bool,
    pub regular: bool,
    pub symlink: bool,
    pub executable: bool,
}

impl MkinitcpioPathFact {
    /// A safe root-owned regular file at `path`.
    pub fn exact(path: &str, executable: bool) -> (r: Self)
        ensures
            r.path@ == path@,
            r.root_owned && r.regular && !r.symlink && r.executable == executable,
    {
        MkinitcpioPathFact {
            path: owned(path),
            root_owned: true,
            regular: true,
            symlink: false,
            executable,
        }
    }
}

pub open spec fn mk_tool_facts(s: Seq<MkinitcpioPathFact>) -> Seq<ToolFact> {
    s.map_values(
        |f: MkinitcpioPathFact|
            ToolFact {
                path: f.path,
                root_owned: f.root_owned,
                regular: f.regular,
                symlink: f.symlink,
                executable: f.executable,
            },
    )
}

fn mk_path_facts_as_tools(s: &Vec<MkinitcpioPathFact>) -> (r: Vec<ToolFact>)
    ensures
        r@ == mk_tool_facts(s@),
{
    let mut r: Vec<ToolFact> = Vec::new();
    let mut i: usize = 0;
    while i < s.len()
        invariant
            i <= s@.len(),
            r@ =~= mk_tool_facts(s@).take(i as int),
        decreases s.len() - i,
    {
        let f = &s[i];
        r.push(
            ToolFact {
                path: f.path.clone(),
                root_owned: f.root_owned,
                regular: f.regular,
                symlink: f.symlink,
                executable: f.executable,
            },
        );
        i = i + 1;
    }
    r
}

#[derive(Debug, Clone, PartialEq, Eq)]
pub struct MkinitcpioSystemdFacts {
    pub architecture: String,
    pub pid1_comm: String,
    pub kernel_versions: Vec<String>,
    pub package_base: String,
    pub root_filesystem_device: u64,
    pub boot_filesystem_device: u64,
    pub boot_writable: bool,
    pub boot_free_bytes: u64,
    pub boot_free_inodes: u64,
    pub cryptsetup_location: CryptsetupLocation,
    pub tools: Vec<ToolFact>,
    pub contract_files: Vec<MkinitcpioPathFact>,
    pub config_source: String,
    pub config_mode: u32,
    pub preset_source: String,
    pub known_good_path: String,
    pub known_good_digest: Sha256Digest,
    pub known_good_bytes: u64,
    pub boot_filesystem_uuid: String,
    pub kernel_command_line: String,
}

#[derive(Debug, Clone, PartialEq, Eq)]
pub struct MkinitcpioSystemdContract {
    pub kernel_version: String,
    pub package_base: String,
    pub preset_path: String,
    pub active_image: String,
    pub candidate_image: String,
    pub known_good_image: String,
    pub known_good_digest: Sha256Digest,
    pub config_path: String,
    pub config_mode: u32,
    pub config_original: Vec<u8>,
    pub config_activated: Vec<u8>,
    pub config_already_active: bool,
    pub grub_regeneration: GrubRegeneration,
    pub grub_script_path: String,
    pub grub_config_path: String,
    pub grub_script: Vec<u8>,
    pub generate: GeneratorRequest,
    pub update_grub: GeneratorRequest,
}

pub open spec fn spec_safe_package_base(v: Seq<char>) -> bool {
    bounded_token(v, 64, CharClass::KernelVersion)
}

fn safe_package_base(value: &str) -> (r: bool)
    ensures
        r == spec_safe_package_base(value@),
{
    str_is_bounded_token(value, 64, CharClass::KernelVersion)
}

pub const ACTIVE_PREFIX: &'static str = "/boot/initramfs-";
pub const CANDIDATE_PREFIX: &'static str = "/boot/.bootart-candidate-initramfs-";

pub open spec fn mkc_active(pkg: Seq<char>) -> Seq<char> {
    ACTIVE_PREFIX@ + pkg + ".img"@
}

pub open spec fn mkc_candidate(pkg: Seq<char>) -> Seq<char> {
    CANDIDATE_PREFIX@ + pkg + ".img"@
}

pub open spec fn mkc_preset(pkg: Seq<char>) -> Seq<char> {
    "/etc/mkinitcpio.d/"@ + pkg + ".preset"@
}

/// The package base named by an image path after `prefix`.
pub open spec fn image_package(path: Seq<char>, prefix: Seq<char>) -> Option<Seq<char>> {
    if has_prefix(path, prefix) && has_suffix(path.skip(prefix.len() as int), ".img"@) {
        let rest = path.skip(prefix.len() as int);
        let pkg = rest.subrange(0, rest.len() - 4);
        if spec_safe_package_base(pkg) {
            Some(pkg)
        } else {
            None
        }
    } else {
        None
    }
}

fn image_package_exec(path: &str, prefix: &str) -> (r: bool)
    ensures
        r == image_package(path@, prefix@) is Some,
{
    proof {
        reveal_strlit(".img");
    }
    let rest = match strip_prefix(path, prefix) {
        Some(rest) => rest,
        None => return false,
    };
    let pkg = match strip_suffix(rest, ".img") {
        Some(pkg) => pkg,
        None => return false,
    };
    safe_package_base(pkg)
}

pub proof fn lemma_image_package(prefix: Seq<char>, pkg: Seq<char>)
    requires
        spec_safe_package_base(pkg),
    ensures
        image_package(prefix + pkg + ".img"@, prefix) == Some(pkg),
{
    reveal_strlit(".img");
    let path = prefix + pkg + ".img"@;
    assert(path.subrange(0, prefix.len() as int) =~= prefix);
    let rest = path.skip(prefix.len() as int);
    assert(rest =~= pkg + ".img"@);
    assert(rest.subrange(rest.len() - 4, rest.len() as int) =~= ".img"@);
    assert(rest.subrange(0, rest.len() - 4) =~= pkg);
}

pub open spec fn spec_mkinitcpio_systemd_managed_image_path(path: Seq<char>) -> bool {
    ||| path == MKINITCPIO_CONFIG_PATH@
    ||| path == GRUB_SCRIPT_PATH@
    ||| path == "/boot/grub/grub.cfg"@
    ||| image_package(path, CANDIDATE_PREFIX@) is Some
    ||| image_package(
        if has_suffix(path, KNOWN_GOOD_SUFFIX@) {
            path.subrange(0, path.len() - KNOWN_GOOD_SUFFIX@.len())
        } else {
            path
        },
        ACTIVE_PREFIX@,
    ) is Some
}

/// Whether the mkinitcpio backend owns `path`.
pub fn mkinitcpio_systemd_managed_image_path(path: &str) -> (r: bool)
    ensures
        r == spec_mkinitcpio_systemd_managed_image_path(path@),
{
    if str_eq(path, MKINITCPIO_CONFIG_PATH) || str_eq(path, GRUB_SCRIPT_PATH) || str_eq(
        path,
        "/boot/grub/grub.cfg",
    ) {
        return true;
    }
    if image_package_exec(path, CANDIDATE_PREFIX) {
        return true;
    }
    let active = match strip_suffix(path, KNOWN_GOOD_SUFFIX) {
        Some(a) => a,
        None => path,
    };
    image_package_exec(active, ACTIVE_PREFIX)
}

/// The fixed command language of the mkinitcpio backend.
pub open spec fn mkc_generator_request_valid(r: GeneratorRequest) -> bool {
    let a = r.args();
    &&& r.clear_environment
    &&& spec_safe_alternate_root(r.alternate_root@)
    &&& match r.generator {
        GeneratorKind::Mkinitcpio => {
            &&& r.executable@ == MKINITCPIO_EXECUTABLE@
            &&& a.len() == 4
            &&& r.working_directory is None
            &&& a[0] == "-k"@
            &&& a[2] == "-g"@
            &&& spec_safe_kernel_version(a[1])
            &&& image_package(a[3], CANDIDATE_PREFIX@) is Some
        },
        GeneratorKind::InitramfsInspection => {
            &&& r.executable@ == LSINITCPIO_EXECUTABLE@
            &&& a.len() == 2
            &&& a[0] == "-x"@
            &&& image_package(a[1], CANDIDATE_PREFIX@) is Some
            &&& r.workdir() matches Some(d) && transaction_unpack_dir(d)
        },
        GeneratorKind::GrubUpdate => {
            &&& r.executable@ == GRUB_MKCONFIG_EXECUTABLE@
            &&& a == seq!["-o"@, "/boot/grub/grub.cfg"@]
            &&& r.working_directory is None
        },
        _ => false,
    }
}

/// Rejects every command except the fixed mkinitcpio, lsinitcpio and
/// grub-mkconfig operations.
pub fn validate_mkinitcpio_systemd_generator_request(request: &GeneratorRequest) -> (r: Result<
    (),
    InstallError,
>)
    ensures
        r is Ok <==> mkc_generator_request_valid(*request),
        r matches Err(e) ==> e is InvalidPlan,
{
    if !request.clear_environment || !safe_alternate_root(request.alternate_root.as_str()) {
        return Err(invalid("mkinitcpio-systemd request requires a safe root and cleared environment"));
    }
    let exe = request.executable.as_str();
    let a = &request.arguments;
    match request.generator {
        GeneratorKind::Mkinitcpio => {
            if !str_eq(exe, MKINITCPIO_EXECUTABLE) {
                return Err(invalid("unreviewed mkinitcpio-systemd generator executable or kind"));
            }
            if a.len() != 4 || request.working_directory.is_some() || !str_eq(a[0].as_str(), "-k")
                || !str_eq(a[2].as_str(), "-g") || !safe_kernel_version(a[1].as_str())
                || !image_package_exec(a[3].as_str(), CANDIDATE_PREFIX) {
                return Err(invalid("mkinitcpio argv differs from the fixed contract"));
            }
        },
        GeneratorKind::InitramfsInspection => {
            if !str_eq(exe, LSINITCPIO_EXECUTABLE) {
                return Err(invalid("unreviewed mkinitcpio-systemd generator executable or kind"));
            }
            if a.len() != 2 {
                return Err(invalid("lsinitcpio argv differs from the fixed contract"));
            }
            let dir_ok = match &request.working_directory {
                Some(d) => transaction_of_dir(d.as_str()),
                None => false,
            };
            if !str_eq(a[0].as_str(), "-x") || !image_package_exec(a[1].as_str(), CANDIDATE_PREFIX)
                || !dir_ok {
                return Err(invalid("lsinitcpio extraction request is unsafe"));
            }
        },
        GeneratorKind::GrubUpdate => {
            if !str_eq(exe, GRUB_MKCONFIG_EXECUTABLE) {
                return Err(invalid("unreviewed mkinitcpio-systemd generator executable or kind"));
            }
            let lits = ["-o", "/boot/grub/grub.cfg"];
            assert(str_views(lits@) =~= seq!["-o"@, "/boot/grub/grub.cfg"@]);
            if !strings_equal_strs(a, &lits) || request.working_directory.is_some() {
                return Err(invalid("grub-mkconfig argv differs from the fixed contract"));
            }
        },
        _ => {
            return Err(invalid("unreviewed mkinitcpio-systemd generator executable or kind"));
        },
    }
    Ok(())
}

// ---------------------------------------------------------------------------
// Contracts and planning
// ---------------------------------------------------------------------------

/// The configuration text after activation.
pub open spec fn spec_activation(s: Seq<char>) -> Seq<char> {
    if first_index(config_hooks(s), "bootart"@) >= 0 {
        s
    } else {
        spec_activated_config(s)
    }
}

pub open spec fn mkc_contract_fields_ok(c: MkinitcpioSystemdContract) -> bool {
    let pkg = c.package_base@;
    &&& spec_safe_kernel_version(c.kernel_version@)
    &&& spec_safe_package_base(pkg)
    &&& c.preset_path@ == mkc_preset(pkg)
    &&& c.active_image@ == mkc_active(pkg)
    &&& c.candidate_image@ == mkc_candidate(pkg)
    &&& c.known_good_image@ == c.active_image@ + KNOWN_GOOD_SUFFIX@
    &&& c.config_path@ == MKINITCPIO_CONFIG_PATH@
    &&& c.config_mode == 0o644u32
    &&& c.grub_regeneration == GrubRegeneration::GrubMkconfig
    &&& c.grub_script_path@ == GRUB_SCRIPT_PATH@
    &&& c.grub_config_path@ == "/boot/grub/grub.cfg"@
    &&& c.generate.alternate_root@ == c.update_grub.alternate_root@
}

/// The recorded configuration is reproducible from the recorded original.
pub open spec fn mkc_config_reproducible(c: MkinitcpioSystemdContract) -> bool {
    &&& valid_utf8(c.config_original@)
    &&& hooks_config_ok(decode_utf8(c.config_original@))
    &&& c.config_activated@ == encode_utf8(spec_activation(decode_utf8(c.config_original@)))
    &&& c.config_already_active == (first_index(
        config_hooks(decode_utf8(c.config_original@)),
        "bootart"@,
    ) >= 0)
}

/// The known-good GRUB script boots the package's kernel and initrd.
pub open spec fn mkc_grub_script_ok(script: Seq<u8>, pkg: Seq<char>, initrd: Seq<char>) -> bool {
    &&& valid_utf8(script)
    &&& contains(decode_utf8(script), "linux /vmlinuz-"@ + pkg + " "@)
    &&& contains(decode_utf8(script), "initrd /"@ + initrd + "\n"@)
}

/// Every cross-field relation of a resolved contract.
pub open spec fn mkc_contract_valid(c: MkinitcpioSystemdContract) -> bool {
    &&& mkc_contract_fields_ok(c)
    &&& mkc_config_reproducible(c)
    &&& mkc_generator_request_valid(c.generate)
    &&& mkc_generator_request_valid(c.update_grub)
    &&& c.generate.args().len() > 3
    &&& c.generate.args()[1] == c.kernel_version@
    &&& c.generate.args()[3] == c.candidate_image@
    &&& mkc_grub_script_ok(c.grub_script@, c.package_base@, c.known_good_image@.skip(6))
}

fn mkc_contract_fields_ok_exec(c: &MkinitcpioSystemdContract) -> (r: bool)
    ensures
        r == mkc_contract_fields_ok(*c),
{
    let pkg = c.package_base.as_str();
    if !safe_kernel_version(c.kernel_version.as_str()) || !safe_package_base(pkg) {
        return false;
    }
    let preset = concat3("/etc/mkinitcpio.d/", pkg, ".preset");
    let active = concat3(ACTIVE_PREFIX, pkg, ".img");
    let candidate = concat3(CANDIDATE_PREFIX, pkg, ".img");
    let known_good = concat2(c.active_image.as_str(), KNOWN_GOOD_SUFFIX);
    str_eq(c.preset_path.as_str(), preset.as_str()) && str_eq(c.active_image.as_str(), active.as_str())
        && str_eq(c.candidate_image.as_str(), candidate.as_str()) && str_eq(
        c.known_good_image.as_str(),
        known_good.as_str(),
    ) && str_eq(c.config_path.as_str(), MKINITCPIO_CONFIG_PATH) && c.config_mode == 0o644u32
        && c.grub_regeneration == GrubRegeneration::GrubMkconfig && str_eq(
        c.grub_script_path.as_str(),
        GRUB_SCRIPT_PATH,
    ) && str_eq(c.grub_config_path.as_str(), "/boot/grub/grub.cfg") && str_eq(
        c.generate.alternate_root.as_str(),
        c.update_grub.alternate_root.as_str(),
    )
}

/// Revalidates every cross-field relation of a resolved contract, including
/// that the recorded configuration activation is reproducible.
pub fn validate_mkinitcpio_systemd_contract(contract: &MkinitcpioSystemdContract) -> (r: Result<
    (),
    InstallError,
>)
    ensures
        r is Ok <==> mkc_contract_valid(*contract),
        r matches Err(e) ==> e is InvalidPlan,
{
    if !mkc_contract_fields_ok_exec(contract) {
        return Err(invalid("mkinitcpio-systemd contract mixes incompatible capabilities"));
    }
    let original = match utf8_to_str(contract.config_original.as_slice()) {
        Some(s) => s,
        None => return Err(invalid("mkinitcpio original configuration is not UTF-8")),
    };
    let (activated, already) = activate_mkinitcpio_hooks(original)?;
    let activated_bytes = str_bytes(activated.as_str());
    if !crate::archive::bytes_eq(activated_bytes.as_slice(), contract.config_activated.as_slice())
        || already != contract.config_already_active {
        return Err(invalid("mkinitcpio configuration activation is not reproducible"));
    }
    validate_mkinitcpio_systemd_generator_request(&contract.generate)?;
    validate_mkinitcpio_systemd_generator_request(&contract.update_grub)?;
    let args = &contract.generate.arguments;
    if args.len() <= 3 || !str_eq(args[1].as_str(), contract.kernel_version.as_str()) || !str_eq(
        args[3].as_str(),
        contract.candidate_image.as_str(),
    ) {
        return Err(invalid("mkinitcpio generation request is not bound to the contract"));
    }
    let script = match utf8_to_str(contract.grub_script.as_slice()) {
        Some(s) => s,
        None => return Err(invalid("mkinitcpio GRUB script is not UTF-8")),
    };
    let initrd = match strip_prefix(contract.known_good_image.as_str(), "/boot/") {
        Some(rest) => rest,
        None => contract.known_good_image.as_str(),
    };
    proof {
        reveal_strlit("/boot/");
        reveal_strlit("/boot/initramfs-");
        assert(contract.known_good_image@.subrange(0, 6) =~= "/boot/"@);
    }
    let linux = concat3("linux /vmlinuz-", contract.package_base.as_str(), " ");
    let initrd_line = concat3("initrd /", initrd, "\n");
    if !str_contains(script, linux.as_str()) || !str_contains(script, initrd_line.as_str()) {
        return Err(invalid("mkinitcpio known-good GRUB script is inconsistent"));
    }
    Ok(())
}


pub open spec fn mkc_kernel(f: MkinitcpioSystemdFacts) -> Seq<char> {
    f.kernel_versions@[0]@
}

pub open spec fn mkc_known_good(f: MkinitcpioSystemdFacts) -> Seq<char> {
    mkc_active(f.package_base@) + KNOWN_GOOD_SUFFIX@
}

pub open spec fn mkc_host_ok(f: MkinitcpioSystemdFacts, root: Seq<char>) -> bool {
    &&& spec_safe_alternate_root(root)
    &&& f.architecture@ == PRODUCT_ARCHITECTURE@
    &&& f.pid1_comm@ == "systemd"@
    &&& f.kernel_versions.len() == 1
    &&& spec_safe_kernel_version(mkc_kernel(f))
    &&& spec_safe_package_base(f.package_base@)
    &&& f.root_filesystem_device != f.boot_filesystem_device
    &&& f.boot_writable
}

pub open spec fn mkc_preflight_ok(f: MkinitcpioSystemdFacts, root: Seq<char>) -> bool {
    &&& mkc_host_ok(f, root)
    &&& f.boot_free_bytes >= MIN_BOOT_FREE_BYTES
    &&& f.boot_free_inodes >= MIN_BOOT_FREE_INODES
    &&& f.known_good_path@ == mkc_active(f.package_base@)
    &&& 0 < f.known_good_bytes <= MAX_CANDIDATE_BYTES
    &&& preset_ok(f.preset_source@, f.package_base@)
    &&& hooks_config_ok(f.config_source@)
    &&& f.config_mode == 0o644u32
    &&& tools_match_exactly(
        f.tools@,
        str_views(spec_mkinitcpio_systemd_required_tools(f.cryptsetup_location)),
    )
    &&& facts_match_exactly(
        mk_tool_facts(f.contract_files@),
        mkinitcpio_contract_file_paths(),
        mkinitcpio_contract_file_modes(),
    )
    &&& grub_inputs_ok(
        f.boot_filesystem_uuid@,
        f.package_base@,
        f.kernel_command_line@,
        mkc_known_good(f),
    )
}

pub open spec fn mkc_grub_script(f: MkinitcpioSystemdFacts) -> Seq<u8> {
    encode_utf8(
        grub_script_text(
            f.boot_filesystem_uuid@,
            f.package_base@,
            f.kernel_command_line@,
            mkc_known_good(f).skip(6),
        ),
    )
}

/// The inputs on which the planner succeeds.
pub open spec fn mkc_plan_ok(f: MkinitcpioSystemdFacts, root: Seq<char>) -> bool {
    &&& mkc_preflight_ok(f, root)
    &&& mkc_grub_script_ok(mkc_grub_script(f), f.package_base@, mkc_known_good(f).skip(6))
}

/// The contract the planner resolves from `f` for `root`.
pub open spec fn mkc_contract_for(
    c: MkinitcpioSystemdContract,
    f: MkinitcpioSystemdFacts,
    root: Seq<char>,
) -> bool {
    let pkg = f.package_base@;
    &&& c.kernel_version@ == mkc_kernel(f)
    &&& c.package_base@ == pkg
    &&& c.preset_path@ == mkc_preset(pkg)
    &&& c.active_image@ == mkc_active(pkg)
    &&& c.candidate_image@ == mkc_candidate(pkg)
    &&& c.known_good_image@ == mkc_known_good(f)
    &&& c.known_good_digest == f.known_good_digest
    &&& c.config_path@ == MKINITCPIO_CONFIG_PATH@
    &&& c.config_mode == f.config_mode
    &&& c.config_original@ == encode_utf8(f.config_source@)
    &&& c.config_activated@ == encode_utf8(spec_activation(f.config_source@))
    &&& c.config_already_active == (first_index(config_hooks(f.config_source@), "bootart"@) >= 0)
    &&& c.grub_regeneration == GrubRegeneration::GrubMkconfig
    &&& c.grub_script_path@ == GRUB_SCRIPT_PATH@
    &&& c.grub_config_path@ == "/boot/grub/grub.cfg"@
    &&& c.grub_script@ == mkc_grub_script(f)
    &&& c.generate.is_exactly(
        GeneratorKind::Mkinitcpio,
        MKINITCPIO_EXECUTABLE@,
        root,
        None,
        seq!["-k"@, mkc_kernel(f), "-g"@, mkc_candidate(pkg)],
    )
    &&& c.update_grub.is_exactly(
        GeneratorKind::GrubUpdate,
        GRUB_MKCONFIG_EXECUTABLE@,
        root,
        None,
        seq!["-o"@, "/boot/grub/grub.cfg"@],
    )
}

pub open spec fn mkc_plan_error(f: MkinitcpioSystemdFacts, root: Seq<char>, e: InstallError) -> bool {
    if mkc_host_ok(f, root) && f.boot_free_bytes < MIN_BOOT_FREE_BYTES {
        e matches InstallError::InsufficientFreeSpace { path, required, available } && path@
            == "/boot"@ && required == MIN_BOOT_FREE_BYTES && available == f.boot_free_bytes
    } else {
        e is InvalidPlan
    }
}

/// A planned contract satisfies every validated relation but the rendered
/// script, which it satisfies exactly when the facts' script does.
pub proof fn lemma_mkc_planned_contract_shape(
    c: MkinitcpioSystemdContract,
    f: MkinitcpioSystemdFacts,
    root: Seq<char>,
)
    requires
        mkc_preflight_ok(f, root),
        mkc_contract_for(c, f, root),
    ensures
        mkc_contract_valid(c) <==> mkc_grub_script_ok(
            mkc_grub_script(f),
            f.package_base@,
            mkc_known_good(f).skip(6),
        ),
{
    crate::text::lemma_decode_encode(f.config_source@);
    lemma_image_package(CANDIDATE_PREFIX@, f.package_base@);
    assert(mkc_contract_fields_ok(c));
    assert(mkc_config_reproducible(c));
    assert(mkc_generator_request_valid(c.generate));
    assert(mkc_generator_request_valid(c.update_grub));
}

fn mkc_preflight(facts: &MkinitcpioSystemdFacts, alternate_root: &str) -> (r: Result<
    (String, bool),
    InstallError,
>)
    ensures
        r is Ok <==> mkc_preflight_ok(*facts, alternate_root@),
        r matches Ok((out, already)) ==> out@ == spec_activation(facts.config_source@) && already
            == (first_index(config_hooks(facts.config_source@), "bootart"@) >= 0),
        r matches Err(e) ==> mkc_plan_error(*facts, alternate_root@, e),
{
    if !safe_alternate_root(alternate_root) {
        return Err(invalid("mkinitcpio-systemd generator alternate root is unsafe"));
    }
    if !str_eq(facts.architecture.as_str(), PRODUCT_ARCHITECTURE) {
        return Err(invalid("mkinitcpio-systemd architecture does not match this Bootart ELF"));
    }
    if !str_eq(facts.pid1_comm.as_str(), "systemd") {
        return Err(invalid("mkinitcpio-systemd PID 1 is not systemd"));
    }
    if facts.kernel_versions.len() != 1 {
        return Err(invalid("mkinitcpio-systemd must select one running kernel"));
    }
    let kernel = facts.kernel_versions[0].as_str();
    let pkg = facts.package_base.as_str();
    if !safe_kernel_version(kernel) || !safe_package_base(pkg) {
        return Err(invalid("mkinitcpio-systemd kernel or package base is unsafe"));
    }
    if facts.root_filesystem_device == facts.boot_filesystem_device {
        return Err(invalid("mkinitcpio-systemd /boot is not a separate filesystem"));
    }
    if !facts.boot_writable {
        return Err(invalid("mkinitcpio-systemd /boot is not writable"));
    }
    if facts.boot_free_bytes < MIN_BOOT_FREE_BYTES {
        return Err(
            InstallError::InsufficientFreeSpace {
                path: owned("/boot"),
                required: MIN_BOOT_FREE_BYTES,
                available: facts.boot_free_bytes,
            },
        );
    }
    if facts.boot_free_inodes < MIN_BOOT_FREE_INODES {
        return Err(invalid("mkinitcpio-systemd /boot has insufficient free inodes"));
    }
    let active_image = concat3(ACTIVE_PREFIX, pkg, ".img");
    if !str_eq(facts.known_good_path.as_str(), active_image.as_str()) || facts.known_good_bytes == 0
        || facts.known_good_bytes > MAX_CANDIDATE_BYTES {
        return Err(invalid("mkinitcpio-systemd active image differs from the pkgbase contract"));
    }
    validate_preset(facts.preset_source.as_str(), pkg)?;
    let (activated, already) = activate_mkinitcpio_hooks(facts.config_source.as_str())?;
    if facts.config_mode != 0o644u32 {
        return Err(invalid("mkinitcpio configuration mode is not 0644"));
    }
    let required = mkinitcpio_systemd_required_tools(facts.cryptsetup_location);
    if !tools_match_exactly_exec(&facts.tools, &required) {
        return Err(invalid("mkinitcpio-systemd tool set differs from the fixed contract"));
    }
    let files = mk_path_facts_as_tools(&facts.contract_files);
    let paths = vec![
        "/usr/lib/initcpio/functions",
        "/usr/lib/initcpio/init",
        "/usr/lib/initcpio/hooks/encrypt",
        "/usr/lib/initcpio/install/encrypt",
    ];
    let modes = vec![true, false, false, false];
    assert(str_views(paths@) =~= mkinitcpio_contract_file_paths());
    assert(modes@ =~= mkinitcpio_contract_file_modes());
    if !facts_match_exactly_exec(&files, &paths, &modes) {
        return Err(invalid("mkinitcpio-systemd runtime file set differs from the fixed contract"));
    }
    let known_good_image = concat2(active_image.as_str(), KNOWN_GOOD_SUFFIX);
    if !grub_inputs_ok_exec(
        facts.boot_filesystem_uuid.as_str(),
        pkg,
        facts.kernel_command_line.as_str(),
        known_good_image.as_str(),
    ) {
        return Err(invalid("mkinitcpio-systemd GRUB entry inputs are unsafe"));
    }
    Ok((activated, already))
}

/// Resolves the guest-visible paths, configuration and commands.
pub fn plan_mkinitcpio_systemd_for_root(facts: &MkinitcpioSystemdFacts, alternate_root: &str) -> (r:
    Result<MkinitcpioSystemdContract, InstallError>)
    ensures
        r is Ok <==> mkc_plan_ok(*facts, alternate_root@),
        r matches Ok(c) ==> mkc_contract_for(c, *facts, alternate_root@),
        r matches Err(e) ==> mkc_plan_error(*facts, alternate_root@, e),
{
    let (activated, already) = mkc_preflight(facts, alternate_root)?;
    let kernel = facts.kernel_versions[0].as_str();
    let pkg = facts.package_base.as_str();
    let active_image = concat3(ACTIVE_PREFIX, pkg, ".img");
    let candidate_image = concat3(CANDIDATE_PREFIX, pkg, ".img");
    let known_good_image = concat2(active_image.as_str(), KNOWN_GOOD_SUFFIX);
    let grub_script = match render_grub_script(
        facts.boot_filesystem_uuid.as_str(),
        pkg,
        facts.kernel_command_line.as_str(),
        known_good_image.as_str(),
    ) {
        Ok(bytes) => bytes,
        Err(e) => return Err(e),
    };
    let lits = ["-o", "/boot/grub/grub.cfg"];
    let grub_args = crate::text::strings_of(&lits);
    let contract = MkinitcpioSystemdContract {
        kernel_version: owned(kernel),
        package_base: owned(pkg),
        preset_path: concat3("/etc/mkinitcpio.d/", pkg, ".preset"),
        active_image,
        candidate_image,
        known_good_image,
        known_good_digest: facts.known_good_digest,
        config_path: owned(MKINITCPIO_CONFIG_PATH),
        config_mode: facts.config_mode,
        config_original: str_bytes(facts.config_source.as_str()),
        config_activated: str_bytes(activated.as_str()),
        config_already_active: already,
        grub_regeneration: GrubRegeneration::GrubMkconfig,
        grub_script_path: owned(GRUB_SCRIPT_PATH),
        grub_config_path: owned("/boot/grub/grub.cfg"),
        grub_script,
        generate: GeneratorRequest {
            generator: GeneratorKind::Mkinitcpio,
            executable: owned(MKINITCPIO_EXECUTABLE),
            alternate_root: owned(alternate_root),
            working_directory: None,
            arguments: vec![
                owned("-k"),
                owned(kernel),
                owned("-g"),
                concat3(CANDIDATE_PREFIX, pkg, ".img"),
            ],
            clear_environment: true,
        },
        update_grub: GeneratorRequest {
            generator: GeneratorKind::GrubUpdate,
            executable: owned(GRUB_MKCONFIG_EXECUTABLE),
            alternate_root: owned(alternate_root),
            working_directory: None,
            arguments: grub_args,
            clear_environment: true,
        },
    };
    proof {
        assert(contract.generate.args() =~= seq!["-k"@, kernel@, "-g"@, mkc_candidate(pkg@)]);
        assert(contract.update_grub.args() =~= str_views(lits@));
        assert(str_views(lits@) =~= seq!["-o"@, "/boot/grub/grub.cfg"@]);
        assert(mkc_contract_for(contract, *facts, alternate_root@));
        lemma_mkc_planned_contract_shape(contract, *facts, alternate_root@);
    }
    match validate_mkinitcpio_systemd_contract(&contract) {
        Ok(()) => Ok(contract),
        Err(e) => Err(e),
    }
}

/// Plans against the running system's root.
pub fn plan_mkinitcpio_systemd(facts: &MkinitcpioSystemdFacts) -> (r: Result<
    MkinitcpioSystemdContract,
    InstallError,
>)
    ensures
        r is Ok <==> mkc_plan_ok(*facts, "/"@),
        r matches Ok(c) ==> mkc_contract_for(c, *facts, "/"@),
        r matches Err(e) ==> mkc_plan_error(*facts, "/"@, e),
{
    plan_mkinitcpio_systemd_for_root(facts, "/")
}

/// The `lsinitcpio -x` request for a validated contract's candidate.
pub fn mkinitcpio_systemd_unpack_request(contract: &MkinitcpioSystemdContract, transaction: &str) -> (r:
    Result<GeneratorRequest, InstallError>)
    ensures
        r is Ok <==> mkc_contract_valid(*contract) && spec_safe_transaction_id(transaction@),
        r matches Ok(q) ==> q.is_exactly(
            GeneratorKind::InitramfsInspection,
            LSINITCPIO_EXECUTABLE@,
            contract.generate.alternate_root@,
            Some(unpack_dir(transaction@)),
            seq!["-x"@, contract.candidate_image@],
        ),
        r matches Err(e) ==> e is InvalidPlan,
{
    validate_mkinitcpio_systemd_contract(contract)?;
    if !safe_transaction_id(transaction) {
        return Err(invalid("mkinitcpio-systemd inspection transaction id is unsafe"));
    }
    let q = GeneratorRequest {
        generator: GeneratorKind::InitramfsInspection,
        executable: owned(LSINITCPIO_EXECUTABLE),
        alternate_root: owned(contract.generate.alternate_root.as_str()),
        working_directory: Some(unpack_dir_exec(transaction)),
        arguments: vec![owned("-x"), owned(contract.candidate_image.as_str())],
        clear_environment: true,
    };
    assert(q.args() =~= seq!["-x"@, contract.candidate_image@]);
    Ok(q)
}

// ---------------------------------------------------------------------------
// Inventory and image record
// ---------------------------------------------------------------------------

pub open spec fn mkc_resources() -> Seq<(Seq<char>, TemplateId)> {
    seq![
        ("hooks/bootart"@, TemplateId::MkinitcpioRuntimeHook),
        ("usr/bin/plymouth"@, TemplateId::MkinitcpioPlymouthBridge),
    ]
}

pub open spec fn mkc_resource_ok(es: Seq<ArchiveEntry>, path: Seq<char>, id: TemplateId) -> bool {
    let r = spec_template_resource(id);
    r.materialization matches TemplateMaterialization::File { mode, .. } && entry_is(
        es,
        path,
        ArchiveEntryKind::File,
        mode,
        encode_utf8(r.contents@),
    )
}

/// The member at `p` is a nonempty regular file with an execute bit.
pub open spec fn executable_member(es: Seq<ArchiveEntry>, p: Seq<char>) -> bool {
    exists|i: int|
        0 <= i < es.len() && es[i].path@ == p && es[i].kind == ArchiveEntryKind::File && es[i].mode
            & 0o111u32 != 0 && es[i].bytes@.len() > 0
}

/// Only the ELF and the runtime hook carry a `bootart`-prefixed name.
pub open spec fn mkc_bootart_members_ok(es: Seq<ArchiveEntry>) -> bool {
    forall|i: int|
        #![trigger es[i]]
        0 <= i < es.len() && has_prefix(last_segment(es[i].path@), "bootart"@) ==> (es[i].path@
            == "usr/bin/bootart"@ || es[i].path@ == "hooks/bootart"@)
}

/// Everything a Bootart-carrying mkinitcpio candidate must satisfy.
pub open spec fn mkc_inventory_ok(es: Seq<ArchiveEntry>, expected_bootart: Seq<u8>) -> bool {
    &&& static_elf_valid(expected_bootart)
    &&& 0 < es.len() <= MAX_ARCHIVE_ENTRIES
    &&& archive_paths_distinct(es)
    &&& archive_bytes(es) <= MAX_INSPECTED_ARCHIVE_BYTES
    &&& entry_is(es, "usr/bin/bootart"@, ArchiveEntryKind::File, 0o755u32, expected_bootart)
    &&& forall|k: int|
        0 <= k < mkc_resources().len() ==> mkc_resource_ok(
            es,
            (#[trigger] mkc_resources()[k]).0,
            mkc_resources()[k].1,
        )
    &&& executable_member(es, "init"@)
    &&& executable_member(es, "hooks/encrypt"@)
    &&& executable_member(es, "usr/bin/cryptsetup"@)
    &&& mkc_bootart_members_ok(es)
}

/// The member at `p` is a nonempty regular file with an execute bit.
pub open spec fn runnable_file_at(es: Seq<ArchiveEntry>, k: int, p: Seq<char>) -> bool {
    &&& 0 <= k < es.len()
    &&& es[k].path@ == p
    &&& es[k].kind == ArchiveEntryKind::File
    &&& es[k].mode & 0o111u32 != 0
    &&& es[k].bytes@.len() > 0
}

/// An accepted mkinitcpio candidate can unlock the encrypted root and
/// start: `init`, `hooks/encrypt` and `usr/bin/cryptsetup` are each a
/// nonempty executable regular file, and `usr/bin/bootart` is the running
/// bootart ELF with mode 0755.
pub proof fn lemma_accepted_mkinitcpio_inventory_can_unlock(es: Seq<ArchiveEntry>, elf: Seq<u8>)
    requires
        mkc_inventory_ok(es, elf),
    ensures
        exists|k: int| runnable_file_at(es, k, "usr/bin/cryptsetup"@),
        exists|k: int| runnable_file_at(es, k, "hooks/encrypt"@),
        exists|k: int| runnable_file_at(es, k, "init"@),
        exists|k: int|
            0 <= k < es.len() && es[k].path@ == "usr/bin/bootart"@ && es[k].kind
                == ArchiveEntryKind::File && es[k].mode == 0o755u32 && es[k].bytes@ == elf,
{
    let k1 = choose|i: int|
        0 <= i < es.len() && es[i].path@ == "usr/bin/cryptsetup"@ && es[i].kind == ArchiveEntryKind::File
            && es[i].mode & 0o111u32 != 0 && es[i].bytes@.len() > 0;
    assert(runnable_file_at(es, k1, "usr/bin/cryptsetup"@));
    let k2 = choose|i: int|
        0 <= i < es.len() && es[i].path@ == "hooks/encrypt"@ && es[i].kind == ArchiveEntryKind::File
            && es[i].mode & 0o111u32 != 0 && es[i].bytes@.len() > 0;
    assert(runnable_file_at(es, k2, "hooks/encrypt"@));
    let k3 = choose|i: int|
        0 <= i < es.len() && es[i].path@ == "init"@ && es[i].kind == ArchiveEntryKind::File
            && es[i].mode & 0o111u32 != 0 && es[i].bytes@.len() > 0;
    assert(runnable_file_at(es, k3, "init"@));
}

fn executable_member_exec(es: &[ArchiveEntry], p: &str) -> (r: bool)
    requires
        archive_paths_distinct(es@),
    ensures
        r == executable_member(es@, p@),
{
    match find_entry(es, p) {
        Some(i) => es[i].kind == ArchiveEntryKind::File && es[i].mode & 0o111u32 != 0
            && es[i].bytes.len() > 0,
        None => false,
    }
}

fn mkc_resource_ok_exec(es: &[ArchiveEntry], path: &str, id: TemplateId) -> (r: bool)
    requires
        archive_paths_distinct(es@),
    ensures
        r == mkc_resource_ok(es@, path@, id),
{
    let resource = template_resource(id);
    match resource.materialization {
        TemplateMaterialization::File { mode, .. } => {
            let contents = str_bytes(resource.contents);
            entry_is_exec(es, path, ArchiveEntryKind::File, mode, contents.as_slice())
        },
        TemplateMaterialization::OpenRcService { .. } => false,
        TemplateMaterialization::ManagedSnippet { .. } => false,
    }
}

fn mkc_bootart_members_ok_exec(entries: &[ArchiveEntry]) -> (r: bool)
    ensures
        r == mkc_bootart_members_ok(entries@),
{
    let bootart = chars_of("bootart");
    let mut i: usize = 0;
    while i < entries.len()
        invariant
            i <= entries@.len(),
            bootart@ == "bootart"@,
            forall|j: int|
                #![trigger entries@[j]]
                0 <= j < i && has_prefix(last_segment(entries@[j].path@), "bootart"@) ==> (
                entries@[j].path@ == "usr/bin/bootart"@ || entries@[j].path@ == "hooks/bootart"@),
        decreases entries.len() - i,
    {
        let path = entries[i].path.as_str();
        let v = chars_of(path);
        let name = last_segment_exec(v.as_slice());
        if seq_has_prefix(name.as_slice(), bootart.as_slice()) && !str_eq(path, "usr/bin/bootart")
            && !str_eq(path, "hooks/bootart") {
            return false;
        }
        i = i + 1;
    }
    true
}

/// Inspects a Bootart-carrying mkinitcpio candidate against the running ELF.
pub fn inspect_mkinitcpio_inventory(entries: &[ArchiveEntry], expected_bootart: &[u8]) -> (r: Result<
    ArchiveInspection,
    InstallError,
>)
    ensures
        r is Ok <==> mkc_inventory_ok(entries@, expected_bootart@),
        r matches Ok(i) ==> i.bootart_digest == spec_sha256(expected_bootart@)
            && i.inspected_entries == entries@.len() && i.inspected_bytes == archive_bytes(
            entries@,
        ),
        static_elf_valid(expected_bootart@) ==> (r matches Err(e) ==> e is InvalidPlan),
{
    validate_static_elf(expected_bootart)?;
    if entries.len() == 0 || entries.len() > MAX_ARCHIVE_ENTRIES {
        return Err(invalid("mkinitcpio inventory is empty or exceeds the entry bound"));
    }
    if !archive_paths_distinct_exec(entries) {
        return Err(invalid("mkinitcpio inventory has a duplicate member"));
    }
    let total = match archive_total(entries, MAX_INSPECTED_ARCHIVE_BYTES) {
        Some(t) => t,
        None => return Err(invalid("mkinitcpio inventory exceeds the byte bound")),
    };
    if !entry_is_exec(entries, "usr/bin/bootart", ArchiveEntryKind::File, 0o755u32, expected_bootart) {
        return Err(invalid("mkinitcpio inventory contains the wrong Bootart ELF"));
    }
    assert(mkc_resources()[0] == ("hooks/bootart"@, TemplateId::MkinitcpioRuntimeHook));
    assert(mkc_resources()[1] == ("usr/bin/plymouth"@, TemplateId::MkinitcpioPlymouthBridge));
    if !mkc_resource_ok_exec(entries, "hooks/bootart", TemplateId::MkinitcpioRuntimeHook) {
        return Err(invalid("mkinitcpio runtime resource changed"));
    }
    if !mkc_resource_ok_exec(entries, "usr/bin/plymouth", TemplateId::MkinitcpioPlymouthBridge) {
        return Err(invalid("mkinitcpio runtime resource changed"));
    }
    assert forall|k: int| 0 <= k < mkc_resources().len() implies mkc_resource_ok(
        entries@,
        (#[trigger] mkc_resources()[k]).0,
        mkc_resources()[k].1,
    ) by {
        if k == 0 {
        } else {
        }
    }
    if !executable_member_exec(entries, "init") || !executable_member_exec(entries, "hooks/encrypt")
        || !executable_member_exec(entries, "usr/bin/cryptsetup") {
        return Err(invalid("mkinitcpio executable is unsafe"));
    }
    if !mkc_bootart_members_ok_exec(entries) {
        return Err(invalid("unexpected Bootart mkinitcpio member"));
    }
    Ok(
        ArchiveInspection {
            bootart_digest: sha256(expected_bootart),
            inspected_entries: entries.len(),
            inspected_bytes: total,
        },
    )
}

/// Binds an inspection to the exact candidate bytes before activation.
pub fn verified_mkinitcpio_systemd_image_record(
    contract: &MkinitcpioSystemdContract,
    candidate: &[u8],
    inspection: &ArchiveInspection,
    expected_bootart: &[u8],
) -> (r: Result<DracutSystemdImageRecord, InstallError>)
    ensures
        r is Ok <==> mkc_contract_valid(*contract) && 0 < candidate@.len() <= MAX_CANDIDATE_BYTES
            && inspection.bootart_digest == spec_sha256(expected_bootart@),
        r matches Ok(rec) ==> dracut_image_record_valid(rec) && rec.kernel_version@
            == contract.package_base@ && rec.active_image@ == contract.active_image@
            && rec.active_digest == spec_sha256(candidate@) && rec.candidate_image@
            == contract.candidate_image@ && rec.candidate_digest == spec_sha256(candidate@)
            && rec.candidate_bytes == candidate@.len() && rec.known_good_image@
            == contract.known_good_image@ && rec.known_good_digest == contract.known_good_digest
            && rec.grub_script_path@ == contract.grub_script_path@ && rec.grub_script_digest
            == spec_sha256(contract.grub_script@) && rec.grub_config_path@
            == contract.grub_config_path@ && rec.bootart_digest == spec_sha256(expected_bootart@),
        r matches Err(e) ==> if mkc_contract_valid(*contract) && (candidate@.len() == 0
            || candidate@.len() > MAX_CANDIDATE_BYTES) {
            e matches InstallError::FileTooLarge { path, size, limit } && path@
                == contract.candidate_image@ && size == candidate@.len() && limit
                == MAX_CANDIDATE_BYTES
        } else {
            e is InvalidPlan
        },
{
    validate_mkinitcpio_systemd_contract(contract)?;
    if candidate.len() == 0 || candidate.len() as u64 > MAX_CANDIDATE_BYTES {
        return Err(
            InstallError::FileTooLarge {
                path: owned(contract.candidate_image.as_str()),
                size: candidate.len() as u64,
                limit: MAX_CANDIDATE_BYTES,
            },
        );
    }
    let expected_bootart_digest = sha256(expected_bootart);
    if inspection.bootart_digest != expected_bootart_digest {
        return Err(invalid("mkinitcpio inventory is not bound to the running Bootart ELF"));
    }
    let candidate_digest = sha256(candidate);
    let record = DracutSystemdImageRecord {
        kernel_version: owned(contract.package_base.as_str()),
        active_image: owned(contract.active_image.as_str()),
        active_digest: candidate_digest,
        candidate_image: owned(contract.candidate_image.as_str()),
        candidate_digest,
        candidate_bytes: candidate.len() as u64,
        known_good_image: owned(contract.known_good_image.as_str()),
        known_good_digest: contract.known_good_digest,
        grub_script_path: owned(contract.grub_script_path.as_str()),
        grub_script_digest: sha256(contract.grub_script.as_slice()),
        grub_config_path: owned(contract.grub_config_path.as_str()),
        bootart_digest: expected_bootart_digest,
    };
    proof {
        lemma_active_image_parses(DracutImageLayout::InitramfsImg, contract.package_base@);
        lemma_candidate_image_parses(DracutImageLayout::InitramfsImg, contract.package_base@);
        reveal_strlit("/boot/grub/grub.cfg");
    }
    validate_dracut_systemd_image_record(&record)?;
    Ok(record)
}

} // verus!
