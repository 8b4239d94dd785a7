//! The installer's transaction journal: which paths a transaction owns, what
//! each held before, and how far the transaction got.  It is written as one
//! tab-separated record per line and read back strictly: every record is
//! checked against the bootart-owned path allowlist and the transaction.

use crate::elf::BOOTART_BINARY_PATH;
use crate::embedded::{
    all_template_ids, materialized_path, spec_all_template_ids, spec_materialized_path,
    spec_template_resource, template_resource,
};
use crate::codec::{
    is_lower_hex, is_octal_digit, lemma_decode_encode_hex, lemma_decode_encode_text,
    lemma_digest_hex_roundtrip, lemma_digits_octal, spec_decode_text, spec_digest_hex,
    spec_encode_hex, spec_octal,
};
use crate::dracut_systemd::spec_safe_transaction_id;
use crate::newc::split_on;
use crate::error::InstallError;
use crate::state::{
    lemma_preimage_roundtrip, preimage_fields, preimage_ok, spec_parse_preimage,
    spec_preimage_fields, split_on_exec, Preimage, PreimageView,
};
use crate::text::{
    chars_of, concat2, concat_all, extend_range, has_prefix, lines, owned, str_eq, string_from_chars, str_has_prefix,
    str_has_suffix, str_views, string_views, distinct_seqs, line_body, CharClass,
};
use crate::text_facts::{
    join_on, lacks, lemma_join_on_chars, lemma_split_concat, lemma_split_join_on, piece_ok,
};
use vstd::prelude::*;
use vstd::utf8::*;

verus! {

// ---------------------------------------------------------------------------
// The bootart-owned path allowlist
// ---------------------------------------------------------------------------

/// The activation links the installer may create.
pub const ACTIVATION_PATHS: [&'static str; 6] = [
    "/usr/lib/systemd/system/initrd.target.wants/bootart-start.service",
    "/usr/lib/systemd/system/initrd.target.wants/bootart-show.service",
    "/usr/lib/systemd/system/initrd-switch-root.target.wants/bootart-switch-root.service",
    "/etc/systemd/system/multi-user.target.wants/bootart-quit.service",
    "/etc/runlevels/boot/bootart",
    "/etc/runlevels/default/bootart-quit",
];

/// The state directories the installer may create.
pub const STATE_CREATED_DIRS: [&'static str; 5] = [
    "/var",
    "/var/lib",
    "/var/lib/bootart",
    "/var/lib/bootart/install",
    "/var/lib/bootart/install/transactions",
];

/// Every path a transaction may write: the binary, the file of every embedded
/// resource, and every activation link.
pub open spec fn spec_allowed_payload_paths() -> Seq<Seq<char>> {
    seq![BOOTART_BINARY_PATH@] + spec_all_template_ids().map_values(
        |id| spec_materialized_path(spec_template_resource(id).materialization)@,
    ) + str_views(ACTIVATION_PATHS@)
}

/// Every path a transaction may write.
pub fn allowed_payload_paths() -> (r: Vec<&'static str>)
    ensures
        str_views(r@) == spec_allowed_payload_paths(),
{
    let mut r: Vec<&'static str> = Vec::new();
    r.push(BOOTART_BINARY_PATH);
    let ids = all_template_ids();
    let ghost t = spec_all_template_ids().map_values(
        |id| spec_materialized_path(spec_template_resource(id).materialization)@,
    );
    let mut i: usize = 0;
    while i < ids.len()
        invariant
            i <= ids@.len(),
            ids@ == spec_all_template_ids(),
            t == spec_all_template_ids().map_values(
                |id| spec_materialized_path(spec_template_resource(id).materialization)@,
            ),
            str_views(r@) == seq![BOOTART_BINARY_PATH@] + t.take(i as int),
        decreases ids.len() - i,
    {
        let res = template_resource(ids[i]);
        let p = materialized_path(res.materialization);
        let ghost before = r@;
        r.push(p);
        assert(t.take(i + 1) =~= t.take(i as int).push(p@));
        assert(str_views(r@) =~= str_views(before).push(p@));
        i = i + 1;
    }
    assert(t.take(ids@.len() as int) =~= t);
    let mut k: usize = 0;
    let ghost head = str_views(r@);
    while k < 6
        invariant
            k <= 6,
            str_views(r@) == head + str_views(ACTIVATION_PATHS@).take(k as int),
        decreases 6 - k,
    {
        let ghost before = r@;
        r.push(ACTIVATION_PATHS[k]);
        assert(str_views(ACTIVATION_PATHS@).take(k + 1) =~= str_views(ACTIVATION_PATHS@).take(
            k as int,
        ).push(ACTIVATION_PATHS@[k as int]@));
        assert(str_views(r@) =~= str_views(before).push(ACTIVATION_PATHS@[k as int]@));
        k = k + 1;
    }
    assert(str_views(ACTIVATION_PATHS@).take(6) =~= str_views(ACTIVATION_PATHS@));
    r
}

/// Whether `path` is on the allowlist.
pub open spec fn spec_payload_path_allowed(path: Seq<char>) -> bool {
    spec_allowed_payload_paths().contains(path)
}

/// Whether `path` is on the allowlist.
pub fn payload_path_allowed(path: &str) -> (r: bool)
    ensures
        r == spec_payload_path_allowed(path@),
{
    let all = allowed_payload_paths();
    let mut i: usize = 0;
    while i < all.len()
        invariant
            i <= all@.len(),
            str_views(all@) == spec_allowed_payload_paths(),
            forall|j: int| 0 <= j < i ==> all@[j]@ != path@,
        decreases all.len() - i,
    {
        if str_eq(all[i], path) {
            assert(spec_allowed_payload_paths()[i as int] == path@);
            return true;
        }
        i = i + 1;
    }
    assert forall|j: int| 0 <= j < spec_allowed_payload_paths().len() implies spec_allowed_payload_paths()[j]
        != path@ by {
        assert(spec_allowed_payload_paths()[j] == all@[j]@);
    }
    false
}

/// A directory the installer may create for a payload: absolute, not the root,
/// without a trailing `/`, and a proper ancestor of an allowlisted path.
pub open spec fn spec_payload_parent_allowed(path: Seq<char>) -> bool {
    &&& path.len() > 1
    &&& path[0] == '/'
    &&& path.last() != '/'
    &&& exists|k: int|
        0 <= k < spec_allowed_payload_paths().len() && has_prefix(
            #[trigger] spec_allowed_payload_paths()[k],
            path.push('/'),
        )
}

/// Whether the installer may create `path` for a payload.
pub fn payload_parent_allowed(path: &str) -> (r: bool)
    ensures
        r == spec_payload_parent_allowed(path@),
{
    let starts = str_has_prefix(path, "/");
    let ends = str_has_suffix(path, "/");
    let root = str_eq(path, "/");
    proof {
        reveal_strlit("/");
        assert("/"@.len() == 1 && "/"@[0] == '/');
        if path@.len() > 1 && path@[0] == '/' && path@.last() != '/' {
            assert(path@.subrange(0, 1) =~= "/"@);
            assert(path@.subrange(path@.len() - 1, path@.len() as int)[0] == path@.last());
            assert(!ends);
            assert(path@.len() != "/"@.len());
            assert(!root);
        }
        if starts && !ends && !root {
            assert(path@.subrange(0, 1)[0] == path@[0]);
            assert(path@.subrange(path@.len() - 1, path@.len() as int)[0] == path@.last());
            assert(path@[0] == '/');
            if path@.len() == 1 {
                assert(path@ =~= "/"@);
            }
            if path@.last() == '/' {
                assert(path@.subrange(path@.len() - 1, path@.len() as int) =~= "/"@);
            }
            assert(path@.len() > 1 && path@[0] == '/' && path@.last() != '/');
        }
    }
    if !starts || ends || root {
        return false;
    }
    let prefix = concat2(path, "/");
    proof {
        reveal_strlit("/");
        assert(prefix@ =~= path@.push('/'));
    }
    let all = allowed_payload_paths();
    let mut i: usize = 0;
    while i < all.len()
        invariant
            i <= all@.len(),
            str_views(all@) == spec_allowed_payload_paths(),
            prefix@ == path@.push('/'),
            path@.len() > 1 && path@[0] == '/' && path@.last() != '/',
            forall|j: int| 0 <= j < i ==> !has_prefix(all@[j]@, path@.push('/')),
        decreases all.len() - i,
    {
        if str_has_prefix(all[i], prefix.as_str()) {
            assert(spec_allowed_payload_paths()[i as int] == all@[i as int]@);
            assert(has_prefix(spec_allowed_payload_paths()[i as int], path@.push('/')));
            return true;
        }
        i = i + 1;
    }
    assert forall|k: int| 0 <= k < spec_allowed_payload_paths().len() implies !has_prefix(
        #[trigger] spec_allowed_payload_paths()[k],
        path@.push('/'),
    ) by {
        assert(spec_allowed_payload_paths()[k] == all@[k]@);
    }
    false
}

/// Whether `path` is one of the state directories the installer may create.
pub open spec fn spec_state_dir_allowed(path: Seq<char>) -> bool {
    str_views(STATE_CREATED_DIRS@).contains(path)
}

/// Whether `path` is one of the state directories the installer may create.
pub fn state_dir_allowed(path: &str) -> (r: bool)
    ensures
        r == spec_state_dir_allowed(path@),
{
    let mut i: usize = 0;
    while i < 5
        invariant
            i <= 5,
            forall|j: int| 0 <= j < i ==> STATE_CREATED_DIRS@[j]@ != path@,
        decreases 5 - i,
    {
        if str_eq(STATE_CREATED_DIRS[i], path) {
            assert(str_views(STATE_CREATED_DIRS@)[i as int] == path@);
            return true;
        }
        i = i + 1;
    }
    assert forall|j: int| 0 <= j < str_views(STATE_CREATED_DIRS@).len() implies str_views(
        STATE_CREATED_DIRS@,
    )[j] != path@ by {
        assert(str_views(STATE_CREATED_DIRS@)[j] == STATE_CREATED_DIRS@[j]@);
    }
    false
}

// ---------------------------------------------------------------------------
// The journal
// ---------------------------------------------------------------------------

pub const JOURNAL_HEADER: &'static str = "BOOTART-JOURNAL\t1";

/// What the transaction does.
#[derive(Debug, Clone, Copy, PartialEq, Eq, Structural)]
pub enum TransactionKind {
    Install,
    Uninstall,
}

/// How far the transaction as a whole got.
#[derive(Debug, Clone, Copy, PartialEq, Eq, Structural)]
pub enum JournalPhase {
    Bootstrap,
    Ready,
    Cleanup,
    CleanupFinal,
    RollbackCleanup,
}

/// How far the transaction got with one path.
#[derive(Debug, Clone, Copy, PartialEq, Eq, Structural)]
pub enum EntryProgress {
    Planned,
    InProgress,
    Applied,
}

/// One managed path.
#[derive(Debug, Clone, PartialEq, Eq)]
pub struct JournalEntry {
    pub path: String,
    pub preimage: Preimage,
    pub progress: EntryProgress,
}

#[verifier::ext_equal]
pub struct JournalEntryView {
    pub path: Seq<char>,
    pub preimage: PreimageView,
    pub progress: EntryProgress,
}

impl View for JournalEntry {
    type V = JournalEntryView;

    open spec fn view(&self) -> JournalEntryView {
        JournalEntryView { path: self.path@, preimage: self.preimage@, progress: self.progress }
    }
}

/// A transaction's journal.
#[derive(Debug, Clone, PartialEq, Eq)]
pub struct Journal {
    pub transaction: String,
    pub kind: TransactionKind,
    pub phase: JournalPhase,
    pub entries: Vec<JournalEntry>,
    pub previous_manifest: Preimage,
    pub created_dirs: Vec<String>,
    pub state_created_dirs: Vec<String>,
    pub rollback_created_dirs: Vec<String>,
}

#[verifier::ext_equal]
pub struct JournalView {
    pub transaction: Seq<char>,
    pub kind: TransactionKind,
    pub phase: JournalPhase,
    pub entries: Seq<JournalEntryView>,
    pub previous_manifest: PreimageView,
    pub created_dirs: Seq<Seq<char>>,
    pub state_created_dirs: Seq<Seq<char>>,
    pub rollback_created_dirs: Seq<Seq<char>>,
}

impl View for Journal {
    type V = JournalView;

    open spec fn view(&self) -> JournalView {
        JournalView {
            transaction: self.transaction@,
            kind: self.kind,
            phase: self.phase,
            entries: self.entries@.map_values(|e: JournalEntry| e@),
            previous_manifest: self.previous_manifest@,
            created_dirs: string_views(self.created_dirs@),
            state_created_dirs: string_views(self.state_created_dirs@),
            rollback_created_dirs: string_views(self.rollback_created_dirs@),
        }
    }
}

pub open spec fn kind_name(k: TransactionKind) -> Seq<char> {
    match k {
        TransactionKind::Install => "install"@,
        TransactionKind::Uninstall => "uninstall"@,
    }
}

pub open spec fn phase_name(p: JournalPhase) -> Seq<char> {
    match p {
        JournalPhase::Bootstrap => "bootstrap"@,
        JournalPhase::Ready => "ready"@,
        JournalPhase::Cleanup => "cleanup"@,
        JournalPhase::CleanupFinal => "cleanup-final"@,
        JournalPhase::RollbackCleanup => "rollback-cleanup"@,
    }
}

pub open spec fn progress_name(p: EntryProgress) -> Seq<char> {
    match p {
        EntryProgress::Planned => "planned"@,
        EntryProgress::InProgress => "in-progress"@,
        EntryProgress::Applied => "applied"@,
    }
}

/// The three lists of directories a journal records.
pub enum DirList {
    Created,
    State,
    Rollback,
}

pub open spec fn dir_tag(d: DirList) -> Seq<char> {
    match d {
        DirList::Created => "created-dir"@,
        DirList::State => "state-created-dir"@,
        DirList::Rollback => "rollback-created-dir"@,
    }
}

/// Created payload directories must be payload parents; the others state
/// directories.
pub open spec fn dir_allowed(d: DirList, p: Seq<char>) -> bool {
    match d {
        DirList::Created => spec_payload_parent_allowed(p),
        _ => spec_state_dir_allowed(p),
    }
}

/// Text as the lowercase hex of its UTF-8 bytes.
pub open spec fn text_field(t: Seq<char>) -> Seq<char> {
    spec_encode_hex(encode_utf8(t))
}

pub open spec fn dir_record(d: DirList, p: Seq<char>) -> Seq<char> {
    join_on(seq![dir_tag(d), text_field(p)], '\t')
}

pub open spec fn entry_record(e: JournalEntryView) -> Seq<char> {
    join_on(
        seq!["file"@, text_field(e.path), progress_name(e.progress)] + spec_preimage_fields(
            e.preimage,
        ),
        '\t',
    )
}

/// The five records every journal starts with.
pub open spec fn header_records(j: JournalView) -> Seq<Seq<char>> {
    seq![
        JOURNAL_HEADER@,
        "transaction\t"@ + j.transaction,
        "kind\t"@ + kind_name(j.kind),
        "phase\t"@ + phase_name(j.phase),
        join_on(seq!["previous-manifest"@] + spec_preimage_fields(j.previous_manifest), '\t'),
    ]
}

pub open spec fn dir_records(d: DirList, ps: Seq<Seq<char>>) -> Seq<Seq<char>> {
    ps.map_values(|p: Seq<char>| dir_record(d, p))
}

/// Every record of a journal, in the order they are written.
pub open spec fn journal_records(j: JournalView) -> Seq<Seq<char>> {
    header_records(j) + dir_records(DirList::Created, j.created_dirs) + dir_records(
        DirList::State,
        j.state_created_dirs,
    ) + dir_records(DirList::Rollback, j.rollback_created_dirs) + j.entries.map_values(
        |e: JournalEntryView| entry_record(e),
    )
}

/// Records, each ended by a newline.
pub open spec fn terminated(records: Seq<Seq<char>>) -> Seq<char> {
    concat_all(records.map_values(|r: Seq<char>| r.push('\n')))
}

/// The bytes a journal is written as.
pub open spec fn spec_serialize_journal(j: JournalView) -> Seq<u8> {
    encode_utf8(terminated(journal_records(j)))
}

// ---------------------------------------------------------------------------
// Reading a journal
// ---------------------------------------------------------------------------

/// What the records after the header have given so far.
#[verifier::ext_equal]
pub struct JournalBody {
    pub entries: Seq<JournalEntryView>,
    pub created_dirs: Seq<Seq<char>>,
    pub state_created_dirs: Seq<Seq<char>>,
    pub rollback_created_dirs: Seq<Seq<char>>,
}

pub open spec fn empty_body() -> JournalBody {
    JournalBody {
        entries: Seq::empty(),
        created_dirs: Seq::empty(),
        state_created_dirs: Seq::empty(),
        rollback_created_dirs: Seq::empty(),
    }
}

pub open spec fn body_dirs(b: JournalBody, d: DirList) -> Seq<Seq<char>> {
    match d {
        DirList::Created => b.created_dirs,
        DirList::State => b.state_created_dirs,
        DirList::Rollback => b.rollback_created_dirs,
    }
}

/// `b` with its list `d` replaced by `ps`.
pub open spec fn with_dirs(b: JournalBody, d: DirList, ps: Seq<Seq<char>>) -> JournalBody {
    match d {
        DirList::Created => JournalBody {
            entries: b.entries,
            created_dirs: ps,
            state_created_dirs: b.state_created_dirs,
            rollback_created_dirs: b.rollback_created_dirs,
        },
        DirList::State => JournalBody {
            entries: b.entries,
            created_dirs: b.created_dirs,
            state_created_dirs: ps,
            rollback_created_dirs: b.rollback_created_dirs,
        },
        DirList::Rollback => JournalBody {
            entries: b.entries,
            created_dirs: b.created_dirs,
            state_created_dirs: b.state_created_dirs,
            rollback_created_dirs: ps,
        },
    }
}

pub open spec fn dir_of_tag(tag: Seq<char>) -> Option<DirList> {
    if tag == "created-dir"@ {
        Some(DirList::Created)
    } else if tag == "state-created-dir"@ {
        Some(DirList::State)
    } else if tag == "rollback-created-dir"@ {
        Some(DirList::Rollback)
    } else {
        None
    }
}

pub open spec fn spec_parse_progress(s: Seq<char>) -> Option<EntryProgress> {
    if s == "planned"@ {
        Some(EntryProgress::Planned)
    } else if s == "in-progress"@ {
        Some(EntryProgress::InProgress)
    } else if s == "applied"@ {
        Some(EntryProgress::Applied)
    } else {
        None
    }
}

pub open spec fn entry_paths(es: Seq<JournalEntryView>) -> Seq<Seq<char>> {
    es.map_values(|e: JournalEntryView| e.path)
}

/// One record after the header, read on top of `b`: a directory record
/// adds a new allowed directory to its list, a file record a new allowlisted
/// path with its progress and preimage; anything else is refused.
pub open spec fn parse_record(b: JournalBody, line: Seq<char>, t: Seq<char>) -> Option<JournalBody> {
    let f = split_on(line, '\t');
    if f.len() == 2 && dir_of_tag(f[0]) is Some {
        let d = dir_of_tag(f[0])->0;
        match spec_decode_text(f[1]) {
            Some(p) => if dir_allowed(d, p) && !body_dirs(b, d).contains(p) {
                Some(with_dirs(b, d, body_dirs(b, d).push(p)))
            } else {
                None
            },
            None => None,
        }
    } else if f.len() >= 3 && f[0] == "file"@ {
        match (
            spec_decode_text(f[1]),
            spec_parse_progress(f[2]),
            spec_parse_preimage(f.skip(3), Some(t)),
        ) {
            (Some(path), Some(progress), Some(preimage)) => if spec_payload_path_allowed(path)
                && !entry_paths(b.entries).contains(path) {
                Some(
                    JournalBody {
                        entries: b.entries.push(JournalEntryView { path, preimage, progress }),
                        created_dirs: b.created_dirs,
                        state_created_dirs: b.state_created_dirs,
                        rollback_created_dirs: b.rollback_created_dirs,
                    },
                )
            } else {
                None
            },
            _ => None,
        }
    } else {
        None
    }
}

/// The records after the header, read in order.
pub open spec fn parse_records(recs: Seq<Seq<char>>, t: Seq<char>) -> Option<JournalBody>
    decreases recs.len(),
{
    if recs.len() == 0 {
        Some(empty_body())
    } else {
        match parse_records(recs.drop_last(), t) {
            Some(b) => parse_record(b, recs.last(), t),
            None => None,
        }
    }
}

pub open spec fn spec_parse_kind(line: Seq<char>) -> Option<TransactionKind> {
    if line == "kind\tinstall"@ {
        Some(TransactionKind::Install)
    } else if line == "kind\tuninstall"@ {
        Some(TransactionKind::Uninstall)
    } else {
        None
    }
}

pub open spec fn spec_parse_phase(line: Seq<char>) -> Option<JournalPhase> {
    if line == "phase\tbootstrap"@ {
        Some(JournalPhase::Bootstrap)
    } else if line == "phase\tready"@ {
        Some(JournalPhase::Ready)
    } else if line == "phase\tcleanup"@ {
        Some(JournalPhase::Cleanup)
    } else if line == "phase\tcleanup-final"@ {
        Some(JournalPhase::CleanupFinal)
    } else if line == "phase\trollback-cleanup"@ {
        Some(JournalPhase::RollbackCleanup)
    } else {
        None
    }
}

pub open spec fn spec_parse_previous(line: Seq<char>, t: Seq<char>) -> Option<PreimageView> {
    let f = split_on(line, '\t');
    if f[0] == "previous-manifest"@ {
        spec_parse_preimage(f.skip(1), Some(t))
    } else {
        None
    }
}

/// The cross-record rules of a journal: it manages at least one path; an
/// install replaced no manifest and never reaches cleanup; nothing was
/// touched during bootstrap; an uninstall past bootstrap removed a manifest;
/// every directory rollback created is a state directory.
pub open spec fn journal_consistent(j: JournalView) -> bool {
    &&& j.entries.len() > 0
    &&& j.kind == TransactionKind::Install ==> j.previous_manifest == PreimageView::Absent
    &&& j.kind == TransactionKind::Install ==> j.phase != JournalPhase::Cleanup && j.phase
        != JournalPhase::CleanupFinal
    &&& j.phase == JournalPhase::Bootstrap ==> forall|i: int|
        0 <= i < j.entries.len() ==> #[trigger] j.entries[i].progress == EntryProgress::Planned
    &&& (j.phase == JournalPhase::Ready || j.phase == JournalPhase::Cleanup || j.phase
        == JournalPhase::CleanupFinal) && j.kind == TransactionKind::Uninstall
        ==> j.previous_manifest is File
    &&& forall|i: int|
        0 <= i < j.rollback_created_dirs.len() ==> j.state_created_dirs.contains(
            #[trigger] j.rollback_created_dirs[i],
        )
}

/// An install that recorded no rollback directories rolls back every state
/// directory it created.
pub open spec fn normalized(j: JournalView) -> JournalView {
    if j.rollback_created_dirs.len() == 0 && j.kind == TransactionKind::Install {
        JournalView { rollback_created_dirs: j.state_created_dirs, ..j }
    } else {
        j
    }
}

/// The journal that text spells, if it is one.
pub open spec fn spec_parse_journal_text(text: Seq<char>) -> Option<JournalView> {
    let ls = lines(text);
    if ls.len() < 5 || ls[0] != JOURNAL_HEADER@ || !has_prefix(ls[1], "transaction\t"@) {
        None
    } else {
        let t = ls[1].skip("transaction\t"@.len() as int);
        if !spec_safe_transaction_id(t) {
            None
        } else {
            match (
                spec_parse_kind(ls[2]),
                spec_parse_phase(ls[3]),
                spec_parse_previous(ls[4], t),
                parse_records(ls.skip(5), t),
            ) {
                (Some(kind), Some(phase), Some(previous_manifest), Some(b)) => {
                    let j = JournalView {
                        transaction: t,
                        kind,
                        phase,
                        entries: b.entries,
                        previous_manifest,
                        created_dirs: b.created_dirs,
                        state_created_dirs: b.state_created_dirs,
                        rollback_created_dirs: b.rollback_created_dirs,
                    };
                    if journal_consistent(j) {
                        Some(normalized(j))
                    } else {
                        None
                    }
                },
                _ => None,
            }
        }
    }
}

/// The journal that bytes spell, if they are UTF-8 and spell one.
pub open spec fn spec_parse_journal(bytes: Seq<u8>) -> Option<JournalView> {
    if valid_utf8(bytes) {
        spec_parse_journal_text(decode_utf8(bytes))
    } else {
        None
    }
}

// ---------------------------------------------------------------------------
// Writing a journal
// ---------------------------------------------------------------------------

pub(crate) proof fn lemma_terminated_push(rs: Seq<Seq<char>>, r: Seq<char>)
    ensures
        terminated(rs.push(r)) == terminated(rs) + r.push('\n'),
{
    let f = |x: Seq<char>| x.push('\n');
    assert(rs.push(r).map_values(f) =~= rs.map_values(f).push(r.push('\n')));
    assert(rs.push(r).map_values(f).drop_last() =~= rs.map_values(f));
}

pub(crate) proof fn lemma_terminated_concat(a: Seq<Seq<char>>, b: Seq<Seq<char>>)
    ensures
        terminated(a + b) == terminated(a) + terminated(b),
    decreases b.len(),
{
    if b.len() == 0 {
        assert(a + b =~= a);
        assert(b.map_values(|x: Seq<char>| x.push('\n')) =~= Seq::<Seq<char>>::empty());
        assert(terminated(b) =~= Seq::<char>::empty());
        assert(terminated(a) + terminated(b) =~= terminated(a));
    } else {
        let c = b.drop_last();
        lemma_terminated_concat(a, c);
        assert(a + b =~= (a + c).push(b.last()));
        assert(b =~= c.push(b.last()));
        lemma_terminated_push(a + c, b.last());
        lemma_terminated_push(c, b.last());
    }
}

/// Appends `fields` joined by tabs, and a newline.
pub(crate) fn push_record(out: &mut Vec<char>, fields: &Vec<String>)
    requires
        fields@.len() > 0,
    ensures
        final(out)@ == old(out)@ + join_on(string_views(fields@), '\t').push('\n'),
{
    let ghost start = out@;
    let ghost views = string_views(fields@);
    let mut i: usize = 0;
    while i < fields.len()
        invariant
            0 <= i <= fields@.len(),
            fields@.len() > 0,
            views == string_views(fields@),
            out@ == start + join_on(views.take(i as int), '\t'),
        decreases fields.len() - i,
    {
        let ghost before = out@;
        if i > 0 {
            out.push('\t');
        }
        let v = chars_of(fields[i].as_str());
        extend_range(out, v.as_slice(), 0, v.len());
        proof {
            assert(v@.subrange(0, v@.len() as int) =~= views[i as int]);
            assert(views.take(i + 1).drop_last() =~= views.take(i as int));
            if i == 0 {
                assert(join_on(views.take(1), '\t') == views.take(1)[0]);
                assert(out@ =~= start + join_on(views.take(1), '\t'));
            } else {
                assert(join_on(views.take(i + 1), '\t') == join_on(views.take(i as int), '\t')
                    + seq!['\t'] + views[i as int]);
                assert(out@ =~= start + join_on(views.take(i + 1), '\t'));
            }
        }
        i = i + 1;
    }
    assert(views.take(fields@.len() as int) =~= views);
    out.push('\n');
    assert(out@ =~= start + join_on(views, '\t').push('\n'));
}

/// A record of one field.
pub(crate) fn push_line(out: &mut Vec<char>, line: String)
    ensures
        final(out)@ == old(out)@ + line@.push('\n'),
{
    let fields = vec![line];
    assert(string_views(fields@) =~= seq![fields@[0]@]);
    push_record(out, &fields);
}

fn kind_name_exec(k: TransactionKind) -> (r: &'static str)
    ensures
        r@ == kind_name(k),
{
    match k {
        TransactionKind::Install => "install",
        TransactionKind::Uninstall => "uninstall",
    }
}

fn phase_name_exec(p: JournalPhase) -> (r: &'static str)
    ensures
        r@ == phase_name(p),
{
    match p {
        JournalPhase::Bootstrap => "bootstrap",
        JournalPhase::Ready => "ready",
        JournalPhase::Cleanup => "cleanup",
        JournalPhase::CleanupFinal => "cleanup-final",
        JournalPhase::RollbackCleanup => "rollback-cleanup",
    }
}

fn progress_name_exec(p: EntryProgress) -> (r: &'static str)
    ensures
        r@ == progress_name(p),
{
    match p {
        EntryProgress::Planned => "planned",
        EntryProgress::InProgress => "in-progress",
        EntryProgress::Applied => "applied",
    }
}

pub(crate) fn dir_tag_exec(d: &DirList) -> (r: &'static str)
    ensures
        r@ == dir_tag(*d),
{
    match d {
        DirList::Created => "created-dir",
        DirList::State => "state-created-dir",
        DirList::Rollback => "rollback-created-dir",
    }
}

pub(crate) fn push_dir_records(out: &mut Vec<char>, d: DirList, dirs: &Vec<String>)
    ensures
        final(out)@ == old(out)@ + terminated(dir_records(d, string_views(dirs@))),
{
    let ghost start = out@;
    let ghost recs = dir_records(d, string_views(dirs@));
    let tag = dir_tag_exec(&d);
    let mut i: usize = 0;
    assert(recs.take(0) =~= Seq::<Seq<char>>::empty());
    assert(terminated(Seq::<Seq<char>>::empty()) =~= Seq::<char>::empty());
    while i < dirs.len()
        invariant
            i <= dirs@.len(),
            tag@ == dir_tag(d),
            recs == dir_records(d, string_views(dirs@)),
            out@ == start + terminated(recs.take(i as int)),
        decreases dirs.len() - i,
    {
        let fields = vec![owned(tag), crate::codec::encode_text(dirs[i].as_str())];
        let ghost before = out@;
        push_record(out, &fields);
        proof {
            assert(string_views(fields@) =~= seq![dir_tag(d), text_field(dirs@[i as int]@)]);
            assert(recs[i as int] == dir_record(d, dirs@[i as int]@));
            assert(recs.take(i + 1) =~= recs.take(i as int).push(recs[i as int]));
            lemma_terminated_push(recs.take(i as int), recs[i as int]);
            assert(out@ =~= start + terminated(recs.take(i + 1)));
        }
        i = i + 1;
    }
    assert(recs.take(dirs@.len() as int) =~= recs);
}

fn entry_fields(e: &JournalEntry) -> (r: Vec<String>)
    ensures
        r@.len() > 0,
        join_on(string_views(r@), '\t') == entry_record(e@),
{
    let mut r: Vec<String> = Vec::new();
    r.push(String::from_str("file"));
    r.push(crate::codec::encode_text(e.path.as_str()));
    r.push(owned(progress_name_exec(e.progress)));
    let p = preimage_fields(&e.preimage);
    assert(string_views(p@).take(0) =~= Seq::<Seq<char>>::empty());
    assert(string_views(r@) =~= seq!["file"@, text_field(e.path@), progress_name(e.progress)]
        + string_views(p@).take(0));
    let mut k: usize = 0;
    while k < p.len()
        invariant
            k <= p@.len(),
            string_views(p@) == spec_preimage_fields(e.preimage@),
            string_views(r@) == seq!["file"@, text_field(e.path@), progress_name(e.progress)]
                + string_views(p@).take(k as int),
        decreases p.len() - k,
    {
        let ghost before = r@;
        r.push(p[k].clone());
        proof {
            assert(string_views(r@) =~= string_views(before).push(p@[k as int]@));
            assert(string_views(p@).take(k + 1) =~= string_views(p@).take(k as int).push(
                p@[k as int]@,
            ));
        }
        k = k + 1;
    }
    assert(string_views(p@).take(p@.len() as int) =~= string_views(p@));
    assert(string_views(r@) =~= seq!["file"@, text_field(e@.path), progress_name(e@.progress)]
        + spec_preimage_fields(e@.preimage));
    r
}

/// The bytes `journal` is written as.
pub fn serialize_journal(journal: &Journal) -> (r: Vec<u8>)
    ensures
        r@ == spec_serialize_journal(journal@),
{
    let j = journal;
    let ghost jv = j@;
    let mut out: Vec<char> = Vec::new();
    push_line(&mut out, owned(JOURNAL_HEADER));
    push_line(&mut out, concat2("transaction\t", j.transaction.as_str()));
    push_line(&mut out, concat2("kind\t", kind_name_exec(j.kind)));
    push_line(&mut out, concat2("phase\t", phase_name_exec(j.phase)));
    let mut prev: Vec<String> = vec![String::from_str("previous-manifest")];
    let pf = preimage_fields(&j.previous_manifest);
    assert(string_views(pf@).take(0) =~= Seq::<Seq<char>>::empty());
    assert(string_views(prev@) =~= seq!["previous-manifest"@] + string_views(pf@).take(0));
    let mut k: usize = 0;
    while k < pf.len()
        invariant
            k <= pf@.len(),
            string_views(pf@) == spec_preimage_fields(jv.previous_manifest),
            string_views(prev@) == seq!["previous-manifest"@] + string_views(pf@).take(k as int),
        decreases pf.len() - k,
    {
        let ghost before = prev@;
        prev.push(pf[k].clone());
        proof {
            assert(string_views(prev@) =~= string_views(before).push(pf@[k as int]@));
            assert(string_views(pf@).take(k + 1) =~= string_views(pf@).take(k as int).push(
                pf@[k as int]@,
            ));
        }
        k = k + 1;
    }
    assert(string_views(pf@).take(pf@.len() as int) =~= string_views(pf@));
    assert(string_views(pf@).take(pf@.len() as int) =~= string_views(pf@));
    assert(string_views(prev@) =~= seq!["previous-manifest"@] + spec_preimage_fields(
        jv.previous_manifest,
    ));
    push_record(&mut out, &prev);
    proof {
        let h = header_records(jv);
        assert(h.take(0) =~= Seq::<Seq<char>>::empty());
        assert(terminated(Seq::<Seq<char>>::empty()) =~= Seq::<char>::empty());
        lemma_terminated_push(h.take(0), h[0]);
        assert(h.take(1) =~= h.take(0).push(h[0]));
        lemma_terminated_push(h.take(1), h[1]);
        assert(h.take(2) =~= h.take(1).push(h[1]));
        lemma_terminated_push(h.take(2), h[2]);
        assert(h.take(3) =~= h.take(2).push(h[2]));
        lemma_terminated_push(h.take(3), h[3]);
        assert(h.take(4) =~= h.take(3).push(h[3]));
        lemma_terminated_push(h.take(4), h[4]);
        assert(h.take(5) =~= h.take(4).push(h[4]));
        assert(h.take(5) =~= h);
        assert(out@ =~= terminated(h));
    }
    push_dir_records(&mut out, DirList::Created, &j.created_dirs);
    push_dir_records(&mut out, DirList::State, &j.state_created_dirs);
    push_dir_records(&mut out, DirList::Rollback, &j.rollback_created_dirs);
    let ghost recs = header_records(jv) + dir_records(DirList::Created, jv.created_dirs) + dir_records(
        DirList::State,
        jv.state_created_dirs,
    ) + dir_records(DirList::Rollback, jv.rollback_created_dirs);
    let ghost erecs = jv.entries.map_values(|e: JournalEntryView| entry_record(e));
    proof {
        let h = header_records(jv);
        let c = dir_records(DirList::Created, jv.created_dirs);
        let st = dir_records(DirList::State, jv.state_created_dirs);
        lemma_terminated_concat(h, c);
        lemma_terminated_concat(h + c, st);
        lemma_terminated_concat(h + c + st, dir_records(DirList::Rollback, jv.rollback_created_dirs));
        assert(out@ =~= terminated(recs));
        assert(erecs.take(0) =~= Seq::<Seq<char>>::empty());
        assert(recs + erecs.take(0) =~= recs);
    }
    let mut i: usize = 0;
    while i < j.entries.len()
        invariant
            i <= j.entries@.len(),
            jv == j@,
            erecs == jv.entries.map_values(|e: JournalEntryView| entry_record(e)),
            out@ == terminated(recs + erecs.take(i as int)),
        decreases j.entries.len() - i,
    {
        let fields = entry_fields(&j.entries[i]);
        let ghost before = out@;
        push_record(&mut out, &fields);
        proof {
            assert(jv.entries[i as int] == j.entries@[i as int]@);
            assert(erecs[i as int] == entry_record(jv.entries[i as int]));
            assert(recs + erecs.take(i + 1) =~= (recs + erecs.take(i as int)).push(erecs[i as int]));
            lemma_terminated_push(recs + erecs.take(i as int), erecs[i as int]);
        }
        i = i + 1;
    }
    assert(erecs.take(jv.entries.len() as int) =~= erecs);
    assert(recs + erecs =~= journal_records(jv));
    let text = crate::text::string_from_chars(out.as_slice());
    crate::text::str_bytes(text.as_str())
}

// ---------------------------------------------------------------------------
// Reading a journal, executably
// ---------------------------------------------------------------------------

pub open spec fn char_views(v: Seq<Vec<char>>) -> Seq<Seq<char>> {
    v.map_values(|x: Vec<char>| x@)
}

pub open spec fn entry_views(v: Seq<JournalEntry>) -> Seq<JournalEntryView> {
    v.map_values(|e: JournalEntry| e@)
}

/// The body that the vectors hold.
pub open spec fn body_of(
    entries: Seq<JournalEntry>,
    created: Seq<String>,
    state: Seq<String>,
    rollback: Seq<String>,
) -> JournalBody {
    JournalBody {
        entries: entry_views(entries),
        created_dirs: string_views(created),
        state_created_dirs: string_views(state),
        rollback_created_dirs: string_views(rollback),
    }
}

fn corrupt(reason: &str) -> (e: InstallError)
    ensures
        e is CorruptJournal,
{
    InstallError::CorruptJournal(String::from_str(reason))
}

/// The strings `f[start..]`.
pub(crate) fn strings_from(f: &Vec<Vec<char>>, start: usize) -> (r: Vec<String>)
    requires
        start <= f@.len(),
    ensures
        string_views(r@) == char_views(f@).skip(start as int),
{
    let mut r: Vec<String> = Vec::new();
    let mut i: usize = start;
    while i < f.len()
        invariant
            start <= i <= f@.len(),
            string_views(r@) == char_views(f@).subrange(start as int, i as int),
        decreases f.len() - i,
    {
        let ghost before = r@;
        r.push(string_from_chars(f[i].as_slice()));
        assert(string_views(r@) =~= string_views(before).push(f@[i as int]@));
        assert(char_views(f@).subrange(start as int, i + 1) =~= char_views(f@).subrange(
            start as int,
            i as int,
        ).push(f@[i as int]@));
        i = i + 1;
    }
    assert(char_views(f@).subrange(start as int, f@.len() as int) =~= char_views(f@).skip(
        start as int,
    ));
    r
}

fn dir_of_tag_exec(tag: &str) -> (r: Option<DirList>)
    ensures
        r == dir_of_tag(tag@),
{
    if str_eq(tag, "created-dir") {
        Some(DirList::Created)
    } else if str_eq(tag, "state-created-dir") {
        Some(DirList::State)
    } else if str_eq(tag, "rollback-created-dir") {
        Some(DirList::Rollback)
    } else {
        None
    }
}

fn parse_progress(s: &str) -> (r: Option<EntryProgress>)
    ensures
        r == spec_parse_progress(s@),
{
    if str_eq(s, "planned") {
        Some(EntryProgress::Planned)
    } else if str_eq(s, "in-progress") {
        Some(EntryProgress::InProgress)
    } else if str_eq(s, "applied") {
        Some(EntryProgress::Applied)
    } else {
        None
    }
}

fn entries_contain_path(entries: &Vec<JournalEntry>, path: &str) -> (r: bool)
    ensures
        r == entry_paths(entry_views(entries@)).contains(path@),
{
    let ghost ps = entry_paths(entry_views(entries@));
    let mut i: usize = 0;
    while i < entries.len()
        invariant
            i <= entries@.len(),
            ps == entry_paths(entry_views(entries@)),
            forall|k: int| 0 <= k < i ==> ps[k] != path@,
        decreases entries.len() - i,
    {
        assert(ps[i as int] == entries@[i as int].path@);
        if str_eq(entries[i].path.as_str(), path) {
            return true;
        }
        i = i + 1;
    }
    false
}

/// Reads one record after the header into the lists.
fn parse_record_exec(
    entries: &mut Vec<JournalEntry>,
    created: &mut Vec<String>,
    state: &mut Vec<String>,
    rollback: &mut Vec<String>,
    line: &[char],
    transaction: &str,
) -> (r: bool)
    ensures
        r <==> parse_record(
            body_of(old(entries)@, old(created)@, old(state)@, old(rollback)@),
            line@,
            transaction@,
        ) is Some,
        r ==> parse_record(
            body_of(old(entries)@, old(created)@, old(state)@, old(rollback)@),
            line@,
            transaction@,
        ) == Some(body_of(final(entries)@, final(created)@, final(state)@, final(rollback)@)),
{
    proof {
        reveal_strlit("file");
    }
    let ghost b = body_of(entries@, created@, state@, rollback@);
    let f = split_on_exec(line, '\t');
    let ghost fv = split_on(line@, '\t');
    assert(char_views(f@) == fv);
    if f.len() == 2 {
        let tag = string_from_chars(f[0].as_slice());
        assert(fv[0] == f@[0]@);
        if let Some(d) = dir_of_tag_exec(tag.as_str()) {
            let enc = string_from_chars(f[1].as_slice());
            assert(fv[1] == f@[1]@);
            let p = match crate::codec::decode_text(enc.as_str()) {
                Some(p) => p,
                None => {
                    return false;
                },
            };
            match d {
                DirList::Created => {
                    if !payload_parent_allowed(p.as_str()) || crate::text::strings_contain(
                        created,
                        p.as_str(),
                    ) {
                        return false;
                    }
                    let ghost before = created@;
                    created.push(p);
                    assert(string_views(created@) =~= string_views(before).push(p@));
                },
                DirList::State => {
                    if !state_dir_allowed(p.as_str()) || crate::text::strings_contain(
                        state,
                        p.as_str(),
                    ) {
                        return false;
                    }
                    let ghost before = state@;
                    state.push(p);
                    assert(string_views(state@) =~= string_views(before).push(p@));
                },
                DirList::Rollback => {
                    if !state_dir_allowed(p.as_str()) || crate::text::strings_contain(
                        rollback,
                        p.as_str(),
                    ) {
                        return false;
                    }
                    let ghost before = rollback@;
                    rollback.push(p);
                    assert(string_views(rollback@) =~= string_views(before).push(p@));
                },
            }
            return true;
        }
    }
    if f.len() < 3 {
        return false;
    }
    let tag = string_from_chars(f[0].as_slice());
    assert(fv[0] == f@[0]@);
    if !str_eq(tag.as_str(), "file") {
        return false;
    }
    let enc = string_from_chars(f[1].as_slice());
    assert(fv[1] == f@[1]@);
    let path = match crate::codec::decode_text(enc.as_str()) {
        Some(p) => p,
        None => {
            return false;
        },
    };
    let prog = string_from_chars(f[2].as_slice());
    assert(fv[2] == f@[2]@);
    let progress = match parse_progress(prog.as_str()) {
        Some(p) => p,
        None => {
            return false;
        },
    };
    let rest = strings_from(&f, 3);
    let preimage = match crate::state::parse_preimage(rest.as_slice(), Some(transaction)) {
        Some(p) => p,
        None => {
            return false;
        },
    };
    if !payload_path_allowed(path.as_str()) || entries_contain_path(entries, path.as_str()) {
        return false;
    }
    let ghost before = entries@;
    let e = JournalEntry { path, preimage, progress };
    entries.push(e);
    assert(entry_views(entries@) =~= entry_views(before).push(e@));
    true
}

proof fn lemma_parse_records_none(recs: Seq<Seq<char>>, n: int, t: Seq<char>)
    requires
        0 <= n <= recs.len(),
        parse_records(recs.take(n), t) is None,
    ensures
        parse_records(recs, t) is None,
    decreases recs.len() - n,
{
    if n < recs.len() {
        assert(recs.take(n + 1).drop_last() =~= recs.take(n));
        lemma_parse_records_none(recs, n + 1, t);
    } else {
        assert(recs.take(n) =~= recs);
    }
}

fn copy_strings(v: &Vec<String>) -> (r: Vec<String>)
    ensures
        string_views(r@) == string_views(v@),
{
    let mut r: Vec<String> = Vec::new();
    let mut i: usize = 0;
    while i < v.len()
        invariant
            i <= v@.len(),
            string_views(r@) == string_views(v@).take(i as int),
        decreases v.len() - i,
    {
        let ghost before = r@;
        r.push(v[i].clone());
        assert(string_views(r@) =~= string_views(before).push(v@[i as int]@));
        assert(string_views(v@).take(i + 1) =~= string_views(v@).take(i as int).push(v@[i as int]@));
        i = i + 1;
    }
    assert(string_views(v@).take(v@.len() as int) =~= string_views(v@));
    r
}

/// Reads a journal, refusing anything that is not exactly what a transaction
/// writes: the header, the transaction, kind, phase and previous manifest,
/// then allowlisted directories and paths, each once, with consistent
/// progress.
pub fn parse_journal(contents: &[u8]) -> (r: Result<Journal, InstallError>)
    ensures
        r is Ok <==> spec_parse_journal(contents@) is Some,
        r matches Ok(j) ==> Some(j@) == spec_parse_journal(contents@),
        r matches Err(e) ==> e is CorruptJournal,
{
    let text = match crate::text::utf8_to_str(contents) {
        Some(t) => t,
        None => {
            return Err(corrupt("journal is not UTF-8"));
        },
    };
    let chars = chars_of(text);
    let ls = crate::text::lines_exec(chars.as_slice());
    let ghost lv = lines(text@);
    if ls.len() < 1 {
        return Err(corrupt("missing versioned header"));
    }
    let header = string_from_chars(ls[0].as_slice());
    if !str_eq(header.as_str(), JOURNAL_HEADER) {
        return Err(corrupt("missing versioned header"));
    }
    if ls.len() < 5 {
        return Err(corrupt("journal header is incomplete"));
    }
    let line1 = string_from_chars(ls[1].as_slice());
    let transaction = match crate::text::strip_prefix(line1.as_str(), "transaction\t") {
        Some(t) => {
            if !crate::dracut_systemd::safe_transaction_id(t) {
                return Err(corrupt("invalid transaction"));
            }
            owned(t)
        },
        None => {
            return Err(corrupt("invalid transaction"));
        },
    };
    let line2 = string_from_chars(ls[2].as_slice());
    let kind = if str_eq(line2.as_str(), "kind\tinstall") {
        TransactionKind::Install
    } else if str_eq(line2.as_str(), "kind\tuninstall") {
        TransactionKind::Uninstall
    } else {
        return Err(corrupt("invalid kind"));
    };
    let line3 = string_from_chars(ls[3].as_slice());
    let phase = if str_eq(line3.as_str(), "phase\tbootstrap") {
        JournalPhase::Bootstrap
    } else if str_eq(line3.as_str(), "phase\tready") {
        JournalPhase::Ready
    } else if str_eq(line3.as_str(), "phase\tcleanup") {
        JournalPhase::Cleanup
    } else if str_eq(line3.as_str(), "phase\tcleanup-final") {
        JournalPhase::CleanupFinal
    } else if str_eq(line3.as_str(), "phase\trollback-cleanup") {
        JournalPhase::RollbackCleanup
    } else {
        return Err(corrupt("invalid phase"));
    };
    let pf = split_on_exec(ls[4].as_slice(), '\t');
    proof {
        crate::text_facts::lemma_split_on_nonempty(lv[4], '\t');
    }
    let tag = string_from_chars(pf[0].as_slice());
    if !str_eq(tag.as_str(), "previous-manifest") {
        return Err(corrupt("invalid manifest preimage record"));
    }
    let rest = strings_from(&pf, 1);
    let previous_manifest = match crate::state::parse_preimage(
        rest.as_slice(),
        Some(transaction.as_str()),
    ) {
        Some(p) => p,
        None => {
            return Err(corrupt("invalid previous manifest preimage"));
        },
    };
    let mut entries: Vec<JournalEntry> = Vec::new();
    let mut created: Vec<String> = Vec::new();
    let mut state: Vec<String> = Vec::new();
    let mut rollback: Vec<String> = Vec::new();
    let ghost t = transaction@;
    let mut i: usize = 5;
    assert(lv.subrange(5, 5) =~= Seq::<Seq<char>>::empty());
    assert(body_of(entries@, created@, state@, rollback@) =~= empty_body());
    assert(parse_records(lv.skip(5), t) is None ==> spec_parse_journal(contents@) is None);
    while i < ls.len()
        invariant
            parse_records(lv.skip(5), t) is None ==> spec_parse_journal(contents@) is None,
            5 <= i <= ls@.len(),
            5 <= lv.len(),
            ls@.len() == lv.len(),
            forall|k: int| 0 <= k < ls@.len() ==> #[trigger] ls@[k]@ == lv[k],
            t == transaction@,
            parse_records(lv.subrange(5, i as int), t) == Some(
                body_of(entries@, created@, state@, rollback@),
            ),
        decreases ls.len() - i,
    {
        let ghost b0 = body_of(entries@, created@, state@, rollback@);
        let ok = parse_record_exec(
            &mut entries,
            &mut created,
            &mut state,
            &mut rollback,
            ls[i].as_slice(),
            transaction.as_str(),
        );
        proof {
            assert(lv.subrange(5, i + 1).drop_last() =~= lv.subrange(5, i as int));
            assert(lv.subrange(5, i + 1).last() == ls@[i as int]@);
        }
        if !ok {
            proof {
                assert(lv.skip(5).take(i + 1 - 5) =~= lv.subrange(5, i + 1));
                lemma_parse_records_none(lv.skip(5), i + 1 - 5, t);
            }
            return Err(corrupt("unknown or malformed record"));
        }
        i = i + 1;
    }
    assert(lv.subrange(5, lv.len() as int) =~= lv.skip(5));
    let ghost jv = JournalView {
        transaction: transaction@,
        kind,
        phase,
        entries: entry_views(entries@),
        previous_manifest: previous_manifest@,
        created_dirs: string_views(created@),
        state_created_dirs: string_views(state@),
        rollback_created_dirs: string_views(rollback@),
    };
    assert(spec_parse_journal(contents@) == if journal_consistent(jv) {
        Some(normalized(jv))
    } else {
        None
    });
    if entries.len() == 0 {
        return Err(corrupt("journal kind/preimages are inconsistent"));
    }
    let installs = kind == TransactionKind::Install;
    let absent = match &previous_manifest {
        Preimage::Absent => true,
        _ => false,
    };
    let is_file = match &previous_manifest {
        Preimage::File { .. } => true,
        _ => false,
    };
    let cleaning = phase == JournalPhase::Cleanup || phase == JournalPhase::CleanupFinal;
    if installs && (!absent || cleaning) {
        return Err(corrupt("journal kind/preimages are inconsistent"));
    }
    if (phase == JournalPhase::Ready || cleaning) && !installs && !is_file {
        return Err(corrupt("journal kind/preimages are inconsistent"));
    }
    if phase == JournalPhase::Bootstrap {
        let mut k: usize = 0;
        while k < entries.len()
            invariant
                k <= entries@.len(),
                jv.entries == entry_views(entries@),
                jv.phase == JournalPhase::Bootstrap,
                spec_parse_journal(contents@) == (if journal_consistent(jv) {
                    Some(normalized(jv))
                } else {
                    None
                }),
                forall|m: int|
                    0 <= m < k ==> #[trigger] jv.entries[m].progress == EntryProgress::Planned,
            decreases entries.len() - k,
        {
            assert(jv.entries[k as int].progress == entries@[k as int].progress);
            if entries[k].progress != EntryProgress::Planned {
                return Err(corrupt("journal kind/preimages are inconsistent"));
            }
            k = k + 1;
        }
    }
    let mut k: usize = 0;
    while k < rollback.len()
        invariant
            k <= rollback@.len(),
            spec_parse_journal(contents@) == (if journal_consistent(jv) {
                Some(normalized(jv))
            } else {
                None
            }),
            jv.rollback_created_dirs == string_views(rollback@),
            jv.state_created_dirs == string_views(state@),
            forall|m: int|
                0 <= m < k ==> jv.state_created_dirs.contains(#[trigger] jv.rollback_created_dirs[m]),
        decreases rollback.len() - k,
    {
        assert(jv.rollback_created_dirs[k as int] == rollback@[k as int]@);
        if !crate::text::strings_contain(&state, rollback[k].as_str()) {
            return Err(corrupt("journal kind/preimages are inconsistent"));
        }
        k = k + 1;
    }
    assert(journal_consistent(jv));
    if rollback.len() == 0 && kind == TransactionKind::Install {
        rollback = copy_strings(&state);
    }
    Ok(
        Journal {
            transaction,
            kind,
            phase,
            entries,
            previous_manifest,
            created_dirs: created,
            state_created_dirs: state,
            rollback_created_dirs: rollback,
        },
    )
}

// ---------------------------------------------------------------------------
// What is read back of what is written
// ---------------------------------------------------------------------------

/// A journal that its records can carry: a safe transaction, faithful
/// preimages, allowlisted paths and directories, each listed once, and
/// consistent progress.
pub open spec fn journal_ok(j: JournalView) -> bool {
    &&& spec_safe_transaction_id(j.transaction)
    &&& preimage_ok(j.previous_manifest, Some(j.transaction))
    &&& forall|k: int|
        0 <= k < j.entries.len() ==> spec_payload_path_allowed(#[trigger] j.entries[k].path)
            && preimage_ok(j.entries[k].preimage, Some(j.transaction))
    &&& distinct_seqs(entry_paths(j.entries))
    &&& forall|k: int|
        0 <= k < j.created_dirs.len() ==> dir_allowed(DirList::Created, #[trigger] j.created_dirs[k])
    &&& distinct_seqs(j.created_dirs)
    &&& forall|k: int|
        0 <= k < j.state_created_dirs.len() ==> dir_allowed(
            DirList::State,
            #[trigger] j.state_created_dirs[k],
        )
    &&& distinct_seqs(j.state_created_dirs)
    &&& forall|k: int|
        0 <= k < j.rollback_created_dirs.len() ==> dir_allowed(
            DirList::Rollback,
            #[trigger] j.rollback_created_dirs[k],
        )
    &&& distinct_seqs(j.rollback_created_dirs)
    &&& journal_consistent(j)
}

/// No tab, newline or carriage return.
pub open spec fn plain(f: Seq<char>) -> bool {
    forall|j: int| 0 <= j < f.len() ==> #[trigger] f[j] != '\t' && f[j] != '\n' && f[j] != '\r'
}

/// No newline or carriage return.
pub open spec fn one_line(f: Seq<char>) -> bool {
    forall|j: int| 0 <= j < f.len() ==> #[trigger] f[j] != '\n' && f[j] != '\r'
}

pub(crate) proof fn lemma_lines_terminated(rs: Seq<Seq<char>>)
    requires
        forall|k: int| 0 <= k < rs.len() ==> one_line(#[trigger] rs[k]),
    ensures
        lines(terminated(rs)) == rs,
{
    let ps = rs.map_values(|r: Seq<char>| r.push('\n'));
    assert forall|k: int| 0 <= k < ps.len() implies piece_ok(#[trigger] ps[k], k == ps.len() - 1) by {
        assert(ps[k] == rs[k].push('\n'));
        assert(one_line(rs[k]));
        assert forall|j: int| 0 <= j < ps[k].len() - 1 implies ps[k][j] != '\n' by {
            assert(ps[k][j] == rs[k][j]);
        }
    }
    lemma_split_concat(ps);
    assert forall|k: int| 0 <= k < rs.len() implies line_body(#[trigger] ps[k]) == rs[k] by {
        assert(ps[k] == rs[k].push('\n'));
        assert(ps[k].drop_last() =~= rs[k]);
        assert(one_line(rs[k]));
        if rs[k].len() > 0 {
            assert(rs[k].last() == rs[k][rs[k].len() - 1]);
        }
    }
    assert(lines(terminated(rs)) =~= rs);
}

pub(crate) proof fn lemma_hex_plain(s: Seq<char>)
    requires
        forall|j: int| 0 <= j < s.len() ==> is_lower_hex(#[trigger] s[j]),
    ensures
        plain(s),
{
    assert forall|j: int| 0 <= j < s.len() implies #[trigger] s[j] != '\t' && s[j] != '\n' && s[j]
        != '\r' by {
        assert(is_lower_hex(s[j]));
    }
}

pub(crate) proof fn lemma_text_field_plain(t: Seq<char>)
    ensures
        plain(text_field(t)),
        spec_decode_text(text_field(t)) == Some(t),
{
    lemma_decode_encode_hex(encode_utf8(t));
    lemma_decode_encode_text(t);
    lemma_hex_plain(text_field(t));
}

pub(crate) proof fn lemma_transaction_plain(t: Seq<char>)
    requires
        spec_safe_transaction_id(t),
    ensures
        plain(t),
{
    assert forall|j: int| 0 <= j < t.len() implies #[trigger] t[j] != '\t' && t[j] != '\n' && t[j]
        != '\r' by {
        assert(crate::text::in_class(t[j], CharClass::TransactionId));
    }
}

pub(crate) proof fn lemma_literals()
    ensures
        plain("absent"@),
        plain("-"@),
        plain("file"@),
        plain("symlink"@),
        plain("previous-manifest"@),
        plain("install"@),
        plain("uninstall"@),
        plain("bootstrap"@),
        plain("ready"@),
        plain("cleanup"@),
        plain("cleanup-final"@),
        plain("rollback-cleanup"@),
        plain("planned"@),
        plain("in-progress"@),
        plain("applied"@),
        plain("created-dir"@),
        plain("state-created-dir"@),
        plain("rollback-created-dir"@),
        one_line(JOURNAL_HEADER@),
        plain("transaction"@),
        "transaction\t"@ == "transaction"@.push('\t'),
        "kind\t"@ == "kind"@.push('\t'),
        "phase\t"@ == "phase"@.push('\t'),
        plain("kind"@),
        plain("phase"@),
{
    reveal_strlit("absent");
    reveal_strlit("-");
    reveal_strlit("file");
    reveal_strlit("symlink");
    reveal_strlit("previous-manifest");
    reveal_strlit("install");
    reveal_strlit("uninstall");
    reveal_strlit("bootstrap");
    reveal_strlit("ready");
    reveal_strlit("cleanup");
    reveal_strlit("cleanup-final");
    reveal_strlit("rollback-cleanup");
    reveal_strlit("planned");
    reveal_strlit("in-progress");
    reveal_strlit("applied");
    reveal_strlit("created-dir");
    reveal_strlit("state-created-dir");
    reveal_strlit("rollback-created-dir");
    reveal_strlit("BOOTART-JOURNAL\t1");
    reveal_strlit("transaction");
    reveal_strlit("transaction\t");
    reveal_strlit("kind");
    reveal_strlit("kind\t");
    reveal_strlit("phase");
    reveal_strlit("phase\t");
    assert("transaction\t"@ =~= "transaction"@.push('\t'));
    assert("kind\t"@ =~= "kind"@.push('\t'));
    assert("phase\t"@ =~= "phase"@.push('\t'));
}

pub(crate) proof fn lemma_preimage_fields_plain(p: PreimageView)
    ensures
        spec_preimage_fields(p).len() == 4,
        forall|k: int| 0 <= k < 4 ==> plain(#[trigger] spec_preimage_fields(p)[k]),
{
    lemma_literals();
    match p {
        PreimageView::Absent => {},
        PreimageView::File { mode, digest, backup } => {
            lemma_digits_octal(mode as nat);
            assert forall|j: int| 0 <= j < spec_octal(mode).len() implies #[trigger] spec_octal(
                mode,
            )[j] != '\t' && spec_octal(mode)[j] != '\n' && spec_octal(mode)[j] != '\r' by {
                assert(is_octal_digit(spec_octal(mode)[j]));
            }
            lemma_digest_hex_roundtrip(digest);
            lemma_hex_plain(spec_digest_hex(digest));
            lemma_text_field_plain(backup);
        },
        PreimageView::Symlink { target } => {
            lemma_text_field_plain(target);
        },
    }
}

pub(crate) proof fn lemma_plain_parts(parts: Seq<Seq<char>>)
    requires
        parts.len() > 0,
        forall|k: int| 0 <= k < parts.len() ==> plain(#[trigger] parts[k]),
    ensures
        split_on(join_on(parts, '\t'), '\t') == parts,
        one_line(join_on(parts, '\t')),
{
    assert forall|k: int| 0 <= k < parts.len() implies lacks(#[trigger] parts[k], '\t') by {
        assert(plain(parts[k]));
    }
    lemma_split_join_on(parts, '\t');
    let f = |c: char| c != '\n' && c != '\r';
    assert forall|k: int, j: int| 0 <= k < parts.len() && 0 <= j < parts[k].len() implies f(
        #[trigger] parts[k][j],
    ) by {
        assert(plain(parts[k]));
    }
    lemma_join_on_chars(parts, '\t', f);
    assert forall|j: int| 0 <= j < join_on(parts, '\t').len() implies #[trigger] join_on(
        parts,
        '\t',
    )[j] != '\n' && join_on(parts, '\t')[j] != '\r' by {
        assert(f(join_on(parts, '\t')[j]));
    }
}

pub(crate) proof fn lemma_dir_record(d: DirList, p: Seq<char>)
    ensures
        split_on(dir_record(d, p), '\t') == seq![dir_tag(d), text_field(p)],
        one_line(dir_record(d, p)),
        dir_of_tag(dir_tag(d)) == Some(d),
        spec_decode_text(text_field(p)) == Some(p),
{
    lemma_literals();
    lemma_text_field_plain(p);
    let parts = seq![dir_tag(d), text_field(p)];
    assert(plain(parts[0]) && plain(parts[1]));
    lemma_plain_parts(parts);
    reveal_strlit("created-dir");
    reveal_strlit("state-created-dir");
    reveal_strlit("rollback-created-dir");
}

proof fn lemma_progress_name(p: EntryProgress)
    ensures
        spec_parse_progress(progress_name(p)) == Some(p),
{
    reveal_strlit("planned");
    reveal_strlit("in-progress");
    reveal_strlit("applied");
    assert("planned"@[0] != "applied"@[0]);
}

proof fn lemma_entry_record(e: JournalEntryView, t: Seq<char>)
    requires
        preimage_ok(e.preimage, Some(t)),
    ensures
        split_on(entry_record(e), '\t') == seq!["file"@, text_field(e.path), progress_name(
            e.progress,
        )] + spec_preimage_fields(e.preimage),
        one_line(entry_record(e)),
        spec_decode_text(text_field(e.path)) == Some(e.path),
        spec_parse_progress(progress_name(e.progress)) == Some(e.progress),
        spec_parse_preimage(spec_preimage_fields(e.preimage), Some(t)) == Some(e.preimage),
{
    lemma_literals();
    lemma_text_field_plain(e.path);
    lemma_preimage_fields_plain(e.preimage);
    let parts = seq!["file"@, text_field(e.path), progress_name(e.progress)] + spec_preimage_fields(
        e.preimage,
    );
    assert forall|k: int| 0 <= k < parts.len() implies plain(#[trigger] parts[k]) by {
        if k >= 3 {
            assert(parts[k] == spec_preimage_fields(e.preimage)[k - 3]);
        }
    }
    lemma_plain_parts(parts);
    lemma_progress_name(e.progress);
    lemma_preimage_roundtrip(e.preimage, Some(t));
}

proof fn lemma_parse_dirs(pre: Seq<Seq<char>>, d: DirList, ps: Seq<Seq<char>>, t: Seq<char>, b: JournalBody)
    requires
        parse_records(pre, t) == Some(b),
        body_dirs(b, d).len() == 0,
        forall|k: int| 0 <= k < ps.len() ==> dir_allowed(d, #[trigger] ps[k]),
        distinct_seqs(ps),
    ensures
        parse_records(pre + dir_records(d, ps), t) == Some(with_dirs(b, d, ps)),
    decreases ps.len(),
{
    if ps.len() == 0 {
        assert(pre + dir_records(d, ps) =~= pre);
        assert(with_dirs(b, d, ps) =~= b);
    } else {
        let q = ps.drop_last();
        let p = ps.last();
        assert forall|k: int| 0 <= k < q.len() implies dir_allowed(d, #[trigger] q[k]) by {
            assert(q[k] == ps[k]);
        }
        lemma_parse_dirs(pre, d, q, t, b);
        let all = pre + dir_records(d, ps);
        assert(all.drop_last() =~= pre + dir_records(d, q));
        assert(all.last() == dir_record(d, p));
        lemma_dir_record(d, p);
        let bq = with_dirs(b, d, q);
        assert(body_dirs(bq, d) == q);
        assert(!q.contains(p)) by {
            if q.contains(p) {
                let k = choose|k: int| 0 <= k < q.len() && q[k] == p;
                assert(ps[k] == ps[ps.len() - 1]);
            }
        }
        assert(dir_allowed(d, ps[ps.len() - 1]));
        assert(q.push(p) =~= ps);
        assert(with_dirs(bq, d, q.push(p)) =~= with_dirs(b, d, ps));
    }
}

pub open spec fn entry_records(es: Seq<JournalEntryView>) -> Seq<Seq<char>> {
    es.map_values(|e: JournalEntryView| entry_record(e))
}

pub open spec fn with_entries(b: JournalBody, es: Seq<JournalEntryView>) -> JournalBody {
    JournalBody {
        entries: es,
        created_dirs: b.created_dirs,
        state_created_dirs: b.state_created_dirs,
        rollback_created_dirs: b.rollback_created_dirs,
    }
}

proof fn lemma_parse_entries(pre: Seq<Seq<char>>, es: Seq<JournalEntryView>, t: Seq<char>, b: JournalBody)
    requires
        parse_records(pre, t) == Some(b),
        b.entries.len() == 0,
        forall|k: int|
            0 <= k < es.len() ==> spec_payload_path_allowed(#[trigger] es[k].path) && preimage_ok(
                es[k].preimage,
                Some(t),
            ),
        distinct_seqs(entry_paths(es)),
    ensures
        parse_records(pre + entry_records(es), t) == Some(with_entries(b, es)),
    decreases es.len(),
{
    if es.len() == 0 {
        assert(pre + entry_records(es) =~= pre);
        assert(with_entries(b, es) =~= b);
    } else {
        let q = es.drop_last();
        let e = es.last();
        assert forall|k: int| 0 <= k < q.len() implies spec_payload_path_allowed(#[trigger] q[k].path)
            && preimage_ok(q[k].preimage, Some(t)) by {
            assert(q[k] == es[k]);
        }
        assert(distinct_seqs(entry_paths(q))) by {
            assert forall|i: int, j: int| 0 <= i < j < entry_paths(q).len() implies entry_paths(q)[i]
                != entry_paths(q)[j] by {
                assert(entry_paths(q)[i] == entry_paths(es)[i]);
                assert(entry_paths(q)[j] == entry_paths(es)[j]);
            }
        }
        lemma_parse_entries(pre, q, t, b);
        let all = pre + entry_records(es);
        assert(all.drop_last() =~= pre + entry_records(q));
        assert(all.last() == entry_record(e));
        assert(es[es.len() - 1] == e);
        lemma_entry_record(e, t);
        let f = split_on(entry_record(e), '\t');
        reveal_strlit("file");
        assert(f.len() == 7);
        assert(f[0] == "file"@);
        assert(f[1] == text_field(e.path));
        assert(f[2] == progress_name(e.progress));
        assert(f.skip(3) =~= spec_preimage_fields(e.preimage));
        assert(!entry_paths(q).contains(e.path)) by {
            if entry_paths(q).contains(e.path) {
                let k = choose|k: int| 0 <= k < entry_paths(q).len() && entry_paths(q)[k] == e.path;
                assert(entry_paths(es)[k] == entry_paths(es)[es.len() - 1]);
            }
        }
        assert(with_entries(b, q).entries.push(e) =~= es);
        assert(entry_paths(with_entries(b, q).entries) == entry_paths(q));
    }
}

proof fn lemma_records_one_line(j: JournalView)
    requires
        journal_ok(j),
    ensures
        forall|k: int|
            0 <= k < journal_records(j).len() ==> one_line(#[trigger] journal_records(j)[k]),
{
    let t = j.transaction;
    lemma_literals();
    lemma_transaction_plain(t);
    lemma_preimage_fields_plain(j.previous_manifest);
    let h = header_records(j);
    let prev_parts = seq!["previous-manifest"@] + spec_preimage_fields(j.previous_manifest);
    assert forall|k: int| 0 <= k < prev_parts.len() implies plain(#[trigger] prev_parts[k]) by {
        if k >= 1 {
            assert(prev_parts[k] == spec_preimage_fields(j.previous_manifest)[k - 1]);
        }
    }
    lemma_plain_parts(prev_parts);
    let c = dir_records(DirList::Created, j.created_dirs);
    let st = dir_records(DirList::State, j.state_created_dirs);
    let rb = dir_records(DirList::Rollback, j.rollback_created_dirs);
    let er = entry_records(j.entries);
    let recs = journal_records(j);
    assert(recs == h + c + st + rb + er);
    assert forall|k: int| 0 <= k < recs.len() implies one_line(#[trigger] recs[k]) by {
        if k < 5 {
            assert(recs[k] == h[k]);
            if k == 1 {
                assert forall|i: int| 0 <= i < h[1].len() implies #[trigger] h[1][i] != '\n' && h[1][i]
                    != '\r' by {
                    if i >= "transaction\t"@.len() {
                        assert(h[1][i] == t[i - "transaction\t"@.len()]);
                    } else {
                        assert(h[1][i] == "transaction\t"@[i]);
                        if i < "transaction"@.len() {
                            assert("transaction\t"@[i] == "transaction"@[i]);
                        }
                    }
                }
            } else if k == 2 {
                assert forall|i: int| 0 <= i < h[2].len() implies #[trigger] h[2][i] != '\n' && h[2][i]
                    != '\r' by {
                    if i >= "kind\t"@.len() {
                        assert(h[2][i] == kind_name(j.kind)[i - "kind\t"@.len()]);
                    } else if i < "kind"@.len() {
                        assert(h[2][i] == "kind"@[i]);
                    }
                }
            } else if k == 3 {
                assert forall|i: int| 0 <= i < h[3].len() implies #[trigger] h[3][i] != '\n' && h[3][i]
                    != '\r' by {
                    if i >= "phase\t"@.len() {
                        assert(h[3][i] == phase_name(j.phase)[i - "phase\t"@.len()]);
                    } else if i < "phase"@.len() {
                        assert(h[3][i] == "phase"@[i]);
                    }
                }
            }
        } else if k < 5 + c.len() {
            assert(recs[k] == c[k - 5]);
            lemma_dir_record(DirList::Created, j.created_dirs[k - 5]);
        } else if k < 5 + c.len() + st.len() {
            assert(recs[k] == st[k - 5 - c.len()]);
            lemma_dir_record(DirList::State, j.state_created_dirs[k - 5 - c.len()]);
        } else if k < 5 + c.len() + st.len() + rb.len() {
            assert(recs[k] == rb[k - 5 - c.len() - st.len()]);
            lemma_dir_record(DirList::Rollback, j.rollback_created_dirs[k - 5 - c.len() - st.len()]);
        } else {
            let m = k - 5 - c.len() - st.len() - rb.len();
            assert(recs[k] == er[m]);
            assert(preimage_ok(j.entries[m].preimage, Some(t)));
            lemma_entry_record(j.entries[m], t);
        }
    }
}

proof fn lemma_header_parse(j: JournalView)
    requires
        journal_ok(j),
    ensures
        journal_records(j)[0] == JOURNAL_HEADER@,
        has_prefix(journal_records(j)[1], "transaction\t"@),
        journal_records(j)[1].skip("transaction\t"@.len() as int) == j.transaction,
        spec_parse_kind(journal_records(j)[2]) == Some(j.kind),
        spec_parse_phase(journal_records(j)[3]) == Some(j.phase),
        spec_parse_previous(journal_records(j)[4], j.transaction) == Some(j.previous_manifest),
{
    let t = j.transaction;
    let ls = journal_records(j);
    let h = header_records(j);
    assert(ls[0] == h[0] && ls[1] == h[1] && ls[2] == h[2] && ls[3] == h[3] && ls[4] == h[4]);
    assert(ls[1].subrange(0, "transaction\t"@.len() as int) =~= "transaction\t"@);
    assert(ls[1].skip("transaction\t"@.len() as int) =~= t);
    assert(spec_parse_kind(ls[2]) == Some(j.kind)) by {
        reveal_strlit("kind\tinstall");
        reveal_strlit("kind\tuninstall");
        reveal_strlit("kind\t");
        reveal_strlit("install");
        reveal_strlit("uninstall");
        match j.kind {
            TransactionKind::Install => {
                assert(ls[2] =~= "kind\tinstall"@);
            },
            TransactionKind::Uninstall => {
                assert(ls[2] =~= "kind\tuninstall"@);
            },
        }
    }
    assert(spec_parse_phase(ls[3]) == Some(j.phase)) by {
        reveal_strlit("phase\t");
        reveal_strlit("phase\tbootstrap");
        reveal_strlit("phase\tready");
        reveal_strlit("phase\tcleanup");
        reveal_strlit("phase\tcleanup-final");
        reveal_strlit("phase\trollback-cleanup");
        reveal_strlit("bootstrap");
        reveal_strlit("ready");
        reveal_strlit("cleanup");
        reveal_strlit("cleanup-final");
        reveal_strlit("rollback-cleanup");
        match j.phase {
            JournalPhase::Bootstrap => {
                assert(ls[3] =~= "phase\tbootstrap"@);
            },
            JournalPhase::Ready => {
                assert(ls[3] =~= "phase\tready"@);
            },
            JournalPhase::Cleanup => {
                assert(ls[3] =~= "phase\tcleanup"@);
            },
            JournalPhase::CleanupFinal => {
                assert(ls[3] =~= "phase\tcleanup-final"@);
            },
            JournalPhase::RollbackCleanup => {
                assert(ls[3] =~= "phase\trollback-cleanup"@);
            },
        }
    }
    assert(spec_parse_previous(ls[4], t) == Some(j.previous_manifest)) by {
        lemma_literals();
        lemma_preimage_fields_plain(j.previous_manifest);
        let prev_parts = seq!["previous-manifest"@] + spec_preimage_fields(j.previous_manifest);
        assert forall|k: int| 0 <= k < prev_parts.len() implies plain(#[trigger] prev_parts[k]) by {
            if k >= 1 {
                assert(prev_parts[k] == spec_preimage_fields(j.previous_manifest)[k - 1]);
            }
        }
        lemma_plain_parts(prev_parts);
        let f = split_on(ls[4], '\t');
        assert(f == prev_parts);
        assert(f.skip(1) =~= spec_preimage_fields(j.previous_manifest));
        lemma_preimage_roundtrip(j.previous_manifest, Some(t));
    }
}

proof fn lemma_body_parse(j: JournalView)
    requires
        journal_ok(j),
    ensures
        parse_records(journal_records(j).skip(5), j.transaction) == Some(
            with_entries(
                with_dirs(
                    with_dirs(
                        with_dirs(empty_body(), DirList::Created, j.created_dirs),
                        DirList::State,
                        j.state_created_dirs,
                    ),
                    DirList::Rollback,
                    j.rollback_created_dirs,
                ),
                j.entries,
            ),
        ),
{
    let t = j.transaction;
    let c = dir_records(DirList::Created, j.created_dirs);
    let st = dir_records(DirList::State, j.state_created_dirs);
    let rb = dir_records(DirList::Rollback, j.rollback_created_dirs);
    let er = entry_records(j.entries);
    let b0 = empty_body();
    let e0 = Seq::<Seq<char>>::empty();
    assert(parse_records(e0, t) == Some(b0));
    lemma_parse_dirs(e0, DirList::Created, j.created_dirs, t, b0);
    let b1 = with_dirs(b0, DirList::Created, j.created_dirs);
    assert(e0 + c =~= c);
    lemma_parse_dirs(c, DirList::State, j.state_created_dirs, t, b1);
    let b2 = with_dirs(b1, DirList::State, j.state_created_dirs);
    lemma_parse_dirs(c + st, DirList::Rollback, j.rollback_created_dirs, t, b2);
    let b3 = with_dirs(b2, DirList::Rollback, j.rollback_created_dirs);
    lemma_parse_entries(c + st + rb, j.entries, t, b3);
    assert(journal_records(j).skip(5) =~= c + st + rb + er);
}

/// Reading what a journal is written as gives the journal back, with an
/// install's missing rollback directories filled in from its state
/// directories.
pub proof fn lemma_journal_roundtrip(j: JournalView)
    requires
        journal_ok(j),
    ensures
        spec_parse_journal(spec_serialize_journal(j)) == Some(normalized(j)),
{
    let recs = journal_records(j);
    lemma_records_one_line(j);
    lemma_lines_terminated(recs);
    crate::text::lemma_decode_encode(terminated(recs));
    lemma_header_parse(j);
    lemma_body_parse(j);
    let b4 = with_entries(
        with_dirs(
            with_dirs(
                with_dirs(empty_body(), DirList::Created, j.created_dirs),
                DirList::State,
                j.state_created_dirs,
            ),
            DirList::Rollback,
            j.rollback_created_dirs,
        ),
        j.entries,
    );
    let parsed = JournalView {
        transaction: j.transaction,
        kind: j.kind,
        phase: j.phase,
        entries: b4.entries,
        previous_manifest: j.previous_manifest,
        created_dirs: b4.created_dirs,
        state_created_dirs: b4.state_created_dirs,
        rollback_created_dirs: b4.rollback_created_dirs,
    };
    assert(parsed =~= j);
}

} // verus!
