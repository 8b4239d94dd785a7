//! The installed manifest: which adapters a committed installation selected,
//! which files, patched files and links it owns with what they held before,
//! and which directories it created.  Written one tab-separated record per
//! line and read back strictly, like the journal.

use crate::adapter::{
    adapter, adapter_by_name, lemma_adapter_name, spec_adapter_by_name, spec_adapter_name,
    AdapterId,
};
use crate::codec::{decode_text, digest_from_hex, digest_hex, encode_text, is_decimal_digit, is_octal_digit, lemma_digest_hex_roundtrip, lemma_digits_decimal, lemma_digits_octal, lemma_parse_octal, lemma_parse_version, octal, parse_octal, parse_version, spec_decode_text, spec_digest_from_hex, spec_digest_hex, spec_octal, spec_parse_octal, spec_parse_version, u16_parses, u16_parses_exec, lemma_canonical_version_parses};
use crate::digest::Sha256Digest;
use crate::dracut_systemd::{safe_transaction_id, spec_safe_transaction_id};
use crate::error::InstallError;
use crate::journal::{dir_record, dir_records, lemma_dir_record, lemma_hex_plain, lemma_lines_terminated, lemma_literals, lemma_plain_parts, lemma_preimage_fields_plain, lemma_terminated_concat, lemma_terminated_push, lemma_text_field_plain, lemma_transaction_plain, one_line, plain, push_dir_records, push_line, push_record, spec_payload_parent_allowed, spec_payload_path_allowed, state_dir_allowed, strings_from, terminated, text_field, payload_parent_allowed, payload_path_allowed, DirList};
use crate::newc::split_on;
use crate::selection::{find_pair, is_exact_pair};
use crate::state::{
    lemma_preimage_roundtrip, preimage_fields, preimage_ok, spec_parse_preimage,
    spec_preimage_fields, split_on_exec, Preimage, PreimageView,
};
use crate::text::{
    chars_of, concat2, decimal, distinct_seqs, has_prefix, lines, owned, spec_decimal, str_eq,
    string_from_chars, string_views,
};
use crate::text_facts::join_on;
use vstd::prelude::*;
use vstd::utf8::*;

verus! {

pub const MANIFEST_HEADER: &'static str = "BOOTART-MANIFEST\t2";

/// Whether the manifest records the whole inventory of its adapters, or the
/// part that a refreshed transaction kept.
#[derive(Debug, Clone, Copy, PartialEq, Eq, Structural)]
pub enum ManifestInventoryState {
    Complete,
    Partial,
}

/// One owned path with what it holds now and what it held before.
#[derive(Debug, Clone, PartialEq, Eq)]
pub enum ManifestEntry {
    File { path: String, installed_mode: u32, installed_digest: Sha256Digest, original: Preimage },
    PatchedFile {
        path: String,
        installed_mode: u32,
        installed_digest: Sha256Digest,
        original: Preimage,
    },
    Symlink { path: String, installed_target: String, original: Preimage },
}

pub enum ManifestEntryView {
    File {
        path: Seq<char>,
        installed_mode: u32,
        installed_digest: Sha256Digest,
        original: PreimageView,
    },
    PatchedFile {
        path: Seq<char>,
        installed_mode: u32,
        installed_digest: Sha256Digest,
        original: PreimageView,
    },
    Symlink { path: Seq<char>, installed_target: Seq<char>, original: PreimageView },
}

impl View for ManifestEntry {
    type V = ManifestEntryView;

    open spec fn view(&self) -> ManifestEntryView {
        match self {
            ManifestEntry::File { path, installed_mode, installed_digest, original } =>
                ManifestEntryView::File {
                path: path@,
                installed_mode: *installed_mode,
                installed_digest: *installed_digest,
                original: original@,
            },
            ManifestEntry::PatchedFile { path, installed_mode, installed_digest, original } =>
                ManifestEntryView::PatchedFile {
                path: path@,
                installed_mode: *installed_mode,
                installed_digest: *installed_digest,
                original: original@,
            },
            ManifestEntry::Symlink { path, installed_target, original } =>
                ManifestEntryView::Symlink {
                path: path@,
                installed_target: installed_target@,
                original: original@,
            },
        }
    }
}

impl ManifestEntryView {
    pub open spec fn path(self) -> Seq<char> {
        match self {
            ManifestEntryView::File { path, .. } => path,
            ManifestEntryView::PatchedFile { path, .. } => path,
            ManifestEntryView::Symlink { path, .. } => path,
        }
    }

    pub open spec fn original(self) -> PreimageView {
        match self {
            ManifestEntryView::File { original, .. } => original,
            ManifestEntryView::PatchedFile { original, .. } => original,
            ManifestEntryView::Symlink { original, .. } => original,
        }
    }
}

impl ManifestEntry {
    /// The owned path.
    pub fn path(&self) -> (r: &str)
        ensures
            r@ == self@.path(),
    {
        match self {
            ManifestEntry::File { path, .. } => path.as_str(),
            ManifestEntry::PatchedFile { path, .. } => path.as_str(),
            ManifestEntry::Symlink { path, .. } => path.as_str(),
        }
    }

    /// What the path held before the installation.
    pub fn original(&self) -> (r: &Preimage)
        ensures
            r@ == self@.original(),
    {
        match self {
            ManifestEntry::File { original, .. } => original,
            ManifestEntry::PatchedFile { original, .. } => original,
            ManifestEntry::Symlink { original, .. } => original,
        }
    }
}

/// A committed installation.
#[derive(Debug, Clone, PartialEq, Eq)]
pub struct Manifest {
    pub transaction: String,
    pub plan_version: u16,
    pub resource_set_version: u16,
    pub inventory_state: ManifestInventoryState,
    pub adapters: Vec<AdapterId>,
    pub entries: Vec<ManifestEntry>,
    pub created_dirs: Vec<String>,
    pub state_created_dirs: Vec<String>,
}

#[verifier::ext_equal]
pub struct ManifestView {
    pub transaction: Seq<char>,
    pub plan_version: u16,
    pub resource_set_version: u16,
    pub inventory_state: ManifestInventoryState,
    pub adapters: Seq<AdapterId>,
    pub entries: Seq<ManifestEntryView>,
    pub created_dirs: Seq<Seq<char>>,
    pub state_created_dirs: Seq<Seq<char>>,
}

pub open spec fn manifest_entry_views(v: Seq<ManifestEntry>) -> Seq<ManifestEntryView> {
    v.map_values(|e: ManifestEntry| e@)
}

impl View for Manifest {
    type V = ManifestView;

    open spec fn view(&self) -> ManifestView {
        ManifestView {
            transaction: self.transaction@,
            plan_version: self.plan_version,
            resource_set_version: self.resource_set_version,
            inventory_state: self.inventory_state,
            adapters: self.adapters@,
            entries: manifest_entry_views(self.entries@),
            created_dirs: string_views(self.created_dirs@),
            state_created_dirs: string_views(self.state_created_dirs@),
        }
    }
}

// ---------------------------------------------------------------------------
// The records
// ---------------------------------------------------------------------------

pub open spec fn inventory_state_name(s: ManifestInventoryState) -> Seq<char> {
    match s {
        ManifestInventoryState::Complete => "complete"@,
        ManifestInventoryState::Partial => "partial"@,
    }
}

pub open spec fn manifest_header_records(m: ManifestView) -> Seq<Seq<char>> {
    seq![
        MANIFEST_HEADER@,
        "transaction\t"@ + m.transaction,
        "plan-version\t"@ + spec_decimal(m.plan_version as nat),
        "resource-set-version\t"@ + spec_decimal(m.resource_set_version as nat),
        "inventory-state\t"@ + inventory_state_name(m.inventory_state),
    ]
}

pub open spec fn adapter_record(a: AdapterId) -> Seq<char> {
    join_on(seq!["adapter"@, spec_adapter_name(a)@], '\t')
}

/// The fields of an owned path's record.
pub open spec fn manifest_entry_fields(e: ManifestEntryView) -> Seq<Seq<char>> {
    match e {
        ManifestEntryView::File { path, installed_mode, installed_digest, original } => seq![
            "file"@,
            text_field(path),
            spec_octal(installed_mode),
            spec_digest_hex(installed_digest),
        ] + spec_preimage_fields(original),
        ManifestEntryView::PatchedFile { path, installed_mode, installed_digest, original } => seq![
            "patched-file"@,
            text_field(path),
            spec_octal(installed_mode),
            spec_digest_hex(installed_digest),
        ] + spec_preimage_fields(original),
        ManifestEntryView::Symlink { path, installed_target, original } => seq![
            "symlink"@,
            text_field(path),
            text_field(installed_target),
        ] + spec_preimage_fields(original),
    }
}

pub open spec fn manifest_entry_record(e: ManifestEntryView) -> Seq<char> {
    join_on(manifest_entry_fields(e), '\t')
}

pub open spec fn adapter_records(adapters: Seq<AdapterId>) -> Seq<Seq<char>> {
    adapters.map_values(|a: AdapterId| adapter_record(a))
}

pub open spec fn manifest_entry_records(es: Seq<ManifestEntryView>) -> Seq<Seq<char>> {
    es.map_values(|e: ManifestEntryView| manifest_entry_record(e))
}

/// Every record of a manifest, in the order they are written.
pub open spec fn manifest_records(m: ManifestView) -> Seq<Seq<char>> {
    manifest_header_records(m) + adapter_records(m.adapters) + dir_records(
        DirList::Created,
        m.created_dirs,
    ) + dir_records(DirList::State, m.state_created_dirs) + manifest_entry_records(m.entries)
}

/// The bytes a manifest is written as.
pub open spec fn spec_serialize_manifest(m: ManifestView) -> Seq<u8> {
    encode_utf8(terminated(manifest_records(m)))
}

// ---------------------------------------------------------------------------
// Writing a manifest
// ---------------------------------------------------------------------------

fn inventory_state_name_exec(s: ManifestInventoryState) -> (r: &'static str)
    ensures
        r@ == inventory_state_name(s),
{
    match s {
        ManifestInventoryState::Complete => "complete",
        ManifestInventoryState::Partial => "partial",
    }
}

fn manifest_entry_fields_exec(e: &ManifestEntry) -> (r: Vec<String>)
    ensures
        string_views(r@) == manifest_entry_fields(e@),
{
    let mut r: Vec<String> = Vec::new();
    match e {
        ManifestEntry::File { path, installed_mode, installed_digest, .. } => {
            r.push(String::from_str("file"));
            r.push(encode_text(path.as_str()));
            r.push(octal(*installed_mode));
            r.push(digest_hex(*installed_digest));
        },
        ManifestEntry::PatchedFile { path, installed_mode, installed_digest, .. } => {
            r.push(String::from_str("patched-file"));
            r.push(encode_text(path.as_str()));
            r.push(octal(*installed_mode));
            r.push(digest_hex(*installed_digest));
        },
        ManifestEntry::Symlink { path, installed_target, .. } => {
            r.push(String::from_str("symlink"));
            r.push(encode_text(path.as_str()));
            r.push(encode_text(installed_target.as_str()));
        },
    }
    let ghost head = string_views(r@);
    let p = preimage_fields(e.original());
    let mut k: usize = 0;
    assert(string_views(p@).take(0) =~= Seq::<Seq<char>>::empty());
    assert(string_views(r@) =~= head + string_views(p@).take(0));
    while k < p.len()
        invariant
            k <= p@.len(),
            string_views(p@) == spec_preimage_fields(e@.original()),
            string_views(r@) == head + string_views(p@).take(k as int),
        decreases p.len() - k,
    {
        let ghost before = r@;
        r.push(p[k].clone());
        proof {
            assert(string_views(r@) =~= string_views(before).push(p@[k as int]@));
            assert(string_views(p@).take(k + 1) =~= string_views(p@).take(k as int).push(
                p@[k as int]@,
            ));
        }
        k = k + 1;
    }
    assert(string_views(p@).take(p@.len() as int) =~= string_views(p@));
    assert(string_views(r@) =~= manifest_entry_fields(e@));
    r
}

/// The bytes `manifest` is written as.
pub fn serialize_manifest(manifest: &Manifest) -> (r: Vec<u8>)
    ensures
        r@ == spec_serialize_manifest(manifest@),
{
    let m = manifest;
    let ghost mv = m@;
    let mut out: Vec<char> = Vec::new();
    push_line(&mut out, owned(MANIFEST_HEADER));
    push_line(&mut out, concat2("transaction\t", m.transaction.as_str()));
    let pv = decimal(m.plan_version as u64);
    push_line(&mut out, concat2("plan-version\t", pv.as_str()));
    let rv = decimal(m.resource_set_version as u64);
    push_line(&mut out, concat2("resource-set-version\t", rv.as_str()));
    push_line(&mut out, concat2("inventory-state\t", inventory_state_name_exec(m.inventory_state)));
    proof {
        let h = manifest_header_records(mv);
        assert(terminated(Seq::<Seq<char>>::empty()) =~= Seq::<char>::empty());
        lemma_terminated_push(h.take(0), h[0]);
        assert(h.take(1) =~= h.take(0).push(h[0]));
        lemma_terminated_push(h.take(1), h[1]);
        assert(h.take(2) =~= h.take(1).push(h[1]));
        lemma_terminated_push(h.take(2), h[2]);
        assert(h.take(3) =~= h.take(2).push(h[2]));
        lemma_terminated_push(h.take(3), h[3]);
        assert(h.take(4) =~= h.take(3).push(h[3]));
        lemma_terminated_push(h.take(4), h[4]);
        assert(h.take(5) =~= h.take(4).push(h[4]));
        assert(h.take(5) =~= h);
        assert(h.take(0) =~= Seq::<Seq<char>>::empty());
        assert(out@ =~= terminated(h));
    }
    let ghost head = out@;
    let ghost ar = adapter_records(mv.adapters);
    let mut i: usize = 0;
    assert(ar.take(0) =~= Seq::<Seq<char>>::empty());
    assert(terminated(ar.take(0)) =~= Seq::<char>::empty());
    assert(out@ =~= head + terminated(ar.take(0)));
    while i < m.adapters.len()
        invariant
            i <= m.adapters@.len(),
            mv == m@,
            ar == adapter_records(mv.adapters),
            out@ == head + terminated(ar.take(i as int)),
        decreases m.adapters.len() - i,
    {
        let meta = adapter(m.adapters[i]);
        let fields = vec![String::from_str("adapter"), owned(meta.name)];
        let ghost before = out@;
        push_record(&mut out, &fields);
        proof {
            assert(string_views(fields@) =~= seq!["adapter"@, spec_adapter_name(mv.adapters[i as int])@]);
            assert(ar.take(i + 1) =~= ar.take(i as int).push(ar[i as int]));
            lemma_terminated_push(ar.take(i as int), ar[i as int]);
        }
        i = i + 1;
    }
    assert(ar.take(mv.adapters.len() as int) =~= ar);
    push_dir_records(&mut out, DirList::Created, &m.created_dirs);
    push_dir_records(&mut out, DirList::State, &m.state_created_dirs);
    let ghost recs = manifest_header_records(mv) + ar + dir_records(DirList::Created, mv.created_dirs)
        + dir_records(DirList::State, mv.state_created_dirs);
    let ghost er = manifest_entry_records(mv.entries);
    proof {
        let h = manifest_header_records(mv);
        let c = dir_records(DirList::Created, mv.created_dirs);
        lemma_terminated_concat(h, ar);
        lemma_terminated_concat(h + ar, c);
        lemma_terminated_concat(h + ar + c, dir_records(DirList::State, mv.state_created_dirs));
        assert(out@ =~= terminated(recs));
        assert(er.take(0) =~= Seq::<Seq<char>>::empty());
        assert(recs + er.take(0) =~= recs);
    }
    let mut k: usize = 0;
    while k < m.entries.len()
        invariant
            k <= m.entries@.len(),
            mv == m@,
            er == manifest_entry_records(mv.entries),
            out@ == terminated(recs + er.take(k as int)),
        decreases m.entries.len() - k,
    {
        let fields = manifest_entry_fields_exec(&m.entries[k]);
        assert(fields@.len() == string_views(fields@).len());
        push_record(&mut out, &fields);
        proof {
            assert(mv.entries[k as int] == m.entries@[k as int]@);
            assert(er[k as int] == manifest_entry_record(mv.entries[k as int]));
            assert(recs + er.take(k + 1) =~= (recs + er.take(k as int)).push(er[k as int]));
            lemma_terminated_push(recs + er.take(k as int), er[k as int]);
        }
        k = k + 1;
    }
    assert(er.take(mv.entries.len() as int) =~= er);
    assert(recs + er =~= manifest_records(mv));
    let text = string_from_chars(out.as_slice());
    crate::text::str_bytes(text.as_str())
}

// ---------------------------------------------------------------------------
// Reading a manifest
// ---------------------------------------------------------------------------

/// What the records after the header have given so far.
#[verifier::ext_equal]
pub struct ManifestBody {
    pub adapters: Seq<AdapterId>,
    pub entries: Seq<ManifestEntryView>,
    pub created_dirs: Seq<Seq<char>>,
    pub state_created_dirs: Seq<Seq<char>>,
}

pub open spec fn empty_manifest_body() -> ManifestBody {
    ManifestBody {
        adapters: Seq::empty(),
        entries: Seq::empty(),
        created_dirs: Seq::empty(),
        state_created_dirs: Seq::empty(),
    }
}

pub open spec fn manifest_paths(es: Seq<ManifestEntryView>) -> Seq<Seq<char>> {
    es.map_values(|e: ManifestEntryView| e.path())
}

/// The owned path that a `file`, `patched-file` or `symlink` record's fields
/// describe.
pub open spec fn parse_owned_entry(f: Seq<Seq<char>>) -> Option<ManifestEntryView> {
    if f.len() == 8 && (f[0] == "file"@ || f[0] == "patched-file"@) {
        match (
            spec_decode_text(f[1]),
            spec_parse_octal(f[2]),
            spec_digest_from_hex(f[3]),
            spec_parse_preimage(f.skip(4), None),
        ) {
            (Some(path), Some(installed_mode), Some(installed_digest), Some(original)) => Some(
                if f[0] == "file"@ {
                    ManifestEntryView::File { path, installed_mode, installed_digest, original }
                } else {
                    ManifestEntryView::PatchedFile {
                        path,
                        installed_mode,
                        installed_digest,
                        original,
                    }
                },
            ),
            _ => None,
        }
    } else if f.len() == 7 && f[0] == "symlink"@ {
        match (spec_decode_text(f[1]), spec_decode_text(f[2]), spec_parse_preimage(f.skip(3), None)) {
            (Some(path), Some(installed_target), Some(original)) => Some(
                ManifestEntryView::Symlink { path, installed_target, original },
            ),
            _ => None,
        }
    } else {
        None
    }
}

/// One record after the header, read on top of `b`: a new known adapter, a
/// new allowed directory, or a new allowlisted owned path; anything else is
/// refused.
pub open spec fn parse_manifest_record(b: ManifestBody, line: Seq<char>) -> Option<ManifestBody> {
    let f = split_on(line, '\t');
    if f.len() == 2 && f[0] == "adapter"@ {
        match spec_adapter_by_name(f[1]) {
            Some(id) => if !b.adapters.contains(id) {
                Some(ManifestBody { adapters: b.adapters.push(id), ..b })
            } else {
                None
            },
            None => None,
        }
    } else if f.len() == 2 && f[0] == "created-dir"@ {
        match spec_decode_text(f[1]) {
            Some(p) => if spec_payload_parent_allowed(p) && !b.created_dirs.contains(p) {
                Some(ManifestBody { created_dirs: b.created_dirs.push(p), ..b })
            } else {
                None
            },
            None => None,
        }
    } else if f.len() == 2 && f[0] == "state-created-dir"@ {
        match spec_decode_text(f[1]) {
            Some(p) => if crate::journal::spec_state_dir_allowed(p) && !b.state_created_dirs.contains(
                p,
            ) {
                Some(ManifestBody { state_created_dirs: b.state_created_dirs.push(p), ..b })
            } else {
                None
            },
            None => None,
        }
    } else {
        match parse_owned_entry(f) {
            Some(e) => if spec_payload_path_allowed(e.path()) && !manifest_paths(b.entries).contains(
                e.path(),
            ) {
                Some(ManifestBody { entries: b.entries.push(e), ..b })
            } else {
                None
            },
            None => None,
        }
    }
}

/// The records after the header, read in order.
pub open spec fn parse_manifest_records(recs: Seq<Seq<char>>) -> Option<ManifestBody>
    decreases recs.len(),
{
    if recs.len() == 0 {
        Some(empty_manifest_body())
    } else {
        match parse_manifest_records(recs.drop_last()) {
            Some(b) => parse_manifest_record(b, recs.last()),
            None => None,
        }
    }
}

/// A version record: `name`, a tab, and a canonical version.
pub open spec fn spec_version_record(line: Seq<char>, prefix: Seq<char>) -> Option<u16> {
    if has_prefix(line, prefix) {
        spec_parse_version(line.skip(prefix.len() as int))
    } else {
        None
    }
}

pub open spec fn spec_parse_inventory_state(line: Seq<char>) -> Option<ManifestInventoryState> {
    if line == "inventory-state\tcomplete"@ {
        Some(ManifestInventoryState::Complete)
    } else if line == "inventory-state\tpartial"@ {
        Some(ManifestInventoryState::Partial)
    } else {
        None
    }
}

/// A manifest names exactly two adapters, an exact pair in the reviewed
/// order, and owns at least one path.
pub open spec fn manifest_consistent(m: ManifestView) -> bool {
    &&& m.adapters.len() == 2
    &&& m.entries.len() > 0
    &&& is_exact_pair(m.adapters[0], m.adapters[1])
}

/// The manifest that text spells, if it is one.
pub open spec fn spec_parse_manifest_text(text: Seq<char>) -> Option<ManifestView> {
    let ls = lines(text);
    if ls.len() < 5 || ls[0] != MANIFEST_HEADER@ || !has_prefix(ls[1], "transaction\t"@) {
        None
    } else {
        let t = ls[1].skip("transaction\t"@.len() as int);
        if !spec_safe_transaction_id(t) {
            None
        } else {
            match (
                spec_version_record(ls[2], "plan-version\t"@),
                spec_version_record(ls[3], "resource-set-version\t"@),
                spec_parse_inventory_state(ls[4]),
                parse_manifest_records(ls.skip(5)),
            ) {
                (Some(plan_version), Some(resource_set_version), Some(inventory_state), Some(b)) => {
                    let m = ManifestView {
                        transaction: t,
                        plan_version,
                        resource_set_version,
                        inventory_state,
                        adapters: b.adapters,
                        entries: b.entries,
                        created_dirs: b.created_dirs,
                        state_created_dirs: b.state_created_dirs,
                    };
                    if manifest_consistent(m) {
                        Some(m)
                    } else {
                        None
                    }
                },
                _ => None,
            }
        }
    }
}

/// The manifest that bytes spell, if they are UTF-8 and spell one.
pub open spec fn spec_parse_manifest(bytes: Seq<u8>) -> Option<ManifestView> {
    if valid_utf8(bytes) {
        spec_parse_manifest_text(decode_utf8(bytes))
    } else {
        None
    }
}

// ---------------------------------------------------------------------------
// Reading a manifest, executably
// ---------------------------------------------------------------------------

pub open spec fn char_views(v: Seq<Vec<char>>) -> Seq<Seq<char>> {
    v.map_values(|x: Vec<char>| x@)
}

fn corrupt(reason: &str) -> (e: InstallError)
    ensures
        e matches InstallError::CorruptManifest(m) && m@ == reason@,
{
    InstallError::CorruptManifest(String::from_str(reason))
}

fn field(f: &Vec<Vec<char>>, i: usize) -> (r: String)
    requires
        i < f@.len(),
    ensures
        r@ == char_views(f@)[i as int],
{
    string_from_chars(f[i].as_slice())
}

fn parse_owned_entry_exec(f: &Vec<Vec<char>>) -> (r: Option<ManifestEntry>)
    ensures
        r is Some <==> parse_owned_entry(char_views(f@)) is Some,
        r matches Some(e) ==> parse_owned_entry(char_views(f@)) == Some(e@),
{
    proof {
        reveal_strlit("file");
        reveal_strlit("patched-file");
        reveal_strlit("symlink");
    }
    let ghost fv = char_views(f@);
    if f.len() == 8 {
        let tag = field(f, 0);
        let is_file = str_eq(tag.as_str(), "file");
        if !is_file && !str_eq(tag.as_str(), "patched-file") {
            return None;
        }
        let path = match decode_text(field(f, 1).as_str()) {
            Some(p) => p,
            None => {
                return None;
            },
        };
        let installed_mode = match parse_octal(field(f, 2).as_str()) {
            Some(m) => m,
            None => {
                return None;
            },
        };
        let installed_digest = match digest_from_hex(field(f, 3).as_str()) {
            Some(d) => d,
            None => {
                return None;
            },
        };
        let rest = strings_from(f, 4);
        let original = match crate::state::parse_preimage(rest.as_slice(), None) {
            Some(o) => o,
            None => {
                return None;
            },
        };
        if is_file {
            Some(ManifestEntry::File { path, installed_mode, installed_digest, original })
        } else {
            Some(ManifestEntry::PatchedFile { path, installed_mode, installed_digest, original })
        }
    } else if f.len() == 7 {
        let tag = field(f, 0);
        if !str_eq(tag.as_str(), "symlink") {
            return None;
        }
        let path = match decode_text(field(f, 1).as_str()) {
            Some(p) => p,
            None => {
                return None;
            },
        };
        let installed_target = match decode_text(field(f, 2).as_str()) {
            Some(t) => t,
            None => {
                return None;
            },
        };
        let rest = strings_from(f, 3);
        let original = match crate::state::parse_preimage(rest.as_slice(), None) {
            Some(o) => o,
            None => {
                return None;
            },
        };
        Some(ManifestEntry::Symlink { path, installed_target, original })
    } else {
        None
    }
}

pub open spec fn manifest_body_of(
    adapters: Seq<AdapterId>,
    entries: Seq<ManifestEntry>,
    created: Seq<String>,
    state: Seq<String>,
) -> ManifestBody {
    ManifestBody {
        adapters,
        entries: manifest_entry_views(entries),
        created_dirs: string_views(created),
        state_created_dirs: string_views(state),
    }
}

fn adapters_contain(v: &Vec<AdapterId>, id: AdapterId) -> (r: bool)
    ensures
        r == v@.contains(id),
{
    let mut i: usize = 0;
    while i < v.len()
        invariant
            i <= v@.len(),
            forall|k: int| 0 <= k < i ==> v@[k] != id,
        decreases v.len() - i,
    {
        if v[i] == id {
            return true;
        }
        i = i + 1;
    }
    false
}

fn entries_contain_path(entries: &Vec<ManifestEntry>, path: &str) -> (r: bool)
    ensures
        r == manifest_paths(manifest_entry_views(entries@)).contains(path@),
{
    let ghost ps = manifest_paths(manifest_entry_views(entries@));
    let mut i: usize = 0;
    while i < entries.len()
        invariant
            i <= entries@.len(),
            ps == manifest_paths(manifest_entry_views(entries@)),
            forall|k: int| 0 <= k < i ==> ps[k] != path@,
        decreases entries.len() - i,
    {
        assert(ps[i as int] == entries@[i as int]@.path());
        if str_eq(entries[i].path(), path) {
            return true;
        }
        i = i + 1;
    }
    false
}

fn parse_manifest_record_exec(
    adapters: &mut Vec<AdapterId>,
    entries: &mut Vec<ManifestEntry>,
    created: &mut Vec<String>,
    state: &mut Vec<String>,
    line: &[char],
) -> (r: bool)
    ensures
        r <==> parse_manifest_record(
            manifest_body_of(old(adapters)@, old(entries)@, old(created)@, old(state)@),
            line@,
        ) is Some,
        r ==> parse_manifest_record(
            manifest_body_of(old(adapters)@, old(entries)@, old(created)@, old(state)@),
            line@,
        ) == Some(manifest_body_of(final(adapters)@, final(entries)@, final(created)@, final(state)@)),
{
    let f = split_on_exec(line, '\t');
    let ghost fv = split_on(line@, '\t');
    assert(char_views(f@) == fv);
    if f.len() == 2 {
        let tag = field(&f, 0);
        let value = field(&f, 1);
        if str_eq(tag.as_str(), "adapter") {
            let id = match adapter_by_name(value.as_str()) {
                Some(id) => id,
                None => {
                    return false;
                },
            };
            if adapters_contain(adapters, id) {
                return false;
            }
            adapters.push(id);
            return true;
        } else if str_eq(tag.as_str(), "created-dir") {
            let p = match decode_text(value.as_str()) {
                Some(p) => p,
                None => {
                    return false;
                },
            };
            if !payload_parent_allowed(p.as_str()) || crate::text::strings_contain(created, p.as_str()) {
                return false;
            }
            let ghost before = created@;
            created.push(p);
            assert(string_views(created@) =~= string_views(before).push(p@));
            return true;
        } else if str_eq(tag.as_str(), "state-created-dir") {
            let p = match decode_text(value.as_str()) {
                Some(p) => p,
                None => {
                    return false;
                },
            };
            if !state_dir_allowed(p.as_str()) || crate::text::strings_contain(state, p.as_str()) {
                return false;
            }
            let ghost before = state@;
            state.push(p);
            assert(string_views(state@) =~= string_views(before).push(p@));
            return true;
        }
    }
    let e = match parse_owned_entry_exec(&f) {
        Some(e) => e,
        None => {
            return false;
        },
    };
    if !payload_path_allowed(e.path()) || entries_contain_path(entries, e.path()) {
        return false;
    }
    let ghost before = entries@;
    entries.push(e);
    assert(manifest_entry_views(entries@) =~= manifest_entry_views(before).push(e@));
    true
}

proof fn lemma_parse_manifest_records_none(recs: Seq<Seq<char>>, n: int)
    requires
        0 <= n <= recs.len(),
        parse_manifest_records(recs.take(n)) is None,
    ensures
        parse_manifest_records(recs) is None,
    decreases recs.len() - n,
{
    if n < recs.len() {
        assert(recs.take(n + 1).drop_last() =~= recs.take(n));
        lemma_parse_manifest_records_none(recs, n + 1);
    } else {
        assert(recs.take(n) =~= recs);
    }
}


pub const PLAN_VERSION_MISSING: &'static str = "missing required plan-version provenance";
pub const PLAN_VERSION_EXPECTED: &'static str = "expected canonical plan-version provenance record";
pub const PLAN_VERSION_INVALID: &'static str = "invalid plan-version provenance version";
pub const PLAN_VERSION_NONCANONICAL: &'static str = "non-canonical plan-version provenance version";
pub const RESOURCE_VERSION_MISSING: &'static str = "missing required resource-set-version provenance";
pub const RESOURCE_VERSION_EXPECTED: &'static str = "expected canonical resource-set-version provenance record";
pub const RESOURCE_VERSION_INVALID: &'static str = "invalid resource-set-version provenance version";
pub const RESOURCE_VERSION_NONCANONICAL: &'static str = "non-canonical resource-set-version provenance version";

/// Why a provenance record is refused: it is missing, lacks its `prefix`,
/// holds no `u16`, or holds one not written canonically.
pub open spec fn version_refusal(
    line: Option<Seq<char>>,
    prefix: Seq<char>,
    missing: Seq<char>,
    expected: Seq<char>,
    invalid: Seq<char>,
    noncanonical: Seq<char>,
) -> Option<Seq<char>> {
    match line {
        None => Some(missing),
        Some(l) => if !has_prefix(l, prefix) {
            Some(expected)
        } else if !u16_parses(l.skip(prefix.len() as int)) {
            Some(invalid)
        } else if spec_parse_version(l.skip(prefix.len() as int)) is None {
            Some(noncanonical)
        } else {
            None
        },
    }
}

/// Line `i` of `ls`, if there is one.
pub open spec fn line_at(ls: Seq<Seq<char>>, i: int) -> Option<Seq<char>> {
    if 0 <= i < ls.len() {
        Some(ls[i])
    } else {
        None
    }
}

/// Why the first five lines of a manifest text are refused, if they are.
pub open spec fn manifest_header_refusal_text(text: Seq<char>) -> Option<Seq<char>> {
    let ls = lines(text);
    if ls.len() < 1 || ls[0] != MANIFEST_HEADER@ {
        Some("missing versioned header"@)
    } else if ls.len() < 2 {
        Some("missing transaction"@)
    } else if !has_prefix(ls[1], "transaction\t"@) || !spec_safe_transaction_id(
        ls[1].skip("transaction\t"@.len() as int),
    ) {
        Some("invalid transaction"@)
    } else if version_refusal(
        line_at(ls, 2),
        "plan-version\t"@,
        PLAN_VERSION_MISSING@,
        PLAN_VERSION_EXPECTED@,
        PLAN_VERSION_INVALID@,
        PLAN_VERSION_NONCANONICAL@,
    ) is Some {
        version_refusal(
            line_at(ls, 2),
            "plan-version\t"@,
            PLAN_VERSION_MISSING@,
            PLAN_VERSION_EXPECTED@,
            PLAN_VERSION_INVALID@,
            PLAN_VERSION_NONCANONICAL@,
        )
    } else if version_refusal(
        line_at(ls, 3),
        "resource-set-version\t"@,
        RESOURCE_VERSION_MISSING@,
        RESOURCE_VERSION_EXPECTED@,
        RESOURCE_VERSION_INVALID@,
        RESOURCE_VERSION_NONCANONICAL@,
    ) is Some {
        version_refusal(
            line_at(ls, 3),
            "resource-set-version\t"@,
            RESOURCE_VERSION_MISSING@,
            RESOURCE_VERSION_EXPECTED@,
            RESOURCE_VERSION_INVALID@,
            RESOURCE_VERSION_NONCANONICAL@,
        )
    } else if ls.len() < 5 || spec_parse_inventory_state(ls[4]) is None {
        Some("missing or noncanonical inventory-state record"@)
    } else {
        None
    }
}

/// Why the bytes of a manifest are refused before its records are read.
pub open spec fn manifest_header_refusal(bytes: Seq<u8>) -> Option<Seq<char>> {
    if !valid_utf8(bytes) {
        Some("manifest is not UTF-8"@)
    } else {
        manifest_header_refusal_text(decode_utf8(bytes))
    }
}

/// Reads a provenance record, refusing it as [`version_refusal`] says.
fn checked_version(
    line: Option<&str>,
    prefix: &str,
    missing: &str,
    expected: &str,
    invalid: &str,
    noncanonical: &str,
) -> (r: Result<u16, InstallError>)
    ensures
        r is Ok <==> version_refusal(
            match line { Some(l) => Some(l@), None => None },
            prefix@,
            missing@,
            expected@,
            invalid@,
            noncanonical@,
        ) is None,
        r matches Ok(v) ==> line matches Some(l) && Some(v) == spec_version_record(l@, prefix@),
        r matches Err(e) ==> (e matches InstallError::CorruptManifest(m) && Some(m@) == version_refusal(
            match line { Some(l) => Some(l@), None => None },
            prefix@,
            missing@,
            expected@,
            invalid@,
            noncanonical@,
        )),
{
    let l = match line {
        Some(l) => l,
        None => {
            return Err(corrupt(missing));
        },
    };
    let value = match crate::text::strip_prefix(l, prefix) {
        Some(v) => v,
        None => {
            return Err(corrupt(expected));
        },
    };
    if !u16_parses_exec(value) {
        return Err(corrupt(invalid));
    }
    match parse_version(value) {
        Some(v) => Ok(v),
        None => Err(corrupt(noncanonical)),
    }
}

fn version_record(line: &str, prefix: &str) -> (r: Option<u16>)
    ensures
        r == spec_version_record(line@, prefix@),
{
    match crate::text::strip_prefix(line, prefix) {
        Some(v) => parse_version(v),
        None => None,
    }
}

/// Reads a manifest, refusing anything that is not exactly what a committed
/// transaction writes: the header, transaction, canonical versions and
/// inventory state, then known adapters, allowlisted directories and owned
/// paths, each once, naming an exact adapter pair.
pub fn parse_manifest(contents: &[u8]) -> (r: Result<Manifest, InstallError>)
    ensures
        r is Ok <==> spec_parse_manifest(contents@) is Some,
        r matches Ok(m) ==> Some(m@) == spec_parse_manifest(contents@),
        r matches Err(e) ==> e is CorruptManifest,
        manifest_header_refusal(contents@) matches Some(m) ==> (r matches Err(
            InstallError::CorruptManifest(x),
        ) && x@ == m),
{
    let text = match crate::text::utf8_to_str(contents) {
        Some(t) => t,
        None => {
            return Err(corrupt("manifest is not UTF-8"));
        },
    };
    let chars = chars_of(text);
    let ls = crate::text::lines_exec(chars.as_slice());
    let ghost lv = lines(text@);
    if ls.len() < 1 {
        return Err(corrupt("missing versioned header"));
    }
    let header = string_from_chars(ls[0].as_slice());
    if !str_eq(header.as_str(), MANIFEST_HEADER) {
        return Err(corrupt("missing versioned header"));
    }
    if ls.len() < 2 {
        return Err(corrupt("missing transaction"));
    }
    let line1 = string_from_chars(ls[1].as_slice());
    let transaction = match crate::text::strip_prefix(line1.as_str(), "transaction\t") {
        Some(t) => {
            if !safe_transaction_id(t) {
                return Err(corrupt("invalid transaction"));
            }
            owned(t)
        },
        None => {
            return Err(corrupt("invalid transaction"));
        },
    };
    let line2: Option<String> = if ls.len() > 2 {
        Some(string_from_chars(ls[2].as_slice()))
    } else {
        None
    };
    let plan_version = match checked_version(
        match &line2 {
            Some(l) => Some(l.as_str()),
            None => None,
        },
        "plan-version\t",
        PLAN_VERSION_MISSING,
        PLAN_VERSION_EXPECTED,
        PLAN_VERSION_INVALID,
        PLAN_VERSION_NONCANONICAL,
    ) {
        Ok(v) => v,
        Err(e) => {
            return Err(e);
        },
    };
    let line3: Option<String> = if ls.len() > 3 {
        Some(string_from_chars(ls[3].as_slice()))
    } else {
        None
    };
    let resource_set_version = match checked_version(
        match &line3 {
            Some(l) => Some(l.as_str()),
            None => None,
        },
        "resource-set-version\t",
        RESOURCE_VERSION_MISSING,
        RESOURCE_VERSION_EXPECTED,
        RESOURCE_VERSION_INVALID,
        RESOURCE_VERSION_NONCANONICAL,
    ) {
        Ok(v) => v,
        Err(e) => {
            return Err(e);
        },
    };
    if ls.len() < 5 {
        return Err(corrupt("missing or noncanonical inventory-state record"));
    }
    let line4 = string_from_chars(ls[4].as_slice());
    let inventory_state = if str_eq(line4.as_str(), "inventory-state\tcomplete") {
        ManifestInventoryState::Complete
    } else if str_eq(line4.as_str(), "inventory-state\tpartial") {
        ManifestInventoryState::Partial
    } else {
        return Err(corrupt("missing or noncanonical inventory-state record"));
    };
    assert(manifest_header_refusal(contents@) is None);
    let mut adapters: Vec<AdapterId> = Vec::new();
    let mut entries: Vec<ManifestEntry> = Vec::new();
    let mut created: Vec<String> = Vec::new();
    let mut state: Vec<String> = Vec::new();
    let mut i: usize = 5;
    assert(lv.subrange(5, 5) =~= Seq::<Seq<char>>::empty());
    assert(manifest_body_of(adapters@, entries@, created@, state@) =~= empty_manifest_body());
    assert(parse_manifest_records(lv.skip(5)) is None ==> spec_parse_manifest(contents@) is None);
    while i < ls.len()
        invariant
            parse_manifest_records(lv.skip(5)) is None ==> spec_parse_manifest(contents@) is None,
            manifest_header_refusal(contents@) is None,
            5 <= i <= ls@.len(),
            5 <= lv.len(),
            ls@.len() == lv.len(),
            forall|k: int| 0 <= k < ls@.len() ==> #[trigger] ls@[k]@ == lv[k],
            parse_manifest_records(lv.subrange(5, i as int)) == Some(
                manifest_body_of(adapters@, entries@, created@, state@),
            ),
        decreases ls.len() - i,
    {
        let ok = parse_manifest_record_exec(
            &mut adapters,
            &mut entries,
            &mut created,
            &mut state,
            ls[i].as_slice(),
        );
        proof {
            assert(lv.subrange(5, i + 1).drop_last() =~= lv.subrange(5, i as int));
            assert(lv.subrange(5, i + 1).last() == ls@[i as int]@);
        }
        if !ok {
            proof {
                assert(lv.skip(5).take(i + 1 - 5) =~= lv.subrange(5, i + 1));
                lemma_parse_manifest_records_none(lv.skip(5), i + 1 - 5);
            }
            return Err(corrupt("unknown or malformed record"));
        }
        i = i + 1;
    }
    assert(lv.subrange(5, lv.len() as int) =~= lv.skip(5));
    let ghost mv = ManifestView {
        transaction: transaction@,
        plan_version,
        resource_set_version,
        inventory_state,
        adapters: adapters@,
        entries: manifest_entry_views(entries@),
        created_dirs: string_views(created@),
        state_created_dirs: string_views(state@),
    };
    assert(spec_parse_manifest(contents@) == if manifest_consistent(mv) {
        Some(mv)
    } else {
        None
    });
    if adapters.len() != 2 || entries.len() == 0 {
        return Err(corrupt("manifest must contain two adapters and at least one file"));
    }
    if find_pair(adapters[0], adapters[1]).is_none() {
        return Err(corrupt("manifest contains an incompatible adapter pair"));
    }
    Ok(
        Manifest {
            transaction,
            plan_version,
            resource_set_version,
            inventory_state,
            adapters,
            entries,
            created_dirs: created,
            state_created_dirs: state,
        },
    )
}

// ---------------------------------------------------------------------------
// What is read back of what is written
// ---------------------------------------------------------------------------

/// A manifest that its records can carry: a safe transaction, an exact
/// adapter pair, allowlisted owned paths (each once) with faithful
/// preimages, and allowed directories, each listed once.
pub open spec fn manifest_ok(m: ManifestView) -> bool {
    &&& spec_safe_transaction_id(m.transaction)
    &&& manifest_consistent(m)
    &&& forall|k: int|
        0 <= k < m.entries.len() ==> spec_payload_path_allowed(#[trigger] m.entries[k].path())
            && preimage_ok(m.entries[k].original(), None)
    &&& distinct_seqs(manifest_paths(m.entries))
    &&& forall|k: int|
        0 <= k < m.created_dirs.len() ==> spec_payload_parent_allowed(#[trigger] m.created_dirs[k])
    &&& distinct_seqs(m.created_dirs)
    &&& forall|k: int|
        0 <= k < m.state_created_dirs.len() ==> crate::journal::spec_state_dir_allowed(
            #[trigger] m.state_created_dirs[k],
        )
    &&& distinct_seqs(m.state_created_dirs)
}

proof fn lemma_adapter_names_plain(a: AdapterId)
    ensures
        plain(spec_adapter_name(a)@),
{
    reveal_strlit("dracut-systemd");
    reveal_strlit("dracut-classic");
    reveal_strlit("initramfs-tools-busybox");
    reveal_strlit("mkinitcpio-busybox");
    reveal_strlit("mkinitfs-busybox");
    reveal_strlit("systemd-real-root");
    reveal_strlit("openrc-real-root");
}

proof fn lemma_adapter_record(a: AdapterId)
    ensures
        split_on(adapter_record(a), '\t') == seq!["adapter"@, spec_adapter_name(a)@],
        one_line(adapter_record(a)),
        spec_adapter_by_name(spec_adapter_name(a)@) == Some(a),
{
    reveal_strlit("adapter");
    lemma_adapter_names_plain(a);
    lemma_plain_parts(seq!["adapter"@, spec_adapter_name(a)@]);
    lemma_adapter_name(a);
}

proof fn lemma_digits_plain(s: Seq<char>)
    requires
        forall|j: int| 0 <= j < s.len() ==> is_decimal_digit(#[trigger] s[j]),
    ensures
        plain(s),
{
    assert forall|j: int| 0 <= j < s.len() implies #[trigger] s[j] != '\t' && s[j] != '\n' && s[j]
        != '\r' by {
        assert(is_decimal_digit(s[j]));
    }
}

proof fn lemma_installed_fields(mode: u32, digest: Sha256Digest)
    ensures
        plain(spec_octal(mode)),
        plain(spec_digest_hex(digest)),
        spec_parse_octal(spec_octal(mode)) == Some(mode),
        spec_digest_from_hex(spec_digest_hex(digest)) == Some(digest),
{
    lemma_digits_octal(mode as nat);
    assert forall|j: int| 0 <= j < spec_octal(mode).len() implies #[trigger] spec_octal(mode)[j]
        != '\t' && spec_octal(mode)[j] != '\n' && spec_octal(mode)[j] != '\r' by {
        assert(is_octal_digit(spec_octal(mode)[j]));
    }
    lemma_parse_octal(mode);
    lemma_digest_hex_roundtrip(digest);
    lemma_hex_plain(spec_digest_hex(digest));
}

proof fn lemma_head_and_preimage_plain(head: Seq<Seq<char>>, original: PreimageView)
    requires
        forall|k: int| 0 <= k < head.len() ==> plain(#[trigger] head[k]),
    ensures
        forall|k: int|
            0 <= k < (head + spec_preimage_fields(original)).len() ==> plain(
                #[trigger] (head + spec_preimage_fields(original))[k],
            ),
{
    lemma_preimage_fields_plain(original);
    let f = head + spec_preimage_fields(original);
    assert forall|k: int| 0 <= k < f.len() implies plain(#[trigger] f[k]) by {
        if k >= head.len() {
            assert(f[k] == spec_preimage_fields(original)[k - head.len()]);
        } else {
            assert(f[k] == head[k]);
        }
    }
}

#[verifier::rlimit(40)]
proof fn lemma_entry_fields_plain(e: ManifestEntryView)
    ensures
        forall|k: int|
            0 <= k < manifest_entry_fields(e).len() ==> plain(#[trigger] manifest_entry_fields(e)[k]),
        manifest_entry_fields(e).len() > 0,
{
    match e {
        ManifestEntryView::File { path, installed_mode, installed_digest, original } => {
            reveal_strlit("file");
            lemma_text_field_plain(path);
            lemma_installed_fields(installed_mode, installed_digest);
            let head = seq!["file"@, text_field(path), spec_octal(installed_mode), spec_digest_hex(installed_digest)];
            assert(plain(head[0]) && plain(head[1]) && plain(head[2]) && plain(head[3]));
            lemma_head_and_preimage_plain(head, original);
        },
        ManifestEntryView::PatchedFile { path, installed_mode, installed_digest, original } => {
            reveal_strlit("patched-file");
            lemma_text_field_plain(path);
            lemma_installed_fields(installed_mode, installed_digest);
            let head = seq!["patched-file"@, text_field(path), spec_octal(installed_mode), spec_digest_hex(installed_digest)];
            assert(plain(head[0]) && plain(head[1]) && plain(head[2]) && plain(head[3]));
            lemma_head_and_preimage_plain(head, original);
        },
        ManifestEntryView::Symlink { path, installed_target, original } => {
            reveal_strlit("symlink");
            lemma_text_field_plain(path);
            lemma_text_field_plain(installed_target);
            let head = seq!["symlink"@, text_field(path), text_field(installed_target)];
            assert(plain(head[0]) && plain(head[1]) && plain(head[2]));
            lemma_head_and_preimage_plain(head, original);
        },
    }
}

proof fn lemma_installed_fields_parse(
    tag: Seq<char>,
    path: Seq<char>,
    installed_mode: u32,
    installed_digest: Sha256Digest,
    original: PreimageView,
)
    requires
        preimage_ok(original, None),
    ensures
        ({
            let f = seq![tag, text_field(path), spec_octal(installed_mode), spec_digest_hex(installed_digest)]
                + spec_preimage_fields(original);
            &&& f.len() == 8
            &&& f[0] == tag
            &&& spec_decode_text(f[1]) == Some(path)
            &&& spec_parse_octal(f[2]) == Some(installed_mode)
            &&& spec_digest_from_hex(f[3]) == Some(installed_digest)
            &&& spec_parse_preimage(f.skip(4), None) == Some(original)
        }),
{
    lemma_preimage_roundtrip(original, None);
    lemma_text_field_plain(path);
    lemma_installed_fields(installed_mode, installed_digest);
    let h = seq![tag, text_field(path), spec_octal(installed_mode), spec_digest_hex(installed_digest)];
    let pf = spec_preimage_fields(original);
    let f = h + pf;
    assert(pf.len() == 4) by {
        lemma_preimage_fields_plain(original);
    }
    assert(f[0] == h[0] && f[1] == h[1] && f[2] == h[2] && f[3] == h[3]);
    assert(f.skip(4) =~= pf);
}

#[verifier::rlimit(40)]
proof fn lemma_entry_fields_parse(e: ManifestEntryView)
    requires
        preimage_ok(e.original(), None),
    ensures
        parse_owned_entry(manifest_entry_fields(e)) == Some(e),
{
    match e {
        ManifestEntryView::File { path, installed_mode, installed_digest, original } => {
            reveal_strlit("file");
            lemma_installed_fields_parse("file"@, path, installed_mode, installed_digest, original);
        },
        ManifestEntryView::PatchedFile { path, installed_mode, installed_digest, original } => {
            reveal_strlit("file");
            reveal_strlit("patched-file");
            lemma_installed_fields_parse(
                "patched-file"@,
                path,
                installed_mode,
                installed_digest,
                original,
            );
            assert("patched-file"@ != "file"@) by {
                assert("patched-file"@.len() != "file"@.len());
            }
        },
        ManifestEntryView::Symlink { path, installed_target, original } => {
            reveal_strlit("symlink");
            reveal_strlit("file");
            reveal_strlit("patched-file");
            lemma_preimage_fields_plain(original);
            lemma_preimage_roundtrip(original, None);
            lemma_text_field_plain(path);
            lemma_text_field_plain(installed_target);
            let f = manifest_entry_fields(e);
            assert(f.skip(3) =~= spec_preimage_fields(original));
        },
    }
}

proof fn lemma_entry_fields(e: ManifestEntryView)
    requires
        preimage_ok(e.original(), None),
    ensures
        split_on(manifest_entry_record(e), '\t') == manifest_entry_fields(e),
        one_line(manifest_entry_record(e)),
        parse_owned_entry(manifest_entry_fields(e)) == Some(e),
{
    lemma_entry_fields_plain(e);
    lemma_plain_parts(manifest_entry_fields(e));
    lemma_entry_fields_parse(e);
}

proof fn lemma_created_step(b: ManifestBody, p: Seq<char>)
    requires
        spec_payload_parent_allowed(p),
        !b.created_dirs.contains(p),
    ensures
        parse_manifest_record(b, dir_record(DirList::Created, p)) == Some(
            ManifestBody { created_dirs: b.created_dirs.push(p), ..b },
        ),
{
    reveal_strlit("adapter");
    reveal_strlit("created-dir");
    lemma_dir_record(DirList::Created, p);
    assert("created-dir"@ != "adapter"@) by {
        assert("created-dir"@.len() != "adapter"@.len());
    }
}

proof fn lemma_state_step(b: ManifestBody, p: Seq<char>)
    requires
        crate::journal::spec_state_dir_allowed(p),
        !b.state_created_dirs.contains(p),
    ensures
        parse_manifest_record(b, dir_record(DirList::State, p)) == Some(
            ManifestBody { state_created_dirs: b.state_created_dirs.push(p), ..b },
        ),
{
    reveal_strlit("adapter");
    reveal_strlit("created-dir");
    reveal_strlit("state-created-dir");
    lemma_dir_record(DirList::State, p);
    assert("state-created-dir"@ != "adapter"@) by {
        assert("state-created-dir"@.len() != "adapter"@.len());
    }
    assert("state-created-dir"@ != "created-dir"@) by {
        assert("state-created-dir"@.len() != "created-dir"@.len());
    }
}

proof fn lemma_owned_step(b: ManifestBody, e: ManifestEntryView)
    requires
        spec_payload_path_allowed(e.path()),
        preimage_ok(e.original(), None),
        !manifest_paths(b.entries).contains(e.path()),
    ensures
        parse_manifest_record(b, manifest_entry_record(e)) == Some(
            ManifestBody { entries: b.entries.push(e), ..b },
        ),
{
    lemma_entry_fields(e);
    let f = manifest_entry_fields(e);
    assert(f.len() == 7 || f.len() == 8);
}

proof fn lemma_parse_adapters(pre: Seq<Seq<char>>, ads: Seq<AdapterId>, b: ManifestBody)
    requires
        parse_manifest_records(pre) == Some(b),
        b.adapters.len() == 0,
        forall|i: int, j: int| 0 <= i < j < ads.len() ==> ads[i] != ads[j],
    ensures
        parse_manifest_records(pre + adapter_records(ads)) == Some(ManifestBody { adapters: ads, ..b }),
    decreases ads.len(),
{
    reveal_strlit("adapter");
    reveal_strlit("created-dir");
    reveal_strlit("state-created-dir");
    if ads.len() == 0 {
        assert(pre + adapter_records(ads) =~= pre);
        assert(ManifestBody { adapters: ads, ..b } =~= b);
    } else {
        let q = ads.drop_last();
        let a = ads.last();
        lemma_parse_adapters(pre, q, b);
        let all = pre + adapter_records(ads);
        assert(all.drop_last() =~= pre + adapter_records(q));
        assert(all.last() == adapter_record(a));
        lemma_adapter_record(a);
        assert(!q.contains(a)) by {
            if q.contains(a) {
                let k = choose|k: int| 0 <= k < q.len() && q[k] == a;
                assert(ads[k] == ads[ads.len() - 1]);
            }
        }
        assert(q.push(a) =~= ads);
    }
}

proof fn lemma_parse_created(pre: Seq<Seq<char>>, ps: Seq<Seq<char>>, b: ManifestBody)
    requires
        parse_manifest_records(pre) == Some(b),
        b.created_dirs.len() == 0,
        forall|k: int| 0 <= k < ps.len() ==> spec_payload_parent_allowed(#[trigger] ps[k]),
        distinct_seqs(ps),
    ensures
        parse_manifest_records(pre + dir_records(DirList::Created, ps)) == Some(
            ManifestBody { created_dirs: ps, ..b },
        ),
    decreases ps.len(),
{
    reveal_strlit("adapter");
    reveal_strlit("created-dir");
    if ps.len() == 0 {
        assert(pre + dir_records(DirList::Created, ps) =~= pre);
        assert(ManifestBody { created_dirs: ps, ..b } =~= b);
    } else {
        let q = ps.drop_last();
        let p = ps.last();
        assert forall|k: int| 0 <= k < q.len() implies spec_payload_parent_allowed(#[trigger] q[k]) by {
            assert(q[k] == ps[k]);
        }
        lemma_parse_created(pre, q, b);
        let all = pre + dir_records(DirList::Created, ps);
        assert(all.drop_last() =~= pre + dir_records(DirList::Created, q));
        assert(all.last() == dir_record(DirList::Created, p));
        assert(!q.contains(p)) by {
            if q.contains(p) {
                let k = choose|k: int| 0 <= k < q.len() && q[k] == p;
                assert(ps[k] == ps[ps.len() - 1]);
            }
        }
        assert(spec_payload_parent_allowed(ps[ps.len() - 1]));
        let bq = ManifestBody { created_dirs: q, ..b };
        lemma_created_step(bq, p);
        assert(q.push(p) =~= ps);
        assert(ManifestBody { created_dirs: bq.created_dirs.push(p), ..bq } =~= ManifestBody {
            created_dirs: ps,
            ..b
        });
    }
}

proof fn lemma_parse_state_dirs(pre: Seq<Seq<char>>, ps: Seq<Seq<char>>, b: ManifestBody)
    requires
        parse_manifest_records(pre) == Some(b),
        b.state_created_dirs.len() == 0,
        forall|k: int| 0 <= k < ps.len() ==> crate::journal::spec_state_dir_allowed(#[trigger] ps[k]),
        distinct_seqs(ps),
    ensures
        parse_manifest_records(pre + dir_records(DirList::State, ps)) == Some(
            ManifestBody { state_created_dirs: ps, ..b },
        ),
    decreases ps.len(),
{
    reveal_strlit("adapter");
    reveal_strlit("created-dir");
    reveal_strlit("state-created-dir");
    if ps.len() == 0 {
        assert(pre + dir_records(DirList::State, ps) =~= pre);
        assert(ManifestBody { state_created_dirs: ps, ..b } =~= b);
    } else {
        let q = ps.drop_last();
        let p = ps.last();
        assert forall|k: int| 0 <= k < q.len() implies crate::journal::spec_state_dir_allowed(
            #[trigger] q[k],
        ) by {
            assert(q[k] == ps[k]);
        }
        lemma_parse_state_dirs(pre, q, b);
        let all = pre + dir_records(DirList::State, ps);
        assert(all.drop_last() =~= pre + dir_records(DirList::State, q));
        assert(all.last() == dir_record(DirList::State, p));
        assert(!q.contains(p)) by {
            if q.contains(p) {
                let k = choose|k: int| 0 <= k < q.len() && q[k] == p;
                assert(ps[k] == ps[ps.len() - 1]);
            }
        }
        assert(crate::journal::spec_state_dir_allowed(ps[ps.len() - 1]));
        let bq = ManifestBody { state_created_dirs: q, ..b };
        lemma_state_step(bq, p);
        assert(q.push(p) =~= ps);
        assert(ManifestBody { state_created_dirs: bq.state_created_dirs.push(p), ..bq }
            =~= ManifestBody { state_created_dirs: ps, ..b });
    }
}

proof fn lemma_parse_owned(pre: Seq<Seq<char>>, es: Seq<ManifestEntryView>, b: ManifestBody)
    requires
        parse_manifest_records(pre) == Some(b),
        b.entries.len() == 0,
        forall|k: int|
            0 <= k < es.len() ==> spec_payload_path_allowed(#[trigger] es[k].path()) && preimage_ok(
                es[k].original(),
                None,
            ),
        distinct_seqs(manifest_paths(es)),
    ensures
        parse_manifest_records(pre + manifest_entry_records(es)) == Some(
            ManifestBody { entries: es, ..b },
        ),
    decreases es.len(),
{
    if es.len() == 0 {
        assert(pre + manifest_entry_records(es) =~= pre);
        assert(ManifestBody { entries: es, ..b } =~= b);
    } else {
        let q = es.drop_last();
        let e = es.last();
        assert forall|k: int| 0 <= k < q.len() implies spec_payload_path_allowed(#[trigger] q[k].path())
            && preimage_ok(q[k].original(), None) by {
            assert(q[k] == es[k]);
            assert(spec_payload_path_allowed(es[k].path()));
        }
        assert(distinct_seqs(manifest_paths(q))) by {
            assert forall|i: int, j: int| 0 <= i < j < manifest_paths(q).len() implies manifest_paths(
                q,
            )[i] != manifest_paths(q)[j] by {
                assert(manifest_paths(q)[i] == manifest_paths(es)[i]);
                assert(manifest_paths(q)[j] == manifest_paths(es)[j]);
            }
        }
        lemma_parse_owned(pre, q, b);
        let all = pre + manifest_entry_records(es);
        assert(all.drop_last() =~= pre + manifest_entry_records(q));
        assert(all.last() == manifest_entry_record(e));
        assert(es[es.len() - 1] == e);
        assert(spec_payload_path_allowed(es[es.len() - 1].path()));
        assert(!manifest_paths(q).contains(e.path())) by {
            if manifest_paths(q).contains(e.path()) {
                let k = choose|k: int| 0 <= k < manifest_paths(q).len() && manifest_paths(q)[k] == e.path();
                assert(manifest_paths(es)[k] == manifest_paths(es)[es.len() - 1]);
            }
        }
        let bq = ManifestBody { entries: q, ..b };
        lemma_owned_step(bq, e);
        assert(q.push(e) =~= es);
        assert(ManifestBody { entries: bq.entries.push(e), ..bq } =~= ManifestBody { entries: es, ..b });
    }
}

proof fn lemma_manifest_records_one_line(m: ManifestView)
    requires
        manifest_ok(m),
    ensures
        forall|k: int|
            0 <= k < manifest_records(m).len() ==> one_line(#[trigger] manifest_records(m)[k]),
{
    let t = m.transaction;
    lemma_literals();
    lemma_transaction_plain(t);
    reveal_strlit("BOOTART-MANIFEST\t2");
    reveal_strlit("transaction\t");
    reveal_strlit("plan-version\t");
    reveal_strlit("resource-set-version\t");
    reveal_strlit("inventory-state\t");
    reveal_strlit("complete");
    reveal_strlit("partial");
    lemma_digits_decimal(m.plan_version as nat);
    lemma_digits_decimal(m.resource_set_version as nat);
    lemma_digits_plain(spec_decimal(m.plan_version as nat));
    lemma_digits_plain(spec_decimal(m.resource_set_version as nat));
    let h = manifest_header_records(m);
    let ar = adapter_records(m.adapters);
    let c = dir_records(DirList::Created, m.created_dirs);
    let st = dir_records(DirList::State, m.state_created_dirs);
    let er = manifest_entry_records(m.entries);
    let recs = manifest_records(m);
    assert(recs == h + ar + c + st + er);
    assert forall|k: int| 0 <= k < recs.len() implies one_line(#[trigger] recs[k]) by {
        if k < 5 {
            assert(recs[k] == h[k]);
            let pre = seq!["transaction\t"@, "plan-version\t"@, "resource-set-version\t"@, "inventory-state\t"@];
            let post = seq![
                t,
                spec_decimal(m.plan_version as nat),
                spec_decimal(m.resource_set_version as nat),
                inventory_state_name(m.inventory_state),
            ];
            if k >= 1 {
                assert(h[k] == pre[k - 1] + post[k - 1]);
                assert(plain(post[k - 1]));
                assert forall|i: int| 0 <= i < h[k].len() implies #[trigger] h[k][i] != '\n' && h[k][i]
                    != '\r' by {
                    if i >= pre[k - 1].len() {
                        assert(h[k][i] == post[k - 1][i - pre[k - 1].len()]);
                    } else {
                        assert(h[k][i] == pre[k - 1][i]);
                    }
                }
            }
        } else if k < 5 + ar.len() {
            assert(recs[k] == ar[k - 5]);
            lemma_adapter_record(m.adapters[k - 5]);
        } else if k < 5 + ar.len() + c.len() {
            assert(recs[k] == c[k - 5 - ar.len()]);
            lemma_dir_record(DirList::Created, m.created_dirs[k - 5 - ar.len()]);
        } else if k < 5 + ar.len() + c.len() + st.len() {
            assert(recs[k] == st[k - 5 - ar.len() - c.len()]);
            lemma_dir_record(DirList::State, m.state_created_dirs[k - 5 - ar.len() - c.len()]);
        } else {
            let n = k - 5 - ar.len() - c.len() - st.len();
            assert(recs[k] == er[n]);
            assert(spec_payload_path_allowed(m.entries[n].path()));
            assert(preimage_ok(m.entries[n].original(), None));
            lemma_entry_fields(m.entries[n]);
        }
    }
}

proof fn lemma_manifest_header_parse(m: ManifestView)
    requires
        manifest_ok(m),
    ensures
        manifest_records(m)[0] == MANIFEST_HEADER@,
        has_prefix(manifest_records(m)[1], "transaction\t"@),
        manifest_records(m)[1].skip("transaction\t"@.len() as int) == m.transaction,
        spec_version_record(manifest_records(m)[2], "plan-version\t"@) == Some(m.plan_version),
        spec_version_record(manifest_records(m)[3], "resource-set-version\t"@) == Some(
            m.resource_set_version,
        ),
        spec_parse_inventory_state(manifest_records(m)[4]) == Some(m.inventory_state),
{
    let ls = manifest_records(m);
    let h = manifest_header_records(m);
    assert(ls[0] == h[0] && ls[1] == h[1] && ls[2] == h[2] && ls[3] == h[3] && ls[4] == h[4]);
    assert(ls[1].subrange(0, "transaction\t"@.len() as int) =~= "transaction\t"@);
    assert(ls[1].skip("transaction\t"@.len() as int) =~= m.transaction);
    assert(ls[2].subrange(0, "plan-version\t"@.len() as int) =~= "plan-version\t"@);
    assert(ls[2].skip("plan-version\t"@.len() as int) =~= spec_decimal(m.plan_version as nat));
    lemma_parse_version(m.plan_version);
    assert(ls[3].subrange(0, "resource-set-version\t"@.len() as int) =~= "resource-set-version\t"@);
    assert(ls[3].skip("resource-set-version\t"@.len() as int) =~= spec_decimal(
        m.resource_set_version as nat,
    ));
    lemma_parse_version(m.resource_set_version);
    reveal_strlit("inventory-state\t");
    reveal_strlit("inventory-state\tcomplete");
    reveal_strlit("inventory-state\tpartial");
    reveal_strlit("complete");
    reveal_strlit("partial");
    match m.inventory_state {
        ManifestInventoryState::Complete => {
            assert(ls[4] =~= "inventory-state\tcomplete"@);
        },
        ManifestInventoryState::Partial => {
            assert(ls[4] =~= "inventory-state\tpartial"@);
        },
    }
}

proof fn lemma_manifest_body_parse(m: ManifestView)
    requires
        manifest_ok(m),
    ensures
        parse_manifest_records(manifest_records(m).skip(5)) == Some(
            ManifestBody {
                adapters: m.adapters,
                entries: m.entries,
                created_dirs: m.created_dirs,
                state_created_dirs: m.state_created_dirs,
            },
        ),
{
    let ar = adapter_records(m.adapters);
    let c = dir_records(DirList::Created, m.created_dirs);
    let st = dir_records(DirList::State, m.state_created_dirs);
    let er = manifest_entry_records(m.entries);
    let b0 = empty_manifest_body();
    let e0 = Seq::<Seq<char>>::empty();
    assert(parse_manifest_records(e0) == Some(b0));
    assert(m.adapters[0] != m.adapters[1]) by {
        let i = choose|i: int|
            0 <= i < crate::selection::pair_count() && #[trigger] crate::selection::spec_pair_row(i)
                == (m.adapters[0], m.adapters[1]);
        if i == 0 {
        } else if i == 1 {
        } else if i == 2 {
        } else if i == 3 {
        } else {
        }
    }
    lemma_parse_adapters(e0, m.adapters, b0);
    let b1 = ManifestBody { adapters: m.adapters, ..b0 };
    assert(e0 + ar =~= ar);
    lemma_parse_created(ar, m.created_dirs, b1);
    let b2 = ManifestBody { created_dirs: m.created_dirs, ..b1 };
    lemma_parse_state_dirs(ar + c, m.state_created_dirs, b2);
    let b3 = ManifestBody { state_created_dirs: m.state_created_dirs, ..b2 };
    lemma_parse_owned(ar + c + st, m.entries, b3);
    assert(manifest_records(m).skip(5) =~= ar + c + st + er);
}

/// Reading what a manifest is written as gives the manifest back.
pub proof fn lemma_manifest_roundtrip(m: ManifestView)
    requires
        manifest_ok(m),
    ensures
        spec_parse_manifest(spec_serialize_manifest(m)) == Some(m),
{
    let recs = manifest_records(m);
    lemma_manifest_records_one_line(m);
    lemma_lines_terminated(recs);
    crate::text::lemma_decode_encode(terminated(recs));
    lemma_manifest_header_parse(m);
    lemma_manifest_body_parse(m);
}

// ---------------------------------------------------------------------------
// The inventory a current manifest must record
// ---------------------------------------------------------------------------

/// One path of the inventory that the selected adapters install, in
/// canonical path order.
#[derive(Debug, Clone, PartialEq, Eq)]
pub enum ExpectedManifestEntry {
    /// A whole file; its digest is known unless it is the running binary.
    File { path: String, mode: u32, digest: Option<Sha256Digest> },
    /// A shared file that a snippet was inserted into.
    PatchedFile { path: String, mode: u32 },
    /// An activation link.
    Symlink { path: String, target: String },
}

pub enum ExpectedManifestEntryView {
    File { path: Seq<char>, mode: u32, digest: Option<Sha256Digest> },
    PatchedFile { path: Seq<char>, mode: u32 },
    Symlink { path: Seq<char>, target: Seq<char> },
}

impl View for ExpectedManifestEntry {
    type V = ExpectedManifestEntryView;

    open spec fn view(&self) -> ExpectedManifestEntryView {
        match self {
            ExpectedManifestEntry::File { path, mode, digest } => ExpectedManifestEntryView::File {
                path: path@,
                mode: *mode,
                digest: *digest,
            },
            ExpectedManifestEntry::PatchedFile { path, mode } =>
                ExpectedManifestEntryView::PatchedFile { path: path@, mode: *mode },
            ExpectedManifestEntry::Symlink { path, target } => ExpectedManifestEntryView::Symlink {
                path: path@,
                target: target@,
            },
        }
    }
}

impl ExpectedManifestEntryView {
    pub open spec fn path(self) -> Seq<char> {
        match self {
            ExpectedManifestEntryView::File { path, .. } => path,
            ExpectedManifestEntryView::PatchedFile { path, .. } => path,
            ExpectedManifestEntryView::Symlink { path, .. } => path,
        }
    }
}

pub open spec fn expected_views(v: Seq<ExpectedManifestEntry>) -> Seq<ExpectedManifestEntryView> {
    v.map_values(|e: ExpectedManifestEntry| e@)
}

pub open spec fn expected_paths(v: Seq<ExpectedManifestEntryView>) -> Seq<Seq<char>> {
    v.map_values(|e: ExpectedManifestEntryView| e.path())
}

/// A recorded path agrees with its expected inventory item: same kind, path
/// and mode (or link target), and for a file with a known digest, that
/// digest.
pub open spec fn entry_matches(e: ManifestEntryView, x: ExpectedManifestEntryView) -> bool {
    match (e, x) {
        (
            ManifestEntryView::File { path, installed_mode, installed_digest, .. },
            ExpectedManifestEntryView::File { path: xp, mode, digest },
        ) => path == xp && installed_mode == mode && (digest matches Some(d) ==> installed_digest
            == d),
        (
            ManifestEntryView::PatchedFile { path, installed_mode, .. },
            ExpectedManifestEntryView::PatchedFile { path: xp, mode },
        ) => path == xp && installed_mode == mode,
        (
            ManifestEntryView::Symlink { path, installed_target, .. },
            ExpectedManifestEntryView::Symlink { path: xp, target },
        ) => path == xp && installed_target == target,
        _ => false,
    }
}

fn entry_error(index: usize, what: &str) -> (e: InstallError)
    requires
        index < usize::MAX,
    ensures
        e is CorruptManifest,
{
    let shown: usize = index + 1;
    let n = decimal(shown as u64);
    let a = concat2("current manifest inventory entry ", n.as_str());
    let b = concat2(a.as_str(), " ");
    InstallError::CorruptManifest(concat2(b.as_str(), what))
}

/// Checks one recorded path against its expected inventory item; `index`
/// only numbers the entry in the refusal.
pub fn validate_current_manifest_entry(
    entry: &ManifestEntry,
    expected: &ExpectedManifestEntry,
    index: usize,
) -> (r: Result<(), InstallError>)
    requires
        index < usize::MAX,
    ensures
        r is Ok <==> entry_matches(entry@, expected@),
        r matches Err(e) ==> e is CorruptManifest,
{
    match (entry, expected) {
        (
            ManifestEntry::File { path, installed_mode, installed_digest, .. },
            ExpectedManifestEntry::File { path: xp, mode, digest },
        ) => {
            if !str_eq(path.as_str(), xp.as_str()) || *installed_mode != *mode {
                return Err(
                    entry_error(index, "has a foreign, omitted, or noncanonical path/mode"),
                );
            }
            match digest {
                Some(d) => {
                    if *installed_digest != *d {
                        return Err(entry_error(index, "differs from its embedded resource digest"));
                    }
                },
                None => {},
            }
            Ok(())
        },
        (
            ManifestEntry::PatchedFile { path, installed_mode, .. },
            ExpectedManifestEntry::PatchedFile { path: xp, mode },
        ) => {
            if !str_eq(path.as_str(), xp.as_str()) || *installed_mode != *mode {
                return Err(
                    entry_error(index, "has a foreign, omitted, or noncanonical path/mode"),
                );
            }
            Ok(())
        },
        (
            ManifestEntry::Symlink { path, installed_target, .. },
            ExpectedManifestEntry::Symlink { path: xp, target },
        ) => {
            if !str_eq(path.as_str(), xp.as_str()) || !str_eq(
                installed_target.as_str(),
                target.as_str(),
            ) {
                return Err(
                    entry_error(index, "has a foreign, omitted, or noncanonical symlink path/target"),
                );
            }
            Ok(())
        },
        _ => Err(entry_error(index, "type mismatch")),
    }
}

/// How many recorded paths are the binary.
pub open spec fn binary_count(es: Seq<ManifestEntryView>) -> nat
    decreases es.len(),
{
    if es.len() == 0 {
        0
    } else {
        binary_count(es.drop_last()) + if es.last().path() == crate::elf::BOOTART_BINARY_PATH@ {
            1nat
        } else {
            0nat
        }
    }
}

fn count_binary_entries(entries: &Vec<ManifestEntry>) -> (r: usize)
    ensures
        r == binary_count(manifest_entry_views(entries@)),
{
    let ghost ev = manifest_entry_views(entries@);
    let mut count: usize = 0;
    let mut i: usize = 0;
    assert(ev.take(0) =~= Seq::<ManifestEntryView>::empty());
    while i < entries.len()
        invariant
            i <= entries@.len(),
            ev == manifest_entry_views(entries@),
            count == binary_count(ev.take(i as int)),
            count <= i,
        decreases entries.len() - i,
    {
        assert(ev.take(i + 1).drop_last() =~= ev.take(i as int));
        assert(ev[i as int] == entries@[i as int]@);
        if str_eq(entries[i].path(), crate::elf::BOOTART_BINARY_PATH) {
            count = count + 1;
        }
        i = i + 1;
    }
    assert(ev.take(entries@.len() as int) =~= ev);
    count
}

/// A complete current manifest records the binary once, and exactly the
/// expected inventory, item by item.
pub open spec fn complete_inventory_ok(
    expected: Seq<ExpectedManifestEntryView>,
    entries: Seq<ManifestEntryView>,
) -> bool {
    &&& binary_count(entries) == 1
    &&& entries.len() == expected.len()
    &&& forall|i: int| 0 <= i < entries.len() ==> entry_matches(#[trigger] entries[i], expected[i])
}

/// Checks a complete current manifest against the canonical inventory of its
/// adapters.
pub fn validate_complete_current_manifest_inventory(
    expected: &Vec<ExpectedManifestEntry>,
    entries: &Vec<ManifestEntry>,
) -> (r: Result<(), InstallError>)
    ensures
        r is Ok <==> complete_inventory_ok(
            expected_views(expected@),
            manifest_entry_views(entries@),
        ),
        r matches Err(e) ==> e is CorruptManifest,
{
    let ghost ev = manifest_entry_views(entries@);
    let ghost xv = expected_views(expected@);
    let count = count_binary_entries(entries);
    if count != 1 {
        return Err(
            corrupt("current manifest must contain exactly one mode-0755 /usr/bin/bootart entry"),
        );
    }
    if entries.len() != expected.len() {
        return Err(
            corrupt(
                "current manifest does not contain the complete selected-adapter file inventory",
            ),
        );
    }
    let mut k: usize = 0;
    while k < entries.len()
        invariant
            k <= entries@.len(),
            entries@.len() == expected@.len(),
            ev == manifest_entry_views(entries@),
            xv == expected_views(expected@),
            forall|j: int| 0 <= j < k ==> entry_matches(#[trigger] ev[j], xv[j]),
        decreases entries.len() - k,
    {
        assert(ev[k as int] == entries@[k as int]@);
        assert(xv[k as int] == expected@[k as int]@);
        assert(k < usize::MAX);
        match validate_current_manifest_entry(&entries[k], &expected[k], k) {
            Ok(()) => {},
            Err(e) => {
                return Err(e);
            },
        }
        k = k + 1;
    }
    Ok(())
}

/// `a` sorts strictly before `b`, character by character.
pub open spec fn path_lt(a: Seq<char>, b: Seq<char>) -> bool
    decreases a.len(),
{
    if a.len() == 0 {
        b.len() > 0
    } else if b.len() == 0 {
        false
    } else if a[0] != b[0] {
        a[0] < b[0]
    } else {
        path_lt(a.drop_first(), b.drop_first())
    }
}

/// Whether `a` sorts strictly before `b`.
pub fn path_lt_exec(a: &str, b: &str) -> (r: bool)
    ensures
        r == path_lt(a@, b@),
{
    let av = chars_of(a);
    let bv = chars_of(b);
    let mut i: usize = 0;
    assert(a@.skip(0) =~= a@);
    assert(b@.skip(0) =~= b@);
    while i < av.len() && i < bv.len() && av[i] == bv[i]
        invariant
            i <= av@.len(),
            i <= bv@.len(),
            av@ == a@,
            bv@ == b@,
            path_lt(a@, b@) == path_lt(a@.skip(i as int), b@.skip(i as int)),
        decreases av.len() - i,
    {
        proof {
            let x = a@.skip(i as int);
            let y = b@.skip(i as int);
            assert(x[0] == y[0]);
            assert(x.drop_first() =~= a@.skip(i + 1));
            assert(y.drop_first() =~= b@.skip(i + 1));
        }
        i = i + 1;
    }
    let ghost x = a@.skip(i as int);
    let ghost y = b@.skip(i as int);
    if i == av.len() {
        assert(x.len() == 0);
        i < bv.len()
    } else if i == bv.len() {
        assert(y.len() == 0 && x.len() > 0);
        false
    } else {
        assert(x[0] == av@[i as int] && y[0] == bv@[i as int]);
        av[i] < bv[i]
    }
}

/// A partial current manifest records fewer paths than the inventory, in
/// strictly increasing path order, each agreeing with the inventory item of
/// its path.
pub open spec fn partial_inventory_ok(
    expected: Seq<ExpectedManifestEntryView>,
    entries: Seq<ManifestEntryView>,
) -> bool {
    &&& entries.len() < expected.len()
    &&& forall|i: int|
        0 <= i < entries.len() - 1 ==> path_lt(#[trigger] entries[i].path(), entries[i + 1].path())
    &&& forall|i: int| 0 <= i < entries.len() ==> has_expected_match(expected, #[trigger] entries[i])
}

/// Some expected item has the path of `e` and agrees with it.
pub open spec fn has_expected_match(expected: Seq<ExpectedManifestEntryView>, e: ManifestEntryView) -> bool {
    exists|j: int| 0 <= j < expected.len() && expected[j].path() == e.path() && entry_matches(e, #[trigger] expected[j])
}

/// Checks a partial current manifest against the canonical inventory of its
/// adapters, whose paths are distinct.
pub fn validate_partial_current_manifest_inventory(
    expected: &Vec<ExpectedManifestEntry>,
    entries: &Vec<ManifestEntry>,
) -> (r: Result<(), InstallError>)
    requires
        distinct_seqs(expected_paths(expected_views(expected@))),
    ensures
        r is Ok <==> partial_inventory_ok(
            expected_views(expected@),
            manifest_entry_views(entries@),
        ),
        r matches Err(e) ==> e is CorruptManifest,
{
    let ghost ev = manifest_entry_views(entries@);
    let ghost xv = expected_views(expected@);
    if entries.len() >= expected.len() {
        return Err(
            corrupt(
                "current partial manifest must be a strict subset of the selected-adapter file inventory",
            ),
        );
    }
    let n = entries.len();
    assert(n < usize::MAX) by {
        assert(expected@.len() <= usize::MAX);
    }
    let mut i: usize = 0;
    while i + 1 < n
        invariant
            n == entries@.len(),
            n < usize::MAX,
            n < expected@.len(),
            i <= n,
            ev == manifest_entry_views(entries@),
            forall|j: int| 0 <= j < i && j < n - 1 ==> path_lt(
                #[trigger] ev[j].path(),
                ev[j + 1].path(),
            ),
        decreases n - i,
    {
        assert(ev[i as int] == entries@[i as int]@);
        assert(ev[i + 1] == entries@[i + 1]@);
        if !path_lt_exec(entries[i].path(), entries[i + 1].path()) {
            return Err(
                corrupt("current partial manifest file inventory is not in canonical path order"),
            );
        }
        i = i + 1;
    }
    let mut k: usize = 0;
    while k < entries.len()
        invariant
            k <= entries@.len(),
            entries@.len() < expected@.len(),
            ev == manifest_entry_views(entries@),
            xv == expected_views(expected@),
            distinct_seqs(expected_paths(xv)),
            forall|j: int| 0 <= j < entries@.len() - 1 ==> path_lt(
                #[trigger] ev[j].path(),
                ev[j + 1].path(),
            ),
            forall|m: int| 0 <= m < k ==> has_expected_match(xv, #[trigger] ev[m]),
        decreases entries.len() - k,
    {
        assert(ev[k as int] == entries@[k as int]@);
        let j = match find_expected(expected, entries[k].path()) {
            Some(j) => j,
            None => {
                return Err(entry_error(k, "is foreign to the selected adapters"));
            },
        };
        assert(xv[j as int] == expected@[j as int]@);
        match validate_current_manifest_entry(&entries[k], &expected[j], k) {
            Ok(()) => {
                assert(has_expected_match(xv, ev[k as int]));
            },
            Err(e) => {
                proof {
                    assert forall|m: int|
                        0 <= m < xv.len() && xv[m].path() == ev[k as int].path() implies m == j by {
                        if m != j {
                            assert(expected_paths(xv)[m] == xv[m].path());
                            assert(expected_paths(xv)[j as int] == xv[j as int].path());
                        }
                    }
                    assert(!has_expected_match(xv, ev[k as int]));
                }
                return Err(e);
            },
        }
        k = k + 1;
    }
    Ok(())
}

/// The index of the expected item at `path`.
fn find_expected(expected: &Vec<ExpectedManifestEntry>, path: &str) -> (r: Option<usize>)
    ensures
        r matches Some(j) ==> j < expected@.len() && expected_views(expected@)[j as int].path()
            == path@,
        r is None ==> forall|m: int|
            0 <= m < expected@.len() ==> #[trigger] expected_views(expected@)[m].path() != path@,
{
    let ghost xv = expected_views(expected@);
    let mut j: usize = 0;
    while j < expected.len()
        invariant
            j <= expected@.len(),
            xv == expected_views(expected@),
            forall|m: int| 0 <= m < j ==> xv[m].path() != path@,
        decreases expected.len() - j,
    {
        assert(xv[j as int] == expected@[j as int]@);
        let xp = match &expected[j] {
            ExpectedManifestEntry::File { path, .. } => path.as_str(),
            ExpectedManifestEntry::PatchedFile { path, .. } => path.as_str(),
            ExpectedManifestEntry::Symlink { path, .. } => path.as_str(),
        };
        if str_eq(xp, path) {
            return Some(j);
        }
        j = j + 1;
    }
    None
}

/// Checks a current manifest's inventory against the canonical inventory of
/// its adapters, as its recorded inventory state asks.
pub fn validate_current_manifest_inventory(
    manifest: &Manifest,
    expected: &Vec<ExpectedManifestEntry>,
) -> (r: Result<(), InstallError>)
    requires
        distinct_seqs(expected_paths(expected_views(expected@))),
    ensures
        r is Ok <==> match manifest.inventory_state {
            ManifestInventoryState::Complete => complete_inventory_ok(
                expected_views(expected@),
                manifest@.entries,
            ),
            ManifestInventoryState::Partial => partial_inventory_ok(
                expected_views(expected@),
                manifest@.entries,
            ),
        },
        r matches Err(e) ==> e is CorruptManifest,
{
    match manifest.inventory_state {
        ManifestInventoryState::Complete => validate_complete_current_manifest_inventory(
            expected,
            &manifest.entries,
        ),
        ManifestInventoryState::Partial => validate_partial_current_manifest_inventory(
            expected,
            &manifest.entries,
        ),
    }
}

} // verus!
