//! Rendering of safety records for people and for machines: one line of
//! `key=value` text, or one JSON object with every string escaped.

use crate::adapter::{adapter, spec_adapter_name, AdapterId};
use crate::codec::{digest_hex, hex_char, hex_char_exec, spec_digest_hex, word_hex};
use crate::generator::GeneratorKind;
use crate::safety::{
    BackupSubjectKind, DirectoryScope, ExpectedPreviousState, GeneratorInvocation, InspectionKind,
    PlannedHashState, PlannedValue, PreviewExecutionState, RollbackAction, SafetyRecord,
};
use crate::text::{
    chars_of, concat_all, decimal, octal4, spec_decimal, spec_octal4, str_views, string_from_chars,
};
use vstd::prelude::*;

verus! {

// ---------------------------------------------------------------------------
// Pieces
// ---------------------------------------------------------------------------

/// The pieces, one after another.
pub(crate) fn join_strs(parts: Vec<&str>) -> (r: String)
    ensures
        r@ == concat_all(str_views(parts@)),
{
    let mut out: Vec<char> = Vec::new();
    let mut i: usize = 0;
    let ghost pv = str_views(parts@);
    assert(pv.take(0) =~= Seq::<Seq<char>>::empty());
    while i < parts.len()
        invariant
            i <= parts@.len(),
            pv == str_views(parts@),
            out@ == concat_all(pv.take(i as int)),
        decreases parts.len() - i,
    {
        let v = chars_of(parts[i]);
        crate::text::extend_range(&mut out, v.as_slice(), 0, v.len());
        proof {
            assert(v@.subrange(0, v@.len() as int) =~= pv[i as int]);
            assert(pv.take(i + 1).drop_last() =~= pv.take(i as int));
        }
        i = i + 1;
    }
    assert(pv.take(parts@.len() as int) =~= pv);
    string_from_chars(out.as_slice())
}

pub open spec fn bool_text(b: bool) -> Seq<char> {
    if b {
        "true"@
    } else {
        "false"@
    }
}

fn bool_str(b: bool) -> (r: &'static str)
    ensures
        r@ == bool_text(b),
{
    if b {
        "true"
    } else {
        "false"
    }
}

pub open spec fn scope_name(s: DirectoryScope) -> Seq<char> {
    match s {
        DirectoryScope::RealRoot => "real_root"@,
        DirectoryScope::GeneratedInitramfs => "generated_initramfs"@,
    }
}

pub open spec fn previous_name(p: ExpectedPreviousState) -> Seq<char> {
    match p {
        ExpectedPreviousState::Absent => "absent"@,
        ExpectedPreviousState::Uninspected => "uninspected"@,
    }
}

pub open spec fn subject_name(s: BackupSubjectKind) -> Seq<char> {
    match s {
        BackupSubjectKind::FilePayload => "file_payload"@,
        BackupSubjectKind::ManagedSnippetTarget => "managed_snippet_target"@,
        BackupSubjectKind::ActivationLink => "activation_link"@,
    }
}

/// The name a generator is recorded under.
pub open spec fn generator_name(g: GeneratorKind) -> Seq<char> {
    match g {
        GeneratorKind::Dracut => "dracut"@,
        GeneratorKind::InitramfsTools => "initramfs_tools"@,
        GeneratorKind::Mkinitcpio => "mkinitcpio"@,
        GeneratorKind::Mkinitfs => "mkinitfs"@,
        GeneratorKind::MkinitfsBootDeploy => "mkinitfs_boot_deploy"@,
        GeneratorKind::InitramfsInspection => "initramfs_inspection"@,
        GeneratorKind::GrubUpdate => "grub_update"@,
        GeneratorKind::ExtlinuxUpdate => "extlinux_update"@,
        GeneratorKind::SystemdReload => "systemd_reload"@,
        GeneratorKind::OpenRcRunlevel => "openrc_runlevel"@,
    }
}

/// The name a generator is recorded under.
pub fn generator_stable_name(g: GeneratorKind) -> (r: &'static str)
    ensures
        r@ == generator_name(g),
{
    match g {
        GeneratorKind::Dracut => "dracut",
        GeneratorKind::InitramfsTools => "initramfs_tools",
        GeneratorKind::Mkinitcpio => "mkinitcpio",
        GeneratorKind::Mkinitfs => "mkinitfs",
        GeneratorKind::MkinitfsBootDeploy => "mkinitfs_boot_deploy",
        GeneratorKind::InitramfsInspection => "initramfs_inspection",
        GeneratorKind::GrubUpdate => "grub_update",
        GeneratorKind::ExtlinuxUpdate => "extlinux_update",
        GeneratorKind::SystemdReload => "systemd_reload",
        GeneratorKind::OpenRcRunlevel => "openrc_runlevel",
    }
}

pub open spec fn execution_blocker(e: PreviewExecutionState) -> &'static str {
    match e {
        PreviewExecutionState::Blocked { blocker } => blocker,
    }
}

fn execution_blocker_exec(e: PreviewExecutionState) -> (r: &'static str)
    ensures
        r == execution_blocker(e),
{
    match e {
        PreviewExecutionState::Blocked { blocker } => blocker,
    }
}

// ---------------------------------------------------------------------------
// JSON strings
// ---------------------------------------------------------------------------

/// One character inside a JSON string: quotes, backslashes and the named
/// controls get their short escapes, other controls `\u00XX`, anything else
/// stands for itself.
pub open spec fn json_char(c: char) -> Seq<char> {
    if c == '"' {
        seq!['\\', '"']
    } else if c == '\\' {
        seq!['\\', '\\']
    } else if c == '\n' {
        seq!['\\', 'n']
    } else if c == '\r' {
        seq!['\\', 'r']
    } else if c == '\t' {
        seq!['\\', 't']
    } else if c <= '\u{1f}' {
        seq!['\\', 'u'] + word_hex(c as int, 4)
    } else {
        seq![c]
    }
}

/// Text as the inside of a JSON string.
pub open spec fn spec_json_escape(s: Seq<char>) -> Seq<char>
    decreases s.len(),
{
    if s.len() == 0 {
        Seq::empty()
    } else {
        spec_json_escape(s.drop_last()) + json_char(s.last())
    }
}

fn push_json_char(out: &mut Vec<char>, c: char)
    ensures
        final(out)@ == old(out)@ + json_char(c),
{
    if c == '"' {
        out.push('\\');
        out.push('"');
    } else if c == '\\' {
        out.push('\\');
        out.push('\\');
    } else if c == '\n' {
        out.push('\\');
        out.push('n');
    } else if c == '\r' {
        out.push('\\');
        out.push('r');
    } else if c == '\t' {
        out.push('\\');
        out.push('t');
    } else if c <= '\u{1f}' {
        let v = c as u32;
        out.push('\\');
        out.push('u');
        out.push('0');
        out.push('0');
        out.push(hex_char_exec((v / 16) as u8));
        out.push(hex_char_exec((v % 16) as u8));
        proof {
            let w = v as int;
            assert(w / 16 / 16 == 0 && w / 16 % 16 == w / 16) by {
                assert(w < 32);
            }
            assert(word_hex(w, 4) == word_hex(w / 16, 3).push(hex_char(w % 16)));
            assert(word_hex(w / 16, 3) == word_hex(w / 16 / 16, 2).push(hex_char(w / 16 % 16)));
            assert(word_hex(0, 2) == word_hex(0, 1).push(hex_char(0)));
            assert(word_hex(0, 1) == word_hex(0, 0).push(hex_char(0)));
            assert(word_hex(w, 4) =~= seq!['0', '0', hex_char(w / 16), hex_char(w % 16)]);
        }
    } else {
        out.push(c);
    }
}

/// `value` escaped for a JSON string.
pub fn json_escape(value: &str) -> (r: String)
    ensures
        r@ == spec_json_escape(value@),
{
    let v = chars_of(value);
    let mut out: Vec<char> = Vec::new();
    let mut i: usize = 0;
    assert(v@.take(0) =~= Seq::<char>::empty());
    while i < v.len()
        invariant
            i <= v@.len(),
            v@ == value@,
            out@ == spec_json_escape(v@.take(i as int)),
        decreases v.len() - i,
    {
        push_json_char(&mut out, v[i]);
        proof {
            assert(v@.take(i + 1).drop_last() =~= v@.take(i as int));
            assert(v@.take(i + 1).last() == v@[i as int]);
        }
        i = i + 1;
    }
    assert(v@.take(v@.len() as int) =~= v@);
    string_from_chars(out.as_slice())
}

/// Escaped text never ends a JSON string early: every quote it holds is
/// escaped, and it holds no raw control character.
pub proof fn lemma_json_escape_is_string_safe(s: Seq<char>)
    ensures
        forall|j: int|
            0 <= j < spec_json_escape(s).len() && #[trigger] spec_json_escape(s)[j] == '"' ==> j > 0
                && spec_json_escape(s)[j - 1] == '\\',
        forall|j: int|
            0 <= j < spec_json_escape(s).len() ==> #[trigger] spec_json_escape(s)[j] > '\u{1f}',
    decreases s.len(),
{
    if s.len() > 0 {
        let p = spec_json_escape(s.drop_last());
        let c = s.last();
        let q = json_char(c);
        lemma_json_escape_is_string_safe(s.drop_last());
        let e = spec_json_escape(s);
        assert(e == p + q);
        if c <= '\u{1f}' && c != '\n' && c != '\r' && c != '\t' {
            let w = c as int;
            assert(word_hex(w, 4) == word_hex(w / 16, 3).push(hex_char(w % 16)));
            assert(word_hex(w / 16, 3) == word_hex(w / 16 / 16, 2).push(hex_char(w / 16 % 16)));
            assert(word_hex(w / 16 / 16, 2) == word_hex(w / 16 / 16 / 16, 1).push(
                hex_char(w / 16 / 16 % 16),
            ));
            assert(word_hex(w / 16 / 16 / 16, 1) == word_hex(w / 16 / 16 / 16 / 16, 0).push(
                hex_char(w / 16 / 16 / 16 % 16),
            ));
            crate::codec::lemma_hex_char(w % 16);
            crate::codec::lemma_hex_char(w / 16 % 16);
            crate::codec::lemma_hex_char(w / 16 / 16 % 16);
            crate::codec::lemma_hex_char(w / 16 / 16 / 16 % 16);
        }
        assert forall|j: int| 0 <= j < e.len() && #[trigger] e[j] == '"' implies j > 0 && e[j - 1] == '\\' by {
            if j >= p.len() {
                assert(e[j] == q[j - p.len()]);
                assert(j - p.len() == 1);
                assert(e[j - 1] == q[0]);
            } else {
                assert(e[j] == p[j]);
                assert(e[j - 1] == p[j - 1]);
            }
        }
        assert forall|j: int| 0 <= j < e.len() implies #[trigger] e[j] > '\u{1f}' by {
            if j >= p.len() {
                assert(e[j] == q[j - p.len()]);
            } else {
                assert(e[j] == p[j]);
            }
        }
    }
}

/// `"` + escaped text + `"`.
pub open spec fn json_string(s: Seq<char>) -> Seq<char> {
    seq!['"'] + spec_json_escape(s) + seq!['"']
}

// ---------------------------------------------------------------------------
// Values, hashes, invocations, inspections, rollback steps
// ---------------------------------------------------------------------------

pub open spec fn spec_planned_value_json(v: PlannedValue) -> Seq<char> {
    match v {
        PlannedValue::Exact(s) => concat_all(
            seq!["{\"state\":\"exact\",\"value\":\""@, spec_json_escape(s@), "\"}"@],
        ),
        PlannedValue::Unresolved { blocker } => concat_all(
            seq!["{\"state\":\"unresolved\",\"blocker\":\""@, spec_json_escape(blocker@), "\"}"@],
        ),
    }
}

pub fn planned_value_json(value: &PlannedValue) -> (r: String)
    ensures
        r@ == spec_planned_value_json(*value),
{
    match value {
        PlannedValue::Exact(s) => {
            let e = json_escape(s.as_str());
            let parts = vec!["{\"state\":\"exact\",\"value\":\"", e.as_str(), "\"}"];
            assert(str_views(parts@) =~= seq!["{\"state\":\"exact\",\"value\":\""@, e@, "\"}"@]);
            join_strs(parts)
        },
        PlannedValue::Unresolved { blocker } => {
            let e = json_escape(blocker);
            let parts = vec!["{\"state\":\"unresolved\",\"blocker\":\"", e.as_str(), "\"}"];
            assert(str_views(parts@) =~= seq![
                "{\"state\":\"unresolved\",\"blocker\":\""@,
                e@,
                "\"}"@,
            ]);
            join_strs(parts)
        },
    }
}

pub open spec fn spec_planned_value_human(v: PlannedValue) -> Seq<char> {
    match v {
        PlannedValue::Exact(s) => "exact:"@ + s@,
        PlannedValue::Unresolved { blocker } => "unresolved:"@ + blocker@,
    }
}

pub fn planned_value_human(value: &PlannedValue) -> (r: String)
    ensures
        r@ == spec_planned_value_human(*value),
{
    match value {
        PlannedValue::Exact(s) => crate::text::concat2("exact:", s.as_str()),
        PlannedValue::Unresolved { blocker } => crate::text::concat2("unresolved:", blocker),
    }
}

pub open spec fn spec_planned_hash_json(h: PlannedHashState) -> Seq<char> {
    match h {
        PlannedHashState::Exact(d) => concat_all(
            seq!["{\"state\":\"exact\",\"sha256\":\""@, spec_digest_hex(d), "\"}"@],
        ),
        PlannedHashState::Absent => "{\"state\":\"absent\"}"@,
        PlannedHashState::Uninspected { blocker } => concat_all(
            seq!["{\"state\":\"uninspected\",\"blocker\":\""@, spec_json_escape(blocker@), "\"}"@],
        ),
        PlannedHashState::Unresolved { blocker } => concat_all(
            seq!["{\"state\":\"unresolved\",\"blocker\":\""@, spec_json_escape(blocker@), "\"}"@],
        ),
    }
}

pub fn planned_hash_json(state: PlannedHashState) -> (r: String)
    ensures
        r@ == spec_planned_hash_json(state),
{
    match state {
        PlannedHashState::Exact(d) => {
            let h = digest_hex(d);
            let parts = vec!["{\"state\":\"exact\",\"sha256\":\"", h.as_str(), "\"}"];
            assert(str_views(parts@) =~= seq!["{\"state\":\"exact\",\"sha256\":\""@, h@, "\"}"@]);
            join_strs(parts)
        },
        PlannedHashState::Absent => String::from_str("{\"state\":\"absent\"}"),
        PlannedHashState::Uninspected { blocker } => {
            let e = json_escape(blocker);
            let parts = vec!["{\"state\":\"uninspected\",\"blocker\":\"", e.as_str(), "\"}"];
            assert(str_views(parts@) =~= seq![
                "{\"state\":\"uninspected\",\"blocker\":\""@,
                e@,
                "\"}"@,
            ]);
            join_strs(parts)
        },
        PlannedHashState::Unresolved { blocker } => {
            let e = json_escape(blocker);
            let parts = vec!["{\"state\":\"unresolved\",\"blocker\":\"", e.as_str(), "\"}"];
            assert(str_views(parts@) =~= seq![
                "{\"state\":\"unresolved\",\"blocker\":\""@,
                e@,
                "\"}"@,
            ]);
            join_strs(parts)
        },
    }
}

pub open spec fn spec_planned_hash_human(h: PlannedHashState) -> Seq<char> {
    match h {
        PlannedHashState::Exact(d) => "exact:"@ + spec_digest_hex(d),
        PlannedHashState::Absent => "absent"@,
        PlannedHashState::Uninspected { blocker } => "uninspected:"@ + blocker@,
        PlannedHashState::Unresolved { blocker } => "unresolved:"@ + blocker@,
    }
}

pub fn planned_hash_human(state: PlannedHashState) -> (r: String)
    ensures
        r@ == spec_planned_hash_human(state),
{
    match state {
        PlannedHashState::Exact(d) => {
            let h = digest_hex(d);
            crate::text::concat2("exact:", h.as_str())
        },
        PlannedHashState::Absent => String::from_str("absent"),
        PlannedHashState::Uninspected { blocker } => crate::text::concat2("uninspected:", blocker),
        PlannedHashState::Unresolved { blocker } => crate::text::concat2("unresolved:", blocker),
    }
}

/// JSON strings separated by commas.
pub open spec fn json_string_list(v: Seq<Seq<char>>) -> Seq<char>
    decreases v.len(),
{
    if v.len() == 0 {
        Seq::empty()
    } else if v.len() == 1 {
        json_string(v[0])
    } else {
        json_string_list(v.drop_last()) + seq![','] + json_string(v.last())
    }
}

pub(crate) fn json_string_list_exec(v: &Vec<String>) -> (r: String)
    ensures
        r@ == json_string_list(crate::text::string_views(v@)),
{
    let ghost sv = crate::text::string_views(v@);
    let mut out: Vec<char> = Vec::new();
    let mut i: usize = 0;
    assert(sv.take(0) =~= Seq::<Seq<char>>::empty());
    while i < v.len()
        invariant
            i <= v@.len(),
            sv == crate::text::string_views(v@),
            out@ == json_string_list(sv.take(i as int)),
        decreases v.len() - i,
    {
        let ghost before = out@;
        if i > 0 {
            out.push(',');
        }
        out.push('"');
        let e = chars_of(json_escape(v[i].as_str()).as_str());
        crate::text::extend_range(&mut out, e.as_slice(), 0, e.len());
        out.push('"');
        proof {
            assert(e@.subrange(0, e@.len() as int) =~= spec_json_escape(sv[i as int]));
            assert(sv.take(i + 1).drop_last() =~= sv.take(i as int));
            assert(sv.take(i + 1).last() == sv[i as int]);
            if i == 0 {
                assert(out@ =~= json_string(sv[0]));
            } else {
                assert(out@ =~= before + seq![','] + json_string(sv[i as int]));
            }
        }
        i = i + 1;
    }
    assert(sv.take(v@.len() as int) =~= sv);
    string_from_chars(out.as_slice())
}

pub open spec fn spec_generator_invocation_json(i: GeneratorInvocation) -> Seq<char> {
    match i {
        GeneratorInvocation::Exact { executable, arguments } => concat_all(
            seq![
                "{\"state\":\"exact\",\"executable\":\""@,
                spec_json_escape(executable@),
                "\",\"argv\":["@,
                json_string_list(crate::text::string_views(arguments@)),
                "]}"@,
            ],
        ),
        GeneratorInvocation::Unresolved { blocker } => concat_all(
            seq!["{\"state\":\"unresolved\",\"blocker\":\""@, spec_json_escape(blocker@), "\"}"@],
        ),
    }
}

pub fn generator_invocation_json(invocation: &GeneratorInvocation) -> (r: String)
    ensures
        r@ == spec_generator_invocation_json(*invocation),
{
    match invocation {
        GeneratorInvocation::Exact { executable, arguments } => {
            let e = json_escape(executable.as_str());
            let a = json_string_list_exec(arguments);
            let parts = vec![
                "{\"state\":\"exact\",\"executable\":\"",
                e.as_str(),
                "\",\"argv\":[",
                a.as_str(),
                "]}",
            ];
            assert(str_views(parts@) =~= seq![
                "{\"state\":\"exact\",\"executable\":\""@,
                e@,
                "\",\"argv\":["@,
                a@,
                "]}"@,
            ]);
            join_strs(parts)
        },
        GeneratorInvocation::Unresolved { blocker } => {
            let e = json_escape(blocker);
            let parts = vec!["{\"state\":\"unresolved\",\"blocker\":\"", e.as_str(), "\"}"];
            assert(str_views(parts@) =~= seq![
                "{\"state\":\"unresolved\",\"blocker\":\""@,
                e@,
                "\"}"@,
            ]);
            join_strs(parts)
        },
    }
}

/// What `{:?}` writes for a list of strings: each string's own `Debug`
/// text, joined by `", "`, in brackets.
pub open spec fn debug_string_list(v: Seq<Seq<char>>) -> Seq<char> {
    concat_all(
        seq![
            "["@,
            crate::describe::join_with(v.map_values(|s: Seq<char>| crate::describe::debug_str_text(s)), ", "@),
            "]"@,
        ],
    )
}

/// `{:?}` of a list of strings.
fn debug_strings(v: &Vec<String>) -> (r: String)
    ensures
        r@ == debug_string_list(crate::text::string_views(v@)),
{
    let mut items: Vec<String> = Vec::new();
    let ghost sv = crate::text::string_views(v@);
    let mut i: usize = 0;
    while i < v.len()
        invariant
            i <= v@.len(),
            sv == crate::text::string_views(v@),
            crate::text::string_views(items@) == sv.take(i as int).map_values(
                |s: Seq<char>| crate::describe::debug_str_text(s),
            ),
        decreases v.len() - i,
    {
        let ghost before = items@;
        items.push(crate::describe::debug_str(v[i].as_str()));
        assert(crate::text::string_views(items@) =~= crate::text::string_views(before).push(
            crate::describe::debug_str_text(sv[i as int]),
        ));
        assert(sv.take(i as int + 1).map_values(|s: Seq<char>| crate::describe::debug_str_text(s))
            =~= sv.take(i as int).map_values(|s: Seq<char>| crate::describe::debug_str_text(s)).push(
            crate::describe::debug_str_text(sv[i as int]),
        ));
        i = i + 1;
    }
    assert(sv.take(v@.len() as int) =~= sv);
    let joined = crate::describe::join_strings(&items, ", ");
    let parts = vec!["[", joined.as_str(), "]"];
    assert(str_views(parts@) =~= seq!["["@, joined@, "]"@]);
    join_strs(parts)
}

pub open spec fn spec_generator_invocation_human(i: GeneratorInvocation) -> Seq<char> {
    match i {
        GeneratorInvocation::Exact { executable, arguments } => concat_all(
            seq![
                "exact:"@,
                executable@,
                " argv="@,
                debug_string_list(crate::text::string_views(arguments@)),
            ],
        ),
        GeneratorInvocation::Unresolved { blocker } => "unresolved:"@ + blocker@,
    }
}

pub fn generator_invocation_human(invocation: &GeneratorInvocation) -> (r: String)
    ensures
        r@ == spec_generator_invocation_human(*invocation),
{
    match invocation {
        GeneratorInvocation::Exact { executable, arguments } => {
            let d = debug_strings(arguments);
            let parts = vec!["exact:", executable.as_str(), " argv=", d.as_str()];
            assert(str_views(parts@) =~= seq!["exact:"@, executable@, " argv="@, d@]);
            join_strs(parts)
        },
        GeneratorInvocation::Unresolved { blocker } => crate::text::concat2("unresolved:", blocker),
    }
}

pub open spec fn spec_inspection_json(c: InspectionKind) -> Seq<char> {
    match c {
        InspectionKind::CandidatePathDistinctFromKnownGood =>
            "{\"kind\":\"candidate_path_distinct_from_known_good\"}"@,
        InspectionKind::CandidatePreChangeAbsent => "{\"kind\":\"candidate_pre_change_absent\"}"@,
        InspectionKind::StaticBootartElf { path, digest } => concat_all(
            seq![
                "{\"kind\":\"static_bootart_elf\",\"path\":\""@,
                spec_json_escape(path@),
                "\",\"sha256\":\""@,
                spec_digest_hex(digest),
                "\"}"@,
            ],
        ),
        InspectionKind::SelectedAdapterInventory { adapter } => concat_all(
            seq![
                "{\"kind\":\"selected_adapter_inventory\",\"adapter\":\""@,
                spec_json_escape(spec_adapter_name(adapter)@),
                "\"}"@,
            ],
        ),
        InspectionKind::LegacyHelperAbsent { path } => concat_all(
            seq!["{\"kind\":\"legacy_helper_absent\",\"path\":\""@, spec_json_escape(path@), "\"}"@],
        ),
        InspectionKind::KnownGoodUnchanged => "{\"kind\":\"known_good_unchanged\"}"@,
    }
}

pub fn inspection_json(check: &InspectionKind) -> (r: String)
    ensures
        r@ == spec_inspection_json(*check),
{
    match check {
        InspectionKind::CandidatePathDistinctFromKnownGood => String::from_str(
            "{\"kind\":\"candidate_path_distinct_from_known_good\"}",
        ),
        InspectionKind::CandidatePreChangeAbsent => String::from_str(
            "{\"kind\":\"candidate_pre_change_absent\"}",
        ),
        InspectionKind::StaticBootartElf { path, digest } => {
            let e = json_escape(path.as_str());
            let h = digest_hex(*digest);
            let parts = vec![
                "{\"kind\":\"static_bootart_elf\",\"path\":\"",
                e.as_str(),
                "\",\"sha256\":\"",
                h.as_str(),
                "\"}",
            ];
            assert(str_views(parts@) =~= seq![
                "{\"kind\":\"static_bootart_elf\",\"path\":\""@,
                e@,
                "\",\"sha256\":\""@,
                h@,
                "\"}"@,
            ]);
            join_strs(parts)
        },
        InspectionKind::SelectedAdapterInventory { adapter: a } => {
            let e = json_escape(adapter(*a).name);
            let parts = vec!["{\"kind\":\"selected_adapter_inventory\",\"adapter\":\"", e.as_str(), "\"}"];
            assert(str_views(parts@) =~= seq![
                "{\"kind\":\"selected_adapter_inventory\",\"adapter\":\""@,
                e@,
                "\"}"@,
            ]);
            join_strs(parts)
        },
        InspectionKind::LegacyHelperAbsent { path } => {
            let e = json_escape(path.as_str());
            let parts = vec!["{\"kind\":\"legacy_helper_absent\",\"path\":\"", e.as_str(), "\"}"];
            assert(str_views(parts@) =~= seq![
                "{\"kind\":\"legacy_helper_absent\",\"path\":\""@,
                e@,
                "\"}"@,
            ]);
            join_strs(parts)
        },
        InspectionKind::KnownGoodUnchanged => String::from_str("{\"kind\":\"known_good_unchanged\"}"),
    }
}

pub open spec fn spec_inspection_human(c: InspectionKind) -> Seq<char> {
    match c {
        InspectionKind::CandidatePathDistinctFromKnownGood => "candidate-path-distinct-from-known-good"@,
        InspectionKind::CandidatePreChangeAbsent => "candidate-pre-change-absent"@,
        InspectionKind::StaticBootartElf { path, digest } => concat_all(
            seq!["static-bootart-elf path="@, path@, " sha256="@, spec_digest_hex(digest)],
        ),
        InspectionKind::SelectedAdapterInventory { adapter } => "selected-adapter-inventory adapter="@
            + spec_adapter_name(adapter)@,
        InspectionKind::LegacyHelperAbsent { path } => "legacy-helper-absent path="@ + path@,
        InspectionKind::KnownGoodUnchanged => "known-good-unchanged"@,
    }
}

pub fn inspection_human(check: &InspectionKind) -> (r: String)
    ensures
        r@ == spec_inspection_human(*check),
{
    match check {
        InspectionKind::CandidatePathDistinctFromKnownGood => String::from_str(
            "candidate-path-distinct-from-known-good",
        ),
        InspectionKind::CandidatePreChangeAbsent => String::from_str("candidate-pre-change-absent"),
        InspectionKind::StaticBootartElf { path, digest } => {
            let h = digest_hex(*digest);
            let parts = vec!["static-bootart-elf path=", path.as_str(), " sha256=", h.as_str()];
            assert(str_views(parts@) =~= seq![
                "static-bootart-elf path="@,
                path@,
                " sha256="@,
                h@,
            ]);
            join_strs(parts)
        },
        InspectionKind::SelectedAdapterInventory { adapter: a } => crate::text::concat2(
            "selected-adapter-inventory adapter=",
            adapter(*a).name,
        ),
        InspectionKind::LegacyHelperAbsent { path } => crate::text::concat2(
            "legacy-helper-absent path=",
            path.as_str(),
        ),
        InspectionKind::KnownGoodUnchanged => String::from_str("known-good-unchanged"),
    }
}

pub open spec fn spec_rollback_action_json(a: RollbackAction) -> Seq<char> {
    match a {
        RollbackAction::RemoveCandidateIfCreated { path } => concat_all(
            seq!["{\"kind\":\"remove_candidate_if_created\",\"path\":"@, spec_planned_value_json(path), "}"@],
        ),
        RollbackAction::RestorePreChangeState { target, backup_path_template } => concat_all(
            seq![
                "{\"kind\":\"restore_pre_change_state\",\"target\":\""@,
                spec_json_escape(target@),
                "\",\"backup_path_template\":\""@,
                spec_json_escape(backup_path_template@),
                "\"}"@,
            ],
        ),
        RollbackAction::RemoveDirectoryIfCreated { scope, path } => concat_all(
            seq![
                "{\"kind\":\"remove_directory_if_created\",\"scope\":\""@,
                scope_name(scope),
                "\",\"path\":\""@,
                spec_json_escape(path@),
                "\"}"@,
            ],
        ),
    }
}

pub fn rollback_action_json(action: &RollbackAction) -> (r: String)
    ensures
        r@ == spec_rollback_action_json(*action),
{
    match action {
        RollbackAction::RemoveCandidateIfCreated { path } => {
            let v = planned_value_json(path);
            let parts = vec!["{\"kind\":\"remove_candidate_if_created\",\"path\":", v.as_str(), "}"];
            assert(str_views(parts@) =~= seq![
                "{\"kind\":\"remove_candidate_if_created\",\"path\":"@,
                v@,
                "}"@,
            ]);
            join_strs(parts)
        },
        RollbackAction::RestorePreChangeState { target, backup_path_template } => {
            let t = json_escape(target.as_str());
            let b = json_escape(backup_path_template.as_str());
            let parts = vec![
                "{\"kind\":\"restore_pre_change_state\",\"target\":\"",
                t.as_str(),
                "\",\"backup_path_template\":\"",
                b.as_str(),
                "\"}",
            ];
            assert(str_views(parts@) =~= seq![
                "{\"kind\":\"restore_pre_change_state\",\"target\":\""@,
                t@,
                "\",\"backup_path_template\":\""@,
                b@,
                "\"}"@,
            ]);
            join_strs(parts)
        },
        RollbackAction::RemoveDirectoryIfCreated { scope, path } => {
            let e = json_escape(path.as_str());
            let parts = vec![
                "{\"kind\":\"remove_directory_if_created\",\"scope\":\"",
                scope.stable_name(),
                "\",\"path\":\"",
                e.as_str(),
                "\"}",
            ];
            assert(str_views(parts@) =~= seq![
                "{\"kind\":\"remove_directory_if_created\",\"scope\":\""@,
                scope_name(*scope),
                "\",\"path\":\""@,
                e@,
                "\"}"@,
            ]);
            join_strs(parts)
        },
    }
}

pub open spec fn spec_rollback_action_human(a: RollbackAction) -> Seq<char> {
    match a {
        RollbackAction::RemoveCandidateIfCreated { path } => "remove-candidate-if-created path="@
            + spec_planned_value_human(path),
        RollbackAction::RestorePreChangeState { target, backup_path_template } => concat_all(
            seq!["restore-pre-change-state target="@, target@, " backup="@, backup_path_template@],
        ),
        RollbackAction::RemoveDirectoryIfCreated { scope, path } => concat_all(
            seq!["remove-directory-if-created scope="@, scope_name(scope), " path="@, path@],
        ),
    }
}

pub fn rollback_action_human(action: &RollbackAction) -> (r: String)
    ensures
        r@ == spec_rollback_action_human(*action),
{
    match action {
        RollbackAction::RemoveCandidateIfCreated { path } => {
            let v = planned_value_human(path);
            crate::text::concat2("remove-candidate-if-created path=", v.as_str())
        },
        RollbackAction::RestorePreChangeState { target, backup_path_template } => {
            let parts = vec![
                "restore-pre-change-state target=",
                target.as_str(),
                " backup=",
                backup_path_template.as_str(),
            ];
            assert(str_views(parts@) =~= seq![
                "restore-pre-change-state target="@,
                target@,
                " backup="@,
                backup_path_template@,
            ]);
            join_strs(parts)
        },
        RollbackAction::RemoveDirectoryIfCreated { scope, path } => {
            let parts = vec![
                "remove-directory-if-created scope=",
                scope.stable_name(),
                " path=",
                path.as_str(),
            ];
            assert(str_views(parts@) =~= seq![
                "remove-directory-if-created scope="@,
                scope_name(*scope),
                " path="@,
                path@,
            ]);
            join_strs(parts)
        },
    }
}

// ---------------------------------------------------------------------------
// Whole records
// ---------------------------------------------------------------------------

/// A safety record as one JSON object.
pub open spec fn spec_render_safety_record_json(r: SafetyRecord) -> Seq<char> {
    match r {
        SafetyRecord::RequiredDirectory { scope, path, mode, owner_uid, previous, blocker } =>
            concat_all(
            seq![
                "{\"kind\":\"required_directory\",\"scope\":\""@,
                scope_name(scope),
                "\",\"path\":\""@,
                spec_json_escape(path@),
                "\",\"mode\":"@,
                spec_decimal(mode as nat),
                ",\"owner_uid\":"@,
                spec_decimal(owner_uid as nat),
                ",\"previous\":\""@,
                previous_name(previous),
                "\",\"blocker\":\""@,
                spec_json_escape(blocker@),
                "\",\"execution\":\"unsupported\"}"@,
            ],
        ),
        SafetyRecord::Generator { adapter, generator, invocation, execution } => concat_all(
            seq![
                "{\"kind\":\"generator\",\"adapter\":\""@,
                spec_json_escape(spec_adapter_name(adapter)@),
                "\",\"generator\":\""@,
                generator_name(generator),
                "\",\"invocation\":"@,
                spec_generator_invocation_json(invocation),
                ",\"execution\":\"blocked\",\"blocker\":\""@,
                spec_json_escape(execution_blocker(execution)@),
                "\"}"@,
            ],
        ),
        SafetyRecord::CandidateImage { adapter, path, pre_change_hash, separately_named } =>
            concat_all(
            seq![
                "{\"kind\":\"candidate_image\",\"adapter\":\""@,
                spec_json_escape(spec_adapter_name(adapter)@),
                "\",\"path\":"@,
                spec_planned_value_json(path),
                ",\"pre_change_hash\":"@,
                spec_planned_hash_json(pre_change_hash),
                ",\"separately_named\":"@,
                bool_text(separately_named),
                ",\"execution\":\"unsupported\"}"@,
            ],
        ),
        SafetyRecord::KnownGood { adapter, image_path, image_hash, boot_entry, untouched } =>
            concat_all(
            seq![
                "{\"kind\":\"known_good\",\"adapter\":\""@,
                spec_json_escape(spec_adapter_name(adapter)@),
                "\",\"image_path\":"@,
                spec_planned_value_json(image_path),
                ",\"image_hash\":"@,
                spec_planned_hash_json(image_hash),
                ",\"boot_entry\":"@,
                spec_planned_value_json(boot_entry),
                ",\"untouched\":"@,
                bool_text(untouched),
                "}"@,
            ],
        ),
        SafetyRecord::PlannedBackup {
            subject,
            target,
            backup_path_template,
            pre_change_hash,
            execution,
        } => concat_all(
            seq![
                "{\"kind\":\"planned_backup\",\"subject\":\""@,
                subject_name(subject),
                "\",\"target\":\""@,
                spec_json_escape(target@),
                "\",\"backup_path_template\":\""@,
                spec_json_escape(backup_path_template@),
                "\",\"pre_change_hash\":"@,
                spec_planned_hash_json(pre_change_hash),
                ",\"execution\":\"blocked\",\"blocker\":\""@,
                spec_json_escape(execution_blocker(execution)@),
                "\"}"@,
            ],
        ),
        SafetyRecord::PostGenerationInspection { order, check, execution } => concat_all(
            seq![
                "{\"kind\":\"post_generation_inspection\",\"order\":"@,
                spec_decimal(order as nat),
                ",\"check\":"@,
                spec_inspection_json(check),
                ",\"execution\":\"blocked\",\"blocker\":\""@,
                spec_json_escape(execution_blocker(execution)@),
                "\"}"@,
            ],
        ),
        SafetyRecord::Rollback { order, action, execution } => concat_all(
            seq![
                "{\"kind\":\"rollback\",\"order\":"@,
                spec_decimal(order as nat),
                ",\"action\":"@,
                spec_rollback_action_json(action),
                ",\"execution\":\"blocked\",\"blocker\":\""@,
                spec_json_escape(execution_blocker(execution)@),
                "\"}"@,
            ],
        ),
    }
}

/// A safety record as one JSON object.
pub fn render_safety_record_json(record: &SafetyRecord) -> (r: String)
    ensures
        r@ == spec_render_safety_record_json(*record),
{
    match record {
        SafetyRecord::RequiredDirectory { scope, path, mode, owner_uid, previous, blocker } => {
            let p = json_escape(path.as_str());
            let m = decimal(*mode as u64);
            let o = decimal(*owner_uid as u64);
            let b = json_escape(blocker);
            let parts = vec![
                "{\"kind\":\"required_directory\",\"scope\":\"",
                scope.stable_name(),
                "\",\"path\":\"",
                p.as_str(),
                "\",\"mode\":",
                m.as_str(),
                ",\"owner_uid\":",
                o.as_str(),
                ",\"previous\":\"",
                previous.stable_name(),
                "\",\"blocker\":\"",
                b.as_str(),
                "\",\"execution\":\"unsupported\"}",
            ];
            assert(str_views(parts@) =~= seq![
                "{\"kind\":\"required_directory\",\"scope\":\""@,
                scope_name(*scope),
                "\",\"path\":\""@,
                p@,
                "\",\"mode\":"@,
                m@,
                ",\"owner_uid\":"@,
                o@,
                ",\"previous\":\""@,
                previous_name(*previous),
                "\",\"blocker\":\""@,
                b@,
                "\",\"execution\":\"unsupported\"}"@,
            ]);
            join_strs(parts)
        },
        SafetyRecord::Generator { adapter: a, generator, invocation, execution } => {
            let n = json_escape(adapter(*a).name);
            let i = generator_invocation_json(invocation);
            let b = json_escape(execution_blocker_exec(*execution));
            let parts = vec![
                "{\"kind\":\"generator\",\"adapter\":\"",
                n.as_str(),
                "\",\"generator\":\"",
                generator_stable_name(*generator),
                "\",\"invocation\":",
                i.as_str(),
                ",\"execution\":\"blocked\",\"blocker\":\"",
                b.as_str(),
                "\"}",
            ];
            assert(str_views(parts@) =~= seq![
                "{\"kind\":\"generator\",\"adapter\":\""@,
                n@,
                "\",\"generator\":\""@,
                generator_name(*generator),
                "\",\"invocation\":"@,
                i@,
                ",\"execution\":\"blocked\",\"blocker\":\""@,
                b@,
                "\"}"@,
            ]);
            join_strs(parts)
        },
        SafetyRecord::CandidateImage { adapter: a, path, pre_change_hash, separately_named } => {
            let n = json_escape(adapter(*a).name);
            let v = planned_value_json(path);
            let h = planned_hash_json(*pre_change_hash);
            let parts = vec![
                "{\"kind\":\"candidate_image\",\"adapter\":\"",
                n.as_str(),
                "\",\"path\":",
                v.as_str(),
                ",\"pre_change_hash\":",
                h.as_str(),
                ",\"separately_named\":",
                bool_str(*separately_named),
                ",\"execution\":\"unsupported\"}",
            ];
            assert(str_views(parts@) =~= seq![
                "{\"kind\":\"candidate_image\",\"adapter\":\""@,
                n@,
                "\",\"path\":"@,
                v@,
                ",\"pre_change_hash\":"@,
                h@,
                ",\"separately_named\":"@,
                bool_text(*separately_named),
                ",\"execution\":\"unsupported\"}"@,
            ]);
            join_strs(parts)
        },
        SafetyRecord::KnownGood { adapter: a, image_path, image_hash, boot_entry, untouched } => {
            let n = json_escape(adapter(*a).name);
            let ip = planned_value_json(image_path);
            let ih = planned_hash_json(*image_hash);
            let be = planned_value_json(boot_entry);
            let parts = vec![
                "{\"kind\":\"known_good\",\"adapter\":\"",
                n.as_str(),
                "\",\"image_path\":",
                ip.as_str(),
                ",\"image_hash\":",
                ih.as_str(),
                ",\"boot_entry\":",
                be.as_str(),
                ",\"untouched\":",
                bool_str(*untouched),
                "}",
            ];
            assert(str_views(parts@) =~= seq![
                "{\"kind\":\"known_good\",\"adapter\":\""@,
                n@,
                "\",\"image_path\":"@,
                ip@,
                ",\"image_hash\":"@,
                ih@,
                ",\"boot_entry\":"@,
                be@,
                ",\"untouched\":"@,
                bool_text(*untouched),
                "}"@,
            ]);
            join_strs(parts)
        },
        SafetyRecord::PlannedBackup {
            subject,
            target,
            backup_path_template,
            pre_change_hash,
            execution,
        } => {
            let t = json_escape(target.as_str());
            let tp = json_escape(backup_path_template.as_str());
            let h = planned_hash_json(*pre_change_hash);
            let b = json_escape(execution_blocker_exec(*execution));
            let parts = vec![
                "{\"kind\":\"planned_backup\",\"subject\":\"",
                subject.stable_name(),
                "\",\"target\":\"",
                t.as_str(),
                "\",\"backup_path_template\":\"",
                tp.as_str(),
                "\",\"pre_change_hash\":",
                h.as_str(),
                ",\"execution\":\"blocked\",\"blocker\":\"",
                b.as_str(),
                "\"}",
            ];
            assert(str_views(parts@) =~= seq![
                "{\"kind\":\"planned_backup\",\"subject\":\""@,
                subject_name(*subject),
                "\",\"target\":\""@,
                t@,
                "\",\"backup_path_template\":\""@,
                tp@,
                "\",\"pre_change_hash\":"@,
                h@,
                ",\"execution\":\"blocked\",\"blocker\":\""@,
                b@,
                "\"}"@,
            ]);
            join_strs(parts)
        },
        SafetyRecord::PostGenerationInspection { order, check, execution } => {
            let o = decimal(*order as u64);
            let c = inspection_json(check);
            let b = json_escape(execution_blocker_exec(*execution));
            let parts = vec![
                "{\"kind\":\"post_generation_inspection\",\"order\":",
                o.as_str(),
                ",\"check\":",
                c.as_str(),
                ",\"execution\":\"blocked\",\"blocker\":\"",
                b.as_str(),
                "\"}",
            ];
            assert(str_views(parts@) =~= seq![
                "{\"kind\":\"post_generation_inspection\",\"order\":"@,
                o@,
                ",\"check\":"@,
                c@,
                ",\"execution\":\"blocked\",\"blocker\":\""@,
                b@,
                "\"}"@,
            ]);
            join_strs(parts)
        },
        SafetyRecord::Rollback { order, action, execution } => {
            let o = decimal(*order as u64);
            let a = rollback_action_json(action);
            let b = json_escape(execution_blocker_exec(*execution));
            let parts = vec![
                "{\"kind\":\"rollback\",\"order\":",
                o.as_str(),
                ",\"action\":",
                a.as_str(),
                ",\"execution\":\"blocked\",\"blocker\":\"",
                b.as_str(),
                "\"}",
            ];
            assert(str_views(parts@) =~= seq![
                "{\"kind\":\"rollback\",\"order\":"@,
                o@,
                ",\"action\":"@,
                a@,
                ",\"execution\":\"blocked\",\"blocker\":\""@,
                b@,
                "\"}"@,
            ]);
            join_strs(parts)
        },
    }
}

/// A safety record as one line of `key=value` text.
pub open spec fn spec_render_safety_record_human(r: SafetyRecord) -> Seq<char> {
    match r {
        SafetyRecord::RequiredDirectory { scope, path, mode, owner_uid, previous, blocker } =>
            concat_all(
            seq![
                "required-directory scope="@,
                scope_name(scope),
                " path="@,
                path@,
                " mode="@,
                spec_octal4(mode as nat),
                " owner="@,
                spec_decimal(owner_uid as nat),
                " previous="@,
                previous_name(previous),
                " blocker="@,
                blocker@,
                " execution=unsupported"@,
            ],
        ),
        SafetyRecord::Generator { adapter, generator, invocation, execution } => concat_all(
            seq![
                "generator adapter="@,
                spec_adapter_name(adapter)@,
                " kind="@,
                generator_name(generator),
                " invocation="@,
                spec_generator_invocation_human(invocation),
                " blocker="@,
                execution_blocker(execution)@,
                " execution=unsupported"@,
            ],
        ),
        SafetyRecord::CandidateImage { adapter, path, pre_change_hash, separately_named } =>
            concat_all(
            seq![
                "candidate-image adapter="@,
                spec_adapter_name(adapter)@,
                " path="@,
                spec_planned_value_human(path),
                " pre-change-hash="@,
                spec_planned_hash_human(pre_change_hash),
                " separately-named="@,
                bool_text(separately_named),
                " execution=unsupported"@,
            ],
        ),
        SafetyRecord::KnownGood { adapter, image_path, image_hash, boot_entry, untouched } =>
            concat_all(
            seq![
                "known-good adapter="@,
                spec_adapter_name(adapter)@,
                " image="@,
                spec_planned_value_human(image_path),
                " hash="@,
                spec_planned_hash_human(image_hash),
                " boot-entry="@,
                spec_planned_value_human(boot_entry),
                " untouched="@,
                bool_text(untouched),
            ],
        ),
        SafetyRecord::PlannedBackup {
            subject,
            target,
            backup_path_template,
            pre_change_hash,
            execution,
        } => concat_all(
            seq![
                "planned-backup subject="@,
                subject_name(subject),
                " target="@,
                target@,
                " backup="@,
                backup_path_template@,
                " pre-change-hash="@,
                spec_planned_hash_human(pre_change_hash),
                " blocker="@,
                execution_blocker(execution)@,
                " execution=unsupported"@,
            ],
        ),
        SafetyRecord::PostGenerationInspection { order, check, execution } => concat_all(
            seq![
                "post-generation-inspection order="@,
                spec_decimal(order as nat),
                " check="@,
                spec_inspection_human(check),
                " blocker="@,
                execution_blocker(execution)@,
                " execution=unsupported"@,
            ],
        ),
        SafetyRecord::Rollback { order, action, execution } => concat_all(
            seq![
                "rollback order="@,
                spec_decimal(order as nat),
                " action="@,
                spec_rollback_action_human(action),
                " blocker="@,
                execution_blocker(execution)@,
                " execution=unsupported"@,
            ],
        ),
    }
}

/// A safety record as one line of `key=value` text.
pub fn render_safety_record_human(record: &SafetyRecord) -> (r: String)
    ensures
        r@ == spec_render_safety_record_human(*record),
{
    match record {
        SafetyRecord::RequiredDirectory { scope, path, mode, owner_uid, previous, blocker } => {
            let m = octal4(*mode);
            let o = decimal(*owner_uid as u64);
            let parts = vec![
                "required-directory scope=",
                scope.stable_name(),
                " path=",
                path.as_str(),
                " mode=",
                m.as_str(),
                " owner=",
                o.as_str(),
                " previous=",
                previous.stable_name(),
                " blocker=",
                *blocker,
                " execution=unsupported",
            ];
            assert(str_views(parts@) =~= seq![
                "required-directory scope="@,
                scope_name(*scope),
                " path="@,
                path@,
                " mode="@,
                m@,
                " owner="@,
                o@,
                " previous="@,
                previous_name(*previous),
                " blocker="@,
                blocker@,
                " execution=unsupported"@,
            ]);
            join_strs(parts)
        },
        SafetyRecord::Generator { adapter: a, generator, invocation, execution } => {
            let i = generator_invocation_human(invocation);
            let parts = vec![
                "generator adapter=",
                adapter(*a).name,
                " kind=",
                generator_stable_name(*generator),
                " invocation=",
                i.as_str(),
                " blocker=",
                execution_blocker_exec(*execution),
                " execution=unsupported",
            ];
            assert(str_views(parts@) =~= seq![
                "generator adapter="@,
                spec_adapter_name(*a)@,
                " kind="@,
                generator_name(*generator),
                " invocation="@,
                i@,
                " blocker="@,
                execution_blocker(*execution)@,
                " execution=unsupported"@,
            ]);
            join_strs(parts)
        },
        SafetyRecord::CandidateImage { adapter: a, path, pre_change_hash, separately_named } => {
            let v = planned_value_human(path);
            let h = planned_hash_human(*pre_change_hash);
            let parts = vec![
                "candidate-image adapter=",
                adapter(*a).name,
                " path=",
                v.as_str(),
                " pre-change-hash=",
                h.as_str(),
                " separately-named=",
                bool_str(*separately_named),
                " execution=unsupported",
            ];
            assert(str_views(parts@) =~= seq![
                "candidate-image adapter="@,
                spec_adapter_name(*a)@,
                " path="@,
                v@,
                " pre-change-hash="@,
                h@,
                " separately-named="@,
                bool_text(*separately_named),
                " execution=unsupported"@,
            ]);
            join_strs(parts)
        },
        SafetyRecord::KnownGood { adapter: a, image_path, image_hash, boot_entry, untouched } => {
            let ip = planned_value_human(image_path);
            let ih = planned_hash_human(*image_hash);
            let be = planned_value_human(boot_entry);
            let parts = vec![
                "known-good adapter=",
                adapter(*a).name,
                " image=",
                ip.as_str(),
                " hash=",
                ih.as_str(),
                " boot-entry=",
                be.as_str(),
                " untouched=",
                bool_str(*untouched),
            ];
            assert(str_views(parts@) =~= seq![
                "known-good adapter="@,
                spec_adapter_name(*a)@,
                " image="@,
                ip@,
                " hash="@,
                ih@,
                " boot-entry="@,
                be@,
                " untouched="@,
                bool_text(*untouched),
            ]);
            join_strs(parts)
        },
        SafetyRecord::PlannedBackup {
            subject,
            target,
            backup_path_template,
            pre_change_hash,
            execution,
        } => {
            let h = planned_hash_human(*pre_change_hash);
            let parts = vec![
                "planned-backup subject=",
                subject.stable_name(),
                " target=",
                target.as_str(),
                " backup=",
                backup_path_template.as_str(),
                " pre-change-hash=",
                h.as_str(),
                " blocker=",
                execution_blocker_exec(*execution),
                " execution=unsupported",
            ];
            assert(str_views(parts@) =~= seq![
                "planned-backup subject="@,
                subject_name(*subject),
                " target="@,
                target@,
                " backup="@,
                backup_path_template@,
                " pre-change-hash="@,
                h@,
                " blocker="@,
                execution_blocker(*execution)@,
                " execution=unsupported"@,
            ]);
            join_strs(parts)
        },
        SafetyRecord::PostGenerationInspection { order, check, execution } => {
            let o = decimal(*order as u64);
            let c = inspection_human(check);
            let parts = vec![
                "post-generation-inspection order=",
                o.as_str(),
                " check=",
                c.as_str(),
                " blocker=",
                execution_blocker_exec(*execution),
                " execution=unsupported",
            ];
            assert(str_views(parts@) =~= seq![
                "post-generation-inspection order="@,
                o@,
                " check="@,
                c@,
                " blocker="@,
                execution_blocker(*execution)@,
                " execution=unsupported"@,
            ]);
            join_strs(parts)
        },
        SafetyRecord::Rollback { order, action, execution } => {
            let o = decimal(*order as u64);
            let a = rollback_action_human(action);
            let parts = vec![
                "rollback order=",
                o.as_str(),
                " action=",
                a.as_str(),
                " blocker=",
                execution_blocker_exec(*execution),
                " execution=unsupported",
            ];
            assert(str_views(parts@) =~= seq![
                "rollback order="@,
                o@,
                " action="@,
                a@,
                " blocker="@,
                execution_blocker(*execution)@,
                " execution=unsupported"@,
            ]);
            join_strs(parts)
        },
    }
}

} // verus!
