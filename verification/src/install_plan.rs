//! The install plan: the payloads, shared-file edits, activation links and
//! safety records that installing the selected adapter pair would take,
//! built from embedded data and the caller's bootart binary and checked
//! against that data before anyone sees it.

use crate::directories::{
    backup_path, backup_subject, backup_targets, first_payload_at, key_lt, planned_backup_pre_change_hash,
    planned_backup_specs, record_key, record_keys, required_dir_keys, required_dir_record_ok,
    required_directory_records, spec_pre_change_hash, BackupSpec,
};
use crate::manifest::{path_lt, path_lt_exec};
use crate::ordering::{
    lemma_is_sort_from, lemma_path_lt_irreflexive, lemma_path_lt_total, lemma_path_lt_transitive,
    lemma_sorted_insert_at, sort_from, sorted_by, sorted_insert, strict_total,
    strictly_sorted,
};
use crate::operations::{
    activation_views, snippet_views, ActivationOperation, ActivationOperationView, ManagedSnippetOperation,
    ManagedSnippetOperationView,
};
use crate::plan::{op_views, PlanOperation, PlanOperationView};
use crate::safety::{
    spec_initramfs_safety, DirectoryScope, GeneratorInvocation, InitramfsSafetySpec, InspectionKind,
    PlannedHashState, PlannedValue, PreviewExecutionState, RollbackAction, SafetyRecord,
    LEGACY_PID1_HELPER_PATH,
};
use crate::activation::spec_is_normalized_absolute_file_path;
use crate::adapter::AdapterId;
use crate::selection::AdapterSelection;
use crate::digest::Sha256Digest;
use crate::elf::BOOTART_BINARY_PATH;
use crate::text::{chars_of, owned, string_views};
use crate::error::{invalid, InstallError};
use vstd::prelude::*;

verus! {

/// Why no safety record beyond the payload writes is executed.
pub const SAFETY_EXECUTION_BLOCKER: &'static str = "production mutation and non-payload preview execution remain locked";

// ---------------------------------------------------------------------------
// The orders the records follow
// ---------------------------------------------------------------------------

/// Directories by scope, then path.
pub open spec fn key_order() -> spec_fn((DirectoryScope, Seq<char>), (DirectoryScope, Seq<char>)) -> bool {
    |a: (DirectoryScope, Seq<char>), b: (DirectoryScope, Seq<char>)| key_lt(a, b)
}

/// Paths by their characters.
pub open spec fn path_order() -> spec_fn(Seq<char>, Seq<char>) -> bool {
    |a: Seq<char>, b: Seq<char>| path_lt(a, b)
}

/// How many `/` a path holds: one per component below the root of a
/// normalized absolute path.
pub open spec fn slash_count(p: Seq<char>) -> nat
    decreases p.len(),
{
    if p.len() == 0 {
        0
    } else {
        slash_count(p.drop_last()) + if p.last() == '/' {
            1nat
        } else {
            0nat
        }
    }
}

/// Directories are removed deepest first, and among equally deep ones in
/// reverse path order.
pub open spec fn rollback_dir_lt(a: Seq<char>, b: Seq<char>) -> bool {
    slash_count(a) > slash_count(b) || (slash_count(a) == slash_count(b) && path_lt(b, a))
}

pub open spec fn rollback_dir_order() -> spec_fn(Seq<char>, Seq<char>) -> bool {
    |a: Seq<char>, b: Seq<char>| rollback_dir_lt(a, b)
}

pub(crate) proof fn lemma_path_order_total()
    ensures
        strict_total(path_order()),
{
    let lt = path_order();
    assert forall|x: Seq<char>| !#[trigger] lt(x, x) by {
        lemma_path_lt_irreflexive(x);
    }
    assert forall|x: Seq<char>, y: Seq<char>, z: Seq<char>| #[trigger] lt(x, y) && #[trigger] lt(y, z) implies lt(
        x,
        z,
    ) by {
        lemma_path_lt_transitive(x, y, z);
    }
    assert forall|x: Seq<char>, y: Seq<char>| x != y implies #[trigger] lt(x, y) || #[trigger] lt(y, x) by {
        lemma_path_lt_total(x, y);
    }
}

proof fn lemma_key_order_total()
    ensures
        strict_total(key_order()),
{
    let lt = key_order();
    assert forall|x: (DirectoryScope, Seq<char>)| !#[trigger] lt(x, x) by {
        lemma_path_lt_irreflexive(x.1);
    }
    assert forall|x: (DirectoryScope, Seq<char>), y: (DirectoryScope, Seq<char>), z: (DirectoryScope, Seq<char>)|
        #[trigger] lt(x, y) && #[trigger] lt(y, z) implies lt(x, z) by {
        if x.0 == y.0 && y.0 == z.0 {
            lemma_path_lt_transitive(x.1, y.1, z.1);
        }
    }
    assert forall|x: (DirectoryScope, Seq<char>), y: (DirectoryScope, Seq<char>)| x != y implies #[trigger] lt(
        x,
        y,
    ) || #[trigger] lt(y, x) by {
        if x.0 == y.0 {
            lemma_path_lt_total(x.1, y.1);
        }
    }
}

proof fn lemma_rollback_order_total()
    ensures
        strict_total(rollback_dir_order()),
{
    let lt = rollback_dir_order();
    assert forall|x: Seq<char>| !#[trigger] lt(x, x) by {
        lemma_path_lt_irreflexive(x);
    }
    assert forall|x: Seq<char>, y: Seq<char>, z: Seq<char>| #[trigger] lt(x, y) && #[trigger] lt(y, z) implies lt(
        x,
        z,
    ) by {
        if slash_count(x) == slash_count(y) && slash_count(y) == slash_count(z) {
            lemma_path_lt_transitive(z, y, x);
        }
    }
    assert forall|x: Seq<char>, y: Seq<char>| x != y implies #[trigger] lt(x, y) || #[trigger] lt(y, x) by {
        lemma_path_lt_total(x, y);
    }
}

// ---------------------------------------------------------------------------
// The records a plan carries
// ---------------------------------------------------------------------------

/// The directories a plan requires, each once, by scope and path.
pub open spec fn planned_dir_keys(ops: Seq<PlanOperationView>, acts: Seq<ActivationOperationView>) -> Seq<
    (DirectoryScope, Seq<char>),
> {
    sort_from(Seq::empty(), required_dir_keys(ops, acts), key_order())
}

/// The paths a transaction backs up, each once, in path order.
pub open spec fn planned_backup_targets(
    ops: Seq<PlanOperationView>,
    snips: Seq<ManagedSnippetOperationView>,
    acts: Seq<ActivationOperationView>,
) -> Seq<Seq<char>> {
    sort_from(Seq::empty(), backup_targets(ops, snips, acts), path_order())
}

/// The real-root directories among `keys`, in order.
pub open spec fn real_root_dir_paths(keys: Seq<(DirectoryScope, Seq<char>)>) -> Seq<Seq<char>>
    decreases keys.len(),
{
    if keys.len() == 0 {
        seq![]
    } else if keys.last().0 == DirectoryScope::RealRoot {
        real_root_dir_paths(keys.drop_last()).push(keys.last().1)
    } else {
        real_root_dir_paths(keys.drop_last())
    }
}

/// The real-root directories a rollback removes if it created them, in
/// the order it removes them.
pub open spec fn rollback_dirs(keys: Seq<(DirectoryScope, Seq<char>)>) -> Seq<Seq<char>> {
    sort_from(Seq::empty(), real_root_dir_paths(keys), rollback_dir_order())
}

pub open spec fn blocked_by(e: PreviewExecutionState, blocker: &'static str) -> bool {
    e == PreviewExecutionState::Blocked { blocker }
}

pub open spec fn dir_record_is(r: SafetyRecord, k: (DirectoryScope, Seq<char>)) -> bool {
    &&& r is RequiredDirectory
    &&& record_key(r) == k
    &&& required_dir_record_ok(r)
}

pub open spec fn generator_record_is(r: SafetyRecord, spec: InitramfsSafetySpec) -> bool {
    r == SafetyRecord::Generator {
        adapter: spec.adapter,
        generator: spec.generator,
        invocation: GeneratorInvocation::Unresolved { blocker: spec.invocation_blocker },
        execution: PreviewExecutionState::Blocked { blocker: SAFETY_EXECUTION_BLOCKER },
    }
}

pub open spec fn candidate_record_is(r: SafetyRecord, spec: InitramfsSafetySpec) -> bool {
    r == SafetyRecord::CandidateImage {
        adapter: spec.adapter,
        path: PlannedValue::Unresolved { blocker: spec.image_blocker },
        pre_change_hash: PlannedHashState::Unresolved { blocker: spec.image_blocker },
        separately_named: true,
    }
}

pub open spec fn known_good_record_is(r: SafetyRecord, spec: InitramfsSafetySpec) -> bool {
    r == SafetyRecord::KnownGood {
        adapter: spec.adapter,
        image_path: PlannedValue::Unresolved { blocker: spec.known_good_blocker },
        image_hash: PlannedHashState::Unresolved { blocker: spec.known_good_blocker },
        boot_entry: PlannedValue::Unresolved { blocker: spec.known_good_blocker },
        untouched: true,
    }
}

/// The backup record of the `index`-th backed-up path `target`.
pub open spec fn backup_record_is(
    r: SafetyRecord,
    index: nat,
    target: Seq<char>,
    ops: Seq<PlanOperationView>,
    snips: Seq<ManagedSnippetOperationView>,
    acts: Seq<ActivationOperationView>,
) -> bool {
    match r {
        SafetyRecord::PlannedBackup { subject, target: t, backup_path_template, pre_change_hash, execution } => {
            &&& subject == backup_subject(target, snips, acts)
            &&& t@ == target
            &&& backup_path_template@ == backup_path(index)
            &&& pre_change_hash == spec_pre_change_hash(subject, target, ops, acts)
            &&& blocked_by(execution, SAFETY_EXECUTION_BLOCKER)
        },
        _ => false,
    }
}

/// The `k`-th post-generation inspection (from zero).
pub open spec fn inspection_record_is(
    r: SafetyRecord,
    k: int,
    initramfs: AdapterId,
    binary: Sha256Digest,
    spec: InitramfsSafetySpec,
) -> bool {
    match r {
        SafetyRecord::PostGenerationInspection { order, check, execution } => {
            &&& order == k + 1
            &&& blocked_by(execution, spec.inspection_blocker)
            &&& if k == 0 {
                check == InspectionKind::CandidatePathDistinctFromKnownGood
            } else if k == 1 {
                check == InspectionKind::CandidatePreChangeAbsent
            } else if k == 2 {
                check matches InspectionKind::StaticBootartElf { path, digest } && path@ == BOOTART_BINARY_PATH@
                    && digest == binary
            } else if k == 3 {
                check == InspectionKind::SelectedAdapterInventory { adapter: initramfs }
            } else if k == 4 {
                check matches InspectionKind::LegacyHelperAbsent { path } && path@ == LEGACY_PID1_HELPER_PATH@
            } else {
                check == InspectionKind::KnownGoodUnchanged
            }
        },
        _ => false,
    }
}

/// A rollback record of order `order` blocked like every other.
pub open spec fn rollback_record_at(r: SafetyRecord, order: int) -> bool {
    r matches SafetyRecord::Rollback { order: o, execution, .. } && o == order as u16 && blocked_by(
        execution,
        SAFETY_EXECUTION_BLOCKER,
    )
}

/// The digest of the first payload at the bootart binary's path.
pub open spec fn binary_digest(ops: Seq<PlanOperationView>) -> Sha256Digest {
    first_payload_at(ops, BOOTART_BINARY_PATH@)->Some_0.digest
}

/// The safety records of a plan with these payloads, snippets and links
/// for the selected initramfs adapter, in order: each required directory
/// (by scope and path); the generator, the candidate image and the
/// known-good image; a backup of each backed-up path (in path order); the
/// six post-generation inspections; then the rollback: remove the
/// candidate, restore the backups in reverse, and remove the real-root
/// directories deepest first. Every unknown is left unresolved with its
/// blocker; nothing here is executed.
pub open spec fn plan_records_ok(
    rs: Seq<SafetyRecord>,
    initramfs: AdapterId,
    ops: Seq<PlanOperationView>,
    snips: Seq<ManagedSnippetOperationView>,
    acts: Seq<ActivationOperationView>,
) -> bool {
    let keys = planned_dir_keys(ops, acts);
    let nd = keys.len() as int;
    let targets = planned_backup_targets(ops, snips, acts);
    let nb = targets.len() as int;
    let dirs = rollback_dirs(keys);
    let spec = spec_initramfs_safety(initramfs);
    let ins = nd + 3 + nb;
    let rb = ins + 6;
    &&& rs.len() == rb + 1 + nb + dirs.len()
    &&& forall|i: int| 0 <= i < nd ==> dir_record_is(#[trigger] rs[i], keys[i])
    &&& generator_record_is(rs[nd], spec)
    &&& candidate_record_is(rs[nd + 1], spec)
    &&& known_good_record_is(rs[nd + 2], spec)
    &&& forall|j: int| 0 <= j < nb ==> backup_record_is(#[trigger] rs[nd + 3 + j], j as nat, targets[j], ops, snips, acts)
    &&& forall|k: int| 0 <= k < 6 ==> inspection_record_is(#[trigger] rs[ins + k], k, initramfs, binary_digest(ops), spec)
    &&& forall|m: int| rb <= m < rs.len() ==> rollback_record_at(#[trigger] rs[m], m - rb + 1)
    &&& rs[rb] matches SafetyRecord::Rollback { action: RollbackAction::RemoveCandidateIfCreated { path }, .. } && path
        == PlannedValue::Unresolved { blocker: spec.image_blocker }
    &&& forall|j: int| 0 <= j < nb ==> (#[trigger] rs[rb + 1 + j] matches SafetyRecord::Rollback {
        action: RollbackAction::RestorePreChangeState { target, backup_path_template },
        ..
    } && target@ == targets[nb - 1 - j] && backup_path_template@ == backup_path((nb - 1 - j) as nat))
    &&& forall|j: int| 0 <= j < dirs.len() ==> (#[trigger] rs[rb + 1 + nb + j] matches SafetyRecord::Rollback {
        action: RollbackAction::RemoveDirectoryIfCreated { scope, path },
        ..
    } && scope == DirectoryScope::RealRoot && path@ == dirs[j])
}

// ---------------------------------------------------------------------------
// Building the records
// ---------------------------------------------------------------------------

fn binary_digest_of(operations: &Vec<PlanOperation>) -> (d: Sha256Digest)
    requires
        first_payload_at(op_views(operations@), BOOTART_BINARY_PATH@) is Some,
    ensures
        d == binary_digest(op_views(operations@)),
{
    let ghost ov = op_views(operations@);
    let mut i: usize = 0;
    assert(ov.skip(0) =~= ov);
    while i < operations.len()
        invariant
            i <= operations@.len(),
            ov == op_views(operations@),
            first_payload_at(ov, BOOTART_BINARY_PATH@) == first_payload_at(ov.skip(i as int), BOOTART_BINARY_PATH@),
            first_payload_at(ov, BOOTART_BINARY_PATH@) is Some,
        decreases operations.len() - i,
    {
        assert(ov.skip(i as int)[0] == operations@[i as int]@);
        assert(ov.skip(i as int).drop_first() =~= ov.skip(i as int + 1));
        if crate::text::str_eq(operations[i].path(), BOOTART_BINARY_PATH) {
            return operations[i].digest();
        }
        i = i + 1;
    }
    assert(ov.skip(ov.len() as int) =~= Seq::<PlanOperationView>::empty());
    operations[0].digest()
}

fn slash_count_exec(p: &str) -> (n: usize)
    ensures
        n == slash_count(p@),
{
    let v = chars_of(p);
    let mut n: usize = 0;
    let mut i: usize = 0;
    assert(v@.take(0) =~= Seq::<char>::empty());
    while i < v.len()
        invariant
            i <= v@.len(),
            v@ == p@,
            n == slash_count(v@.take(i as int)),
            n <= i,
        decreases v.len() - i,
    {
        assert(v@.take(i as int + 1).drop_last() =~= v@.take(i as int));
        if v[i] == '/' {
            n = n + 1;
        }
        i = i + 1;
    }
    assert(v@.take(v@.len() as int) =~= v@);
    n
}

fn rollback_dir_lt_exec(a: &str, b: &str) -> (r: bool)
    ensures
        r == rollback_dir_lt(a@, b@),
{
    let na = slash_count_exec(a);
    let nb = slash_count_exec(b);
    na > nb || (na == nb && path_lt_exec(b, a))
}

/// Puts `p` into its place among the directories in removal order.
fn insert_rollback_dir(v: &mut Vec<String>, p: String)
    requires
        sorted_by(string_views(old(v)@), rollback_dir_order()),
    ensures
        string_views(final(v)@) == sorted_insert(string_views(old(v)@), p@, rollback_dir_order()),
        sorted_by(string_views(final(v)@), rollback_dir_order()),
{
    let ghost lt = rollback_dir_order();
    let ghost s = string_views(v@);
    proof {
        lemma_rollback_order_total();
        crate::ordering::lemma_sorted_insert_sorted(s, p@, lt);
    }
    let mut i: usize = 0;
    while i < v.len() && rollback_dir_lt_exec(v[i].as_str(), p.as_str())
        invariant
            i <= v@.len(),
            s == string_views(v@),
            lt == rollback_dir_order(),
            forall|j: int| 0 <= j < i ==> lt(#[trigger] s[j], p@),
        decreases v.len() - i,
    {
        assert(s[i as int] == v@[i as int]@);
        i = i + 1;
    }
    proof {
        if i < v@.len() {
            assert(s[i as int] == v@[i as int]@);
        }
        lemma_sorted_insert_at(s, p@, lt, i as int);
    }
    if i < v.len() && crate::text::str_eq(v[i].as_str(), p.as_str()) {
        assert(s[i as int] == p@);
    } else {
        v.insert(i, p);
        assert(string_views(v@) =~= s.insert(i as int, p@));
    }
}

/// The real-root directories of the leading directory records, in the
/// order a rollback removes them.
fn rollback_directories(records: &Vec<SafetyRecord>, nd: usize) -> (r: Vec<String>)
    requires
        nd <= records@.len(),
        forall|i: int| 0 <= i < nd ==> (#[trigger] records@[i]) is RequiredDirectory,
    ensures
        string_views(r@) == rollback_dirs(record_keys(records@.take(nd as int))),
{
    let ghost keys = record_keys(records@.take(nd as int));
    let ghost lt = rollback_dir_order();
    let mut dirs: Vec<String> = Vec::new();
    let mut i: usize = 0;
    proof {
        lemma_rollback_order_total();
        assert(keys.take(0) =~= Seq::<(DirectoryScope, Seq<char>)>::empty());
    }
    while i < nd
        invariant
            i <= nd <= records@.len(),
            keys == record_keys(records@.take(nd as int)),
            keys.len() == nd,
            strict_total(lt),
            lt == rollback_dir_order(),
            forall|j: int| 0 <= j < nd ==> (#[trigger] records@[j]) is RequiredDirectory,
            string_views(dirs@) == sort_from(Seq::empty(), real_root_dir_paths(keys.take(i as int)), lt),
            sorted_by(string_views(dirs@), lt),
        decreases nd - i,
    {
        let ghost before = string_views(dirs@);
        assert(keys[i as int] == record_key(records@[i as int]));
        assert(keys.take(i as int + 1).drop_last() =~= keys.take(i as int));
        assert(keys.take(i as int + 1).last() == keys[i as int]);
        match &records[i] {
            SafetyRecord::RequiredDirectory { scope, path, .. } => {
                if *scope == DirectoryScope::RealRoot {
                    insert_rollback_dir(&mut dirs, owned(path.as_str()));
                    assert(real_root_dir_paths(keys.take(i as int + 1)) == real_root_dir_paths(
                        keys.take(i as int),
                    ).push(path@));
                    assert(real_root_dir_paths(keys.take(i as int)).push(path@).drop_last() =~= real_root_dir_paths(
                        keys.take(i as int),
                    ));
                }
            },
            _ => {},
        }
        i = i + 1;
    }
    assert(keys.take(nd as int) =~= keys);
    dirs
}

fn push_backup_records(
    records: &mut Vec<SafetyRecord>,
    backups: &Vec<BackupSpec>,
    operations: &Vec<PlanOperation>,
    snippets: &Vec<ManagedSnippetOperation>,
    activations: &Vec<ActivationOperation>,
)
    requires
        forall|j: int|
            0 <= j < backups@.len() ==> (#[trigger] backups@[j]).subject == backup_subject(
                backups@[j].target@,
                snippet_views(snippets@),
                activation_views(activations@),
            ) && backups@[j].backup_path_template@ == backup_path(j as nat),
    ensures
        final(records)@.len() == old(records)@.len() + backups@.len(),
        forall|x: int| 0 <= x < old(records)@.len() ==> final(records)@[x] == old(records)@[x],
        forall|j: int|
            0 <= j < backups@.len() ==> backup_record_is(
                #[trigger] final(records)@[old(records)@.len() + j],
                j as nat,
                backups@[j].target@,
                op_views(operations@),
                snippet_views(snippets@),
                activation_views(activations@),
            ),
{
    let ghost start = records@;
    let mut j: usize = 0;
    while j < backups.len()
        invariant
            j <= backups@.len(),
            records@.len() == start.len() + j,
            forall|x: int| 0 <= x < start.len() ==> records@[x] == start[x],
            forall|j: int|
                0 <= j < backups@.len() ==> (#[trigger] backups@[j]).subject == backup_subject(
                    backups@[j].target@,
                    snippet_views(snippets@),
                    activation_views(activations@),
                ) && backups@[j].backup_path_template@ == backup_path(j as nat),
            forall|t: int|
                0 <= t < j ==> backup_record_is(
                    #[trigger] records@[start.len() + t],
                    t as nat,
                    backups@[t].target@,
                    op_views(operations@),
                    snippet_views(snippets@),
                    activation_views(activations@),
                ),
        decreases backups.len() - j,
    {
        let b = &backups[j];
        let hash = planned_backup_pre_change_hash(b, operations, activations);
        records.push(
            SafetyRecord::PlannedBackup {
                subject: b.subject,
                target: owned(b.target.as_str()),
                backup_path_template: owned(b.backup_path_template.as_str()),
                pre_change_hash: hash,
                execution: PreviewExecutionState::Blocked { blocker: SAFETY_EXECUTION_BLOCKER },
            },
        );
        j = j + 1;
    }
}

fn push_restore_rollbacks(records: &mut Vec<SafetyRecord>, backups: &Vec<BackupSpec>, rb: usize)
    requires
        0 < rb <= old(records)@.len(),
    ensures
        final(records)@.len() == old(records)@.len() + backups@.len(),
        forall|x: int| 0 <= x < old(records)@.len() ==> final(records)@[x] == old(records)@[x],
        forall|j: int|
            0 <= j < backups@.len() ==> rollback_record_at(
                #[trigger] final(records)@[old(records)@.len() + j],
                old(records)@.len() + j - rb + 1,
            ) && (final(records)@[old(records)@.len() + j] matches SafetyRecord::Rollback {
                action: RollbackAction::RestorePreChangeState { target, backup_path_template },
                ..
            } && target@ == backups@[backups@.len() - 1 - j].target@ && backup_path_template@
                == backups@[backups@.len() - 1 - j].backup_path_template@),
{
    let ghost start = records@;
    let n = backups.len();
    let mut j: usize = 0;
    while j < n
        invariant
            j <= n == backups@.len(),
            0 < rb <= start.len(),
            records@.len() == start.len() + j,
            forall|x: int| 0 <= x < start.len() ==> records@[x] == start[x],
            forall|t: int|
                0 <= t < j ==> rollback_record_at(#[trigger] records@[start.len() + t], start.len() + t - rb + 1)
                    && (records@[start.len() + t] matches SafetyRecord::Rollback {
                    action: RollbackAction::RestorePreChangeState { target, backup_path_template },
                    ..
                } && target@ == backups@[n - 1 - t].target@ && backup_path_template@ == backups@[n - 1
                    - t].backup_path_template@),
        decreases n - j,
    {
        let b = &backups[n - 1 - j];
        let order = (records.len() - rb + 1) as u16;
        records.push(
            SafetyRecord::Rollback {
                order,
                action: RollbackAction::RestorePreChangeState {
                    target: owned(b.target.as_str()),
                    backup_path_template: owned(b.backup_path_template.as_str()),
                },
                execution: PreviewExecutionState::Blocked { blocker: SAFETY_EXECUTION_BLOCKER },
            },
        );
        j = j + 1;
    }
}

fn push_directory_rollbacks(records: &mut Vec<SafetyRecord>, dirs: &Vec<String>, rb: usize)
    requires
        0 < rb <= old(records)@.len(),
    ensures
        final(records)@.len() == old(records)@.len() + dirs@.len(),
        forall|x: int| 0 <= x < old(records)@.len() ==> final(records)@[x] == old(records)@[x],
        forall|j: int|
            0 <= j < dirs@.len() ==> rollback_record_at(
                #[trigger] final(records)@[old(records)@.len() + j],
                old(records)@.len() + j - rb + 1,
            ) && (final(records)@[old(records)@.len() + j] matches SafetyRecord::Rollback {
                action: RollbackAction::RemoveDirectoryIfCreated { scope, path },
                ..
            } && scope == DirectoryScope::RealRoot && path@ == dirs@[j]@),
{
    let ghost start = records@;
    let mut j: usize = 0;
    while j < dirs.len()
        invariant
            j <= dirs@.len(),
            0 < rb <= start.len(),
            records@.len() == start.len() + j,
            forall|x: int| 0 <= x < start.len() ==> records@[x] == start[x],
            forall|t: int|
                0 <= t < j ==> rollback_record_at(#[trigger] records@[start.len() + t], start.len() + t - rb + 1)
                    && (records@[start.len() + t] matches SafetyRecord::Rollback {
                    action: RollbackAction::RemoveDirectoryIfCreated { scope, path },
                    ..
                } && scope == DirectoryScope::RealRoot && path@ == dirs@[t]@),
        decreases dirs.len() - j,
    {
        let order = (records.len() - rb + 1) as u16;
        records.push(
            SafetyRecord::Rollback {
                order,
                action: RollbackAction::RemoveDirectoryIfCreated {
                    scope: DirectoryScope::RealRoot,
                    path: owned(dirs[j].as_str()),
                },
                execution: PreviewExecutionState::Blocked { blocker: SAFETY_EXECUTION_BLOCKER },
            },
        );
        j = j + 1;
    }
}

/// The safety records of a plan with these payloads, snippets and links
/// for the selected pair: exactly those [`plan_records_ok`] describes.
pub fn safety_records_for_plan(
    selection: AdapterSelection,
    operations: &Vec<PlanOperation>,
    snippets: &Vec<ManagedSnippetOperation>,
    activations: &Vec<ActivationOperation>,
) -> (r: Vec<SafetyRecord>)
    requires
        forall|i: int|
            0 <= i < operations@.len() ==> spec_is_normalized_absolute_file_path(#[trigger] operations@[i]@.path),
        forall|i: int|
            0 <= i < activations@.len() ==> spec_is_normalized_absolute_file_path(#[trigger] activations@[i]@.path),
        first_payload_at(op_views(operations@), BOOTART_BINARY_PATH@) is Some,
    ensures
        plan_records_ok(
            r@,
            selection.spec_initramfs(),
            op_views(operations@),
            snippet_views(snippets@),
            activation_views(activations@),
        ),
{
    let ghost ov = op_views(operations@);
    let ghost sv = snippet_views(snippets@);
    let ghost av = activation_views(activations@);
    let initramfs = selection.initramfs();
    let spec = crate::safety::initramfs_safety_spec(initramfs);
    let mut records = required_directory_records(operations, activations);
    let nd = records.len();
    let ghost keys = record_keys(records@);
    proof {
        lemma_key_order_total();
        assert(sorted_by(keys, key_order()));
        lemma_is_sort_from(keys, required_dir_keys(ov, av), key_order());
        assert(records@.take(nd as int) =~= records@);
    }
    let dirs = rollback_directories(&records, nd);
    let ghost d0 = records@;
    records.push(
        SafetyRecord::Generator {
            adapter: spec.adapter,
            generator: spec.generator,
            invocation: GeneratorInvocation::Unresolved { blocker: spec.invocation_blocker },
            execution: PreviewExecutionState::Blocked { blocker: SAFETY_EXECUTION_BLOCKER },
        },
    );
    records.push(
        SafetyRecord::CandidateImage {
            adapter: spec.adapter,
            path: PlannedValue::Unresolved { blocker: spec.image_blocker },
            pre_change_hash: PlannedHashState::Unresolved { blocker: spec.image_blocker },
            separately_named: true,
        },
    );
    records.push(
        SafetyRecord::KnownGood {
            adapter: spec.adapter,
            image_path: PlannedValue::Unresolved { blocker: spec.known_good_blocker },
            image_hash: PlannedHashState::Unresolved { blocker: spec.known_good_blocker },
            boot_entry: PlannedValue::Unresolved { blocker: spec.known_good_blocker },
            untouched: true,
        },
    );
    let backups = planned_backup_specs(operations, snippets, activations);
    let ghost targets = backups@.map_values(|b: BackupSpec| b.target@);
    proof {
        lemma_path_order_total();
        assert(sorted_by(targets, path_order()));
        lemma_is_sort_from(targets, backup_targets(ov, sv, av), path_order());
    }
    let ghost d1 = records@;
    push_backup_records(&mut records, &backups, operations, snippets, activations);
    let digest = binary_digest_of(operations);
    let ghost d2 = records@;
    records.push(
        SafetyRecord::PostGenerationInspection {
            order: 1,
            check: InspectionKind::CandidatePathDistinctFromKnownGood,
            execution: PreviewExecutionState::Blocked { blocker: spec.inspection_blocker },
        },
    );
    records.push(
        SafetyRecord::PostGenerationInspection {
            order: 2,
            check: InspectionKind::CandidatePreChangeAbsent,
            execution: PreviewExecutionState::Blocked { blocker: spec.inspection_blocker },
        },
    );
    records.push(
        SafetyRecord::PostGenerationInspection {
            order: 3,
            check: InspectionKind::StaticBootartElf { path: owned(BOOTART_BINARY_PATH), digest },
            execution: PreviewExecutionState::Blocked { blocker: spec.inspection_blocker },
        },
    );
    records.push(
        SafetyRecord::PostGenerationInspection {
            order: 4,
            check: InspectionKind::SelectedAdapterInventory { adapter: initramfs },
            execution: PreviewExecutionState::Blocked { blocker: spec.inspection_blocker },
        },
    );
    records.push(
        SafetyRecord::PostGenerationInspection {
            order: 5,
            check: InspectionKind::LegacyHelperAbsent { path: owned(LEGACY_PID1_HELPER_PATH) },
            execution: PreviewExecutionState::Blocked { blocker: spec.inspection_blocker },
        },
    );
    records.push(
        SafetyRecord::PostGenerationInspection {
            order: 6,
            check: InspectionKind::KnownGoodUnchanged,
            execution: PreviewExecutionState::Blocked { blocker: spec.inspection_blocker },
        },
    );
    let rb = records.len();
    records.push(
        SafetyRecord::Rollback {
            order: 1,
            action: RollbackAction::RemoveCandidateIfCreated {
                path: PlannedValue::Unresolved { blocker: spec.image_blocker },
            },
            execution: PreviewExecutionState::Blocked { blocker: SAFETY_EXECUTION_BLOCKER },
        },
    );
    let ghost d3 = records@;
    push_restore_rollbacks(&mut records, &backups, rb);
    let ghost d4 = records@;
    push_directory_rollbacks(&mut records, &dirs, rb);
    proof {
        let rs = records@;
        let nb = backups@.len() as int;
        assert(keys == planned_dir_keys(ov, av));
        assert(targets == planned_backup_targets(ov, sv, av));
        assert(string_views(dirs@) == rollback_dirs(keys));
        assert(targets.len() == nb);
        assert forall|i: int| 0 <= i < nd implies dir_record_is(#[trigger] rs[i], keys[i]) by {
            assert(rs[i] == d0[i]);
        }
        assert forall|j: int| 0 <= j < nb implies backup_record_is(
            #[trigger] rs[nd + 3 + j],
            j as nat,
            targets[j],
            ov,
            sv,
            av,
        ) by {
            assert(rs[nd + 3 + j] == d2[nd + 3 + j]);
        }
        assert forall|k: int| 0 <= k < 6 implies inspection_record_is(
            #[trigger] rs[nd + 3 + nb + k],
            k,
            initramfs,
            binary_digest(ov),
            spec,
        ) by {
            assert(rs[nd + 3 + nb + k] == d3[nd + 3 + nb + k]);
        }
        assert forall|m: int| rb <= m < rs.len() implies rollback_record_at(#[trigger] rs[m], m - rb + 1) by {
            if m < d3.len() {
                assert(rs[m] == d3[m]);
            } else if m < d4.len() {
                assert(rs[m] == d4[m]);
                assert(d4[d3.len() + (m - d3.len())] == d4[m]);
            } else {
                assert(rs[d4.len() + (m - d4.len())] == rs[m]);
            }
        }
        assert forall|j: int| 0 <= j < nb implies (#[trigger] rs[rb + 1 + j] matches SafetyRecord::Rollback {
            action: RollbackAction::RestorePreChangeState { target, backup_path_template },
            ..
        } && target@ == targets[nb - 1 - j] && backup_path_template@ == backup_path((nb - 1 - j) as nat)) by {
            assert(rs[rb + 1 + j] == d4[rb + 1 + j]);
            assert(d4[d3.len() + j] == d4[rb + 1 + j]);
        }
        assert forall|j: int| 0 <= j < dirs@.len() implies (#[trigger] rs[rb + 1 + nb + j] matches SafetyRecord::Rollback {
            action: RollbackAction::RemoveDirectoryIfCreated { scope, path },
            ..
        } && scope == DirectoryScope::RealRoot && path@ == rollback_dirs(keys)[j]) by {
            assert(rs[d4.len() + j] == rs[rb + 1 + nb + j]);
            assert(string_views(dirs@)[j] == dirs@[j]@);
        }
        assert(rs[rb as int] == d3[rb as int]);
        assert(rs[nd as int] == d1[nd as int]);
        assert(rs[nd + 1] == d1[nd + 1]);
        assert(rs[nd + 2] == d1[nd + 2]);
    }
    records
}

// ---------------------------------------------------------------------------
// The plan
// ---------------------------------------------------------------------------

/// A stable, reviewable install plan. Building one reads embedded data and
/// the caller's bytes only; it changes nothing and runs nothing.
#[derive(Debug)]
pub struct InstallPlan {
    root: String,
    selection: AdapterSelection,
    operations: Vec<PlanOperation>,
    managed_snippet_operations: Vec<ManagedSnippetOperation>,
    activation_operations: Vec<ActivationOperation>,
    safety_records: Vec<SafetyRecord>,
}

/// An install plan as plain values.
pub struct InstallPlanView {
    pub root: Seq<char>,
    pub selection: AdapterSelection,
    pub operations: Seq<PlanOperationView>,
    pub snippets: Seq<ManagedSnippetOperationView>,
    pub activations: Seq<ActivationOperationView>,
    pub safety_records: Seq<SafetyRecord>,
}

impl View for InstallPlan {
    type V = InstallPlanView;

    closed spec fn view(&self) -> InstallPlanView {
        InstallPlanView {
            root: self.root@,
            selection: self.selection,
            operations: op_views(self.operations@),
            snippets: snippet_views(self.managed_snippet_operations@),
            activations: activation_views(self.activation_operations@),
            safety_records: self.safety_records@,
        }
    }
}

/// The prefix of the `k`-th VM gate: lifecycle, install, password.
pub open spec fn gate_prefix(k: int) -> Seq<char> {
    if k == 0 {
        "make vm-test-lifecycle-"@
    } else if k == 1 {
        "make vm-test-install-"@
    } else {
        "make vm-test-password-"@
    }
}

/// A gate's pair slug: nonempty, ASCII lowercase letters and `-`.
pub open spec fn slug_ok(s: Seq<char>) -> bool {
    &&& s.len() > 0
    &&& forall|i: int| 0 <= i < s.len() ==> ('a' <= #[trigger] s[i] <= 'z' || s[i] == '-')
}

/// The selected pair is experimental and carries its three unproven VM
/// gates, lifecycle, install and password, all for one slug.
pub open spec fn pair_gates_ok(selection: AdapterSelection) -> bool {
    let i = crate::selection::pair_index(selection.spec_initramfs(), selection.spec_real_root());
    let slug = crate::selection::spec_pair_gate(i, 0)@.skip(gate_prefix(0).len() as int);
    &&& crate::selection::spec_pair_status(i) == crate::adapter::SupportStatus::ExperimentalUnproven
    &&& slug_ok(slug)
    &&& forall|k: int|
        0 <= k < 3 ==> crate::text::has_prefix(#[trigger] crate::selection::spec_pair_gate(i, k)@, gate_prefix(k))
            && crate::selection::spec_pair_gate(i, k)@.skip(gate_prefix(k).len() as int) == slug
}

/// The templates the selected adapters own.
pub open spec fn selected_templates(selection: AdapterSelection) -> Seq<crate::embedded::TemplateId> {
    crate::adapter::spec_adapter_resources(selection.spec_initramfs()) + crate::adapter::spec_adapter_resources(
        selection.spec_real_root(),
    )
}

/// One whole-file payload of a plan for `selection`: at an allowed,
/// normalized path, root-owned, not claiming an inspected previous state,
/// carrying the digest of its content, and either the static bootart ELF
/// at its path with mode `0755` or exactly the payload of a selected
/// adapter's whole-file template.
pub open spec fn payload_op_ok(selection: AdapterSelection, o: PlanOperationView) -> bool {
    &&& crate::journal::spec_payload_path_allowed(o.path)
    &&& o.owner_uid == 0
    &&& (o.expected_previous == crate::safety::ExpectedPreviousState::Absent || o.expected_previous
        == crate::safety::ExpectedPreviousState::Uninspected)
    &&& crate::digest::spec_sha256(o.content) == o.digest
    &&& match o.source {
        crate::plan::PlanSource::BootartElf => o.path == BOOTART_BINARY_PATH@ && o.mode == 0o755
            && crate::elf::static_elf_valid(o.content),
        crate::plan::PlanSource::EmbeddedTemplate(id) => {
            &&& selected_templates(selection).contains(id)
            &&& crate::plan::template_operation(id) is Some
            &&& o.path == crate::plan::template_operation(id)->Some_0.path
            &&& o.mode == crate::plan::template_operation(id)->Some_0.mode
            &&& o.content == crate::plan::template_operation(id)->Some_0.content
        },
    }
}

/// The whole-file payloads of a plan: at least one, each well formed, at
/// distinct paths, the bootart ELF among them.
pub open spec fn payload_ops_ok(selection: AdapterSelection, ops: Seq<PlanOperationView>) -> bool {
    &&& ops.len() > 0
    &&& forall|i: int| 0 <= i < ops.len() ==> payload_op_ok(selection, #[trigger] ops[i])
    &&& crate::text::distinct_seqs(crate::plan::op_paths(ops))
    &&& exists|i: int| 0 <= i < ops.len() && (#[trigger] ops[i]).source == crate::plan::PlanSource::BootartElf
}

fn slug_ok_exec(s: &str) -> (r: bool)
    ensures
        r == slug_ok(s@),
{
    let v = chars_of(s);
    if v.len() == 0 {
        return false;
    }
    let mut i: usize = 0;
    while i < v.len()
        invariant
            i <= v@.len(),
            v@ == s@,
            forall|j: int| 0 <= j < i ==> ('a' <= #[trigger] v@[j] <= 'z' || v@[j] == '-'),
        decreases v.len() - i,
    {
        let c = v[i];
        if !(('a' <= c && c <= 'z') || c == '-') {
            return false;
        }
        i = i + 1;
    }
    true
}

fn gate_prefix_exec(k: usize) -> (r: &'static str)
    ensures
        r@ == gate_prefix(k as int),
{
    if k == 0 {
        "make vm-test-lifecycle-"
    } else if k == 1 {
        "make vm-test-install-"
    } else {
        "make vm-test-password-"
    }
}

fn pair_gates_ok_exec(selection: AdapterSelection) -> (r: bool)
    ensures
        r == pair_gates_ok(selection),
{
    let pair = selection.pair_metadata();
    if pair.status != crate::adapter::SupportStatus::ExperimentalUnproven {
        return false;
    }
    let slug = match crate::text::strip_prefix(pair.proof_gates[0], gate_prefix_exec(0)) {
        Some(t) => t,
        None => {
            return false;
        },
    };
    if !slug_ok_exec(slug) {
        return false;
    }
    let mut k: usize = 0;
    while k < 3
        invariant
            k <= 3,
            forall|j: int| 0 <= j < 3 ==> #[trigger] pair.proof_gates[j] == crate::selection::spec_pair_gate(
                crate::selection::pair_index(selection.spec_initramfs(), selection.spec_real_root()),
                j,
            ),
            slug@ == pair.proof_gates[0]@.skip(gate_prefix(0).len() as int),
            forall|j: int|
                0 <= j < k ==> crate::text::has_prefix(#[trigger] pair.proof_gates[j]@, gate_prefix(j))
                    && pair.proof_gates[j]@.skip(gate_prefix(j).len() as int) == slug@,
        decreases 3 - k,
    {
        match crate::text::strip_prefix(pair.proof_gates[k], gate_prefix_exec(k)) {
            Some(t) => {
                if !crate::text::str_eq(t, slug) {
                    return false;
                }
            },
            None => {
                return false;
            },
        }
        k = k + 1;
    }
    proof {
        let i = crate::selection::pair_index(selection.spec_initramfs(), selection.spec_real_root());
        assert forall|j: int| 0 <= j < 3 implies crate::text::has_prefix(
            #[trigger] crate::selection::spec_pair_gate(i, j)@,
            gate_prefix(j),
        ) && crate::selection::spec_pair_gate(i, j)@.skip(gate_prefix(j).len() as int) == slug@ by {
            assert(pair.proof_gates[j] == crate::selection::spec_pair_gate(i, j));
        }
        assert(pair.proof_gates[0] == crate::selection::spec_pair_gate(i, 0));
    }
    true
}

proof fn lemma_concat_contains<T>(a: Seq<T>, b: Seq<T>, x: T)
    ensures
        (a + b).contains(x) <==> a.contains(x) || b.contains(x),
{
    if a.contains(x) {
        let k = choose|k: int| 0 <= k < a.len() && a[k] == x;
        assert((a + b)[k] == x);
    }
    if b.contains(x) {
        let k = choose|k: int| 0 <= k < b.len() && b[k] == x;
        assert((a + b)[a.len() + k] == x);
    }
    if (a + b).contains(x) {
        let k = choose|k: int| 0 <= k < (a + b).len() && (a + b)[k] == x;
        if k < a.len() {
            assert(a[k] == x);
        } else {
            assert(b[k - a.len()] == x);
        }
    }
}

fn check_payload_operation(selection: AdapterSelection, operation: &PlanOperation) -> (r: Result<(), InstallError>)
    ensures
        r is Ok <==> payload_op_ok(selection, operation@),
        r matches Err(e) ==> e is InvalidPlan || e is InvalidBootartElf || e is FileTooLarge,
{
    if !crate::journal::payload_path_allowed(operation.path()) {
        return Err(invalid("destination is outside the bootart-owned allowlist"));
    }
    let previous = operation.expected_previous();
    if operation.owner_uid() != 0 || !(previous == crate::safety::ExpectedPreviousState::Absent || previous
        == crate::safety::ExpectedPreviousState::Uninspected) {
        return Err(invalid("payload must be root-owned with an absent or uninspected previous state"));
    }
    let d = crate::digest::sha256(operation.content());
    let expected = operation.digest();
    if !(d.w0 == expected.w0 && d.w1 == expected.w1 && d.w2 == expected.w2 && d.w3 == expected.w3) {
        return Err(invalid("digest mismatch"));
    }
    match operation.source() {
        crate::plan::PlanSource::BootartElf => {
            if !crate::text::str_eq(operation.path(), BOOTART_BINARY_PATH) || operation.mode() != 0o755 {
                return Err(invalid("invalid bootart ELF operation"));
            }
            crate::elf::validate_static_elf(operation.content())
        },
        crate::plan::PlanSource::EmbeddedTemplate(id) => {
            proof {
                lemma_concat_contains(
                    crate::adapter::spec_adapter_resources(selection.spec_initramfs()),
                    crate::adapter::spec_adapter_resources(selection.spec_real_root()),
                    id,
                );
            }
            if !(crate::adapter::adapter_owns(selection.initramfs(), id) || crate::adapter::adapter_owns(
                selection.real_root(),
                id,
            )) {
                return Err(invalid("template is not owned by a selected adapter"));
            }
            match crate::plan::template_payload(id) {
                None => Err(invalid("managed snippet was represented as a whole-file payload")),
                Some(t) => {
                    if !crate::text::str_eq(operation.path(), t.path()) || operation.mode() != t.mode()
                        || !crate::archive::bytes_eq(operation.content(), t.content()) {
                        Err(invalid("template operation differs from embedded metadata"))
                    } else {
                        Ok(())
                    }
                },
            }
        },
    }
}

fn check_payload_operations(selection: AdapterSelection, operations: &Vec<PlanOperation>) -> (r: Result<
    (),
    InstallError,
>)
    ensures
        r is Ok <==> payload_ops_ok(selection, op_views(operations@)),
        r matches Err(e) ==> e is InvalidPlan || e is InvalidBootartElf || e is FileTooLarge,
{
    let ghost ov = op_views(operations@);
    if operations.len() == 0 {
        return Err(invalid("plan has no operations"));
    }
    let mut saw_binary = false;
    let mut i: usize = 0;
    while i < operations.len()
        invariant
            i <= operations@.len(),
            ov == op_views(operations@),
            forall|j: int| 0 <= j < i ==> payload_op_ok(selection, #[trigger] ov[j]),
            forall|a: int, b: int| 0 <= a < b < i ==> ov[a].path != ov[b].path,
            saw_binary <==> exists|j: int| 0 <= j < i && (#[trigger] ov[j]).source == crate::plan::PlanSource::BootartElf,
        decreases operations.len() - i,
    {
        let op = &operations[i];
        assert(ov[i as int] == op@);
        match check_payload_operation(selection, op) {
            Ok(()) => {},
            Err(e) => {
                return Err(e);
            },
        }
        let mut j: usize = 0;
        while j < i
            invariant
                j <= i < operations@.len(),
                ov == op_views(operations@),
                forall|a: int| 0 <= a < j ==> ov[a].path != ov[i as int].path,
            decreases i - j,
        {
            assert(ov[j as int] == operations@[j as int]@);
            if crate::text::str_eq(operations[j].path(), operations[i].path()) {
                assert(!crate::text::distinct_seqs(crate::plan::op_paths(ov))) by {
                    assert(crate::plan::op_paths(ov)[j as int] == crate::plan::op_paths(ov)[i as int]);
                }
                return Err(invalid("duplicate destination"));
            }
            j = j + 1;
        }
        if op.source() == crate::plan::PlanSource::BootartElf {
            saw_binary = true;
        }
        i = i + 1;
    }
    assert(crate::text::distinct_seqs(crate::plan::op_paths(ov))) by {
        assert forall|a: int, b: int| 0 <= a < b < crate::plan::op_paths(ov).len() implies crate::plan::op_paths(
            ov,
        )[a] != crate::plan::op_paths(ov)[b] by {
            assert(ov[a].path != ov[b].path);
        }
    }
    if !saw_binary {
        return Err(invalid("plan omits /usr/bin/bootart"));
    }
    Ok(())
}

/// Two relations say the same: the same kind, and for OpenRC the same
/// runlevel.
pub open spec fn relation_same(a: crate::operations::ActivationRelation, b: crate::operations::ActivationRelation) -> bool {
    match (a, b) {
        (
            crate::operations::ActivationRelation::OpenRcRunlevel { runlevel: x },
            crate::operations::ActivationRelation::OpenRcRunlevel { runlevel: y },
        ) => x@ == y@,
        (crate::operations::ActivationRelation::SystemdWants, crate::operations::ActivationRelation::SystemdWants) => true,
        (
            crate::operations::ActivationRelation::SystemdRequires,
            crate::operations::ActivationRelation::SystemdRequires,
        ) => true,
        _ => false,
    }
}

/// An activation record is the expected one, except that a real-root
/// link may record whatever previous state was observed.
pub open spec fn activation_matches(a: ActivationOperationView, e: ActivationOperationView) -> bool {
    &&& a.adapter == e.adapter
    &&& a.scope == e.scope
    &&& relation_same(a.relation, e.relation)
    &&& a.path == e.path
    &&& a.relative_target == e.relative_target
    &&& a.owner_uid == e.owner_uid
    &&& a.source == e.source
    &&& (e.scope == crate::operations::ActivationScope::RealRoot || a.expected_previous == e.expected_previous)
}

/// The shared-file edits of a plan: exactly the selected adapters'
/// snippets, each well formed, each insertion point once, none in a file
/// that a whole-file payload writes.
pub open spec fn snippets_ok(
    selection: AdapterSelection,
    ops: Seq<PlanOperationView>,
    snips: Seq<ManagedSnippetOperationView>,
) -> bool {
    &&& snips == crate::operations::spec_snippet_operations(selection)
    &&& forall|i: int| 0 <= i < snips.len() ==> crate::operations::snippet_valid(selection, #[trigger] snips[i])
    &&& forall|a: int, b: int|
        0 <= a < b < snips.len() ==> !(#[trigger] snips[a].target == #[trigger] snips[b].target
            && snips[a].insertion_point == snips[b].insertion_point)
    &&& forall|i: int| 0 <= i < snips.len() ==> !crate::plan::op_paths(ops).contains(#[trigger] snips[i].target)
}

/// The activation links of a plan: exactly the selected adapters' links
/// (real-root ones with any observed previous state), each well formed,
/// each destination once per scope, no real-root link where a payload is.
pub open spec fn activations_ok(
    selection: AdapterSelection,
    ops: Seq<PlanOperationView>,
    acts: Seq<ActivationOperationView>,
) -> bool {
    &&& crate::operations::spec_activation_operations(selection) is Some
    &&& acts.len() == crate::operations::spec_activation_operations(selection)->Some_0.len()
    &&& forall|i: int|
        0 <= i < acts.len() ==> activation_matches(
            #[trigger] acts[i],
            crate::operations::spec_activation_operations(selection)->Some_0[i],
        )
    &&& forall|i: int| 0 <= i < acts.len() ==> crate::operations::activation_valid(selection, #[trigger] acts[i])
    &&& forall|a: int, b: int|
        0 <= a < b < acts.len() ==> !(#[trigger] acts[a].scope == #[trigger] acts[b].scope && acts[a].path
            == acts[b].path)
    &&& forall|i: int|
        0 <= i < acts.len() ==> (#[trigger] acts[i]).scope == crate::operations::ActivationScope::RealRoot
            ==> !crate::plan::op_paths(ops).contains(acts[i].path)
}

fn payload_at(operations: &Vec<PlanOperation>, path: &str) -> (r: bool)
    ensures
        r == crate::plan::op_paths(op_views(operations@)).contains(path@),
{
    let ghost ps = crate::plan::op_paths(op_views(operations@));
    let mut i: usize = 0;
    while i < operations.len()
        invariant
            i <= operations@.len(),
            ps == crate::plan::op_paths(op_views(operations@)),
            forall|j: int| 0 <= j < i ==> ps[j] != path@,
        decreases operations.len() - i,
    {
        assert(ps[i as int] == operations@[i as int]@.path);
        if crate::text::str_eq(operations[i].path(), path) {
            return true;
        }
        i = i + 1;
    }
    false
}

fn snippet_equal(a: &ManagedSnippetOperation, b: &ManagedSnippetOperation) -> (r: bool)
    ensures
        r == (a@ == b@),
{
    let da = a.digest();
    let db = b.digest();
    a.adapter() == b.adapter() && crate::text::str_eq(a.target(), b.target()) && crate::text::str_eq(
        a.insertion_point(),
        b.insertion_point(),
    ) && da.w0 == db.w0 && da.w1 == db.w1 && da.w2 == db.w2 && da.w3 == db.w3 && a.source() == b.source()
        && a.expected_previous() == b.expected_previous()
}

fn check_snippets(
    selection: AdapterSelection,
    operations: &Vec<PlanOperation>,
    snippets: &Vec<ManagedSnippetOperation>,
) -> (r: Result<(), InstallError>)
    ensures
        r is Ok <==> snippets_ok(selection, op_views(operations@), snippet_views(snippets@)),
        r matches Err(e) ==> e is InvalidPlan,
{
    let ghost sv = snippet_views(snippets@);
    let expected = crate::operations::managed_snippet_operations_for_selection(selection);
    let ghost ev = snippet_views(expected@);
    if snippets.len() != expected.len() {
        assert(sv.len() != ev.len());
        return Err(invalid("managed snippet operations differ from selected embedded adapter metadata"));
    }
    let mut i: usize = 0;
    while i < snippets.len()
        invariant
            i <= snippets@.len() == expected@.len(),
            sv == snippet_views(snippets@),
            ev == snippet_views(expected@),
            ev == crate::operations::spec_snippet_operations(selection),
            forall|j: int| 0 <= j < i ==> sv[j] == ev[j],
        decreases snippets.len() - i,
    {
        if !snippet_equal(&snippets[i], &expected[i]) {
            assert(sv[i as int] != ev[i as int]);
            return Err(invalid("managed snippet operations differ from selected embedded adapter metadata"));
        }
        i = i + 1;
    }
    assert(sv =~= ev);
    let mut i: usize = 0;
    while i < snippets.len()
        invariant
            i <= snippets@.len(),
            sv == snippet_views(snippets@),
            forall|j: int| 0 <= j < i ==> crate::operations::snippet_valid(selection, #[trigger] sv[j]),
            forall|a: int, b: int|
                0 <= a < b < i ==> !(#[trigger] sv[a].target == #[trigger] sv[b].target && sv[a].insertion_point
                    == sv[b].insertion_point),
            forall|j: int| 0 <= j < i ==> !crate::plan::op_paths(op_views(operations@)).contains(#[trigger] sv[j].target),
        decreases snippets.len() - i,
    {
        let op = &snippets[i];
        match crate::operations::validate_managed_snippet_operation(selection, op) {
            Ok(()) => {},
            Err(e) => {
                return Err(e);
            },
        }
        let mut j: usize = 0;
        while j < i
            invariant
                j <= i < snippets@.len(),
                sv == snippet_views(snippets@),
                forall|a: int| 0 <= a < j ==> !(sv[a].target == sv[i as int].target && sv[a].insertion_point
                    == sv[i as int].insertion_point),
            decreases i - j,
        {
            if crate::text::str_eq(snippets[j].target(), snippets[i].target()) && crate::text::str_eq(
                snippets[j].insertion_point(),
                snippets[i].insertion_point(),
            ) {
                assert(sv[j as int].target == sv[i as int].target && sv[j as int].insertion_point
                    == sv[i as int].insertion_point);
                return Err(invalid("duplicate managed insertion point"));
            }
            j = j + 1;
        }
        if payload_at(operations, op.target()) {
            return Err(invalid("managed snippet target collides with a whole-file payload"));
        }
        i = i + 1;
    }
    Ok(())
}

fn relation_equal(a: crate::operations::ActivationRelation, b: crate::operations::ActivationRelation) -> (r: bool)
    ensures
        r == relation_same(a, b),
{
    match (a, b) {
        (
            crate::operations::ActivationRelation::OpenRcRunlevel { runlevel: x },
            crate::operations::ActivationRelation::OpenRcRunlevel { runlevel: y },
        ) => crate::text::str_eq(x, y),
        (crate::operations::ActivationRelation::SystemdWants, crate::operations::ActivationRelation::SystemdWants) => true,
        (
            crate::operations::ActivationRelation::SystemdRequires,
            crate::operations::ActivationRelation::SystemdRequires,
        ) => true,
        _ => false,
    }
}

fn activation_matches_exec(a: &ActivationOperation, e: &ActivationOperation) -> (r: bool)
    ensures
        r == activation_matches(a@, e@),
{
    a.adapter() == e.adapter() && a.scope() == e.scope() && relation_equal(a.relation(), e.relation())
        && crate::text::str_eq(a.path(), e.path()) && crate::text::str_eq(a.relative_target(), e.relative_target())
        && a.owner_uid() == e.owner_uid() && a.source() == e.source() && (e.scope()
        == crate::operations::ActivationScope::RealRoot || a.expected_previous() == e.expected_previous())
}

fn check_activations(
    selection: AdapterSelection,
    operations: &Vec<PlanOperation>,
    activations: &Vec<ActivationOperation>,
) -> (r: Result<(), InstallError>)
    ensures
        r is Ok <==> activations_ok(selection, op_views(operations@), activation_views(activations@)),
        r matches Err(e) ==> e is InvalidPlan,
{
    let ghost av = activation_views(activations@);
    let expected = match crate::operations::activation_operations_for_selection(selection) {
        Ok(v) => v,
        Err(e) => {
            return Err(e);
        },
    };
    let ghost ev = activation_views(expected@);
    if activations.len() != expected.len() {
        return Err(invalid("activation operations differ from the exact selected-adapter inventory"));
    }
    let mut i: usize = 0;
    while i < activations.len()
        invariant
            i <= activations@.len() == expected@.len(),
            av == activation_views(activations@),
            ev == activation_views(expected@),
            Some(ev) == crate::operations::spec_activation_operations(selection),
            forall|j: int| 0 <= j < i ==> activation_matches(#[trigger] av[j], ev[j]),
        decreases activations.len() - i,
    {
        if !activation_matches_exec(&activations[i], &expected[i]) {
            assert(!activation_matches(av[i as int], ev[i as int]));
            return Err(invalid("activation operations differ from the exact selected-adapter inventory"));
        }
        i = i + 1;
    }
    let mut i: usize = 0;
    while i < activations.len()
        invariant
            i <= activations@.len(),
            av == activation_views(activations@),
            forall|j: int| 0 <= j < i ==> crate::operations::activation_valid(selection, #[trigger] av[j]),
            forall|a: int, b: int|
                0 <= a < b < i ==> !(#[trigger] av[a].scope == #[trigger] av[b].scope && av[a].path == av[b].path),
            forall|j: int|
                0 <= j < i ==> (#[trigger] av[j]).scope == crate::operations::ActivationScope::RealRoot
                    ==> !crate::plan::op_paths(op_views(operations@)).contains(av[j].path),
        decreases activations.len() - i,
    {
        let op = &activations[i];
        match crate::operations::validate_activation_operation(selection, op) {
            Ok(()) => {},
            Err(e) => {
                return Err(e);
            },
        }
        let mut j: usize = 0;
        while j < i
            invariant
                j <= i < activations@.len(),
                av == activation_views(activations@),
                forall|a: int| 0 <= a < j ==> !(av[a].scope == av[i as int].scope && av[a].path == av[i as int].path),
            decreases i - j,
        {
            if activations[j].scope() == activations[i].scope() && crate::text::str_eq(
                activations[j].path(),
                activations[i].path(),
            ) {
                assert(av[j as int].scope == av[i as int].scope && av[j as int].path == av[i as int].path);
                return Err(invalid("duplicate activation destination"));
            }
            j = j + 1;
        }
        if op.scope() == crate::operations::ActivationScope::RealRoot && payload_at(operations, op.path()) {
            return Err(invalid("activation destination collides with a real-root payload"));
        }
        i = i + 1;
    }
    Ok(())
}

proof fn lemma_record_same_reflexive(a: SafetyRecord)
    ensures
        crate::records::record_same(a, a),
{
}

proof fn lemma_record_same_transitive(a: SafetyRecord, b: SafetyRecord, c: SafetyRecord)
    requires
        crate::records::record_same(a, b),
        crate::records::record_same(b, c),
    ensures
        crate::records::record_same(a, c),
{
}

/// The plan's records are determined: two lists that both satisfy
/// [`plan_records_ok`] for the same plan say the same thing record by record.
pub proof fn lemma_plan_records_unique(
    a: Seq<SafetyRecord>,
    b: Seq<SafetyRecord>,
    initramfs: AdapterId,
    ops: Seq<PlanOperationView>,
    snips: Seq<ManagedSnippetOperationView>,
    acts: Seq<ActivationOperationView>,
)
    requires
        plan_records_ok(a, initramfs, ops, snips, acts),
        plan_records_ok(b, initramfs, ops, snips, acts),
    ensures
        crate::records::records_same(a, b),
{
    let keys = planned_dir_keys(ops, acts);
    let nd = keys.len() as int;
    let targets = planned_backup_targets(ops, snips, acts);
    let nb = targets.len() as int;
    let dirs = rollback_dirs(keys);
    let ins = nd + 3 + nb;
    let rb = ins + 6;
    assert forall|i: int| 0 <= i < a.len() implies crate::records::record_same(#[trigger] a[i], b[i]) by {
        if i < nd {
            assert(dir_record_is(a[i], keys[i]) && dir_record_is(b[i], keys[i]));
        } else if i < nd + 3 {
            lemma_record_same_reflexive(a[i]);
        } else if i < ins {
            assert(backup_record_is(a[nd + 3 + (i - nd - 3)], (i - nd - 3) as nat, targets[i - nd - 3], ops, snips, acts));
            assert(backup_record_is(b[nd + 3 + (i - nd - 3)], (i - nd - 3) as nat, targets[i - nd - 3], ops, snips, acts));
        } else if i < rb {
            let k = i - ins;
            assert(inspection_record_is(a[ins + k], k, initramfs, binary_digest(ops), spec_initramfs_safety(initramfs)));
            assert(inspection_record_is(b[ins + k], k, initramfs, binary_digest(ops), spec_initramfs_safety(initramfs)));
        } else {
            assert(rollback_record_at(a[i], i - rb + 1) && rollback_record_at(b[i], i - rb + 1));
            if i == rb {
            } else if i < rb + 1 + nb {
                let j = i - rb - 1;
                assert(a[rb + 1 + j] == a[i] && b[rb + 1 + j] == b[i]);
            } else {
                let j = i - rb - 1 - nb;
                assert(a[rb + 1 + nb + j] == a[i] && b[rb + 1 + nb + j] == b[i]);
            }
        }
    }
}

/// The plan's records say the same as its deterministic safety records.
pub open spec fn records_match_plan(p: InstallPlanView) -> bool {
    exists|e: Seq<SafetyRecord>|
        plan_records_ok(e, p.selection.spec_initramfs(), p.operations, p.snippets, p.activations)
            && crate::records::records_same(p.safety_records, e)
}

/// A plan is valid: its payloads, pair gates, shared-file edits and
/// activation links are exactly what the selected adapters embed, every
/// payload path is normalized, its safety records say what the plan's
/// deterministic records say, and they pass the record checks.
pub open spec fn plan_valid(p: InstallPlanView) -> bool {
    &&& payload_ops_ok(p.selection, p.operations)
    &&& pair_gates_ok(p.selection)
    &&& snippets_ok(p.selection, p.operations, p.snippets)
    &&& activations_ok(p.selection, p.operations, p.activations)
    &&& forall|i: int| 0 <= i < p.operations.len() ==> spec_is_normalized_absolute_file_path(#[trigger] p.operations[i].path)
    &&& records_match_plan(p)
    &&& crate::safety::records_ok(p.safety_records, p.selection.spec_initramfs(), binary_digest(p.operations))
}

proof fn lemma_first_payload_some(ops: Seq<PlanOperationView>, t: Seq<char>, i: int)
    requires
        0 <= i < ops.len(),
        ops[i].path == t,
    ensures
        first_payload_at(ops, t) is Some,
    decreases i,
{
    if ops[0].path != t {
        assert(ops.drop_first()[i - 1] == ops[i]);
        lemma_first_payload_some(ops.drop_first(), t, i - 1);
    }
}

fn check_normalized_payloads(operations: &Vec<PlanOperation>) -> (r: bool)
    ensures
        r == forall|i: int|
            0 <= i < operations@.len() ==> spec_is_normalized_absolute_file_path(#[trigger] op_views(operations@)[i].path),
{
    let mut i: usize = 0;
    while i < operations.len()
        invariant
            i <= operations@.len(),
            forall|j: int|
                0 <= j < i ==> spec_is_normalized_absolute_file_path(#[trigger] op_views(operations@)[j].path),
        decreases operations.len() - i,
    {
        assert(op_views(operations@)[i as int] == operations@[i as int]@);
        if !crate::activation::is_normalized_absolute_file_path(operations[i].path()) {
            return false;
        }
        i = i + 1;
    }
    true
}

/// Checks an install plan: `Ok` exactly when [`plan_valid`] holds.
pub fn validate_plan(plan: &InstallPlan) -> (r: Result<(), InstallError>)
    ensures
        r is Ok <==> plan_valid(plan@),
        r matches Err(e) ==> e is InvalidPlan || e is InvalidBootartElf || e is FileTooLarge,
{
    let ghost pv = plan@;
    if !pair_gates_ok_exec(plan.selection) {
        return Err(invalid("exact adapter pair lacks its three unproven lifecycle/install/password gates"));
    }
    match check_payload_operations(plan.selection, &plan.operations) {
        Ok(()) => {},
        Err(e) => {
            return Err(e);
        },
    }
    match check_snippets(plan.selection, &plan.operations, &plan.managed_snippet_operations) {
        Ok(()) => {},
        Err(e) => {
            return Err(e);
        },
    }
    match check_activations(plan.selection, &plan.operations, &plan.activation_operations) {
        Ok(()) => {},
        Err(e) => {
            return Err(e);
        },
    }
    if !check_normalized_payloads(&plan.operations) {
        return Err(invalid("safety records differ from the deterministic selected-pair preview"));
    }
    proof {
        let i = choose|i: int| 0 <= i < pv.operations.len() && (#[trigger] pv.operations[i]).source
            == crate::plan::PlanSource::BootartElf;
        assert(payload_op_ok(pv.selection, pv.operations[i]));
        lemma_first_payload_some(pv.operations, BOOTART_BINARY_PATH@, i);
        assert forall|i: int| 0 <= i < plan.activation_operations@.len() implies spec_is_normalized_absolute_file_path(
            #[trigger] plan.activation_operations@[i]@.path,
        ) by {
            assert(pv.activations[i] == plan.activation_operations@[i]@);
        }
        assert forall|i: int| 0 <= i < plan.operations@.len() implies spec_is_normalized_absolute_file_path(
            #[trigger] plan.operations@[i]@.path,
        ) by {
            assert(pv.operations[i] == plan.operations@[i]@);
        }
    }
    let expected = safety_records_for_plan(
        plan.selection,
        &plan.operations,
        &plan.managed_snippet_operations,
        &plan.activation_operations,
    );
    if !crate::records::records_same_exec(&plan.safety_records, &expected) {
        proof {
            if records_match_plan(pv) {
                let e = choose|e: Seq<SafetyRecord>|
                    plan_records_ok(e, pv.selection.spec_initramfs(), pv.operations, pv.snippets, pv.activations)
                        && crate::records::records_same(pv.safety_records, e);
                lemma_plan_records_unique(
                    e,
                    expected@,
                    pv.selection.spec_initramfs(),
                    pv.operations,
                    pv.snippets,
                    pv.activations,
                );
                assert forall|i: int| 0 <= i < pv.safety_records.len() implies crate::records::record_same(
                    #[trigger] pv.safety_records[i],
                    expected@[i],
                ) by {
                    lemma_record_same_transitive(pv.safety_records[i], e[i], expected@[i]);
                }
            }
        }
        return Err(invalid("safety records differ from the deterministic selected-pair preview"));
    }
    let binary = binary_digest_of(&plan.operations);
    let initramfs = plan.selection.initramfs();
    crate::safety::validate_safety_records(&plan.safety_records, initramfs, binary)
}

/// `p` is the plan built for `selection` under `root` with the ELF `elf`:
/// the binary and the selected whole-file resources in path order, the
/// selected snippets and links, and — where every payload and link path is
/// normalized and the binary is planned — the plan's safety records.
pub open spec fn is_built_plan(p: InstallPlanView, root: Seq<char>, selection: AdapterSelection, elf: Seq<u8>) -> bool {
    &&& p.root == root
    &&& p.selection == selection
    &&& strictly_sorted(crate::plan::op_paths(p.operations))
    &&& p.operations.to_multiset() == crate::plan::spec_payloads(selection, elf).to_multiset()
    &&& p.snippets == crate::operations::spec_snippet_operations(selection)
    &&& Some(p.activations) == crate::operations::spec_activation_operations(selection)
    &&& ((forall|i: int|
        0 <= i < p.operations.len() ==> spec_is_normalized_absolute_file_path(#[trigger] p.operations[i].path))
        && (forall|i: int|
        0 <= i < p.activations.len() ==> spec_is_normalized_absolute_file_path(#[trigger] p.activations[i].path))
        && first_payload_at(p.operations, BOOTART_BINARY_PATH@) is Some) ==> plan_records_ok(
        p.safety_records,
        selection.spec_initramfs(),
        p.operations,
        p.snippets,
        p.activations,
    )
}

fn binary_planned(operations: &Vec<PlanOperation>) -> (r: bool)
    ensures
        r == (first_payload_at(op_views(operations@), BOOTART_BINARY_PATH@) is Some),
{
    let ghost ov = op_views(operations@);
    let mut i: usize = 0;
    assert(ov.skip(0) =~= ov);
    while i < operations.len()
        invariant
            i <= operations@.len(),
            ov == op_views(operations@),
            first_payload_at(ov, BOOTART_BINARY_PATH@) == first_payload_at(ov.skip(i as int), BOOTART_BINARY_PATH@),
        decreases operations.len() - i,
    {
        assert(ov.skip(i as int)[0] == operations@[i as int]@);
        assert(ov.skip(i as int).drop_first() =~= ov.skip(i as int + 1));
        if crate::text::str_eq(operations[i].path(), BOOTART_BINARY_PATH) {
            return true;
        }
        i = i + 1;
    }
    assert(ov.skip(ov.len() as int) =~= Seq::<PlanOperationView>::empty());
    false
}

fn links_normalized(activations: &Vec<ActivationOperation>) -> (r: bool)
    ensures
        r == forall|i: int|
            0 <= i < activations@.len() ==> spec_is_normalized_absolute_file_path(
                #[trigger] activation_views(activations@)[i].path,
            ),
{
    let mut i: usize = 0;
    while i < activations.len()
        invariant
            i <= activations@.len(),
            forall|j: int|
                0 <= j < i ==> spec_is_normalized_absolute_file_path(#[trigger] activation_views(activations@)[j].path),
        decreases activations.len() - i,
    {
        assert(activation_views(activations@)[i as int] == activations@[i as int]@);
        if !crate::activation::is_normalized_absolute_file_path(activations[i].path()) {
            return false;
        }
        i = i + 1;
    }
    true
}

/// Builds the install plan for `selection` under `root` whose binary
/// payload is `bootart_elf`, then checks it. Refuses an ELF that is not a
/// static bootart for the product, payloads that collide or do not fit one
/// transaction, and link metadata that does not resolve; otherwise it
/// returns the built plan exactly when that plan is valid.
pub fn build_install_plan_from_bytes(
    root: &crate::root::AlternateRoot,
    selection: AdapterSelection,
    bootart_elf: &[u8],
) -> (r: Result<InstallPlan, InstallError>)
    ensures
        !crate::elf::static_elf_valid(bootart_elf@) ==> r is Err,
        bootart_elf@.len() > crate::elf::MAX_INSTALL_FILE_BYTES ==> (r matches Err(InstallError::FileTooLarge {
            path,
            size,
            limit,
        }) && path@ == BOOTART_BINARY_PATH@ && size == bootart_elf@.len() && limit
            == crate::elf::MAX_INSTALL_FILE_BYTES),
        bootart_elf@.len() <= crate::elf::MAX_INSTALL_FILE_BYTES && !crate::elf::static_elf_valid(bootart_elf@) ==> (
        r matches Err(e) && e is InvalidBootartElf),
        crate::elf::static_elf_valid(bootart_elf@) && !crate::text::distinct_seqs(
            crate::plan::op_paths(crate::plan::spec_payloads(selection, bootart_elf@)),
        ) ==> (r matches Err(e) && e is InvalidPlan),
        !crate::plan::payloads_ok(selection, bootart_elf@) ==> r is Err,
        crate::operations::spec_activation_operations(selection) is None ==> r is Err,
        r matches Ok(p) ==> is_built_plan(p@, root.spec_path(), selection, bootart_elf@) && plan_valid(p@),
        r is Err && crate::elf::static_elf_valid(bootart_elf@) && crate::plan::payloads_ok(selection, bootart_elf@)
            && crate::operations::spec_activation_operations(selection) is Some ==> exists|p: InstallPlanView|
            is_built_plan(p, root.spec_path(), selection, bootart_elf@) && !plan_valid(p),
{
    let operations = match crate::plan::build_payload_operations(root.as_path(), selection, bootart_elf) {
        Ok(v) => v,
        Err(e) => {
            return Err(e);
        },
    };
    let managed_snippet_operations = crate::operations::managed_snippet_operations_for_selection(selection);
    let activation_operations = match crate::operations::activation_operations_for_selection(selection) {
        Ok(v) => v,
        Err(e) => {
            return Err(e);
        },
    };
    if !check_normalized_payloads(&operations) || !links_normalized(&activation_operations) || !binary_planned(
        &operations,
    ) {
        let ghost p = InstallPlanView {
            root: root.spec_path(),
            selection,
            operations: op_views(operations@),
            snippets: snippet_views(managed_snippet_operations@),
            activations: activation_views(activation_operations@),
            safety_records: Seq::empty(),
        };
        proof {
            if plan_valid(p) {
                let i = choose|i: int| 0 <= i < p.operations.len() && (#[trigger] p.operations[i]).source
                    == crate::plan::PlanSource::BootartElf;
                assert(payload_op_ok(p.selection, p.operations[i]));
                lemma_first_payload_some(p.operations, BOOTART_BINARY_PATH@, i);
                assert forall|i: int| 0 <= i < p.activations.len() implies spec_is_normalized_absolute_file_path(
                    #[trigger] p.activations[i].path,
                ) by {
                    assert(crate::operations::activation_valid(p.selection, p.activations[i]));
                }
            }
            assert(is_built_plan(p, root.spec_path(), selection, bootart_elf@));
        }
        return Err(invalid("safety records differ from the deterministic selected-pair preview"));
    }
    proof {
        assert forall|i: int| 0 <= i < activation_operations@.len() implies spec_is_normalized_absolute_file_path(
            #[trigger] activation_operations@[i]@.path,
        ) by {
            assert(activation_views(activation_operations@)[i] == activation_operations@[i]@);
        }
        assert forall|i: int| 0 <= i < operations@.len() implies spec_is_normalized_absolute_file_path(
            #[trigger] operations@[i]@.path,
        ) by {
            assert(op_views(operations@)[i] == operations@[i]@);
        }
    }
    let safety_records = safety_records_for_plan(
        selection,
        &operations,
        &managed_snippet_operations,
        &activation_operations,
    );
    let plan = InstallPlan {
        root: owned(root.as_path()),
        selection,
        operations,
        managed_snippet_operations,
        activation_operations,
        safety_records,
    };
    match validate_plan(&plan) {
        Ok(()) => Ok(plan),
        Err(e) => {
            assert(is_built_plan(plan@, root.spec_path(), selection, bootart_elf@));
            Err(e)
        },
    }
}

/// Builds and checks the install plan for `selection` under `root` whose
/// binary payload is `bootart_elf`: [`build_install_plan_from_bytes`].
pub fn build_install_plan(
    root: &crate::root::AlternateRoot,
    selection: AdapterSelection,
    bootart_elf: &[u8],
) -> (r: Result<InstallPlan, InstallError>)
    ensures
        bootart_elf@.len() > crate::elf::MAX_INSTALL_FILE_BYTES ==> (r matches Err(InstallError::FileTooLarge {
            path,
            size,
            limit,
        }) && path@ == BOOTART_BINARY_PATH@ && size == bootart_elf@.len() && limit
            == crate::elf::MAX_INSTALL_FILE_BYTES),
        bootart_elf@.len() <= crate::elf::MAX_INSTALL_FILE_BYTES && !crate::elf::static_elf_valid(bootart_elf@) ==> (
        r matches Err(e) && e is InvalidBootartElf),
        crate::elf::static_elf_valid(bootart_elf@) && !crate::text::distinct_seqs(
            crate::plan::op_paths(crate::plan::spec_payloads(selection, bootart_elf@)),
        ) ==> (r matches Err(e) && e is InvalidPlan),
        !crate::plan::payloads_ok(selection, bootart_elf@) ==> r is Err,
        crate::operations::spec_activation_operations(selection) is None ==> r is Err,
        r matches Ok(p) ==> is_built_plan(p@, root.spec_path(), selection, bootart_elf@) && plan_valid(p@),
        r is Err && crate::elf::static_elf_valid(bootart_elf@) && crate::plan::payloads_ok(selection, bootart_elf@)
            && crate::operations::spec_activation_operations(selection) is Some ==> exists|p: InstallPlanView|
            is_built_plan(p, root.spec_path(), selection, bootart_elf@) && !plan_valid(p),
{
    build_install_plan_from_bytes(root, selection, bootart_elf)
}

impl InstallPlan {
    /// The alternate root the plan installs into.
    pub fn root(&self) -> (r: &str)
        ensures
            r@ == self@.root,
    {
        self.root.as_str()
    }

    pub fn selection(&self) -> (r: AdapterSelection)
        ensures
            r == self@.selection,
    {
        self.selection
    }

    pub fn operations(&self) -> (r: &Vec<PlanOperation>)
        ensures
            op_views(r@) == self@.operations,
    {
        &self.operations
    }

    /// Shared-file edits, kept apart from whole-file writes.
    pub fn managed_snippet_operations(&self) -> (r: &Vec<ManagedSnippetOperation>)
        ensures
            snippet_views(r@) == self@.snippets,
    {
        &self.managed_snippet_operations
    }

    pub fn activation_operations(&self) -> (r: &Vec<ActivationOperation>)
        ensures
            activation_views(r@) == self@.activations,
    {
        &self.activation_operations
    }

    pub fn safety_records(&self) -> (r: &Vec<SafetyRecord>)
        ensures
            r@ == self@.safety_records,
    {
        &self.safety_records
    }

    /// A plan is a preview: it is never actionable.
    pub fn actionable(&self) -> (r: bool)
        ensures
            !r,
    {
        false
    }

    pub fn managed_snippet_execution_supported(&self) -> (r: bool)
        ensures
            r,
    {
        true
    }

    pub fn activation_execution_supported(&self) -> (r: bool)
        ensures
            r,
    {
        true
    }

    pub fn safety_record_execution_supported(&self) -> (r: bool)
        ensures
            !r,
    {
        false
    }
}

/// The manifest entry records the file write `o` as installed.
pub open spec fn entry_records(e: crate::manifest::ManifestEntryView, o: PlanOperationView) -> bool {
    e matches crate::manifest::ManifestEntryView::File { path, installed_mode, installed_digest, .. } && path
        == o.path && installed_mode == o.mode && installed_digest == o.digest
}

/// A complete manifest of this plan version and resource set, for the
/// plan's adapters, that records every whole-file payload as installed.
pub open spec fn manifest_matches(m: crate::manifest::ManifestView, p: InstallPlanView) -> bool {
    &&& m.inventory_state == crate::manifest::ManifestInventoryState::Complete
    &&& m.plan_version == crate::status::PLAN_VERSION
    &&& m.resource_set_version == crate::embedded::RESOURCE_SET_VERSION
    &&& m.adapters == seq![p.selection.spec_initramfs(), p.selection.spec_real_root()]
    &&& forall|i: int| 0 <= i < p.operations.len() ==> recorded_in(m.entries, #[trigger] p.operations[i])
}

/// Some entry records the file write `o` as installed.
pub open spec fn recorded_in(entries: Seq<crate::manifest::ManifestEntryView>, o: PlanOperationView) -> bool {
    exists|j: int| 0 <= j < entries.len() && entry_records(#[trigger] entries[j], o)
}

fn entry_records_exec(e: &crate::manifest::ManifestEntry, o: &PlanOperation) -> (r: bool)
    ensures
        r == entry_records(e@, o@),
{
    match e {
        crate::manifest::ManifestEntry::File { path, installed_mode, installed_digest, .. } => {
            let d = o.digest();
            crate::text::str_eq(path.as_str(), o.path()) && *installed_mode == o.mode() && installed_digest.w0
                == d.w0 && installed_digest.w1 == d.w1 && installed_digest.w2 == d.w2 && installed_digest.w3 == d.w3
        },
        _ => false,
    }
}

/// Whether `manifest` records an installation of exactly `plan`.
pub fn manifest_matches_plan(manifest: &crate::manifest::Manifest, plan: &InstallPlan) -> (r: bool)
    ensures
        r == manifest_matches(manifest@, plan@),
{
    let ghost m = manifest@;
    let ghost pv = plan@;
    if manifest.inventory_state != crate::manifest::ManifestInventoryState::Complete || manifest.plan_version
        != crate::status::PLAN_VERSION || manifest.resource_set_version != crate::embedded::RESOURCE_SET_VERSION {
        return false;
    }
    let initramfs = plan.selection.initramfs();
    let real_root = plan.selection.real_root();
    if manifest.adapters.len() != 2 || manifest.adapters[0] != initramfs || manifest.adapters[1] != real_root {
        assert(m.adapters != seq![pv.selection.spec_initramfs(), pv.selection.spec_real_root()]) by {
            if m.adapters.len() == 2 {
                assert(seq![pv.selection.spec_initramfs(), pv.selection.spec_real_root()][0] == initramfs);
                assert(seq![pv.selection.spec_initramfs(), pv.selection.spec_real_root()][1] == real_root);
            }
        }
        return false;
    }
    assert(m.adapters =~= seq![pv.selection.spec_initramfs(), pv.selection.spec_real_root()]);
    let mut i: usize = 0;
    while i < plan.operations.len()
        invariant
            i <= plan.operations@.len(),
            m == manifest@,
            pv == plan@,
            pv.operations == op_views(plan.operations@),
            m.adapters == seq![pv.selection.spec_initramfs(), pv.selection.spec_real_root()],
            m.inventory_state == crate::manifest::ManifestInventoryState::Complete,
            m.plan_version == crate::status::PLAN_VERSION,
            m.resource_set_version == crate::embedded::RESOURCE_SET_VERSION,
            m.entries == crate::manifest::manifest_entry_views(manifest.entries@),
            forall|a: int| 0 <= a < i ==> recorded_in(m.entries, #[trigger] pv.operations[a]),
        decreases plan.operations.len() - i,
    {
        let op = &plan.operations[i];
        assert(pv.operations[i as int] == op@);
        let mut found = false;
        let mut j: usize = 0;
        while j < manifest.entries.len() && !found
            invariant
                j <= manifest.entries@.len(),
                m.entries == crate::manifest::manifest_entry_views(manifest.entries@),
                pv.operations[i as int] == op@,
                found ==> recorded_in(m.entries, pv.operations[i as int]),
                !found ==> forall|k: int| 0 <= k < j ==> !entry_records(#[trigger] m.entries[k], pv.operations[i as int]),
            decreases manifest.entries.len() - j + if found { 0int } else { 1int },
        {
            assert(m.entries[j as int] == manifest.entries@[j as int]@);
            if entry_records_exec(&manifest.entries[j], op) {
                found = true;
            } else {
                j = j + 1;
            }
        }
        if !found {
            assert(!recorded_in(m.entries, pv.operations[i as int]));
            return false;
        }
        i = i + 1;
    }
    assert(pv.operations.len() == plan.operations@.len());
    true
}

} // verus!
