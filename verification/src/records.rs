//! Comparing safety records by what they say: text fields by their
//! characters, everything else by value.

use crate::safety::{
    GeneratorInvocation, InspectionKind, PlannedHashState, PlannedValue, PreviewExecutionState,
    RollbackAction, SafetyRecord,
};
use crate::text::{str_eq, string_views, strings_equal};
use vstd::prelude::*;

verus! {

pub open spec fn value_same(a: PlannedValue, b: PlannedValue) -> bool {
    match (a, b) {
        (PlannedValue::Exact(x), PlannedValue::Exact(y)) => x@ == y@,
        (PlannedValue::Unresolved { blocker: x }, PlannedValue::Unresolved { blocker: y }) => x@ == y@,
        _ => false,
    }
}

pub open spec fn hash_same(a: PlannedHashState, b: PlannedHashState) -> bool {
    match (a, b) {
        (PlannedHashState::Exact(x), PlannedHashState::Exact(y)) => x == y,
        (PlannedHashState::Absent, PlannedHashState::Absent) => true,
        (PlannedHashState::Uninspected { blocker: x }, PlannedHashState::Uninspected { blocker: y }) => x@
            == y@,
        (PlannedHashState::Unresolved { blocker: x }, PlannedHashState::Unresolved { blocker: y }) => x@
            == y@,
        _ => false,
    }
}

pub open spec fn execution_same(a: PreviewExecutionState, b: PreviewExecutionState) -> bool {
    match (a, b) {
        (PreviewExecutionState::Blocked { blocker: x }, PreviewExecutionState::Blocked { blocker: y }) =>
            x@ == y@,
    }
}

pub open spec fn invocation_same(a: GeneratorInvocation, b: GeneratorInvocation) -> bool {
    match (a, b) {
        (
            GeneratorInvocation::Exact { executable: e1, arguments: a1 },
            GeneratorInvocation::Exact { executable: e2, arguments: a2 },
        ) => e1@ == e2@ && string_views(a1@) == string_views(a2@),
        (
            GeneratorInvocation::Unresolved { blocker: x },
            GeneratorInvocation::Unresolved { blocker: y },
        ) => x@ == y@,
        _ => false,
    }
}

pub open spec fn inspection_same(a: InspectionKind, b: InspectionKind) -> bool {
    match (a, b) {
        (InspectionKind::CandidatePathDistinctFromKnownGood, InspectionKind::CandidatePathDistinctFromKnownGood) => true,
        (InspectionKind::CandidatePreChangeAbsent, InspectionKind::CandidatePreChangeAbsent) => true,
        (
            InspectionKind::StaticBootartElf { path: p1, digest: d1 },
            InspectionKind::StaticBootartElf { path: p2, digest: d2 },
        ) => p1@ == p2@ && d1 == d2,
        (
            InspectionKind::SelectedAdapterInventory { adapter: x },
            InspectionKind::SelectedAdapterInventory { adapter: y },
        ) => x == y,
        (InspectionKind::LegacyHelperAbsent { path: x }, InspectionKind::LegacyHelperAbsent { path: y }) =>
            x@ == y@,
        (InspectionKind::KnownGoodUnchanged, InspectionKind::KnownGoodUnchanged) => true,
        _ => false,
    }
}

pub open spec fn rollback_same(a: RollbackAction, b: RollbackAction) -> bool {
    match (a, b) {
        (
            RollbackAction::RemoveCandidateIfCreated { path: x },
            RollbackAction::RemoveCandidateIfCreated { path: y },
        ) => value_same(x, y),
        (
            RollbackAction::RestorePreChangeState { target: t1, backup_path_template: b1 },
            RollbackAction::RestorePreChangeState { target: t2, backup_path_template: b2 },
        ) => t1@ == t2@ && b1@ == b2@,
        (
            RollbackAction::RemoveDirectoryIfCreated { scope: s1, path: p1 },
            RollbackAction::RemoveDirectoryIfCreated { scope: s2, path: p2 },
        ) => s1 == s2 && p1@ == p2@,
        _ => false,
    }
}

/// Two records say the same thing.
pub open spec fn record_same(a: SafetyRecord, b: SafetyRecord) -> bool {
    match (a, b) {
        (
            SafetyRecord::RequiredDirectory {
                scope: s1,
                path: p1,
                mode: m1,
                owner_uid: o1,
                previous: v1,
                blocker: b1,
            },
            SafetyRecord::RequiredDirectory {
                scope: s2,
                path: p2,
                mode: m2,
                owner_uid: o2,
                previous: v2,
                blocker: b2,
            },
        ) => s1 == s2 && p1@ == p2@ && m1 == m2 && o1 == o2 && v1 == v2 && b1@ == b2@,
        (
            SafetyRecord::Generator { adapter: a1, generator: g1, invocation: i1, execution: e1 },
            SafetyRecord::Generator { adapter: a2, generator: g2, invocation: i2, execution: e2 },
        ) => a1 == a2 && g1 == g2 && invocation_same(i1, i2) && execution_same(e1, e2),
        (
            SafetyRecord::CandidateImage {
                adapter: a1,
                path: p1,
                pre_change_hash: h1,
                separately_named: n1,
            },
            SafetyRecord::CandidateImage {
                adapter: a2,
                path: p2,
                pre_change_hash: h2,
                separately_named: n2,
            },
        ) => a1 == a2 && value_same(p1, p2) && hash_same(h1, h2) && n1 == n2,
        (
            SafetyRecord::KnownGood {
                adapter: a1,
                image_path: p1,
                image_hash: h1,
                boot_entry: e1,
                untouched: u1,
            },
            SafetyRecord::KnownGood {
                adapter: a2,
                image_path: p2,
                image_hash: h2,
                boot_entry: e2,
                untouched: u2,
            },
        ) => a1 == a2 && value_same(p1, p2) && hash_same(h1, h2) && value_same(e1, e2) && u1 == u2,
        (
            SafetyRecord::PlannedBackup {
                subject: s1,
                target: t1,
                backup_path_template: b1,
                pre_change_hash: h1,
                execution: e1,
            },
            SafetyRecord::PlannedBackup {
                subject: s2,
                target: t2,
                backup_path_template: b2,
                pre_change_hash: h2,
                execution: e2,
            },
        ) => s1 == s2 && t1@ == t2@ && b1@ == b2@ && hash_same(h1, h2) && execution_same(e1, e2),
        (
            SafetyRecord::PostGenerationInspection { order: o1, check: c1, execution: e1 },
            SafetyRecord::PostGenerationInspection { order: o2, check: c2, execution: e2 },
        ) => o1 == o2 && inspection_same(c1, c2) && execution_same(e1, e2),
        (
            SafetyRecord::Rollback { order: o1, action: a1, execution: e1 },
            SafetyRecord::Rollback { order: o2, action: a2, execution: e2 },
        ) => o1 == o2 && rollback_same(a1, a2) && execution_same(e1, e2),
        _ => false,
    }
}

/// Two lists of records say the same things in the same order.
pub open spec fn records_same(a: Seq<SafetyRecord>, b: Seq<SafetyRecord>) -> bool {
    a.len() == b.len() && forall|i: int| 0 <= i < a.len() ==> record_same(#[trigger] a[i], b[i])
}

fn value_same_exec(a: &PlannedValue, b: &PlannedValue) -> (r: bool)
    ensures
        r == value_same(*a, *b),
{
    match (a, b) {
        (PlannedValue::Exact(x), PlannedValue::Exact(y)) => str_eq(x.as_str(), y.as_str()),
        (PlannedValue::Unresolved { blocker: x }, PlannedValue::Unresolved { blocker: y }) => str_eq(
            x,
            y,
        ),
        _ => false,
    }
}

fn hash_same_exec(a: &PlannedHashState, b: &PlannedHashState) -> (r: bool)
    ensures
        r == hash_same(*a, *b),
{
    match (a, b) {
        (PlannedHashState::Exact(x), PlannedHashState::Exact(y)) => x.w0 == y.w0 && x.w1 == y.w1
            && x.w2 == y.w2 && x.w3 == y.w3,
        (PlannedHashState::Absent, PlannedHashState::Absent) => true,
        (PlannedHashState::Uninspected { blocker: x }, PlannedHashState::Uninspected { blocker: y }) =>
            str_eq(x, y),
        (PlannedHashState::Unresolved { blocker: x }, PlannedHashState::Unresolved { blocker: y }) =>
            str_eq(x, y),
        _ => false,
    }
}

fn execution_same_exec(a: &PreviewExecutionState, b: &PreviewExecutionState) -> (r: bool)
    ensures
        r == execution_same(*a, *b),
{
    match (a, b) {
        (PreviewExecutionState::Blocked { blocker: x }, PreviewExecutionState::Blocked { blocker: y }) =>
            str_eq(x, y),
    }
}

fn invocation_same_exec(a: &GeneratorInvocation, b: &GeneratorInvocation) -> (r: bool)
    ensures
        r == invocation_same(*a, *b),
{
    match (a, b) {
        (
            GeneratorInvocation::Exact { executable: e1, arguments: a1 },
            GeneratorInvocation::Exact { executable: e2, arguments: a2 },
        ) => str_eq(e1.as_str(), e2.as_str()) && strings_equal(a1, a2),
        (
            GeneratorInvocation::Unresolved { blocker: x },
            GeneratorInvocation::Unresolved { blocker: y },
        ) => str_eq(x, y),
        _ => false,
    }
}

fn inspection_same_exec(a: &InspectionKind, b: &InspectionKind) -> (r: bool)
    ensures
        r == inspection_same(*a, *b),
{
    match (a, b) {
        (InspectionKind::CandidatePathDistinctFromKnownGood, InspectionKind::CandidatePathDistinctFromKnownGood) => true,
        (InspectionKind::CandidatePreChangeAbsent, InspectionKind::CandidatePreChangeAbsent) => true,
        (
            InspectionKind::StaticBootartElf { path: p1, digest: d1 },
            InspectionKind::StaticBootartElf { path: p2, digest: d2 },
        ) => str_eq(p1.as_str(), p2.as_str()) && d1.w0 == d2.w0 && d1.w1 == d2.w1 && d1.w2 == d2.w2
            && d1.w3 == d2.w3,
        (
            InspectionKind::SelectedAdapterInventory { adapter: x },
            InspectionKind::SelectedAdapterInventory { adapter: y },
        ) => *x == *y,
        (InspectionKind::LegacyHelperAbsent { path: x }, InspectionKind::LegacyHelperAbsent { path: y }) =>
            str_eq(x.as_str(), y.as_str()),
        (InspectionKind::KnownGoodUnchanged, InspectionKind::KnownGoodUnchanged) => true,
        _ => false,
    }
}

fn rollback_same_exec(a: &RollbackAction, b: &RollbackAction) -> (r: bool)
    ensures
        r == rollback_same(*a, *b),
{
    match (a, b) {
        (
            RollbackAction::RemoveCandidateIfCreated { path: x },
            RollbackAction::RemoveCandidateIfCreated { path: y },
        ) => value_same_exec(x, y),
        (
            RollbackAction::RestorePreChangeState { target: t1, backup_path_template: b1 },
            RollbackAction::RestorePreChangeState { target: t2, backup_path_template: b2 },
        ) => str_eq(t1.as_str(), t2.as_str()) && str_eq(b1.as_str(), b2.as_str()),
        (
            RollbackAction::RemoveDirectoryIfCreated { scope: s1, path: p1 },
            RollbackAction::RemoveDirectoryIfCreated { scope: s2, path: p2 },
        ) => *s1 == *s2 && str_eq(p1.as_str(), p2.as_str()),
        _ => false,
    }
}

/// Whether two records say the same thing.
pub fn record_same_exec(a: &SafetyRecord, b: &SafetyRecord) -> (r: bool)
    ensures
        r == record_same(*a, *b),
{
    match (a, b) {
        (
            SafetyRecord::RequiredDirectory {
                scope: s1,
                path: p1,
                mode: m1,
                owner_uid: o1,
                previous: v1,
                blocker: b1,
            },
            SafetyRecord::RequiredDirectory {
                scope: s2,
                path: p2,
                mode: m2,
                owner_uid: o2,
                previous: v2,
                blocker: b2,
            },
        ) => *s1 == *s2 && str_eq(p1.as_str(), p2.as_str()) && *m1 == *m2 && *o1 == *o2 && *v1 == *v2
            && str_eq(b1, b2),
        (
            SafetyRecord::Generator { adapter: a1, generator: g1, invocation: i1, execution: e1 },
            SafetyRecord::Generator { adapter: a2, generator: g2, invocation: i2, execution: e2 },
        ) => *a1 == *a2 && *g1 == *g2 && invocation_same_exec(i1, i2) && execution_same_exec(e1, e2),
        (
            SafetyRecord::CandidateImage {
                adapter: a1,
                path: p1,
                pre_change_hash: h1,
                separately_named: n1,
            },
            SafetyRecord::CandidateImage {
                adapter: a2,
                path: p2,
                pre_change_hash: h2,
                separately_named: n2,
            },
        ) => *a1 == *a2 && value_same_exec(p1, p2) && hash_same_exec(h1, h2) && *n1 == *n2,
        (
            SafetyRecord::KnownGood {
                adapter: a1,
                image_path: p1,
                image_hash: h1,
                boot_entry: e1,
                untouched: u1,
            },
            SafetyRecord::KnownGood {
                adapter: a2,
                image_path: p2,
                image_hash: h2,
                boot_entry: e2,
                untouched: u2,
            },
        ) => *a1 == *a2 && value_same_exec(p1, p2) && hash_same_exec(h1, h2) && value_same_exec(e1, e2)
            && *u1 == *u2,
        (
            SafetyRecord::PlannedBackup {
                subject: s1,
                target: t1,
                backup_path_template: b1,
                pre_change_hash: h1,
                execution: e1,
            },
            SafetyRecord::PlannedBackup {
                subject: s2,
                target: t2,
                backup_path_template: b2,
                pre_change_hash: h2,
                execution: e2,
            },
        ) => *s1 == *s2 && str_eq(t1.as_str(), t2.as_str()) && str_eq(b1.as_str(), b2.as_str())
            && hash_same_exec(h1, h2) && execution_same_exec(e1, e2),
        (
            SafetyRecord::PostGenerationInspection { order: o1, check: c1, execution: e1 },
            SafetyRecord::PostGenerationInspection { order: o2, check: c2, execution: e2 },
        ) => *o1 == *o2 && inspection_same_exec(c1, c2) && execution_same_exec(e1, e2),
        (
            SafetyRecord::Rollback { order: o1, action: a1, execution: e1 },
            SafetyRecord::Rollback { order: o2, action: a2, execution: e2 },
        ) => *o1 == *o2 && rollback_same_exec(a1, a2) && execution_same_exec(e1, e2),
        _ => false,
    }
}

/// Whether two lists of records say the same things in the same order.
pub fn records_same_exec(a: &Vec<SafetyRecord>, b: &Vec<SafetyRecord>) -> (r: bool)
    ensures
        r == records_same(a@, b@),
{
    if a.len() != b.len() {
        return false;
    }
    let mut i: usize = 0;
    while i < a.len()
        invariant
            i <= a@.len(),
            a@.len() == b@.len(),
            forall|k: int| 0 <= k < i ==> record_same(#[trigger] a@[k], b@[k]),
        decreases a.len() - i,
    {
        if !record_same_exec(&a[i], &b[i]) {
            return false;
        }
        i = i + 1;
    }
    true
}

} // verus!
