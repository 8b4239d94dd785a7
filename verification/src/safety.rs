//! The safety records of an install plan: facts about required
//! directories, the generator run, the candidate and known-good images,
//! planned backups, post-generation inspections and rollback steps, and the
//! rules every reviewable record set obeys.

use crate::activation::{is_normalized_absolute_file_path, spec_is_normalized_absolute_file_path};
use crate::adapter::{spec_adapter_kind, AdapterId, AdapterKind};
use crate::digest::Sha256Digest;
use crate::error::{invalid, InstallError};
use crate::generator::GeneratorKind;
use crate::text::{contains, has_prefix, str_contains, str_eq, str_has_prefix};
use vstd::prelude::*;

verus! {

/// The path of the retired PID 1 helper, which a candidate must not carry.
pub const LEGACY_PID1_HELPER_PATH: &'static str = "/usr/bin/bootart-init";

/// Stands for the transaction in backup path templates.
pub const TRANSACTION_ID_PLACEHOLDER: &'static str = "{transaction-id}";

/// What a path is expected to hold before the plan runs.
#[derive(Debug, Clone, Copy, PartialEq, Eq, Structural)]
pub enum ExpectedPreviousState {
    Absent,
    Uninspected,
}

impl ExpectedPreviousState {
    pub fn stable_name(self) -> (r: &'static str)
        ensures
            r@ == (match self {
                ExpectedPreviousState::Absent => "absent"@,
                ExpectedPreviousState::Uninspected => "uninspected"@,
            }),
    {
        match self {
            ExpectedPreviousState::Absent => "absent",
            ExpectedPreviousState::Uninspected => "uninspected",
        }
    }
}

/// A value required by the safety plan: an embedded contract, or the
/// blocker that keeps it unresolved.
#[derive(Debug, Clone, PartialEq, Eq)]
pub enum PlannedValue {
    Exact(String),
    Unresolved { blocker: &'static str },
}

impl PlannedValue {
    /// The exact value, if there is one.
    pub fn exact(&self) -> (r: Option<&str>)
        ensures
            match self {
                PlannedValue::Exact(v) => r matches Some(s) && s@ == v@,
                PlannedValue::Unresolved { .. } => r is None,
            },
    {
        match self {
            PlannedValue::Exact(v) => Some(v.as_str()),
            PlannedValue::Unresolved { .. } => None,
        }
    }

    /// The blocker, if the value is unresolved.
    pub fn blocker(&self) -> (r: Option<&'static str>)
        ensures
            match self {
                PlannedValue::Exact(_) => r is None,
                PlannedValue::Unresolved { blocker } => r == Some(*blocker),
            },
    {
        match self {
            PlannedValue::Exact(_) => None,
            PlannedValue::Unresolved { blocker } => Some(*blocker),
        }
    }
}

/// Pre-change content knowledge; hashes are never fabricated.
#[derive(Debug, Clone, Copy, PartialEq, Eq)]
pub enum PlannedHashState {
    Exact(Sha256Digest),
    Absent,
    Uninspected { blocker: &'static str },
    Unresolved { blocker: &'static str },
}

/// The filesystem a directory belongs to.
#[derive(Debug, Clone, Copy, PartialEq, Eq, PartialOrd, Ord, Structural)]
pub enum DirectoryScope {
    RealRoot,
    GeneratedInitramfs,
}

impl DirectoryScope {
    pub fn stable_name(self) -> (r: &'static str)
        ensures
            r@ == (match self {
                DirectoryScope::RealRoot => "real_root"@,
                DirectoryScope::GeneratedInitramfs => "generated_initramfs"@,
            }),
    {
        match self {
            DirectoryScope::RealRoot => "real_root",
            DirectoryScope::GeneratedInitramfs => "generated_initramfs",
        }
    }
}

/// How the generator would be run.
#[derive(Debug, Clone, PartialEq, Eq)]
pub enum GeneratorInvocation {
    Exact { executable: String, arguments: Vec<String> },
    Unresolved { blocker: &'static str },
}

/// What a planned backup protects.
#[derive(Debug, Clone, Copy, PartialEq, Eq, PartialOrd, Ord, Structural)]
pub enum BackupSubjectKind {
    FilePayload,
    ManagedSnippetTarget,
    ActivationLink,
}

impl BackupSubjectKind {
    pub fn stable_name(self) -> (r: &'static str)
        ensures
            r@ == (match self {
                BackupSubjectKind::FilePayload => "file_payload"@,
                BackupSubjectKind::ManagedSnippetTarget => "managed_snippet_target"@,
                BackupSubjectKind::ActivationLink => "activation_link"@,
            }),
    {
        match self {
            BackupSubjectKind::FilePayload => "file_payload",
            BackupSubjectKind::ManagedSnippetTarget => "managed_snippet_target",
            BackupSubjectKind::ActivationLink => "activation_link",
        }
    }
}

/// One check run on a generated candidate.
#[derive(Debug, Clone, PartialEq, Eq)]
pub enum InspectionKind {
    CandidatePathDistinctFromKnownGood,
    CandidatePreChangeAbsent,
    StaticBootartElf { path: String, digest: Sha256Digest },
    SelectedAdapterInventory { adapter: AdapterId },
    LegacyHelperAbsent { path: String },
    KnownGoodUnchanged,
}

/// One rollback step.
#[derive(Debug, Clone, PartialEq, Eq)]
pub enum RollbackAction {
    RemoveCandidateIfCreated { path: PlannedValue },
    RestorePreChangeState { target: String, backup_path_template: String },
    RemoveDirectoryIfCreated { scope: DirectoryScope, path: String },
}

/// Why a record is not executed yet.
#[derive(Debug, Clone, Copy, PartialEq, Eq)]
pub enum PreviewExecutionState {
    Blocked { blocker: &'static str },
}

/// One reviewable safety fact; never an executable transaction language.
#[derive(Debug, Clone, PartialEq, Eq)]
pub enum SafetyRecord {
    RequiredDirectory {
        scope: DirectoryScope,
        path: String,
        mode: u32,
        owner_uid: u32,
        previous: ExpectedPreviousState,
        blocker: &'static str,
    },
    Generator {
        adapter: AdapterId,
        generator: GeneratorKind,
        invocation: GeneratorInvocation,
        execution: PreviewExecutionState,
    },
    CandidateImage {
        adapter: AdapterId,
        path: PlannedValue,
        pre_change_hash: PlannedHashState,
        separately_named: bool,
    },
    KnownGood {
        adapter: AdapterId,
        image_path: PlannedValue,
        image_hash: PlannedHashState,
        boot_entry: PlannedValue,
        untouched: bool,
    },
    PlannedBackup {
        subject: BackupSubjectKind,
        target: String,
        backup_path_template: String,
        pre_change_hash: PlannedHashState,
        execution: PreviewExecutionState,
    },
    PostGenerationInspection { order: u16, check: InspectionKind, execution: PreviewExecutionState },
    Rollback { order: u16, action: RollbackAction, execution: PreviewExecutionState },
}

// ---------------------------------------------------------------------------
// The generator of each initramfs adapter
// ---------------------------------------------------------------------------

/// The safety facts each initramfs adapter carries.
#[derive(Debug, Clone, Copy, PartialEq, Eq)]
pub struct InitramfsSafetySpec {
    pub adapter: AdapterId,
    pub generator: GeneratorKind,
    pub invocation_blocker: &'static str,
    pub image_blocker: &'static str,
    pub known_good_blocker: &'static str,
    pub inspection_blocker: &'static str,
}

/// The generator that builds each initramfs adapter's image.
pub open spec fn spec_initramfs_generator(adapter: AdapterId) -> GeneratorKind {
    match adapter {
        AdapterId::DracutSystemd | AdapterId::DracutClassic => GeneratorKind::Dracut,
        AdapterId::InitramfsToolsBusybox => GeneratorKind::InitramfsTools,
        AdapterId::MkinitcpioBusybox => GeneratorKind::Mkinitcpio,
        _ => GeneratorKind::Mkinitfs,
    }
}

/// The safety facts of each initramfs adapter: what it generates with and
/// why its invocation, image, known-good image and inspection are unknown.
pub open spec fn spec_initramfs_safety(adapter: AdapterId) -> InitramfsSafetySpec {
    match adapter {
        AdapterId::DracutSystemd => InitramfsSafetySpec {
            adapter,
            generator: GeneratorKind::Dracut,
            invocation_blocker: "dracut-systemd has no embedded absolute generator path, kernel-version input, or candidate-output argv contract",
            image_blocker: "dracut-systemd has no embedded candidate initramfs path contract",
            known_good_blocker: "dracut-systemd has no embedded default-image or boot-entry discovery contract",
            inspection_blocker: "dracut-systemd has no embedded candidate archive inspector or non-default systemd unit-directory contract",
        },
        AdapterId::DracutClassic => InitramfsSafetySpec {
            adapter,
            generator: GeneratorKind::Dracut,
            invocation_blocker: "dracut-classic has no embedded absolute generator path, kernel-version input, or candidate-output argv contract",
            image_blocker: "dracut-classic has no embedded candidate initramfs path contract",
            known_good_blocker: "dracut-classic has no embedded default-image or boot-entry discovery contract",
            inspection_blocker: "dracut-classic has no embedded candidate archive inspector or exact supported dracut-layout contract",
        },
        AdapterId::InitramfsToolsBusybox => InitramfsSafetySpec {
            adapter,
            generator: GeneratorKind::InitramfsTools,
            invocation_blocker: "initramfs-tools has no embedded absolute generator path, kernel-version input, or separately named output argv contract",
            image_blocker: "initramfs-tools has no embedded candidate initramfs path contract",
            known_good_blocker: "initramfs-tools has no embedded default-image or boot-entry discovery contract",
            inspection_blocker: "initramfs-tools has no embedded candidate archive inspector or archive-member mapping contract",
        },
        AdapterId::MkinitcpioBusybox => InitramfsSafetySpec {
            adapter,
            generator: GeneratorKind::Mkinitcpio,
            invocation_blocker: "mkinitcpio has no embedded absolute generator path, preset/kernel input, or separately named output argv contract",
            image_blocker: "mkinitcpio has no embedded candidate initramfs path contract",
            known_good_blocker: "mkinitcpio has no embedded default-image or boot-entry discovery contract",
            inspection_blocker: "mkinitcpio has no embedded candidate archive inspector or validated HOOKS ordering contract",
        },
        _ => InitramfsSafetySpec {
            adapter,
            generator: GeneratorKind::Mkinitfs,
            invocation_blocker: "mkinitfs has no embedded absolute generator path, kernel/feature input, or separately named output argv contract",
            image_blocker: "mkinitfs has no embedded candidate initramfs path contract",
            known_good_blocker: "mkinitfs has no embedded default-image or boot-entry discovery contract",
            inspection_blocker: "mkinitfs has no embedded candidate archive inspector or archive-member mapping; the exact 3.14.0-r0 source insertion contract is validated read-only",
        },
    }
}

/// The safety facts of an initramfs adapter.
pub fn initramfs_safety_spec(adapter: AdapterId) -> (r: InitramfsSafetySpec)
    requires
        spec_adapter_kind(adapter) == AdapterKind::InitramfsRuntime,
    ensures
        r.adapter == adapter,
        r.generator == spec_initramfs_generator(adapter),
        r == spec_initramfs_safety(adapter),
{
    match adapter {
        AdapterId::DracutSystemd => InitramfsSafetySpec {
            adapter,
            generator: GeneratorKind::Dracut,
            invocation_blocker: "dracut-systemd has no embedded absolute generator path, kernel-version input, or candidate-output argv contract",
            image_blocker: "dracut-systemd has no embedded candidate initramfs path contract",
            known_good_blocker: "dracut-systemd has no embedded default-image or boot-entry discovery contract",
            inspection_blocker: "dracut-systemd has no embedded candidate archive inspector or non-default systemd unit-directory contract",
        },
        AdapterId::DracutClassic => InitramfsSafetySpec {
            adapter,
            generator: GeneratorKind::Dracut,
            invocation_blocker: "dracut-classic has no embedded absolute generator path, kernel-version input, or candidate-output argv contract",
            image_blocker: "dracut-classic has no embedded candidate initramfs path contract",
            known_good_blocker: "dracut-classic has no embedded default-image or boot-entry discovery contract",
            inspection_blocker: "dracut-classic has no embedded candidate archive inspector or exact supported dracut-layout contract",
        },
        AdapterId::InitramfsToolsBusybox => InitramfsSafetySpec {
            adapter,
            generator: GeneratorKind::InitramfsTools,
            invocation_blocker: "initramfs-tools has no embedded absolute generator path, kernel-version input, or separately named output argv contract",
            image_blocker: "initramfs-tools has no embedded candidate initramfs path contract",
            known_good_blocker: "initramfs-tools has no embedded default-image or boot-entry discovery contract",
            inspection_blocker: "initramfs-tools has no embedded candidate archive inspector or archive-member mapping contract",
        },
        AdapterId::MkinitcpioBusybox => InitramfsSafetySpec {
            adapter,
            generator: GeneratorKind::Mkinitcpio,
            invocation_blocker: "mkinitcpio has no embedded absolute generator path, preset/kernel input, or separately named output argv contract",
            image_blocker: "mkinitcpio has no embedded candidate initramfs path contract",
            known_good_blocker: "mkinitcpio has no embedded default-image or boot-entry discovery contract",
            inspection_blocker: "mkinitcpio has no embedded candidate archive inspector or validated HOOKS ordering contract",
        },
        _ => InitramfsSafetySpec {
            adapter,
            generator: GeneratorKind::Mkinitfs,
            invocation_blocker: "mkinitfs has no embedded absolute generator path, kernel/feature input, or separately named output argv contract",
            image_blocker: "mkinitfs has no embedded candidate initramfs path contract",
            known_good_blocker: "mkinitfs has no embedded default-image or boot-entry discovery contract",
            inspection_blocker: "mkinitfs has no embedded candidate archive inspector or archive-member mapping; the exact 3.14.0-r0 source insertion contract is validated read-only",
        },
    }
}

// ---------------------------------------------------------------------------
// One record at a time
// ---------------------------------------------------------------------------

/// An exact value is nonempty; an unresolved one names its blocker.
pub open spec fn value_ok(v: PlannedValue) -> bool {
    match v {
        PlannedValue::Exact(s) => s@.len() > 0,
        PlannedValue::Unresolved { blocker } => blocker@.len() > 0,
    }
}

/// Unknown hash states name their blocker.
pub open spec fn hash_ok(h: PlannedHashState) -> bool {
    match h {
        PlannedHashState::Uninspected { blocker } => blocker@.len() > 0,
        PlannedHashState::Unresolved { blocker } => blocker@.len() > 0,
        _ => true,
    }
}

/// A blocked record names its blocker.
pub open spec fn execution_ok(e: PreviewExecutionState) -> bool {
    match e {
        PreviewExecutionState::Blocked { blocker } => blocker@.len() > 0,
    }
}

/// An argument that is nonempty and without NUL or line breaks.
pub open spec fn argument_ok(a: Seq<char>) -> bool {
    a.len() > 0 && forall|j: int| 0 <= j < a.len() ==> #[trigger] a[j] != '\0' && a[j] != '\n' && a[j]
        != '\r'
}

/// An exact invocation runs a normalized absolute executable with safe
/// arguments; an unresolved one names its blocker.
pub open spec fn invocation_ok(i: GeneratorInvocation) -> bool {
    match i {
        GeneratorInvocation::Exact { executable, arguments } => spec_is_normalized_absolute_file_path(
            executable@,
        ) && forall|k: int| 0 <= k < arguments@.len() ==> argument_ok(#[trigger] arguments@[k]@),
        GeneratorInvocation::Unresolved { blocker } => blocker@.len() > 0,
    }
}

/// A backup template is a normalized absolute path that names the
/// transaction.
pub open spec fn backup_ok(target: Seq<char>, template: Seq<char>) -> bool {
    &&& spec_is_normalized_absolute_file_path(target)
    &&& spec_is_normalized_absolute_file_path(template)
    &&& contains(template, TRANSACTION_ID_PLACEHOLDER@)
}

pub open spec fn rollback_action_ok(a: RollbackAction) -> bool {
    match a {
        RollbackAction::RemoveCandidateIfCreated { path } => value_ok(path),
        RollbackAction::RestorePreChangeState { target, backup_path_template } => backup_ok(
            target@,
            backup_path_template@,
        ),
        RollbackAction::RemoveDirectoryIfCreated { path, .. } => spec_is_normalized_absolute_file_path(
            path@,
        ),
    }
}

/// An inspection targets the planned binary, the selected adapter, or the
/// legacy helper's path.
pub open spec fn inspection_ok(c: InspectionKind, initramfs: AdapterId, binary: Sha256Digest) -> bool {
    match c {
        InspectionKind::StaticBootartElf { path, digest } => path@ == crate::elf::BOOTART_BINARY_PATH@
            && digest == binary,
        InspectionKind::SelectedAdapterInventory { adapter } => adapter == initramfs,
        InspectionKind::LegacyHelperAbsent { path } => path@ == LEGACY_PID1_HELPER_PATH@,
        _ => true,
    }
}

/// The mode a required directory must have: private under the real root's
/// state directory, world-readable elsewhere.
pub open spec fn required_directory_mode(scope: DirectoryScope, path: Seq<char>) -> u32 {
    if scope == DirectoryScope::RealRoot && has_prefix(path, "/var/lib/bootart"@) {
        0o700
    } else {
        0o755
    }
}

/// A record taken on its own, for a plan whose initramfs adapter is
/// `initramfs` and whose binary has digest `binary`.
pub open spec fn record_ok(r: SafetyRecord, initramfs: AdapterId, binary: Sha256Digest) -> bool {
    match r {
        SafetyRecord::RequiredDirectory { scope, path, mode, owner_uid, previous, blocker } => {
            &&& spec_is_normalized_absolute_file_path(path@)
            &&& owner_uid == 0
            &&& previous == ExpectedPreviousState::Uninspected
            &&& blocker@.len() > 0
            &&& mode == required_directory_mode(scope, path@)
        },
        SafetyRecord::Generator { adapter, generator, invocation, execution } => {
            &&& adapter == initramfs
            &&& generator == spec_initramfs_generator(initramfs)
            &&& invocation_ok(invocation)
            &&& execution_ok(execution)
        },
        SafetyRecord::CandidateImage { adapter, path, pre_change_hash, separately_named } => {
            &&& adapter == initramfs
            &&& separately_named
            &&& value_ok(path)
            &&& hash_ok(pre_change_hash)
        },
        SafetyRecord::KnownGood { adapter, image_path, image_hash, boot_entry, untouched } => {
            &&& adapter == initramfs
            &&& untouched
            &&& value_ok(image_path)
            &&& hash_ok(image_hash)
            &&& value_ok(boot_entry)
        },
        SafetyRecord::PlannedBackup {
            target,
            backup_path_template,
            pre_change_hash,
            execution,
            ..
        } => {
            &&& backup_ok(target@, backup_path_template@)
            &&& hash_ok(pre_change_hash)
            &&& execution_ok(execution)
        },
        SafetyRecord::PostGenerationInspection { check, execution, .. } => {
            &&& inspection_ok(check, initramfs, binary)
            &&& execution_ok(execution)
        },
        SafetyRecord::Rollback { action, execution, .. } => {
            &&& rollback_action_ok(action)
            &&& execution_ok(execution)
        },
    }
}

/// Refuses an empty exact value or an unresolved value without a blocker.
pub fn validate_planned_value(value: &PlannedValue) -> (r: Result<(), InstallError>)
    ensures
        r is Ok <==> value_ok(*value),
        r matches Err(e) ==> e is InvalidPlan,
{
    match value {
        PlannedValue::Exact(v) => {
            if v.as_str().is_empty() {
                return Err(invalid("exact safety-plan value is empty"));
            }
        },
        PlannedValue::Unresolved { blocker } => {
            if blocker.is_empty() {
                return Err(invalid("unresolved safety-plan value has no blocker"));
            }
        },
    }
    Ok(())
}

/// Refuses an unknown hash state without a blocker.
pub fn validate_planned_hash(state: PlannedHashState) -> (r: Result<(), InstallError>)
    ensures
        r is Ok <==> hash_ok(state),
        r matches Err(e) ==> e is InvalidPlan,
{
    match state {
        PlannedHashState::Uninspected { blocker } | PlannedHashState::Unresolved { blocker } => {
            if blocker.is_empty() {
                return Err(invalid("unknown pre-change hash state has no blocker"));
            }
        },
        _ => {},
    }
    Ok(())
}

/// Refuses a blocked record without a blocker.
pub fn validate_preview_execution(state: PreviewExecutionState) -> (r: Result<(), InstallError>)
    ensures
        r is Ok <==> execution_ok(state),
        r matches Err(e) ==> e is InvalidPlan,
{
    match state {
        PreviewExecutionState::Blocked { blocker } => {
            if blocker.is_empty() {
                return Err(invalid("blocked safety record has no blocker"));
            }
        },
    }
    Ok(())
}

fn argument_is_safe(a: &str) -> (r: bool)
    ensures
        r == argument_ok(a@),
{
    let v = crate::text::chars_of(a);
    if v.len() == 0 {
        return false;
    }
    let mut j: usize = 0;
    while j < v.len()
        invariant
            j <= v@.len(),
            v@ == a@,
            forall|k: int| 0 <= k < j ==> #[trigger] v@[k] != '\0' && v@[k] != '\n' && v@[k] != '\r',
        decreases v.len() - j,
    {
        if v[j] == '\0' || v[j] == '\n' || v[j] == '\r' {
            return false;
        }
        j = j + 1;
    }
    true
}

fn arguments_are_safe(arguments: &Vec<String>) -> (r: bool)
    ensures
        r == forall|k: int| 0 <= k < arguments@.len() ==> argument_ok(#[trigger] arguments@[k]@),
{
    let mut k: usize = 0;
    while k < arguments.len()
        invariant
            k <= arguments@.len(),
            forall|m: int| 0 <= m < k ==> argument_ok(#[trigger] arguments@[m]@),
        decreases arguments.len() - k,
    {
        if !argument_is_safe(arguments[k].as_str()) {
            assert(!argument_ok(arguments@[k as int]@));
            return false;
        }
        k = k + 1;
    }
    true
}

/// Refuses an exact invocation with an unsafe executable or argument, or an
/// unresolved invocation without a blocker.
pub fn validate_generator_invocation(invocation: &GeneratorInvocation) -> (r: Result<
    (),
    InstallError,
>)
    ensures
        r is Ok <==> invocation_ok(*invocation),
        r matches Err(e) ==> e is InvalidPlan,
{
    match invocation {
        GeneratorInvocation::Exact { executable, arguments } => {
            if !is_normalized_absolute_file_path(executable.as_str()) {
                return Err(invalid("exact generator invocation has an unsafe executable or argv"));
            }
            if !arguments_are_safe(arguments) {
                return Err(invalid("exact generator invocation has an unsafe executable or argv"));
            }
        },
        GeneratorInvocation::Unresolved { blocker } => {
            if blocker.is_empty() {
                return Err(invalid("unresolved generator invocation has no blocker"));
            }
        },
    }
    Ok(())
}

fn backup_template_is_safe(target: &str, template: &str) -> (r: bool)
    ensures
        r == backup_ok(target@, template@),
{
    is_normalized_absolute_file_path(target) && is_normalized_absolute_file_path(template)
        && str_contains(template, TRANSACTION_ID_PLACEHOLDER)
}

/// Refuses a rollback step whose paths are unsafe.
pub fn validate_rollback_action(action: &RollbackAction) -> (r: Result<(), InstallError>)
    ensures
        r is Ok <==> rollback_action_ok(*action),
        r matches Err(e) ==> e is InvalidPlan,
{
    match action {
        RollbackAction::RemoveCandidateIfCreated { path } => validate_planned_value(path),
        RollbackAction::RestorePreChangeState { target, backup_path_template } => {
            if !backup_template_is_safe(target.as_str(), backup_path_template.as_str()) {
                return Err(invalid("invalid restore rollback record"));
            }
            Ok(())
        },
        RollbackAction::RemoveDirectoryIfCreated { path, .. } => {
            if !is_normalized_absolute_file_path(path.as_str()) {
                return Err(invalid("invalid directory rollback record"));
            }
            Ok(())
        },
    }
}

/// Refuses an inspection aimed at anything but the planned binary, the
/// selected adapter, or the legacy helper's path.
pub fn validate_inspection(check: &InspectionKind, initramfs: AdapterId, binary: Sha256Digest) -> (r:
    Result<(), InstallError>)
    ensures
        r is Ok <==> inspection_ok(*check, initramfs, binary),
        r matches Err(e) ==> e is InvalidPlan,
{
    match check {
        InspectionKind::StaticBootartElf { path, digest } => {
            if !str_eq(path.as_str(), crate::elf::BOOTART_BINARY_PATH) || *digest != binary {
                return Err(invalid("candidate bootart inspection differs from the planned ELF"));
            }
        },
        InspectionKind::SelectedAdapterInventory { adapter } => {
            if *adapter != initramfs {
                return Err(invalid("candidate inventory inspection targets an unselected adapter"));
            }
        },
        InspectionKind::LegacyHelperAbsent { path } => {
            if !str_eq(path.as_str(), LEGACY_PID1_HELPER_PATH) {
                return Err(invalid("legacy-helper inspection has the wrong path"));
            }
        },
        _ => {},
    }
    Ok(())
}

fn validate_record(record: &SafetyRecord, initramfs: AdapterId, binary: Sha256Digest) -> (r: Result<
    (),
    InstallError,
>)
    requires
        record is Generator ==> spec_adapter_kind(initramfs) == AdapterKind::InitramfsRuntime,
    ensures
        r is Ok <==> record_ok(*record, initramfs, binary),
        r matches Err(e) ==> e is InvalidPlan,
{
    match record {
        SafetyRecord::RequiredDirectory { scope, path, mode, owner_uid, previous, blocker } => {
            if !is_normalized_absolute_file_path(path.as_str()) || *owner_uid != 0 || *previous
                != ExpectedPreviousState::Uninspected || blocker.is_empty() {
                return Err(invalid("invalid required-directory preview"));
            }
            let expected_mode: u32 = if *scope == DirectoryScope::RealRoot && str_has_prefix(
                path.as_str(),
                "/var/lib/bootart",
            ) {
                0o700
            } else {
                0o755
            };
            if *mode != expected_mode {
                return Err(invalid("required directory has an unsafe mode"));
            }
            Ok(())
        },
        SafetyRecord::Generator { adapter, generator, invocation, execution } => {
            let spec = initramfs_safety_spec(initramfs);
            if *adapter != spec.adapter || *generator != spec.generator {
                return Err(
                    invalid("generator preview does not belong to the selected initramfs adapter"),
                );
            }
            validate_generator_invocation(invocation)?;
            validate_preview_execution(*execution)
        },
        SafetyRecord::CandidateImage { adapter, path, pre_change_hash, separately_named } => {
            if *adapter != initramfs || !*separately_named {
                return Err(
                    invalid(
                        "candidate image is not bound to the selected initramfs adapter as a separate output",
                    ),
                );
            }
            validate_planned_value(path)?;
            validate_planned_hash(*pre_change_hash)
        },
        SafetyRecord::KnownGood { adapter, image_path, image_hash, boot_entry, untouched } => {
            if *adapter != initramfs || !*untouched {
                return Err(invalid("known-good image/entry is not explicitly untouched"));
            }
            validate_planned_value(image_path)?;
            validate_planned_hash(*image_hash)?;
            validate_planned_value(boot_entry)
        },
        SafetyRecord::PlannedBackup {
            target,
            backup_path_template,
            pre_change_hash,
            execution,
            ..
        } => {
            if !backup_template_is_safe(target.as_str(), backup_path_template.as_str()) {
                return Err(invalid("invalid backup preview"));
            }
            validate_planned_hash(*pre_change_hash)?;
            validate_preview_execution(*execution)
        },
        SafetyRecord::PostGenerationInspection { check, execution, .. } => {
            validate_inspection(check, initramfs, binary)?;
            validate_preview_execution(*execution)
        },
        SafetyRecord::Rollback { action, execution, .. } => {
            validate_rollback_action(action)?;
            validate_preview_execution(*execution)
        },
    }
}

// ---------------------------------------------------------------------------
// The whole record set
// ---------------------------------------------------------------------------

pub open spec fn is_inspection(r: SafetyRecord) -> bool {
    r is PostGenerationInspection
}

pub open spec fn is_rollback(r: SafetyRecord) -> bool {
    r is Rollback
}

/// How many records of `rs` satisfy `p`.
pub open spec fn count_where(rs: Seq<SafetyRecord>, p: spec_fn(SafetyRecord) -> bool) -> nat
    decreases rs.len(),
{
    if rs.len() == 0 {
        0
    } else {
        count_where(rs.drop_last(), p) + if p(rs.last()) {
            1nat
        } else {
            0nat
        }
    }
}

/// The order each ordered record carries: its position among the records of
/// its kind, counting from one.
pub open spec fn order_ok(rs: Seq<SafetyRecord>, i: int) -> bool {
    match rs[i] {
        SafetyRecord::PostGenerationInspection { order, .. } => order == count_where(
            rs.take(i),
            |r: SafetyRecord| is_inspection(r),
        ) + 1,
        SafetyRecord::Rollback { order, .. } => order == count_where(
            rs.take(i),
            |r: SafetyRecord| is_rollback(r),
        ) + 1,
        _ => true,
    }
}

/// A reviewable record set: every record sound on its own and numbered in
/// order; exactly one generator, candidate and known-good record; at least
/// one inspection and one rollback step.
pub open spec fn records_ok(rs: Seq<SafetyRecord>, initramfs: AdapterId, binary: Sha256Digest) -> bool {
    &&& forall|i: int| 0 <= i < rs.len() ==> record_ok(#[trigger] rs[i], initramfs, binary)
    &&& forall|i: int| 0 <= i < rs.len() ==> #[trigger] order_ok(rs, i)
    &&& count_where(rs, |r: SafetyRecord| r is Generator) == 1
    &&& count_where(rs, |r: SafetyRecord| r is CandidateImage) == 1
    &&& count_where(rs, |r: SafetyRecord| r is KnownGood) == 1
    &&& count_where(rs, |r: SafetyRecord| is_inspection(r)) >= 1
    &&& count_where(rs, |r: SafetyRecord| is_rollback(r)) >= 1
}

proof fn lemma_count_step(rs: Seq<SafetyRecord>, i: int, p: spec_fn(SafetyRecord) -> bool)
    requires
        0 <= i < rs.len(),
    ensures
        count_where(rs.take(i + 1), p) == count_where(rs.take(i), p) + if p(rs[i]) {
            1nat
        } else {
            0nat
        },
{
    assert(rs.take(i + 1).drop_last() =~= rs.take(i));
    assert(rs.take(i + 1).last() == rs[i]);
}

proof fn lemma_count_bound(rs: Seq<SafetyRecord>, p: spec_fn(SafetyRecord) -> bool)
    ensures
        count_where(rs, p) <= rs.len(),
    decreases rs.len(),
{
    if rs.len() > 0 {
        lemma_count_bound(rs.drop_last(), p);
    }
}

/// Checks an install plan's safety records, for a plan whose initramfs
/// adapter is `initramfs` and whose binary has digest `binary`.
pub fn validate_safety_records(
    records: &Vec<SafetyRecord>,
    initramfs: AdapterId,
    binary: Sha256Digest,
) -> (r: Result<(), InstallError>)
    requires
        forall|i: int|
            0 <= i < records@.len() ==> #[trigger] records@[i] is Generator ==> spec_adapter_kind(
                initramfs,
            ) == AdapterKind::InitramfsRuntime,
    ensures
        r is Ok <==> records_ok(records@, initramfs, binary),
        r matches Err(e) ==> e is InvalidPlan,
{
    let ghost rs = records@;
    let ghost gen = |r: SafetyRecord| r is Generator;
    let ghost cand = |r: SafetyRecord| r is CandidateImage;
    let ghost good = |r: SafetyRecord| r is KnownGood;
    let ghost insp = |r: SafetyRecord| is_inspection(r);
    let ghost roll = |r: SafetyRecord| is_rollback(r);
    let mut generators: u8 = 0;
    let mut candidates: u8 = 0;
    let mut known_good: u8 = 0;
    let mut inspection_order: u16 = 0;
    let mut rollback_order: u16 = 0;
    let mut i: usize = 0;
    assert(rs.take(0) =~= Seq::<SafetyRecord>::empty());
    while i < records.len()
        invariant
            i <= rs.len(),
            rs == records@,
            forall|k: int|
                0 <= k < rs.len() ==> #[trigger] rs[k] is Generator ==> spec_adapter_kind(initramfs)
                    == AdapterKind::InitramfsRuntime,
            forall|k: int| 0 <= k < i ==> record_ok(#[trigger] rs[k], initramfs, binary),
            forall|k: int| 0 <= k < i ==> #[trigger] order_ok(rs, k),
            generators == if count_where(rs.take(i as int), gen) < 255 {
                count_where(rs.take(i as int), gen)
            } else {
                255
            },
            candidates == if count_where(rs.take(i as int), cand) < 255 {
                count_where(rs.take(i as int), cand)
            } else {
                255
            },
            known_good == if count_where(rs.take(i as int), good) < 255 {
                count_where(rs.take(i as int), good)
            } else {
                255
            },
            inspection_order == count_where(rs.take(i as int), insp),
            rollback_order == count_where(rs.take(i as int), roll),
            gen == (|r: SafetyRecord| r is Generator),
            cand == (|r: SafetyRecord| r is CandidateImage),
            good == (|r: SafetyRecord| r is KnownGood),
            insp == (|r: SafetyRecord| is_inspection(r)),
            roll == (|r: SafetyRecord| is_rollback(r)),
        decreases records.len() - i,
    {
        let record = &records[i];
        proof {
            lemma_count_step(rs, i as int, gen);
            lemma_count_step(rs, i as int, cand);
            lemma_count_step(rs, i as int, good);
            lemma_count_step(rs, i as int, insp);
            lemma_count_step(rs, i as int, roll);
            assert(rs[i as int] == *record);
        }
        match validate_record(record, initramfs, binary) {
            Ok(()) => {},
            Err(e) => {
                return Err(e);
            },
        }
        match record {
            SafetyRecord::Generator { .. } => {
                generators = generators.saturating_add(1);
            },
            SafetyRecord::CandidateImage { .. } => {
                candidates = candidates.saturating_add(1);
            },
            SafetyRecord::KnownGood { .. } => {
                known_good = known_good.saturating_add(1);
            },
            SafetyRecord::PostGenerationInspection { order, .. } => {
                let next = match inspection_order.checked_add(1) {
                    Some(n) => n,
                    None => {
                        assert(!order_ok(rs, i as int));
                        return Err(invalid("inspection order overflowed"));
                    },
                };
                if *order != next {
                    assert(!order_ok(rs, i as int));
                    return Err(invalid("post-generation inspections are not contiguous and ordered"));
                }
                inspection_order = next;
            },
            SafetyRecord::Rollback { order, .. } => {
                let next = match rollback_order.checked_add(1) {
                    Some(n) => n,
                    None => {
                        assert(!order_ok(rs, i as int));
                        return Err(invalid("rollback order overflowed"));
                    },
                };
                if *order != next {
                    assert(!order_ok(rs, i as int));
                    return Err(invalid("rollback steps are not contiguous and reverse-ordered"));
                }
                rollback_order = next;
            },
            _ => {},
        }
        assert(order_ok(rs, i as int));
        i = i + 1;
    }
    assert(rs.take(rs.len() as int) =~= rs);
    if generators != 1 || candidates != 1 || known_good != 1 || inspection_order == 0
        || rollback_order == 0 {
        return Err(
            invalid(
                "safety preview must contain one generator, candidate, known-good record, and ordered inspection suite",
            ),
        );
    }
    Ok(())
}

} // verus!
