//! What an installation's status report says of each owned path, given what
//! was observed there, and which step recovery takes for a left-over journal.

use crate::digest::{sha256, spec_sha256, Sha256Digest};
use crate::error::InstallError;
use crate::journal::{Journal, JournalPhase, TransactionKind};
use crate::manifest::{Manifest, ManifestEntry, ManifestEntryView, ManifestInventoryState};
use crate::root::NodeKind;
use crate::text::str_eq;
use vstd::prelude::*;
use vstd::utf8::*;

verus! {

/// The plan format this installer writes.
pub const PLAN_VERSION: u16 = 3;

/// Why image status is never inferred from installed paths.
pub const IMAGE_VERIFICATION_BLOCKER: &'static str = "candidate and known-good initramfs verification is unresolved until the selected adapter image contract and VM gates pass";

/// How an owned path differs from what the manifest recorded.
#[derive(Debug, Clone, PartialEq, Eq)]
pub enum FileStatusState {
    Exact,
    Missing,
    ContentModified { actual: Sha256Digest },
    ModeModified { actual: u32 },
    ContentAndModeModified { actual_digest: Sha256Digest, actual_mode: u32 },
    SymlinkTargetModified { actual: String },
    TypeModified { actual_kind: NodeKind },
}

pub enum FileStatusStateView {
    Exact,
    Missing,
    ContentModified { actual: Sha256Digest },
    ModeModified { actual: u32 },
    ContentAndModeModified { actual_digest: Sha256Digest, actual_mode: u32 },
    SymlinkTargetModified { actual: Seq<char> },
    TypeModified { actual_kind: NodeKind },
}

impl View for FileStatusState {
    type V = FileStatusStateView;

    open spec fn view(&self) -> FileStatusStateView {
        match self {
            FileStatusState::Exact => FileStatusStateView::Exact,
            FileStatusState::Missing => FileStatusStateView::Missing,
            FileStatusState::ContentModified { actual } => FileStatusStateView::ContentModified {
                actual: *actual,
            },
            FileStatusState::ModeModified { actual } => FileStatusStateView::ModeModified {
                actual: *actual,
            },
            FileStatusState::ContentAndModeModified { actual_digest, actual_mode } =>
                FileStatusStateView::ContentAndModeModified {
                actual_digest: *actual_digest,
                actual_mode: *actual_mode,
            },
            FileStatusState::SymlinkTargetModified { actual } =>
                FileStatusStateView::SymlinkTargetModified { actual: actual@ },
            FileStatusState::TypeModified { actual_kind } => FileStatusStateView::TypeModified {
                actual_kind: *actual_kind,
            },
        }
    }
}

impl FileStatusState {
    /// The path is exactly as recorded.
    pub fn is_exact(&self) -> (r: bool)
        ensures
            r == (self@ is Exact),
    {
        match self {
            FileStatusState::Exact => true,
            _ => false,
        }
    }
}

/// One owned path's status.
#[derive(Debug, Clone, PartialEq, Eq)]
pub struct InstalledFileStatus {
    pub path: String,
    pub expected_digest: Sha256Digest,
    pub expected_mode: u32,
    pub state: FileStatusState,
}

pub struct InstalledFileStatusView {
    pub path: Seq<char>,
    pub expected_digest: Sha256Digest,
    pub expected_mode: u32,
    pub state: FileStatusStateView,
}

impl View for InstalledFileStatus {
    type V = InstalledFileStatusView;

    open spec fn view(&self) -> InstalledFileStatusView {
        InstalledFileStatusView {
            path: self.path@,
            expected_digest: self.expected_digest,
            expected_mode: self.expected_mode,
            state: self.state@,
        }
    }
}

/// Version provenance recorded by the installer that committed the
/// manifest, beside this installer's own.
#[derive(Debug, Clone, Copy, PartialEq, Eq, Structural)]
pub struct InstallProvenanceStatus {
    pub installed_plan_version: u16,
    pub current_plan_version: u16,
    pub installed_resource_set_version: u16,
    pub current_resource_set_version: u16,
}

impl InstallProvenanceStatus {
    /// The installation was committed by this installer's plan and
    /// resources.
    pub fn is_version_current(self) -> (r: bool)
        ensures
            r == (self.installed_plan_version == self.current_plan_version
                && self.installed_resource_set_version == self.current_resource_set_version),
    {
        self.installed_plan_version == self.current_plan_version
            && self.installed_resource_set_version == self.current_resource_set_version
    }
}

/// Image status, which installed paths never establish.
#[derive(Debug, Clone, Copy, PartialEq, Eq)]
pub enum ImageVerificationStatus {
    NotInstalled,
    Unresolved { blocker: &'static str },
}

/// Whether the manifest is a complete inventory or a partial ledger.
#[derive(Debug, Clone, Copy, PartialEq, Eq, Structural)]
pub enum ManifestInventoryStatus {
    NotInstalled,
    Complete,
    Partial,
}

/// An installation's status.
#[derive(Debug, Clone, PartialEq, Eq)]
pub struct StatusReport {
    pub installed: bool,
    pub provenance: Option<InstallProvenanceStatus>,
    pub inventory: ManifestInventoryStatus,
    pub image_verification: ImageVerificationStatus,
    pub files: Vec<InstalledFileStatus>,
}

/// What was found at an owned path.
#[derive(Debug, Clone, PartialEq, Eq)]
pub enum PathObservation {
    /// Nothing is there.
    Missing,
    /// A regular file with these contents and permission bits.
    Regular { bytes: Vec<u8>, mode: u32 },
    /// A symbolic link with this target.
    Symlink { target: String },
    /// A node of another kind.
    Other { kind: NodeKind },
}

pub enum PathObservationView {
    Missing,
    Regular { bytes: Seq<u8>, mode: u32 },
    Symlink { target: Seq<char> },
    Other { kind: NodeKind },
}

impl View for PathObservation {
    type V = PathObservationView;

    open spec fn view(&self) -> PathObservationView {
        match self {
            PathObservation::Missing => PathObservationView::Missing,
            PathObservation::Regular { bytes, mode } => PathObservationView::Regular {
                bytes: bytes@,
                mode: *mode,
            },
            PathObservation::Symlink { target } => PathObservationView::Symlink { target: target@ },
            PathObservation::Other { kind } => PathObservationView::Other { kind: *kind },
        }
    }
}

/// A recorded file compared with the file found: its digest and mode.
pub open spec fn content_state(
    recorded_digest: Sha256Digest,
    recorded_mode: u32,
    digest: Sha256Digest,
    mode: u32,
) -> FileStatusStateView {
    if digest == recorded_digest && mode == recorded_mode {
        FileStatusStateView::Exact
    } else if mode == recorded_mode {
        FileStatusStateView::ContentModified { actual: digest }
    } else if digest == recorded_digest {
        FileStatusStateView::ModeModified { actual: mode }
    } else {
        FileStatusStateView::ContentAndModeModified { actual_digest: digest, actual_mode: mode }
    }
}

/// The status of one owned path given what was found there; `None` where a
/// file's path holds something other than a regular file, which reading it
/// refuses.
pub open spec fn spec_file_status(e: ManifestEntryView, o: PathObservationView) -> Option<
    InstalledFileStatusView,
> {
    match e {
        ManifestEntryView::File { path, installed_mode, installed_digest, .. }
        | ManifestEntryView::PatchedFile { path, installed_mode, installed_digest, .. } => {
            let state = match o {
                PathObservationView::Missing => Some(FileStatusStateView::Missing),
                PathObservationView::Regular { bytes, mode } => Some(
                    content_state(installed_digest, installed_mode, spec_sha256(bytes), mode),
                ),
                _ => None,
            };
            match state {
                Some(state) => Some(
                    InstalledFileStatusView {
                        path,
                        expected_digest: installed_digest,
                        expected_mode: installed_mode,
                        state,
                    },
                ),
                None => None,
            }
        },
        ManifestEntryView::Symlink { path, installed_target, .. } => Some(
            InstalledFileStatusView {
                path,
                expected_digest: spec_sha256(encode_utf8(installed_target)),
                expected_mode: 0o777,
                state: match o {
                    PathObservationView::Missing => FileStatusStateView::Missing,
                    PathObservationView::Symlink { target } => if target == installed_target {
                        FileStatusStateView::Exact
                    } else {
                        FileStatusStateView::SymlinkTargetModified { actual: target }
                    },
                    PathObservationView::Regular { .. } => FileStatusStateView::TypeModified {
                        actual_kind: NodeKind::File,
                    },
                    PathObservationView::Other { kind } => FileStatusStateView::TypeModified {
                        actual_kind: kind,
                    },
                },
            },
        ),
    }
}

/// The status of one owned path given what was found there.
pub fn file_status(entry: &ManifestEntry, observed: &PathObservation) -> (r: Result<
    InstalledFileStatus,
    InstallError,
>)
    ensures
        r is Ok <==> spec_file_status(entry@, observed@) is Some,
        r matches Ok(s) ==> Some(s@) == spec_file_status(entry@, observed@),
        r matches Err(e) ==> e is UnsafePath,
{
    match entry {
        ManifestEntry::File { path, installed_mode, installed_digest, .. }
        | ManifestEntry::PatchedFile { path, installed_mode, installed_digest, .. } => {
            let state = match observed {
                PathObservation::Missing => FileStatusState::Missing,
                PathObservation::Regular { bytes, mode } => {
                    let digest = sha256(bytes.as_slice());
                    if digest == *installed_digest && *mode == *installed_mode {
                        FileStatusState::Exact
                    } else if *mode == *installed_mode {
                        FileStatusState::ContentModified { actual: digest }
                    } else if digest == *installed_digest {
                        FileStatusState::ModeModified { actual: *mode }
                    } else {
                        FileStatusState::ContentAndModeModified {
                            actual_digest: digest,
                            actual_mode: *mode,
                        }
                    }
                },
                _ => {
                    return Err(
                        InstallError::UnsafePath {
                            path: path.clone(),
                            reason: String::from_str("expected regular file"),
                        },
                    );
                },
            };
            Ok(
                InstalledFileStatus {
                    path: path.clone(),
                    expected_digest: *installed_digest,
                    expected_mode: *installed_mode,
                    state,
                },
            )
        },
        ManifestEntry::Symlink { path, installed_target, .. } => {
            let state = match observed {
                PathObservation::Missing => FileStatusState::Missing,
                PathObservation::Symlink { target } => {
                    if str_eq(target.as_str(), installed_target.as_str()) {
                        FileStatusState::Exact
                    } else {
                        FileStatusState::SymlinkTargetModified { actual: target.clone() }
                    }
                },
                PathObservation::Regular { .. } => FileStatusState::TypeModified {
                    actual_kind: NodeKind::File,
                },
                PathObservation::Other { kind } => FileStatusState::TypeModified {
                    actual_kind: *kind,
                },
            };
            let bytes = crate::text::str_bytes(installed_target.as_str());
            Ok(
                InstalledFileStatus {
                    path: path.clone(),
                    expected_digest: sha256(bytes.as_slice()),
                    expected_mode: 0o777,
                    state,
                },
            )
        },
    }
}

/// The status of an installation whose manifest is `manifest`, given what
/// was found at each owned path in order: installed, with the manifest's and
/// this installer's versions, its inventory state, image status unresolved,
/// and one status per owned path; refused where a file's path holds
/// something other than a regular file.
pub fn manifest_status(manifest: &Manifest, observations: &Vec<PathObservation>) -> (r: Result<
    StatusReport,
    InstallError,
>)
    requires
        observations@.len() == manifest.entries@.len(),
    ensures
        r is Ok <==> forall|i: int|
            0 <= i < manifest.entries@.len() ==> (#[trigger] spec_file_status(
                manifest.entries@[i]@,
                observations@[i]@,
            )) is Some,
        r matches Ok(report) ==> {
            &&& report.installed
            &&& report.provenance == Some(
                InstallProvenanceStatus {
                    installed_plan_version: manifest.plan_version,
                    current_plan_version: PLAN_VERSION,
                    installed_resource_set_version: manifest.resource_set_version,
                    current_resource_set_version: crate::embedded::RESOURCE_SET_VERSION,
                },
            )
            &&& report.inventory == match manifest.inventory_state {
                ManifestInventoryState::Complete => ManifestInventoryStatus::Complete,
                ManifestInventoryState::Partial => ManifestInventoryStatus::Partial,
            }
            &&& report.image_verification == ImageVerificationStatus::Unresolved {
                blocker: IMAGE_VERIFICATION_BLOCKER,
            }
            &&& report.files@.len() == manifest.entries@.len()
            &&& forall|i: int|
                0 <= i < manifest.entries@.len() ==> Some(#[trigger] report.files@[i]@)
                    == spec_file_status(manifest.entries@[i]@, observations@[i]@)
        },
        r matches Err(e) ==> e is UnsafePath,
{
    let mut files: Vec<InstalledFileStatus> = Vec::new();
    let mut i: usize = 0;
    while i < manifest.entries.len()
        invariant
            i <= manifest.entries@.len(),
            observations@.len() == manifest.entries@.len(),
            files@.len() == i,
            forall|k: int|
                0 <= k < i ==> Some(#[trigger] files@[k]@) == spec_file_status(
                    manifest.entries@[k]@,
                    observations@[k]@,
                ),
        decreases manifest.entries.len() - i,
    {
        match file_status(&manifest.entries[i], &observations[i]) {
            Ok(s) => {
                files.push(s);
            },
            Err(e) => {
                assert(spec_file_status(manifest.entries@[i as int]@, observations@[i as int]@) is None);
                return Err(e);
            },
        }
        i = i + 1;
    }
    assert forall|k: int| 0 <= k < manifest.entries@.len() implies (#[trigger] spec_file_status(
        manifest.entries@[k]@,
        observations@[k]@,
    )) is Some by {
        assert(Some(files@[k]@) == spec_file_status(manifest.entries@[k]@, observations@[k]@));
    }
    let inventory = match manifest.inventory_state {
        ManifestInventoryState::Complete => ManifestInventoryStatus::Complete,
        ManifestInventoryState::Partial => ManifestInventoryStatus::Partial,
    };
    Ok(
        StatusReport {
            installed: true,
            provenance: Some(
                InstallProvenanceStatus {
                    installed_plan_version: manifest.plan_version,
                    current_plan_version: PLAN_VERSION,
                    installed_resource_set_version: manifest.resource_set_version,
                    current_resource_set_version: crate::embedded::RESOURCE_SET_VERSION,
                },
            ),
            inventory,
            image_verification: ImageVerificationStatus::Unresolved {
                blocker: IMAGE_VERIFICATION_BLOCKER,
            },
            files,
        },
    )
}

/// The status when no manifest is installed.
pub fn not_installed_status() -> (r: StatusReport)
    ensures
        !r.installed,
        r.provenance is None,
        r.inventory == ManifestInventoryStatus::NotInstalled,
        r.image_verification == ImageVerificationStatus::NotInstalled,
        r.files@.len() == 0,
{
    StatusReport {
        installed: false,
        provenance: None,
        inventory: ManifestInventoryStatus::NotInstalled,
        image_verification: ImageVerificationStatus::NotInstalled,
        files: Vec::new(),
    }
}

// ---------------------------------------------------------------------------
// Recovery
// ---------------------------------------------------------------------------

/// How recovery ended.
#[derive(Debug, Clone, Copy, PartialEq, Eq, Structural)]
pub enum RecoveryOutcome {
    NothingToRecover,
    RolledBack,
    RolledBackWithPreservedDirectories,
    CompletedCommitCleaned,
}

/// What recovery does with a left-over journal.
#[derive(Debug, Clone, Copy, PartialEq, Eq, Structural)]
pub enum RecoveryStep {
    /// Rollback already ran; only its cleanup is left.
    FinishRollbackCleanup,
    /// The uninstall committed; remove what it owned and its journal.
    CleanCommittedUninstall,
    /// The install committed; remove its journal.
    CleanCommittedInstall,
    /// Nothing committed; restore every preimage.
    RollBack,
}

/// A transaction committed: an uninstall that reached cleanup, or a ready
/// transaction whose manifest is its own (for an install) or is gone or its
/// own (for an uninstall).
pub open spec fn transaction_committed(
    kind: TransactionKind,
    phase: JournalPhase,
    transaction: Seq<char>,
    manifest_transaction: Option<Seq<char>>,
) -> bool {
    ||| kind == TransactionKind::Uninstall && (phase == JournalPhase::Cleanup || phase
        == JournalPhase::CleanupFinal)
    ||| phase == JournalPhase::Ready && match kind {
        TransactionKind::Install => manifest_transaction == Some(transaction),
        TransactionKind::Uninstall => manifest_transaction is None || manifest_transaction
            == Some(transaction),
    }
}

pub open spec fn spec_recovery_step(
    kind: TransactionKind,
    phase: JournalPhase,
    transaction: Seq<char>,
    manifest_transaction: Option<Seq<char>>,
) -> RecoveryStep {
    if phase == JournalPhase::RollbackCleanup {
        RecoveryStep::FinishRollbackCleanup
    } else if transaction_committed(kind, phase, transaction, manifest_transaction) {
        if kind == TransactionKind::Uninstall {
            RecoveryStep::CleanCommittedUninstall
        } else {
            RecoveryStep::CleanCommittedInstall
        }
    } else {
        RecoveryStep::RollBack
    }
}

/// The step recovery takes for `journal`, given the transaction of the
/// installed manifest, if there is one.
pub fn recovery_step(journal: &Journal, manifest_transaction: Option<&str>) -> (r: RecoveryStep)
    ensures
        r == spec_recovery_step(
            journal.kind,
            journal.phase,
            journal.transaction@,
            match manifest_transaction {
                Some(t) => Some(t@),
                None => None,
            },
        ),
{
    if journal.phase == JournalPhase::RollbackCleanup {
        return RecoveryStep::FinishRollbackCleanup;
    }
    let own = match manifest_transaction {
        Some(t) => str_eq(t, journal.transaction.as_str()),
        None => false,
    };
    let committed = (journal.kind == TransactionKind::Uninstall && (journal.phase
        == JournalPhase::Cleanup || journal.phase == JournalPhase::CleanupFinal)) || (journal.phase
        == JournalPhase::Ready && match journal.kind {
        TransactionKind::Install => own,
        TransactionKind::Uninstall => manifest_transaction.is_none() || own,
    });
    if committed {
        if journal.kind == TransactionKind::Uninstall {
            RecoveryStep::CleanCommittedUninstall
        } else {
            RecoveryStep::CleanCommittedInstall
        }
    } else {
        RecoveryStep::RollBack
    }
}

/// How a rollback ended, by whether it had to preserve directories.
pub fn rollback_outcome(preserved_directories: usize) -> (r: RecoveryOutcome)
    ensures
        r == if preserved_directories == 0 {
            RecoveryOutcome::RolledBack
        } else {
            RecoveryOutcome::RolledBackWithPreservedDirectories
        },
{
    if preserved_directories == 0 {
        RecoveryOutcome::RolledBack
    } else {
        RecoveryOutcome::RolledBackWithPreservedDirectories
    }
}

} // verus!
