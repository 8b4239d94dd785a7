use bootart::adapter::AdapterId;
use bootart::digest::sha256;
use bootart::embedded::RESOURCE_SET_VERSION;
use bootart::error::InstallError;
use bootart::journal::{EntryProgress, Journal, JournalEntry, JournalPhase, TransactionKind};
use bootart::manifest::{Manifest, ManifestEntry, ManifestInventoryState};
use bootart::root::NodeKind;
use bootart::state::Preimage;
use bootart::status::{
    file_status, manifest_status, not_installed_status, recovery_step, rollback_outcome,
    FileStatusState, ImageVerificationStatus, InstallProvenanceStatus, ManifestInventoryStatus,
    PathObservation, RecoveryOutcome, RecoveryStep, IMAGE_VERIFICATION_BLOCKER, PLAN_VERSION,
};

fn binary() -> ManifestEntry {
    ManifestEntry::File {
        path: "/usr/bin/bootart".to_string(),
        installed_mode: 0o755,
        installed_digest: sha256(b"elf"),
        original: Preimage::Absent,
    }
}

fn link() -> ManifestEntry {
    ManifestEntry::Symlink {
        path: "/etc/runlevels/boot/bootart".to_string(),
        installed_target: "../../init.d/bootart".to_string(),
        original: Preimage::Absent,
    }
}

fn regular(bytes: &[u8], mode: u32) -> PathObservation {
    PathObservation::Regular { bytes: bytes.to_vec(), mode }
}

#[test]
fn files_compare_digest_and_mode() {
    let state = |o: PathObservation| file_status(&binary(), &o).unwrap().state;
    assert_eq!(state(PathObservation::Missing), FileStatusState::Missing);
    assert_eq!(state(regular(b"elf", 0o755)), FileStatusState::Exact);
    assert_eq!(
        state(regular(b"other", 0o755)),
        FileStatusState::ContentModified { actual: sha256(b"other") }
    );
    assert_eq!(state(regular(b"elf", 0o700)), FileStatusState::ModeModified { actual: 0o700 });
    assert_eq!(
        state(regular(b"other", 0o700)),
        FileStatusState::ContentAndModeModified { actual_digest: sha256(b"other"), actual_mode: 0o700 }
    );
    let status = file_status(&binary(), &regular(b"elf", 0o755)).unwrap();
    assert_eq!(status.path, "/usr/bin/bootart");
    assert_eq!(status.expected_digest, sha256(b"elf"));
    assert_eq!(status.expected_mode, 0o755);
    assert!(status.state.is_exact());
    assert!(matches!(
        file_status(&binary(), &PathObservation::Symlink { target: "x".to_string() }),
        Err(InstallError::UnsafePath { .. })
    ));
    assert!(matches!(
        file_status(&binary(), &PathObservation::Other { kind: NodeKind::Directory }),
        Err(InstallError::UnsafePath { .. })
    ));
}

#[test]
fn links_compare_their_target_and_kind() {
    let status = |o: PathObservation| file_status(&link(), &o).unwrap();
    let exact = status(PathObservation::Symlink { target: "../../init.d/bootart".to_string() });
    assert_eq!(exact.state, FileStatusState::Exact);
    assert_eq!(exact.expected_digest, sha256(b"../../init.d/bootart"));
    assert_eq!(exact.expected_mode, 0o777);
    assert_eq!(
        status(PathObservation::Symlink { target: "elsewhere".to_string() }).state,
        FileStatusState::SymlinkTargetModified { actual: "elsewhere".to_string() }
    );
    assert_eq!(
        status(regular(b"x", 0o644)).state,
        FileStatusState::TypeModified { actual_kind: NodeKind::File }
    );
    assert_eq!(
        status(PathObservation::Other { kind: NodeKind::Directory }).state,
        FileStatusState::TypeModified { actual_kind: NodeKind::Directory }
    );
    assert_eq!(status(PathObservation::Missing).state, FileStatusState::Missing);
}

#[test]
fn a_manifest_status_reports_versions_inventory_and_each_path() {
    let manifest = Manifest {
        transaction: "tx-1".to_string(),
        plan_version: 2,
        resource_set_version: RESOURCE_SET_VERSION,
        inventory_state: ManifestInventoryState::Partial,
        adapters: vec![AdapterId::MkinitfsBusybox, AdapterId::OpenRcRealRoot],
        entries: vec![binary(), link()],
        created_dirs: vec![],
        state_created_dirs: vec![],
    };
    let report = manifest_status(
        &manifest,
        &vec![regular(b"elf", 0o755), PathObservation::Missing],
    )
    .unwrap();
    assert!(report.installed);
    let provenance = report.provenance.unwrap();
    assert_eq!(
        provenance,
        InstallProvenanceStatus {
            installed_plan_version: 2,
            current_plan_version: PLAN_VERSION,
            installed_resource_set_version: RESOURCE_SET_VERSION,
            current_resource_set_version: RESOURCE_SET_VERSION,
        }
    );
    assert!(!provenance.is_version_current());
    assert_eq!(report.inventory, ManifestInventoryStatus::Partial);
    assert_eq!(
        report.image_verification,
        ImageVerificationStatus::Unresolved { blocker: IMAGE_VERIFICATION_BLOCKER }
    );
    assert_eq!(report.files.len(), 2);
    assert_eq!(report.files[0].state, FileStatusState::Exact);
    assert_eq!(report.files[1].state, FileStatusState::Missing);
    assert!(manifest_status(
        &manifest,
        &vec![PathObservation::Other { kind: NodeKind::Other }, PathObservation::Missing]
    )
    .is_err());
}

#[test]
fn nothing_installed_reports_nothing() {
    let report = not_installed_status();
    assert!(!report.installed);
    assert_eq!(report.provenance, None);
    assert_eq!(report.inventory, ManifestInventoryStatus::NotInstalled);
    assert_eq!(report.image_verification, ImageVerificationStatus::NotInstalled);
    assert!(report.files.is_empty());
}

fn journal(kind: TransactionKind, phase: JournalPhase) -> Journal {
    Journal {
        transaction: "tx-7".to_string(),
        kind,
        phase,
        entries: vec![JournalEntry {
            path: "/usr/bin/bootart".to_string(),
            preimage: Preimage::Absent,
            progress: EntryProgress::Planned,
        }],
        previous_manifest: Preimage::Absent,
        created_dirs: vec![],
        state_created_dirs: vec![],
        rollback_created_dirs: vec![],
    }
}

#[test]
fn recovery_finishes_what_committed_and_rolls_back_the_rest() {
    assert_eq!(recovery_step(&journal(TransactionKind::Install, JournalPhase::RollbackCleanup), None), RecoveryStep::FinishRollbackCleanup);
    assert_eq!(recovery_step(&journal(TransactionKind::Install, JournalPhase::Ready), Some("tx-7")), RecoveryStep::CleanCommittedInstall);
    assert_eq!(recovery_step(&journal(TransactionKind::Install, JournalPhase::Ready), Some("tx-6")), RecoveryStep::RollBack);
    assert_eq!(recovery_step(&journal(TransactionKind::Install, JournalPhase::Ready), None), RecoveryStep::RollBack);
    assert_eq!(recovery_step(&journal(TransactionKind::Install, JournalPhase::Bootstrap), Some("tx-7")), RecoveryStep::RollBack);
    assert_eq!(recovery_step(&journal(TransactionKind::Uninstall, JournalPhase::Ready), None), RecoveryStep::CleanCommittedUninstall);
    assert_eq!(recovery_step(&journal(TransactionKind::Uninstall, JournalPhase::Ready), Some("tx-7")), RecoveryStep::CleanCommittedUninstall);
    assert_eq!(recovery_step(&journal(TransactionKind::Uninstall, JournalPhase::Ready), Some("tx-1")), RecoveryStep::RollBack);
    assert_eq!(recovery_step(&journal(TransactionKind::Uninstall, JournalPhase::Cleanup), Some("tx-1")), RecoveryStep::CleanCommittedUninstall);
    assert_eq!(recovery_step(&journal(TransactionKind::Uninstall, JournalPhase::CleanupFinal), None), RecoveryStep::CleanCommittedUninstall);
    assert_eq!(recovery_step(&journal(TransactionKind::Uninstall, JournalPhase::Bootstrap), None), RecoveryStep::RollBack);
    assert_eq!(rollback_outcome(0), RecoveryOutcome::RolledBack);
    assert_eq!(rollback_outcome(2), RecoveryOutcome::RolledBackWithPreservedDirectories);
}
