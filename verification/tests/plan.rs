use bootart::adapter::AdapterId;
use bootart::digest::sha256;
use bootart::error::InstallError;
use bootart::directories::{
    planned_backup_pre_change_hash, planned_backup_specs, required_directory_records, BackupSpec,
    DESTINATION_INSPECTION_BLOCKER,
};
use bootart::plan::PlanOperation;
use bootart::safety::{ExpectedPreviousState, PlannedHashState};
use bootart::operations::managed_snippet_operations_for_selection;
use bootart::safety::BackupSubjectKind;
use bootart::operations::activation_operations_for_selection;
use bootart::plan::{build_payload_operations, PlanSource};
use bootart::safety::{DirectoryScope, SafetyRecord};
use bootart::selection::{AdapterSelection, AdapterSelectionReason, SupportPolicy};

fn elf() -> Vec<u8> {
    let mut elf = vec![0_u8; 120];
    let length = elf.len() as u64;
    elf[0..4].copy_from_slice(b"\x7fELF");
    elf[4] = 2;
    elf[5] = 1;
    elf[6] = 1;
    elf[16..18].copy_from_slice(&2_u16.to_le_bytes());
    elf[18..20].copy_from_slice(&62_u16.to_le_bytes());
    elf[20..24].copy_from_slice(&1_u32.to_le_bytes());
    elf[24..32].copy_from_slice(&0x400000_u64.to_le_bytes());
    elf[32..40].copy_from_slice(&64_u64.to_le_bytes());
    elf[52..54].copy_from_slice(&64_u16.to_le_bytes());
    elf[54..56].copy_from_slice(&56_u16.to_le_bytes());
    elf[56..58].copy_from_slice(&1_u16.to_le_bytes());
    elf[64..68].copy_from_slice(&1_u32.to_le_bytes());
    elf[68..72].copy_from_slice(&5_u32.to_le_bytes());
    elf[80..88].copy_from_slice(&0x400000_u64.to_le_bytes());
    elf[88..96].copy_from_slice(&0x400000_u64.to_le_bytes());
    elf[96..104].copy_from_slice(&length.to_le_bytes());
    elf[104..112].copy_from_slice(&length.to_le_bytes());
    elf[112..120].copy_from_slice(&0x1000_u64.to_le_bytes());
    elf
}

fn select(initramfs: AdapterId, real_root: AdapterId) -> AdapterSelection {
    AdapterSelection::select_pair(
        (initramfs, AdapterSelectionReason::ExplicitRequest),
        (real_root, AdapterSelectionReason::ExplicitRequest),
        SupportPolicy::AllowExplicitExperimental,
    )
    .unwrap()
}

#[test]
fn payloads_are_path_ordered_and_bind_the_elf() {
    let bytes = elf();
    let selection = select(AdapterId::MkinitfsBusybox, AdapterId::OpenRcRealRoot);
    let ops = build_payload_operations("/mnt/target", selection, &bytes).unwrap();
    let paths: Vec<&str> = ops.iter().map(|op| op.path()).collect();
    assert_eq!(
        paths,
        vec![
            "/etc/init.d/bootart",
            "/etc/init.d/bootart-quit",
            "/etc/mkinitfs/features.d/bootart.files",
            "/usr/bin/bootart",
            "/usr/libexec/bootart/mkinitfs-findfs",
            "/usr/libexec/bootart/mkinitfs-runtime",
        ]
    );
    let binary = &ops[3];
    assert_eq!(binary.source(), PlanSource::BootartElf);
    assert_eq!(binary.mode(), 0o755);
    assert_eq!(binary.digest(), sha256(&bytes));
    assert_eq!(binary.content(), &bytes[..]);
    for op in &ops {
        assert_eq!(op.owner_uid(), 0);
        assert_eq!(op.digest(), sha256(op.content()));
    }
}

#[test]
fn payloads_refuse_a_foreign_elf() {
    let mut bytes = elf();
    bytes[18] = 0xb7;
    let selection = select(AdapterId::DracutSystemd, AdapterId::SystemdRealRoot);
    assert!(matches!(
        build_payload_operations("/mnt/target", selection, &bytes),
        Err(InstallError::InvalidBootartElf(_))
    ));
}

#[test]
fn required_directories_are_ordered_once_and_private_under_state() {
    let bytes = elf();
    let selection = select(AdapterId::MkinitfsBusybox, AdapterId::OpenRcRealRoot);
    let ops = build_payload_operations("/mnt/target", selection, &bytes).unwrap();
    let acts = activation_operations_for_selection(selection).unwrap();
    let records = required_directory_records(&ops, &acts);
    let listed: Vec<(String, u32)> = records
        .iter()
        .map(|r| match r {
            SafetyRecord::RequiredDirectory { scope, path, mode, .. } => {
                assert_eq!(*scope, DirectoryScope::RealRoot);
                (path.clone(), *mode)
            }
            _ => panic!("not a directory record"),
        })
        .collect();
    let expected: Vec<(String, u32)> = [
        ("/etc", 0o755),
        ("/etc/init.d", 0o755),
        ("/etc/mkinitfs", 0o755),
        ("/etc/mkinitfs/features.d", 0o755),
        ("/etc/runlevels", 0o755),
        ("/etc/runlevels/boot", 0o755),
        ("/etc/runlevels/default", 0o755),
        ("/usr", 0o755),
        ("/usr/bin", 0o755),
        ("/usr/libexec", 0o755),
        ("/usr/libexec/bootart", 0o755),
        ("/var", 0o755),
        ("/var/lib", 0o755),
        ("/var/lib/bootart", 0o700),
        ("/var/lib/bootart/install", 0o700),
        ("/var/lib/bootart/install/transactions", 0o700),
        ("/var/lib/bootart/install/transactions/{transaction-id}", 0o700),
    ]
    .iter()
    .map(|(p, m)| (p.to_string(), *m))
    .collect();
    assert_eq!(listed, expected);
}

#[test]
fn backups_cover_each_target_once_in_path_order() {
    let bytes = elf();
    let selection = select(AdapterId::MkinitfsBusybox, AdapterId::OpenRcRealRoot);
    let ops = build_payload_operations("/mnt/target", selection, &bytes).unwrap();
    let snippets = managed_snippet_operations_for_selection(selection);
    let acts = activation_operations_for_selection(selection).unwrap();
    let backups = planned_backup_specs(&ops, &snippets, &acts);
    let listed: Vec<(&str, BackupSubjectKind)> =
        backups.iter().map(|b| (b.target.as_str(), b.subject)).collect();
    assert_eq!(
        listed,
        vec![
            ("/etc/init.d/bootart", BackupSubjectKind::FilePayload),
            ("/etc/init.d/bootart-quit", BackupSubjectKind::FilePayload),
            ("/etc/mkinitfs/features.d/bootart.files", BackupSubjectKind::FilePayload),
            ("/etc/runlevels/boot/bootart", BackupSubjectKind::ActivationLink),
            ("/etc/runlevels/default/bootart-quit", BackupSubjectKind::ActivationLink),
            ("/usr/bin/bootart", BackupSubjectKind::FilePayload),
            ("/usr/libexec/bootart/mkinitfs-findfs", BackupSubjectKind::FilePayload),
            ("/usr/libexec/bootart/mkinitfs-runtime", BackupSubjectKind::FilePayload),
            ("/usr/share/mkinitfs/initramfs-init", BackupSubjectKind::ManagedSnippetTarget),
        ]
    );
    assert_eq!(
        backups[0].backup_path_template,
        "/var/lib/bootart/install/transactions/{transaction-id}/backup-000000"
    );
    assert_eq!(
        backups[8].backup_path_template,
        "/var/lib/bootart/install/transactions/{transaction-id}/backup-000008"
    );
}

#[test]
fn backup_pre_change_hash_follows_the_recorded_previous_state() {
    let bytes = elf();
    let absent = PlanOperation::new(
        "/usr/bin/bootart".to_string(),
        0o755,
        0,
        sha256(&bytes),
        PlanSource::BootartElf,
        ExpectedPreviousState::Absent,
        bytes.clone(),
    );
    let backup = |subject, target: &str| BackupSpec {
        subject,
        target: target.to_string(),
        backup_path_template: String::new(),
    };
    assert_eq!(
        planned_backup_pre_change_hash(
            &backup(BackupSubjectKind::FilePayload, "/usr/bin/bootart"),
            &vec![absent.clone()],
            &Vec::new()
        ),
        PlannedHashState::Absent
    );
    assert_eq!(
        planned_backup_pre_change_hash(
            &backup(BackupSubjectKind::ManagedSnippetTarget, "/usr/bin/bootart"),
            &vec![absent],
            &Vec::new()
        ),
        PlannedHashState::Uninspected { blocker: DESTINATION_INSPECTION_BLOCKER }
    );
}
