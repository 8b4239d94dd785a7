use bootart::adapter::AdapterId;
use bootart::digest::sha256;
use bootart::error::InstallError;
use bootart::generator::GeneratorKind;
use bootart::safety::{
    initramfs_safety_spec, validate_generator_invocation, validate_planned_hash,
    validate_planned_value, validate_preview_execution, validate_rollback_action,
    validate_safety_records, BackupSubjectKind, DirectoryScope, ExpectedPreviousState,
    GeneratorInvocation, InspectionKind, PlannedHashState, PlannedValue, PreviewExecutionState,
    RollbackAction, SafetyRecord,
};

const BLOCKED: PreviewExecutionState = PreviewExecutionState::Blocked { blocker: "locked" };

fn records() -> Vec<SafetyRecord> {
    vec![
        SafetyRecord::RequiredDirectory {
            scope: DirectoryScope::RealRoot,
            path: "/var/lib/bootart".to_string(),
            mode: 0o700,
            owner_uid: 0,
            previous: ExpectedPreviousState::Uninspected,
            blocker: "not inspected",
        },
        SafetyRecord::RequiredDirectory {
            scope: DirectoryScope::RealRoot,
            path: "/usr/libexec/bootart".to_string(),
            mode: 0o755,
            owner_uid: 0,
            previous: ExpectedPreviousState::Uninspected,
            blocker: "not inspected",
        },
        SafetyRecord::Generator {
            adapter: AdapterId::MkinitfsBusybox,
            generator: GeneratorKind::Mkinitfs,
            invocation: GeneratorInvocation::Unresolved { blocker: "no argv contract" },
            execution: BLOCKED,
        },
        SafetyRecord::CandidateImage {
            adapter: AdapterId::MkinitfsBusybox,
            path: PlannedValue::Unresolved { blocker: "no path contract" },
            pre_change_hash: PlannedHashState::Absent,
            separately_named: true,
        },
        SafetyRecord::KnownGood {
            adapter: AdapterId::MkinitfsBusybox,
            image_path: PlannedValue::Exact("/boot/initramfs-lts".to_string()),
            image_hash: PlannedHashState::Uninspected { blocker: "not read" },
            boot_entry: PlannedValue::Unresolved { blocker: "no entry contract" },
            untouched: true,
        },
        SafetyRecord::PlannedBackup {
            subject: BackupSubjectKind::FilePayload,
            target: "/usr/bin/bootart".to_string(),
            backup_path_template:
                "/var/lib/bootart/install/transactions/{transaction-id}/backup-000001".to_string(),
            pre_change_hash: PlannedHashState::Absent,
            execution: BLOCKED,
        },
        SafetyRecord::PostGenerationInspection {
            order: 1,
            check: InspectionKind::StaticBootartElf {
                path: "/usr/bin/bootart".to_string(),
                digest: sha256(b"elf"),
            },
            execution: BLOCKED,
        },
        SafetyRecord::PostGenerationInspection {
            order: 2,
            check: InspectionKind::SelectedAdapterInventory { adapter: AdapterId::MkinitfsBusybox },
            execution: BLOCKED,
        },
        SafetyRecord::Rollback {
            order: 1,
            action: RollbackAction::RemoveCandidateIfCreated {
                path: PlannedValue::Unresolved { blocker: "no path contract" },
            },
            execution: BLOCKED,
        },
    ]
}

fn check(rs: &Vec<SafetyRecord>) -> Result<(), InstallError> {
    validate_safety_records(rs, AdapterId::MkinitfsBusybox, sha256(b"elf"))
}

fn refused(rs: Vec<SafetyRecord>) -> bool {
    matches!(check(&rs), Err(InstallError::InvalidPlan(_)))
}

#[test]
fn a_reviewable_record_set_is_accepted() {
    assert!(check(&records()).is_ok());
}

#[test]
fn record_sets_that_break_a_rule_are_refused() {
    let mut rs = records();
    if let SafetyRecord::RequiredDirectory { mode, .. } = &mut rs[0] {
        *mode = 0o755;
    }
    assert!(refused(rs));
    let mut rs = records();
    rs.push(rs[2].clone());
    assert!(refused(rs));
    let mut rs = records();
    rs.remove(3);
    assert!(refused(rs));
    let mut rs = records();
    if let SafetyRecord::PostGenerationInspection { order, .. } = &mut rs[7] {
        *order = 3;
    }
    assert!(refused(rs));
    let mut rs = records();
    rs.remove(8);
    assert!(refused(rs));
    assert!(matches!(
        validate_safety_records(&records(), AdapterId::MkinitfsBusybox, sha256(b"other")),
        Err(InstallError::InvalidPlan(_))
    ));
    assert!(matches!(
        validate_safety_records(&records(), AdapterId::DracutSystemd, sha256(b"elf")),
        Err(InstallError::InvalidPlan(_))
    ));
    let mut rs = records();
    rs[6] = SafetyRecord::PostGenerationInspection {
        order: 1,
        check: InspectionKind::LegacyHelperAbsent { path: "/usr/bin/bootart".to_string() },
        execution: BLOCKED,
    };
    assert!(refused(rs));
    let mut rs = records();
    if let SafetyRecord::PlannedBackup { backup_path_template, .. } = &mut rs[5] {
        *backup_path_template = "/var/lib/bootart/install/backup-000001".to_string();
    }
    assert!(refused(rs));
}

#[test]
fn single_values_name_their_blockers() {
    assert!(validate_planned_value(&PlannedValue::Exact(String::new())).is_err());
    assert!(validate_planned_value(&PlannedValue::Unresolved { blocker: "" }).is_err());
    assert!(validate_planned_value(&PlannedValue::Exact("x".to_string())).is_ok());
    assert!(validate_planned_hash(PlannedHashState::Unresolved { blocker: "" }).is_err());
    assert!(validate_planned_hash(PlannedHashState::Uninspected { blocker: "later" }).is_ok());
    assert!(validate_planned_hash(PlannedHashState::Exact(sha256(b"x"))).is_ok());
    assert!(validate_preview_execution(PreviewExecutionState::Blocked { blocker: "" }).is_err());
    assert!(validate_preview_execution(BLOCKED).is_ok());
    assert_eq!(PlannedValue::Exact("x".to_string()).exact(), Some("x"));
    assert_eq!(PlannedValue::Unresolved { blocker: "why" }.blocker(), Some("why"));
}

#[test]
fn invocations_and_rollback_steps_use_safe_paths() {
    let exact = |executable: &str, arguments: &[&str]| GeneratorInvocation::Exact {
        executable: executable.to_string(),
        arguments: arguments.iter().map(|a| a.to_string()).collect(),
    };
    assert!(validate_generator_invocation(&exact("/sbin/mkinitfs", &["-o", "/boot/x"])).is_ok());
    assert!(validate_generator_invocation(&exact("sbin/mkinitfs", &[])).is_err());
    assert!(validate_generator_invocation(&exact("/sbin/mkinitfs", &[""])).is_err());
    assert!(validate_generator_invocation(&exact("/sbin/mkinitfs", &["a\nb"])).is_err());
    assert!(validate_generator_invocation(&GeneratorInvocation::Unresolved { blocker: "" }).is_err());
    assert!(validate_rollback_action(&RollbackAction::RemoveDirectoryIfCreated {
        scope: DirectoryScope::GeneratedInitramfs,
        path: "/usr/lib/bootart".to_string(),
    })
    .is_ok());
    assert!(validate_rollback_action(&RollbackAction::RemoveDirectoryIfCreated {
        scope: DirectoryScope::GeneratedInitramfs,
        path: "/usr/lib/bootart/".to_string(),
    })
    .is_err());
    assert!(validate_rollback_action(&RollbackAction::RestorePreChangeState {
        target: "/etc/x".to_string(),
        backup_path_template: "/var/lib/bootart/{transaction-id}/b".to_string(),
    })
    .is_ok());
}

#[test]
fn each_initramfs_adapter_has_its_generator() {
    assert_eq!(initramfs_safety_spec(AdapterId::DracutClassic).generator, GeneratorKind::Dracut);
    assert_eq!(
        initramfs_safety_spec(AdapterId::InitramfsToolsBusybox).generator,
        GeneratorKind::InitramfsTools
    );
    assert_eq!(initramfs_safety_spec(AdapterId::MkinitfsBusybox).adapter, AdapterId::MkinitfsBusybox);
    assert_eq!(DirectoryScope::RealRoot.stable_name(), "real_root");
    assert_eq!(BackupSubjectKind::ActivationLink.stable_name(), "activation_link");
    assert_eq!(ExpectedPreviousState::Absent.stable_name(), "absent");
}
