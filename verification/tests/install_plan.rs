use bootart::adapter::AdapterId;
use bootart::error::InstallError;
use bootart::install_plan::{
    build_install_plan_from_bytes, manifest_matches_plan, safety_records_for_plan, validate_plan,
    SAFETY_EXECUTION_BLOCKER,
};
use bootart::manifest::{Manifest, ManifestEntry, ManifestInventoryState};
use bootart::state::Preimage;
use bootart::operations::{activation_operations_for_selection, managed_snippet_operations_for_selection};
use bootart::plan::build_payload_operations;
use bootart::root::{AlternateRoot, MetadataSource, NodeKind, NodeMetadata, RootPolicy};
use bootart::safety::{
    DirectoryScope, InspectionKind, PlannedValue, PreviewExecutionState, RollbackAction, SafetyRecord,
};
use bootart::selection::{AdapterSelection, AdapterSelectionReason, SupportPolicy};

fn elf() -> Vec<u8> {
    let mut elf = vec![0_u8; 120];
    let length = elf.len() as u64;
    elf[0..4].copy_from_slice(b"\x7fELF");
    elf[4] = 2;
    elf[5] = 1;
    elf[6] = 1;
    elf[16..18].copy_from_slice(&2_u16.to_le_bytes());
    elf[18..20].copy_from_slice(&62_u16.to_le_bytes());
    elf[20..24].copy_from_slice(&1_u32.to_le_bytes());
    elf[24..32].copy_from_slice(&0x400000_u64.to_le_bytes());
    elf[32..40].copy_from_slice(&64_u64.to_le_bytes());
    elf[52..54].copy_from_slice(&64_u16.to_le_bytes());
    elf[54..56].copy_from_slice(&56_u16.to_le_bytes());
    elf[56..58].copy_from_slice(&1_u16.to_le_bytes());
    elf[64..68].copy_from_slice(&1_u32.to_le_bytes());
    elf[68..72].copy_from_slice(&5_u32.to_le_bytes());
    elf[80..88].copy_from_slice(&0x400000_u64.to_le_bytes());
    elf[88..96].copy_from_slice(&0x400000_u64.to_le_bytes());
    elf[96..104].copy_from_slice(&length.to_le_bytes());
    elf[104..112].copy_from_slice(&length.to_le_bytes());
    elf[112..120].copy_from_slice(&0x1000_u64.to_le_bytes());
    elf
}

fn select(initramfs: AdapterId, real_root: AdapterId) -> AdapterSelection {
    AdapterSelection::select_pair(
        (initramfs, AdapterSelectionReason::ExplicitRequest),
        (real_root, AdapterSelectionReason::ExplicitRequest),
        SupportPolicy::AllowExplicitExperimental,
    )
    .unwrap()
}

fn directory(inode: u64) -> NodeMetadata {
    NodeMetadata { kind: NodeKind::Directory, owner_uid: 1000, mode: 0o755, device: 7, inode }
}

struct Tree;

impl MetadataSource for Tree {
    fn symlink_metadata(&self, path: &str) -> Result<NodeMetadata, String> {
        match path {
            "/" => Ok(directory(2)),
            "/srv" => Ok(directory(3)),
            "/srv/guest" => Ok(directory(4)),
            _ => Err(format!("no such node: {path}")),
        }
    }
}

fn guest_root() -> AlternateRoot {
    AlternateRoot::with_metadata("/srv/guest", &Tree, RootPolicy::injected_for_tests(1000)).unwrap()
}

const PAIRS: [(AdapterId, AdapterId); 5] = [
    (AdapterId::DracutSystemd, AdapterId::SystemdRealRoot),
    (AdapterId::InitramfsToolsBusybox, AdapterId::SystemdRealRoot),
    (AdapterId::MkinitcpioBusybox, AdapterId::SystemdRealRoot),
    (AdapterId::DracutClassic, AdapterId::OpenRcRealRoot),
    (AdapterId::MkinitfsBusybox, AdapterId::OpenRcRealRoot),
];

#[test]
fn every_exact_pair_builds_a_valid_locked_preview() {
    for (initramfs, real_root) in PAIRS {
        let plan = build_install_plan_from_bytes(&guest_root(), select(initramfs, real_root), &elf()).unwrap();
        assert_eq!(plan.root(), "/srv/guest");
        assert!(!plan.actionable());
        assert!(!plan.safety_record_execution_supported());
        assert!(plan.operations().iter().any(|op| op.path() == "/usr/bin/bootart"));
        assert!(validate_plan(&plan).is_ok());
    }
}

#[test]
fn plan_refuses_a_foreign_elf() {
    let mut bytes = elf();
    bytes[18] = 0xb7;
    let selection = select(AdapterId::MkinitfsBusybox, AdapterId::OpenRcRealRoot);
    assert!(matches!(
        build_install_plan_from_bytes(&guest_root(), selection, &bytes),
        Err(InstallError::InvalidBootartElf(_))
    ));
}

#[test]
fn safety_records_follow_the_preview_order() {
    let selection = select(AdapterId::MkinitfsBusybox, AdapterId::OpenRcRealRoot);
    let ops = build_payload_operations("/srv/guest", selection, &elf()).unwrap();
    let snippets = managed_snippet_operations_for_selection(selection);
    let links = activation_operations_for_selection(selection).unwrap();
    let records = safety_records_for_plan(selection, &ops, &snippets, &links);
    let first_generator = records.iter().position(|r| matches!(r, SafetyRecord::Generator { .. })).unwrap();
    assert!(records[..first_generator]
        .iter()
        .all(|r| matches!(r, SafetyRecord::RequiredDirectory { .. })));
    assert!(matches!(records[first_generator + 1], SafetyRecord::CandidateImage { separately_named: true, .. }));
    assert!(matches!(records[first_generator + 2], SafetyRecord::KnownGood { untouched: true, .. }));
    let inspections: Vec<&SafetyRecord> = records
        .iter()
        .filter(|r| matches!(r, SafetyRecord::PostGenerationInspection { .. }))
        .collect();
    assert_eq!(inspections.len(), 6);
    match inspections[2] {
        SafetyRecord::PostGenerationInspection { order, check: InspectionKind::StaticBootartElf { path, .. }, .. } => {
            assert_eq!(*order, 3);
            assert_eq!(path, "/usr/bin/bootart");
        },
        other => panic!("unexpected record {other:?}"),
    }
    let rollbacks: Vec<&SafetyRecord> = records
        .iter()
        .filter(|r| matches!(r, SafetyRecord::Rollback { .. }))
        .collect();
    match rollbacks[0] {
        SafetyRecord::Rollback { order: 1, action: RollbackAction::RemoveCandidateIfCreated { path }, execution } => {
            assert!(matches!(path, PlannedValue::Unresolved { .. }));
            assert_eq!(*execution, PreviewExecutionState::Blocked { blocker: SAFETY_EXECUTION_BLOCKER });
        },
        other => panic!("unexpected record {other:?}"),
    }
    for (index, record) in rollbacks.iter().enumerate() {
        match record {
            SafetyRecord::Rollback { order, .. } => assert_eq!(*order as usize, index + 1),
            _ => unreachable!(),
        }
    }
    let removed: Vec<&str> = rollbacks
        .iter()
        .filter_map(|r| match r {
            SafetyRecord::Rollback {
                action: RollbackAction::RemoveDirectoryIfCreated { scope: DirectoryScope::RealRoot, path },
                ..
            } => Some(path.as_str()),
            _ => None,
        })
        .collect();
    assert!(!removed.is_empty());
    for pair in removed.windows(2) {
        let depth = |p: &str| p.matches('/').count();
        assert!(depth(pair[0]) > depth(pair[1]) || (depth(pair[0]) == depth(pair[1]) && pair[0] > pair[1]));
    }
    assert_eq!(removed.last().copied(), Some("/etc"));
    let restores = rollbacks
        .iter()
        .filter(|r| matches!(r, SafetyRecord::Rollback { action: RollbackAction::RestorePreChangeState { .. }, .. }))
        .count();
    let backups = records.iter().filter(|r| matches!(r, SafetyRecord::PlannedBackup { .. })).count();
    assert_eq!(restores, backups);
    assert_eq!(records.len(), first_generator + 3 + backups + 6 + 1 + backups + removed.len());
}

#[test]
fn plan_identity_is_deterministic_and_binds_the_binary() {
    let selection = select(AdapterId::DracutSystemd, AdapterId::SystemdRealRoot);
    let first = build_install_plan_from_bytes(&guest_root(), selection, &elf()).unwrap();
    let second = build_install_plan_from_bytes(&guest_root(), selection, &elf()).unwrap();
    assert_eq!(first.identity(), second.identity());
    let mut other = elf();
    other.push(0);
    let length = other.len() as u64;
    other[96..104].copy_from_slice(&length.to_le_bytes());
    other[104..112].copy_from_slice(&length.to_le_bytes());
    let third = build_install_plan_from_bytes(&guest_root(), selection, &other).unwrap();
    assert_ne!(first.identity(), third.identity());
}

#[test]
fn machine_json_names_the_locked_preview_and_its_identity() {
    let plan = build_install_plan_from_bytes(
        &guest_root(),
        select(AdapterId::MkinitfsBusybox, AdapterId::OpenRcRealRoot),
        &elf(),
    )
    .unwrap();
    let json = plan.render_machine_json();
    let prefix = format!(
        "{{\"schema\":\"bootart.install-plan\",\"version\":3,\"resource_set_version\":1,\"plan_id\":\"{}\",\"actionable\":false,\"mutation\":\"locked\",\"blockers\":[\"shared-file edit semantics",
        bootart::codec::digest_hex(plan.identity())
    );
    assert!(json.starts_with(&prefix), "{json}");
    assert!(json.contains("\"root\":\"/srv/guest\",\"adapters\":[\""));
    assert!(json.contains("\"selection_reasons\":[\"explicit_request\",\"explicit_request\"]"));
    assert!(json.contains("\"proof_gates\":[\"make vm-test-lifecycle-mkinitfs-openrc\",\"make vm-test-install-mkinitfs-openrc\",\"make vm-test-password-mkinitfs-openrc\"]"));
    assert!(json.contains("{\"kind\":\"write_file\",\"path\":\"/usr/bin/bootart\",\"mode\":493,\"owner_uid\":0,\"sha256\":\""));
    assert!(json.ends_with("]}"));
    assert_eq!(plan.blockers().len(), 8);
    assert_eq!(plan.schema_version(), 3);
}

#[test]
fn human_preview_numbers_every_operation() {
    let plan = build_install_plan_from_bytes(
        &guest_root(),
        select(AdapterId::MkinitfsBusybox, AdapterId::OpenRcRealRoot),
        &elf(),
    )
    .unwrap();
    let text = plan.render_human();
    let header = format!(
        "bootart install preview v3\nstatus: PREVIEW ONLY\nmutation: LOCKED\nresource-set: 1\nplan-id: {}\nroot: /srv/guest\nblockers:\n  - shared-file edit semantics",
        bootart::codec::digest_hex(plan.identity())
    );
    assert!(text.starts_with(&header), "{text}");
    assert!(text.contains("exact-pair-proof-gates:\n  - make vm-test-lifecycle-mkinitfs-openrc\n"));
    assert!(text.contains("  001 write "));
    assert!(text.contains(" mode=0755 owner=0 sha256="));
    let total = plan.operations().len() + plan.managed_snippet_operations().len() + plan.activation_operations().len();
    assert!(text.contains(&format!("  {:03} ", total)));
    assert!(!text.contains(&format!("  {:03} ", total + 1)));
    assert!(text.contains("\nsafety-records:\n  - "));
}

#[test]
fn manifest_matches_only_a_complete_record_of_every_payload() {
    let plan = build_install_plan_from_bytes(
        &guest_root(),
        select(AdapterId::DracutSystemd, AdapterId::SystemdRealRoot),
        &elf(),
    )
    .unwrap();
    let entries: Vec<ManifestEntry> = plan
        .operations()
        .iter()
        .map(|op| ManifestEntry::File {
            path: op.path().to_string(),
            installed_mode: op.mode(),
            installed_digest: op.digest(),
            original: Preimage::Absent,
        })
        .collect();
    let mut manifest = Manifest {
        transaction: "tx-1".to_string(),
        plan_version: 3,
        resource_set_version: 1,
        inventory_state: ManifestInventoryState::Complete,
        adapters: vec![AdapterId::DracutSystemd, AdapterId::SystemdRealRoot],
        entries,
        created_dirs: vec![],
        state_created_dirs: vec![],
    };
    assert!(manifest_matches_plan(&manifest, &plan));
    manifest.inventory_state = ManifestInventoryState::Partial;
    assert!(!manifest_matches_plan(&manifest, &plan));
    manifest.inventory_state = ManifestInventoryState::Complete;
    manifest.entries.pop();
    assert!(!manifest_matches_plan(&manifest, &plan));
}
