use bootart::adapter::AdapterId;
use bootart::digest::sha256;
use bootart::error::InstallError;
use bootart::generator::{GeneratorKind, GeneratorRequest};
use bootart::install_engine::{
    destination_check, fresh_destination_check, install_actions, journal_entries, uninstall_report,
    CapturedPreimage, FreshRefusal, InstallAction,
};
use bootart::install_plan::build_install_plan;
use bootart::installer::{Installer, NoFaults, RejectCommands};
use bootart::journal::EntryProgress;
use bootart::manifest::ManifestEntry;
use bootart::root::{accept_root_observations, AlternateRoot, MetadataSource, NodeKind, NodeMetadata, RootPolicy};
use bootart::selection::{AdapterSelection, AdapterSelectionReason, SupportPolicy};
use bootart::space::{aggregate_known_space_requirements_for_tests, check_known_space_requirements_for_tests};
use bootart::state::Preimage;
use bootart::status::{FileStatusState, InstalledFileStatus};

fn elf() -> Vec<u8> {
    let mut elf = vec![0_u8; 120];
    let length = elf.len() as u64;
    elf[0..4].copy_from_slice(b"\x7fELF");
    elf[4] = 2;
    elf[5] = 1;
    elf[6] = 1;
    elf[16..18].copy_from_slice(&2_u16.to_le_bytes());
    elf[18..20].copy_from_slice(&62_u16.to_le_bytes());
    elf[20..24].copy_from_slice(&1_u32.to_le_bytes());
    elf[24..32].copy_from_slice(&0x400000_u64.to_le_bytes());
    elf[32..40].copy_from_slice(&64_u64.to_le_bytes());
    elf[52..54].copy_from_slice(&64_u16.to_le_bytes());
    elf[54..56].copy_from_slice(&56_u16.to_le_bytes());
    elf[56..58].copy_from_slice(&1_u16.to_le_bytes());
    elf[64..68].copy_from_slice(&1_u32.to_le_bytes());
    elf[68..72].copy_from_slice(&5_u32.to_le_bytes());
    elf[80..88].copy_from_slice(&0x400000_u64.to_le_bytes());
    elf[88..96].copy_from_slice(&0x400000_u64.to_le_bytes());
    elf[96..104].copy_from_slice(&length.to_le_bytes());
    elf[104..112].copy_from_slice(&length.to_le_bytes());
    elf[112..120].copy_from_slice(&0x1000_u64.to_le_bytes());
    elf
}

fn select(initramfs: AdapterId, real_root: AdapterId) -> AdapterSelection {
    AdapterSelection::select_pair(
        (initramfs, AdapterSelectionReason::ExplicitRequest),
        (real_root, AdapterSelectionReason::ExplicitRequest),
        SupportPolicy::AllowExplicitExperimental,
    )
    .unwrap()
}

fn directory(inode: u64) -> NodeMetadata {
    NodeMetadata { kind: NodeKind::Directory, owner_uid: 1000, mode: 0o755, device: 7, inode }
}

struct Tree;

impl MetadataSource for Tree {
    fn symlink_metadata(&self, path: &str) -> Result<NodeMetadata, String> {
        match path {
            "/" => Ok(directory(2)),
            "/srv" => Ok(directory(3)),
            "/srv/guest" => Ok(directory(4)),
            _ => Err(format!("no such node: {path}")),
        }
    }
}

fn guest_root() -> AlternateRoot {
    AlternateRoot::with_metadata("/srv/guest", &Tree, RootPolicy::injected_for_tests(1000)).unwrap()
}

fn file_status(path: &str, state: FileStatusState) -> InstalledFileStatus {
    InstalledFileStatus { path: path.to_string(), expected_digest: sha256(b""), expected_mode: 0o644, state }
}

#[test]
fn install_actions_are_sorted_and_carry_the_payload_digest() {
    let bytes = elf();
    let plan = build_install_plan(
        &guest_root(),
        select(AdapterId::DracutSystemd, AdapterId::SystemdRealRoot),
        &bytes,
    )
    .unwrap();
    let actions = install_actions(&plan, &Vec::new()).unwrap();
    assert!(!actions.is_empty());
    for pair in actions.windows(2) {
        assert!(pair[0].path() < pair[1].path());
    }
    let bootart = actions.iter().find(|a| a.path() == "/usr/bin/bootart").unwrap();
    match bootart {
        InstallAction::File { mode, digest, content, .. } => {
            assert_eq!(*mode, 0o755);
            assert_eq!(*digest, sha256(&bytes));
            assert_eq!(content, &bytes);
        },
        other => panic!("unexpected action {other:?}"),
    }
    assert_eq!(
        actions.iter().filter(|a| matches!(a, InstallAction::File { .. })).count(),
        plan.operations().len()
    );
}

#[test]
fn install_actions_need_a_source_for_each_managed_file() {
    let plan = build_install_plan(
        &guest_root(),
        select(AdapterId::MkinitfsBusybox, AdapterId::OpenRcRealRoot),
        &elf(),
    )
    .unwrap();
    assert!(!plan.managed_snippet_operations().is_empty());
    assert!(matches!(install_actions(&plan, &Vec::new()), Err(InstallError::InvalidPlan(_))));
}

#[test]
fn build_install_plan_reports_the_elf_refusal() {
    let mut bytes = elf();
    bytes[18] = 0xb7;
    let selection = select(AdapterId::MkinitfsBusybox, AdapterId::OpenRcRealRoot);
    assert!(matches!(
        build_install_plan(&guest_root(), selection, &bytes),
        Err(InstallError::InvalidBootartElf(_))
    ));
}

#[test]
fn journal_entries_number_their_backups_from_the_first_index() {
    let captured = vec![
        CapturedPreimage::Absent { path: "/a".to_string() },
        CapturedPreimage::File { path: "/b".to_string(), mode: 0o644, bytes: b"x".to_vec() },
        CapturedPreimage::Symlink { path: "/c".to_string(), target: "t".to_string() },
    ];
    let entries = journal_entries("tx", &captured, 2);
    assert_eq!(entries.len(), 3);
    assert_eq!(entries[0].path, "/a");
    assert_eq!(entries[0].preimage, Preimage::Absent);
    assert_eq!(
        entries[1].preimage,
        Preimage::File { mode: 0o644, digest: sha256(b"x"), backup: "transactions/tx/backup-000003".to_string() }
    );
    assert_eq!(entries[2].preimage, Preimage::Symlink { target: "t".to_string() });
    assert!(entries.iter().all(|e| e.progress == EntryProgress::Planned));
}

#[test]
fn destination_check_lists_file_collisions_and_refuses_other_nodes() {
    let file = |path: &str| InstallAction::File {
        path: path.to_string(),
        mode: 0o644,
        digest: sha256(b""),
        content: Vec::new(),
    };
    let actions = vec![
        file("/a"),
        file("/b"),
        InstallAction::Symlink { path: "/c".to_string(), target: "t".to_string() },
    ];
    assert_eq!(
        destination_check(&actions, &vec![None, Some(NodeKind::File), Some(NodeKind::Directory)]),
        Ok(vec!["/b".to_string()])
    );
    assert_eq!(destination_check(&actions, &vec![None, Some(NodeKind::Directory), None]), Err(1));
    let patched = vec![InstallAction::PatchedFile {
        path: "/init".to_string(),
        mode: 0o755,
        digest: sha256(b""),
        content: Vec::new(),
    }];
    assert_eq!(destination_check(&patched, &vec![None]), Err(0));
    assert_eq!(destination_check(&patched, &vec![Some(NodeKind::File)]), Ok(Vec::new()));
}

#[test]
fn uninstall_report_splits_exact_paths_by_their_recorded_preimage() {
    let entries = vec![
        ManifestEntry::File {
            path: "/a".to_string(),
            installed_mode: 0o644,
            installed_digest: sha256(b""),
            original: Preimage::Absent,
        },
        ManifestEntry::File {
            path: "/b".to_string(),
            installed_mode: 0o644,
            installed_digest: sha256(b""),
            original: Preimage::File { mode: 0o600, digest: sha256(b"old"), backup: "backup".to_string() },
        },
        ManifestEntry::Symlink {
            path: "/c".to_string(),
            installed_target: "t".to_string(),
            original: Preimage::Absent,
        },
    ];
    let files = vec![
        file_status("/a", FileStatusState::Exact),
        file_status("/b", FileStatusState::Exact),
        file_status("/c", FileStatusState::Missing),
    ];
    let report = uninstall_report(&entries, &files, &vec!["/var/lib/bootart".to_string()]);
    assert_eq!(report.removed, vec!["/a".to_string()]);
    assert_eq!(report.restored, vec!["/b".to_string()]);
    assert_eq!(report.preserved_modified, vec!["/c".to_string()]);
    assert_eq!(report.preserved_directories, vec!["/var/lib/bootart".to_string()]);
}

#[test]
fn installer_test_components_are_unlocked_and_production_is_locked() {
    let policy = RootPolicy::injected_for_tests(1000);
    let unlocked = Installer::with_test_components("/srv/guest", Tree, policy, RejectCommands, NoFaults).unwrap();
    assert_eq!(unlocked.root().as_path(), "/srv/guest");
    assert!(unlocked.require_mutation_unlocked().is_ok());
    let locked =
        Installer::with_locked_test_components("/srv/guest", Tree, policy, RejectCommands, NoFaults).unwrap();
    assert!(matches!(locked.require_mutation_unlocked(), Err(InstallError::MutationLocked)));
    assert!(matches!(
        Installer::production("relative", Tree),
        Err(InstallError::InvalidAlternateRoot { .. })
    ));
}

#[test]
fn installer_refuses_every_generator() {
    let mut installer = Installer::with_test_components(
        "/srv/guest",
        Tree,
        RootPolicy::injected_for_tests(1000),
        RejectCommands,
        NoFaults,
    )
    .unwrap();
    let request = GeneratorRequest {
        generator: GeneratorKind::Dracut,
        executable: "/usr/bin/dracut".to_string(),
        alternate_root: "/srv/guest".to_string(),
        working_directory: None,
        arguments: Vec::new(),
        clear_environment: true,
    };
    assert!(matches!(
        installer.run_generator(&request),
        Err(InstallError::GeneratorsUnsupported { generator: GeneratorKind::Dracut })
    ));
}

#[test]
fn root_observations_need_every_prefix_and_a_distinct_identity() {
    let policy = RootPolicy::injected_for_tests(1000);
    let prefixes = vec![Ok(directory(3)), Ok(directory(4))];
    let root = accept_root_observations(
        "/srv/guest",
        policy,
        &prefixes,
        Ok(directory(4)),
        Ok(directory(2)),
        Ok(directory(4)),
    )
    .unwrap();
    assert_eq!(root.as_path(), "/srv/guest");
    assert!(matches!(
        accept_root_observations("/srv/guest", policy, &prefixes, Ok(directory(2)), Ok(directory(2)), Ok(directory(2))),
        Err(InstallError::InvalidAlternateRoot { .. })
    ));
    assert!(accept_root_observations(
        "/srv/guest",
        policy,
        &vec![Ok(directory(3))],
        Ok(directory(4)),
        Ok(directory(2)),
        Ok(directory(4)),
    )
    .is_err());
    let writable = NodeMetadata { mode: 0o777, ..directory(3) };
    assert!(matches!(
        accept_root_observations(
            "/srv/guest",
            policy,
            &vec![Ok(writable), Ok(directory(4))],
            Ok(directory(4)),
            Ok(directory(2)),
            Ok(directory(4)),
        ),
        Err(InstallError::UnsafePath { .. })
    ));
}

#[test]
fn space_check_returns_the_aggregation_when_everything_fits() {
    let observations = [(1_u64, 100_u64, 10_u64, 10_u64), (2, 50, 5, 0), (1, 90, 3, 3)];
    let grouped = aggregate_known_space_requirements_for_tests(&observations).unwrap();
    let checked = check_known_space_requirements_for_tests(&observations).unwrap();
    assert_eq!(grouped, checked);
}

#[test]
fn plans_for_different_roots_have_different_identities() {
    let selection = select(AdapterId::DracutSystemd, AdapterId::SystemdRealRoot);
    let bytes = elf();
    let guest = build_install_plan(&guest_root(), selection, &bytes).unwrap();
    let again = build_install_plan(&guest_root(), selection, &bytes).unwrap();
    let other_root = AlternateRoot::with_metadata("/srv", &Tree, RootPolicy::injected_for_tests(1000)).unwrap();
    let other = build_install_plan(&other_root, selection, &bytes).unwrap();
    assert_eq!(guest.identity(), again.identity());
    assert_ne!(guest.identity(), other.identity());
}

#[test]
fn fresh_preflight_reports_collisions_in_path_order_once() {
    let plan = build_install_plan(
        &guest_root(),
        select(AdapterId::DracutSystemd, AdapterId::SystemdRealRoot),
        &elf(),
    )
    .unwrap();
    let ops = plan.operations().len();
    let links = plan.activation_operations().len();
    assert_eq!(fresh_destination_check(&plan, &vec![None; ops], &vec![false; links], false), Ok(()));
    assert_eq!(
        fresh_destination_check(&plan, &vec![None; ops], &vec![false; links], true),
        Err(FreshRefusal::Collisions(vec!["/usr/bin/bootart-init".to_string()]))
    );
    let mut kinds = vec![Some(NodeKind::File); ops];
    let mut expected: Vec<String> = plan.operations().iter().map(|op| op.path().to_string()).collect();
    expected.push("/usr/bin/bootart-init".to_string());
    expected.sort();
    expected.dedup();
    assert_eq!(
        fresh_destination_check(&plan, &kinds, &vec![false; links], true),
        Err(FreshRefusal::Collisions(expected))
    );
    kinds[ops - 1] = Some(NodeKind::Directory);
    assert_eq!(
        fresh_destination_check(&plan, &kinds, &vec![false; links], false),
        Err(FreshRefusal::UnsafePayload { index: ops - 1 })
    );
}
