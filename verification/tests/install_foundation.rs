use bootart::adapter::{AdapterId, AdapterKind};
use bootart::error::InstallError;
use bootart::newc::{member_path_exec, parse_newc, relative_components_exec};
use bootart::root::{
    check_existing_node, check_root_identity, decide_root_identity, AlternateRoot, MetadataSource, NodeKind,
    NodeMetadata, RootPolicy,
};
use bootart::selection::{
    adapter_pairs, resolve_discovered, sort_dedup_candidates, AdapterDiscovery, AdapterRequest,
    AdapterSelection, AdapterSelectionReason, NoAdapterDiscovery, SupportPolicy,
};
use bootart::space::{
    aggregate_known_space_requirements_for_tests, check_known_space_requirements_for_tests,
};

fn directory(owner_uid: u32, mode: u32, inode: u64) -> NodeMetadata {
    NodeMetadata {
        kind: NodeKind::Directory,
        owner_uid,
        mode,
        device: 7,
        inode,
    }
}

/// Every directory is owned by uid 1000 with mode 0755; `/` has inode 2.
struct TestTree;

impl MetadataSource for TestTree {
    fn symlink_metadata(&self, path: &str) -> Result<NodeMetadata, String> {
        match path {
            "/" => Ok(directory(1000, 0o755, 2)),
            "/srv" => Ok(directory(1000, 0o755, 3)),
            "/srv/guest" => Ok(directory(1000, 0o755, 4)),
            "/srv/open" => Ok(directory(1000, 0o777, 5)),
            "/srv/alias" => Ok(directory(1000, 0o755, 2)),
            _ => Err(format!("no such node: {path}")),
        }
    }
}

fn guest_root() -> AlternateRoot {
    AlternateRoot::with_metadata("/srv/guest", &TestTree, RootPolicy::injected_for_tests(1000))
        .unwrap()
}

#[test]
fn alternate_root_accepts_an_owned_non_host_directory() {
    let root = guest_root();
    assert_eq!(root.as_path(), "/srv/guest");
}

#[test]
fn alternate_root_rejects_relative_host_parent_writable_and_aliased_roots() {
    let policy = RootPolicy::injected_for_tests(1000);
    for path in ["relative", "", "/", "//.", "/srv/../srv/guest", "/srv/open", "/srv/alias", "/srv/missing"] {
        assert!(AlternateRoot::with_metadata(path, &TestTree, policy).is_err(), "{path}");
    }
    assert!(AlternateRoot::with_metadata("/srv/guest", &TestTree, RootPolicy::production()).is_err());
}

#[test]
fn node_checks_name_the_broken_rule() {
    let policy = RootPolicy::injected_for_tests(0);
    let file = NodeMetadata {
        kind: NodeKind::File,
        owner_uid: 0,
        mode: 0o644,
        device: 1,
        inode: 9,
    };
    match check_existing_node("/x", Ok(file), policy, Some(NodeKind::Directory)) {
        Err(InstallError::UnsafePath { reason, .. }) => {
            assert_eq!(reason, "expected Directory, found File")
        }
        other => panic!("unexpected {other:?}"),
    }
    match check_existing_node("/x", Ok(NodeMetadata { owner_uid: 1000, ..file }), policy, None) {
        Err(InstallError::UnsafePath { reason, .. }) => {
            assert_eq!(reason, "owner uid 1000 does not match required uid 0")
        }
        other => panic!("unexpected {other:?}"),
    }
    match check_existing_node("/x", Ok(NodeMetadata { mode: 0o20, ..file }), policy, None) {
        Err(InstallError::UnsafePath { reason, .. }) => {
            assert_eq!(reason, "mode 0020 is group/world writable")
        }
        other => panic!("unexpected {other:?}"),
    }
    let symlink = NodeMetadata {
        kind: NodeKind::Symlink,
        mode: 0o777,
        ..file
    };
    assert_eq!(check_existing_node("/x", Ok(symlink), policy, None).unwrap(), symlink);
    assert!(matches!(
        check_existing_node("/x", Err("gone".into()), policy, None),
        Err(InstallError::Io { .. })
    ));
    assert!(check_root_identity("/x", directory(0, 0o755, 2), directory(0, 0o755, 2)).is_err());
    assert!(check_root_identity("/x", directory(0, 0o755, 3), directory(0, 0o755, 2)).is_ok());
}

struct FixedDiscovery(Vec<AdapterId>);

impl AdapterDiscovery for FixedDiscovery {
    fn candidates(&self, _root: &AlternateRoot, kind: AdapterKind) -> Result<Vec<AdapterId>, String> {
        Ok(self
            .0
            .iter()
            .copied()
            .filter(|id| bootart::adapter::adapter(*id).kind == kind)
            .collect())
    }
}

#[test]
fn explicit_experimental_pairs_need_the_explicit_policy() {
    let root = guest_root();
    let initramfs = AdapterRequest::Explicit(AdapterId::MkinitfsBusybox);
    let real_root = AdapterRequest::Explicit(AdapterId::OpenRcRealRoot);
    let selection = AdapterSelection::resolve(
        &root,
        initramfs,
        real_root,
        SupportPolicy::AllowExplicitExperimental,
        &NoAdapterDiscovery,
    )
    .unwrap();
    assert_eq!(selection.initramfs(), AdapterId::MkinitfsBusybox);
    assert_eq!(selection.real_root(), AdapterId::OpenRcRealRoot);
    assert_eq!(selection.initramfs_reason(), AdapterSelectionReason::ExplicitRequest);
    assert_eq!(selection.pair_metadata().proof_slug, "mkinitfs-openrc");
    assert!(matches!(
        AdapterSelection::resolve(&root, initramfs, real_root, SupportPolicy::ProvenOnly, &NoAdapterDiscovery),
        Err(InstallError::UnsupportedAdapterPair { .. })
    ));
    assert!(matches!(
        AdapterSelection::resolve(
            &root,
            AdapterRequest::Explicit(AdapterId::DracutSystemd),
            real_root,
            SupportPolicy::AllowExplicitExperimental,
            &NoAdapterDiscovery
        ),
        Err(InstallError::IncompatibleAdapterPair { .. })
    ));
    assert!(matches!(
        AdapterSelection::resolve(
            &root,
            AdapterRequest::Explicit(AdapterId::SystemdRealRoot),
            real_root,
            SupportPolicy::AllowExplicitExperimental,
            &NoAdapterDiscovery
        ),
        Err(InstallError::WrongAdapterKind { .. })
    ));
    assert_eq!(adapter_pairs().len(), 5);
}

#[test]
fn discovery_must_be_unique_and_is_never_enough_for_experimental_pairs() {
    let root = guest_root();
    let discovery = FixedDiscovery(vec![AdapterId::MkinitfsBusybox, AdapterId::OpenRcRealRoot]);
    assert!(matches!(
        AdapterSelection::resolve(
            &root,
            AdapterRequest::Discover,
            AdapterRequest::Discover,
            SupportPolicy::AllowExplicitExperimental,
            &discovery
        ),
        Err(InstallError::UnsupportedAdapterPair { .. })
    ));
    assert!(matches!(
        AdapterSelection::resolve(
            &root,
            AdapterRequest::Discover,
            AdapterRequest::Explicit(AdapterId::OpenRcRealRoot),
            SupportPolicy::AllowExplicitExperimental,
            &NoAdapterDiscovery
        ),
        Err(InstallError::AdapterNotDetected { kind: AdapterKind::InitramfsRuntime })
    ));
    let duplicated = vec![AdapterId::OpenRcRealRoot, AdapterId::DracutClassic, AdapterId::OpenRcRealRoot];
    assert_eq!(
        sort_dedup_candidates(&duplicated),
        vec![AdapterId::DracutClassic, AdapterId::OpenRcRealRoot]
    );
    match resolve_discovered(AdapterKind::RealRootSupervisor, Ok(duplicated)) {
        Err(InstallError::AmbiguousAdapters { candidates, .. }) => {
            assert_eq!(candidates, vec![AdapterId::DracutClassic, AdapterId::OpenRcRealRoot])
        }
        other => panic!("unexpected {other:?}"),
    }
    assert_eq!(
        resolve_discovered(AdapterKind::RealRootSupervisor, Ok(vec![AdapterId::OpenRcRealRoot; 3]))
            .unwrap(),
        (AdapterId::OpenRcRealRoot, AdapterSelectionReason::UniqueDiscovery)
    );
    assert!(matches!(
        resolve_discovered(AdapterKind::RealRootSupervisor, Err("probe failed".into())),
        Err(InstallError::DiscoveryFailed(message)) if message == "probe failed"
    ));
}

#[test]
fn known_space_is_grouped_per_device_in_device_order() {
    let grouped = aggregate_known_space_requirements_for_tests(&[
        (9, 5000, 100, 10),
        (3, 800, 50, 70),
        (9, 4000, 200, 30),
    ])
    .unwrap();
    assert_eq!(grouped, vec![(3, 120, 800), (9, 330, 4000)]);
    assert!(aggregate_known_space_requirements_for_tests(&[]).unwrap().is_empty());
    assert!(matches!(
        aggregate_known_space_requirements_for_tests(&[(1, 10, u64::MAX, 0), (1, 10, 1, 0)]),
        Err(InstallError::InvalidPlan(_))
    ));
    assert!(matches!(
        aggregate_known_space_requirements_for_tests(&[(1, 10, u64::MAX, 1)]),
        Err(InstallError::InvalidPlan(_))
    ));
}

#[test]
fn known_space_check_refuses_the_first_short_filesystem() {
    assert_eq!(
        check_known_space_requirements_for_tests(&[(4, 100, 60, 40)]).unwrap(),
        vec![(4, 100, 100)]
    );
    match check_known_space_requirements_for_tests(&[(12, 10, 60, 40), (4, 99, 60, 40)]) {
        Err(InstallError::InsufficientFreeSpace {
            path,
            required,
            available,
        }) => {
            assert_eq!(path, "/test-filesystem-4");
            assert_eq!(required, 100);
            assert_eq!(available, 99);
        }
        other => panic!("unexpected {other:?}"),
    }
}

fn newc_record(archive: &mut Vec<u8>, name: &str, mode: u32, bytes: &[u8]) {
    let header = format!(
        "070701{:08x}{:08x}{:08x}{:08x}{:08x}{:08x}{:08x}{:08x}{:08x}{:08x}{:08x}{:08x}{:08x}",
        1,
        mode,
        0,
        0,
        1,
        0,
        bytes.len(),
        0,
        0,
        0,
        0,
        name.len() + 1,
        0
    );
    archive.extend_from_slice(header.as_bytes());
    archive.extend_from_slice(name.as_bytes());
    archive.push(0);
    archive.resize((archive.len() + 3) & !3, 0);
    archive.extend_from_slice(bytes);
    archive.resize((archive.len() + 3) & !3, 0);
}

#[test]
fn newc_streams_need_a_trailer_and_allow_only_zero_padding_after_it() {
    let mut archive = Vec::new();
    newc_record(&mut archive, "./etc/x", 0o100644, b"abc");
    let mut without_trailer = archive.clone();
    newc_record(&mut archive, "TRAILER!!!", 0, b"");
    archive.extend_from_slice(&[0; 512]);
    let entries = parse_newc(&archive).unwrap();
    assert_eq!(entries.len(), 1);
    assert_eq!(entries[0].name, "./etc/x");
    assert_eq!(entries[0].mode, 0o100644);
    assert_eq!(&archive[entries[0].data_start..entries[0].data_start + entries[0].data_len], b"abc");
    assert!(parse_newc(&without_trailer).is_none());
    newc_record(&mut without_trailer, "TRAILER!!!", 0, b"");
    newc_record(&mut without_trailer, "late", 0o100644, b"");
    assert!(parse_newc(&without_trailer).is_none());
    let mut plus_sign = Vec::new();
    newc_record(&mut plus_sign, "a", 0o100644, b"");
    plus_sign[14] = b'+';
    newc_record(&mut plus_sign, "TRAILER!!!", 0, b"");
    assert_eq!(parse_newc(&plus_sign).unwrap()[0].mode, 0o100644);
    let mut minus_sign = plus_sign.clone();
    minus_sign[14] = b'-';
    assert!(parse_newc(&minus_sign).is_none());
}

#[test]
fn member_paths_follow_relative_path_components() {
    assert_eq!(relative_components_exec("a//b/./c/").unwrap(), "a/b/c");
    assert!(relative_components_exec("./a").is_none());
    assert!(relative_components_exec("a/../b").is_none());
    assert!(relative_components_exec("/a").is_none());
    assert!(relative_components_exec("").is_none());
    assert_eq!(member_path_exec(".", false).unwrap(), "");
    assert_eq!(member_path_exec(".", true).unwrap(), ".");
    assert_eq!(member_path_exec("./usr/bin/x", true).unwrap(), "usr/bin/x");
    assert!(member_path_exec("./.", true).is_none());
    assert_eq!(member_path_exec("./.", false).unwrap(), "");
}

#[test]
fn root_prefixes_walk_normal_components_and_stop_at_parent() {
    let (prefixes, stopped) = bootart::root::root_prefixes("/srv//./guest/");
    assert_eq!(prefixes, vec!["/srv".to_string(), "/srv/guest".to_string()]);
    assert!(!stopped);
    let (prefixes, stopped) = bootart::root::root_prefixes("/srv/../etc");
    assert_eq!(prefixes, vec!["/srv".to_string()]);
    assert!(stopped);
}

#[test]
fn root_identity_decision_names_each_failure() {
    let node = |device, inode| NodeMetadata {
        kind: NodeKind::Directory,
        owner_uid: 0,
        mode: 0o755,
        device,
        inode,
    };
    assert!(decide_root_identity("/srv/guest", Ok(node(1, 2)), Ok(node(1, 3))).is_ok());
    match decide_root_identity("/srv/guest", Ok(node(1, 2)), Ok(node(1, 2))) {
        Err(InstallError::InvalidAlternateRoot { reason, .. }) => {
            assert_eq!(reason, "alternate root aliases the running host root identity")
        }
        _ => panic!("aliasing root accepted"),
    }
    match decide_root_identity("/srv/guest", Err("gone".into()), Ok(node(1, 2))) {
        Err(InstallError::Io { action, path, .. }) => {
            assert_eq!(action, "inspect alternate root identity");
            assert_eq!(path, "/srv/guest");
        }
        _ => panic!("missing root accepted"),
    }
    match decide_root_identity("/srv/guest", Ok(node(1, 2)), Err("gone".into())) {
        Err(InstallError::Io { path, .. }) => assert_eq!(path, "/"),
        _ => panic!("missing host root accepted"),
    }
}

#[test]
fn explicit_real_root_of_the_wrong_kind_is_refused_after_discovery() {
    let root = guest_root();
    let discovery = FixedDiscovery(vec![AdapterId::DracutSystemd, AdapterId::SystemdRealRoot]);
    assert!(matches!(
        AdapterSelection::resolve(
            &root,
            AdapterRequest::Discover,
            AdapterRequest::Explicit(AdapterId::MkinitfsBusybox),
            SupportPolicy::AllowExplicitExperimental,
            &discovery
        ),
        Err(InstallError::WrongAdapterKind { id: AdapterId::MkinitfsBusybox, .. })
    ));
}
