use bootart::adapter::AdapterId;
use bootart::codec::parse_version;
use bootart::digest::sha256;
use bootart::error::InstallError;
use bootart::manifest::{
    parse_manifest, path_lt_exec, serialize_manifest, validate_complete_current_manifest_inventory,
    validate_current_manifest_entry, validate_current_manifest_inventory,
    validate_partial_current_manifest_inventory, ExpectedManifestEntry, Manifest, ManifestEntry,
    ManifestInventoryState,
};
use bootart::state::Preimage;

const ABC_DIGEST: &str = "ba7816bf8f01cfea414140de5dae2223b00361a396177a9cb410ff61f20015ad";
const QUIT_LINK: &str = "/etc/systemd/system/multi-user.target.wants/bootart-quit.service";
const QUIT_TARGET: &str = "../../../../usr/lib/systemd/system/bootart-quit.service";

fn binary_entry() -> ManifestEntry {
    ManifestEntry::File {
        path: "/usr/bin/bootart".to_string(),
        installed_mode: 0o755,
        installed_digest: sha256(b"abc"),
        original: Preimage::Absent,
    }
}

fn link_entry() -> ManifestEntry {
    ManifestEntry::Symlink {
        path: QUIT_LINK.to_string(),
        installed_target: QUIT_TARGET.to_string(),
        original: Preimage::Absent,
    }
}

fn manifest() -> Manifest {
    Manifest {
        transaction: "tx-1".to_string(),
        plan_version: 3,
        resource_set_version: 1,
        inventory_state: ManifestInventoryState::Complete,
        adapters: vec![AdapterId::DracutSystemd, AdapterId::SystemdRealRoot],
        entries: vec![link_entry(), binary_entry()],
        created_dirs: vec![],
        state_created_dirs: vec!["/var/lib/bootart".to_string()],
    }
}

fn text() -> String {
    format!(
        "BOOTART-MANIFEST\t2\ntransaction\ttx-1\nplan-version\t3\nresource-set-version\t1\ninventory-state\tcomplete\nadapter\tdracut-systemd\nadapter\tsystemd-real-root\nstate-created-dir\t2f7661722f6c69622f626f6f74617274\nsymlink\t{}\t{}\tabsent\t-\t-\t-\nfile\t2f7573722f62696e2f626f6f74617274\t755\t{ABC_DIGEST}\tabsent\t-\t-\t-\n",
        "2f6574632f73797374656d642f73797374656d2f6d756c74692d757365722e7461726765742e77616e74732f626f6f746172742d717569742e73657276696365",
        "2e2e2f2e2e2f2e2e2f2e2e2f7573722f6c69622f73797374656d642f73797374656d2f626f6f746172742d717569742e73657276696365",
    )
}

fn corrupt(bytes: &[u8]) -> bool {
    matches!(parse_manifest(bytes), Err(InstallError::CorruptManifest(_)))
}

#[test]
fn versions_are_read_only_in_canonical_form() {
    assert_eq!(parse_version("3"), Some(3));
    assert_eq!(parse_version("0"), Some(0));
    assert_eq!(parse_version("65535"), Some(65535));
    assert_eq!(parse_version("65536"), None);
    assert_eq!(parse_version("03"), None);
    assert_eq!(parse_version("+3"), None);
    assert_eq!(parse_version(""), None);
    assert_eq!(parse_version("3a"), None);
}

#[test]
fn a_manifest_is_written_as_tab_separated_records() {
    let bytes = serialize_manifest(&manifest());
    assert_eq!(String::from_utf8(bytes).unwrap(), text());
}

#[test]
fn a_written_manifest_reads_back_unchanged() {
    let m = manifest();
    assert_eq!(parse_manifest(&serialize_manifest(&m)).unwrap(), m);
    let mut partial = manifest();
    partial.inventory_state = ManifestInventoryState::Partial;
    partial.adapters = vec![AdapterId::MkinitfsBusybox, AdapterId::OpenRcRealRoot];
    partial.entries = vec![ManifestEntry::PatchedFile {
        path: "/usr/share/mkinitfs/initramfs-init".to_string(),
        installed_mode: 0o755,
        installed_digest: sha256(b"init"),
        original: Preimage::File {
            mode: 0o755,
            digest: sha256(b"stock init"),
            backup: "transactions/tx-1/init".to_string(),
        },
    }];
    partial.created_dirs = vec!["/usr/libexec/bootart".to_string()];
    assert_eq!(parse_manifest(&serialize_manifest(&partial)).unwrap(), partial);
}

#[test]
fn manifests_that_break_a_rule_are_corrupt() {
    let t = text();
    assert!(corrupt(&[0xc3]));
    assert!(corrupt(t.replace("BOOTART-MANIFEST\t2", "BOOTART-MANIFEST\t1").as_bytes()));
    assert!(corrupt(t.replace("plan-version\t3", "plan-version\t03").as_bytes()));
    assert!(corrupt(t.replace("plan-version\t3", "plan-version\t+3").as_bytes()));
    assert!(corrupt(t.replace("resource-set-version\t1", "resource-set-version\t70000").as_bytes()));
    assert!(corrupt(t.replace("inventory-state\tcomplete", "inventory-state\tdone").as_bytes()));
    assert!(corrupt(t.replace("adapter\tdracut-systemd", "adapter\tdracut-nope").as_bytes()));
    assert!(corrupt(t.replace("adapter\tsystemd-real-root", "adapter\tdracut-systemd").as_bytes()));
    assert!(corrupt(t.replace("adapter\tsystemd-real-root\n", "").as_bytes()));
    let swapped = t.replace(
        "adapter\tdracut-systemd\nadapter\tsystemd-real-root",
        "adapter\tsystemd-real-root\nadapter\tdracut-systemd",
    );
    assert!(corrupt(swapped.as_bytes()));
    assert!(corrupt(t.replace("openrc", "x").replace("systemd-real-root", "openrc-real-root").as_bytes()));
    let rollback = format!("{t}rollback-created-dir\t2f766172\n");
    assert!(corrupt(rollback.as_bytes()));
    let outside = format!("{t}file\t2f6574632f78\t644\t{ABC_DIGEST}\tabsent\t-\t-\t-\n");
    assert!(corrupt(outside.as_bytes()));
    assert!(corrupt(t.replace("\t755\t", "\t9\t").as_bytes()));
}

#[test]
fn paths_sort_character_by_character() {
    assert!(path_lt_exec("/etc/a", "/usr/a"));
    assert!(path_lt_exec("/usr", "/usr/bin"));
    assert!(!path_lt_exec("/usr/bin", "/usr"));
    assert!(!path_lt_exec("/usr", "/usr"));
}

fn expected() -> Vec<ExpectedManifestEntry> {
    vec![
        ExpectedManifestEntry::Symlink { path: QUIT_LINK.to_string(), target: QUIT_TARGET.to_string() },
        ExpectedManifestEntry::File { path: "/usr/bin/bootart".to_string(), mode: 0o755, digest: None },
    ]
}

#[test]
fn a_complete_inventory_matches_item_by_item() {
    let m = manifest();
    assert!(validate_complete_current_manifest_inventory(&expected(), &m.entries).is_ok());
    assert!(validate_current_manifest_inventory(&m, &expected()).is_ok());
    let reversed = vec![binary_entry(), link_entry()];
    assert!(matches!(
        validate_complete_current_manifest_inventory(&expected(), &reversed),
        Err(InstallError::CorruptManifest(_))
    ));
    assert!(validate_complete_current_manifest_inventory(&expected(), &vec![link_entry()]).is_err());
    let pinned = vec![
        expected()[0].clone(),
        ExpectedManifestEntry::File {
            path: "/usr/bin/bootart".to_string(),
            mode: 0o755,
            digest: Some(sha256(b"other")),
        },
    ];
    match validate_complete_current_manifest_inventory(&pinned, &m.entries) {
        Err(InstallError::CorruptManifest(message)) => assert_eq!(
            message,
            "current manifest inventory entry 2 differs from its embedded resource digest"
        ),
        other => panic!("unexpected {other:?}"),
    }
}

#[test]
fn a_partial_inventory_is_an_ordered_strict_subset() {
    assert!(validate_partial_current_manifest_inventory(&expected(), &vec![binary_entry()]).is_ok());
    assert!(validate_partial_current_manifest_inventory(&expected(), &vec![]).is_ok());
    assert!(validate_partial_current_manifest_inventory(&expected(), &vec![link_entry(), binary_entry()]).is_err());
    let foreign = ManifestEntry::File {
        path: "/usr/lib/bootart/plymouth".to_string(),
        installed_mode: 0o755,
        installed_digest: sha256(b"abc"),
        original: Preimage::Absent,
    };
    match validate_partial_current_manifest_inventory(&expected(), &vec![foreign]) {
        Err(InstallError::CorruptManifest(message)) => assert_eq!(
            message,
            "current manifest inventory entry 1 is foreign to the selected adapters"
        ),
        other => panic!("unexpected {other:?}"),
    }
    let long = vec![expected()[0].clone(), expected()[1].clone(), ExpectedManifestEntry::PatchedFile {
        path: "/usr/share/mkinitfs/initramfs-init".to_string(),
        mode: 0o755,
    }];
    assert!(validate_partial_current_manifest_inventory(&long, &vec![binary_entry(), link_entry()]).is_err());
    assert!(validate_partial_current_manifest_inventory(&long, &vec![link_entry(), binary_entry()]).is_ok());
}

#[test]
fn an_entry_of_another_kind_is_a_type_mismatch() {
    match validate_current_manifest_entry(&binary_entry(), &expected()[0], 0) {
        Err(InstallError::CorruptManifest(message)) => {
            assert_eq!(message, "current manifest inventory entry 1 type mismatch")
        }
        other => panic!("unexpected {other:?}"),
    }
}

#[test]
fn manifest_header_refusals_name_the_broken_record() {
    let refusal = |text: &str| match parse_manifest(text.as_bytes()) {
        Err(bootart::error::InstallError::CorruptManifest(m)) => m,
        other => panic!("unexpected {:?}", other.is_ok()),
    };
    assert_eq!(
        refusal("BOOTART-MANIFEST\t2\ntransaction\tt1\nplan-version\t03\nresource-set-version\t1\ninventory-state\tcomplete\n"),
        "non-canonical plan-version provenance version"
    );
    assert_eq!(
        refusal("BOOTART-MANIFEST\t2\ntransaction\tt1\nplan-version\t3\nresource-set-version\t+1\ninventory-state\tcomplete\n"),
        "non-canonical resource-set-version provenance version"
    );
    assert_eq!(
        refusal("BOOTART-MANIFEST\t2\ntransaction\tt1\nplan-version\tx\n"),
        "invalid plan-version provenance version"
    );
    assert_eq!(
        refusal("BOOTART-MANIFEST\t2\ntransaction\tt1\nplan-version\t3\n"),
        "missing required resource-set-version provenance"
    );
    assert_eq!(
        refusal("BOOTART-MANIFEST\t2\ntransaction\tt1\nplan version\t3\n"),
        "expected canonical plan-version provenance record"
    );
    assert_eq!(refusal("BOOTART-MANIFEST\t2\n"), "missing transaction");
    assert_eq!(refusal("BOOTART-MANIFEST\t1\n"), "missing versioned header");
    assert_eq!(
        refusal("BOOTART-MANIFEST\t2\ntransaction\tt1\nplan-version\t3\nresource-set-version\t1\n"),
        "missing or noncanonical inventory-state record"
    );
}
