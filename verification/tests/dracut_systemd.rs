use bootart::error::InstallError;
use bootart::dracut_systemd::{
    admit_unpacked_member, classify_unpacked_node, UnpackedNodeDecision, MAX_ARCHIVE_ENTRIES, S_IFCHR, S_IFDIR,
    S_IFLNK, S_IFREG,
};
use bootart::archive::{ArchiveEntry, ArchiveEntryKind};
use bootart::digest::sha256;
use bootart::dracut_systemd::{
    dracut_systemd_required_tools, dracut_systemd_unpack_request, inspect_dracut_inventory,
    plan_dracut_systemd, plan_dracut_systemd_for_root, validate_dracut_systemd_generator_request,
    verified_dracut_systemd_image_record, CryptsetupLocation, DracutImageLayout, DracutSystemdFacts,
    GrubRegeneration, ToolFact, DRACUT_EXECUTABLE, MIN_BOOT_FREE_BYTES, MIN_BOOT_FREE_INODES,
    PRODUCT_ARCHITECTURE,
};
use bootart::embedded::{template_resource, TemplateId, TemplateMaterialization};

fn elf() -> Vec<u8> {
    let mut elf = vec![0_u8; 120];
    let length = elf.len() as u64;
    elf[0..4].copy_from_slice(b"\x7fELF");
    elf[4] = 2;
    elf[5] = 1;
    elf[6] = 1;
    elf[16..18].copy_from_slice(&2_u16.to_le_bytes());
    elf[18..20].copy_from_slice(&62_u16.to_le_bytes());
    elf[20..24].copy_from_slice(&1_u32.to_le_bytes());
    elf[24..32].copy_from_slice(&0x400000_u64.to_le_bytes());
    elf[32..40].copy_from_slice(&64_u64.to_le_bytes());
    elf[52..54].copy_from_slice(&64_u16.to_le_bytes());
    elf[54..56].copy_from_slice(&56_u16.to_le_bytes());
    elf[56..58].copy_from_slice(&1_u16.to_le_bytes());
    elf[64..68].copy_from_slice(&1_u32.to_le_bytes());
    elf[68..72].copy_from_slice(&5_u32.to_le_bytes());
    elf[80..88].copy_from_slice(&0x400000_u64.to_le_bytes());
    elf[88..96].copy_from_slice(&0x400000_u64.to_le_bytes());
    elf[96..104].copy_from_slice(&length.to_le_bytes());
    elf[104..112].copy_from_slice(&length.to_le_bytes());
    elf[112..120].copy_from_slice(&0x1000_u64.to_le_bytes());
    elf
}

fn facts() -> DracutSystemdFacts {
    DracutSystemdFacts {
        architecture: PRODUCT_ARCHITECTURE.into(),
        pid1_comm: "systemd".into(),
        kernel_versions: vec!["7.0.0-28-generic".into()],
        root_filesystem_device: 1,
        boot_filesystem_device: 2,
        boot_writable: true,
        boot_free_bytes: MIN_BOOT_FREE_BYTES,
        boot_free_inodes: MIN_BOOT_FREE_INODES,
        dracut_modules: vec!["systemd".into(), "crypt".into()],
        image_layout: DracutImageLayout::InitrdImg,
        grub_regeneration: GrubRegeneration::UpdateGrub,
        cryptsetup_location: CryptsetupLocation::UsrSbin,
        tools: dracut_systemd_required_tools(GrubRegeneration::UpdateGrub, CryptsetupLocation::UsrSbin)
            .into_iter()
            .map(ToolFact::exact)
            .collect(),
        known_good_path: "/boot/initrd.img-7.0.0-28-generic".into(),
        known_good_digest: sha256(b"known-good"),
        known_good_bytes: 64 * 1024 * 1024,
        boot_filesystem_uuid: "1625-E85D".into(),
        kernel_command_line: "root=/dev/mapper/crypt-root ro quiet".into(),
    }
}

fn file(path: &str, mode: u32, bytes: &[u8]) -> ArchiveEntry {
    ArchiveEntry {
        path: path.into(),
        kind: ArchiveEntryKind::File,
        mode,
        bytes: bytes.into(),
    }
}

fn expected_initramfs_files() -> Vec<(&'static str, u32, &'static [u8])> {
    let mut expected = Vec::new();
    for id in [
        TemplateId::SystemdStartUnit,
        TemplateId::SystemdShowUnit,
        TemplateId::SystemdSwitchRootUnit,
        TemplateId::SystemdConsoleAgentDropIn,
    ] {
        let resource = template_resource(id);
        let TemplateMaterialization::File { path, mode } = resource.materialization else {
            unreachable!("systemd initramfs resources are regular files")
        };
        expected.push((path.trim_start_matches('/'), mode, resource.contents.as_bytes()));
    }
    expected
}

fn inventory(product: &[u8]) -> Vec<ArchiveEntry> {
    let mut entries = vec![
        file("usr/bin/bootart", 0o755, product),
        file("usr/lib/systemd/systemd", 0o755, b"systemd"),
        file("usr/lib/systemd/systemd-cryptsetup", 0o755, b"crypt"),
    ];
    for (path, mode, contents) in expected_initramfs_files() {
        entries.push(file(path, mode, contents));
    }
    for (path, target) in [
        (
            "usr/lib/systemd/system/initrd.target.wants/bootart-start.service",
            "../bootart-start.service",
        ),
        (
            "usr/lib/systemd/system/initrd.target.wants/bootart-show.service",
            "../bootart-show.service",
        ),
        (
            "usr/lib/systemd/system/initrd-switch-root.target.wants/bootart-switch-root.service",
            "../bootart-switch-root.service",
        ),
    ] {
        entries.push(ArchiveEntry {
            path: path.into(),
            kind: ArchiveEntryKind::Symlink,
            mode: 0o777,
            bytes: target.as_bytes().into(),
        });
    }
    entries
}

#[test]
fn exact_dracut_systemd_contract_has_fixed_paths_and_argv() {
    let plan = plan_dracut_systemd(&facts()).unwrap();
    assert_eq!(plan.active_image, "/boot/initrd.img-7.0.0-28-generic");
    assert_eq!(
        plan.candidate_image,
        "/boot/.bootart-candidate-initrd.img-7.0.0-28-generic"
    );
    assert_eq!(
        plan.known_good_image,
        "/boot/initrd.img-7.0.0-28-generic.bootart-known-good"
    );
    assert_eq!(plan.generate.executable, DRACUT_EXECUTABLE);
    assert_eq!(plan.grub_script_path, "/etc/grub.d/41_bootart_known_good");
    assert_eq!(plan.generate.arguments.last(), Some(&plan.candidate_image));
    assert!(plan.generate.clear_environment);
    validate_dracut_systemd_generator_request(&plan.generate).unwrap();
    let unpack = dracut_systemd_unpack_request(&plan, "1234-5678-0").unwrap();
    validate_dracut_systemd_generator_request(&unpack).unwrap();
    assert_eq!(unpack.arguments[0], "--unpack");
    assert!(unpack
        .working_directory
        .as_deref()
        .unwrap()
        .ends_with("/1234-5678-0/unpacked-candidate"));
    validate_dracut_systemd_generator_request(&plan.update_grub).unwrap();
    assert!(String::from_utf8(plan.grub_script)
        .unwrap()
        .contains("--id bootart-known-good"));
}

#[test]
fn dracut_systemd_generator_requests_reject_shell_and_argument_widening() {
    let plan = plan_dracut_systemd(&facts()).unwrap();

    let mut request = plan.generate.clone();
    request.executable = "/bin/sh".into();
    assert!(validate_dracut_systemd_generator_request(&request).is_err());

    let mut request = plan.generate.clone();
    request.arguments.push("--hostonly".into());
    assert!(validate_dracut_systemd_generator_request(&request).is_err());

    let mut request = plan.generate.clone();
    request.arguments[5] = "/boot/initrd.img-7.0.0-28-generic".into();
    assert!(validate_dracut_systemd_generator_request(&request).is_err());

    let mut request = plan.generate;
    request.clear_environment = false;
    assert!(validate_dracut_systemd_generator_request(&request).is_err());

    let plan = plan_dracut_systemd(&facts()).unwrap();
    assert!(dracut_systemd_unpack_request(&plan, "../escape").is_err());

    assert!(plan_dracut_systemd_for_root(&facts(), "relative").is_err());
    assert!(plan_dracut_systemd_for_root(&facts(), "/tmp/../escape").is_err());
}

#[test]
fn dracut_systemd_contract_rejects_ambiguity_and_unsafe_tools() {
    let mut input = facts();
    input.kernel_versions.push("other".into());
    assert!(plan_dracut_systemd(&input).is_err());
    let mut input = facts();
    input.tools[0].symlink = true;
    assert!(plan_dracut_systemd(&input).is_err());
    let mut input = facts();
    input.boot_filesystem_device = input.root_filesystem_device;
    assert!(plan_dracut_systemd(&input).is_err());
}

#[test]
fn exact_dracut_inventory_is_accepted() {
    let product = elf();
    let report = inspect_dracut_inventory(&inventory(&product), &product).unwrap();
    assert_eq!(report.bootart_digest, sha256(&product));
}

#[test]
fn dracut_inventory_rejects_duplicate_unsafe_and_foreign_bootart_members() {
    let product = elf();
    let mut entries = inventory(&product);
    entries.push(entries[0].clone());
    assert!(inspect_dracut_inventory(&entries, &product).is_err());

    let mut entries = inventory(&product);
    entries.push(file("../escape", 0o644, b"x"));
    assert!(inspect_dracut_inventory(&entries, &product).is_err());

    let mut entries = inventory(&product);
    entries.push(file(&format!("{}{}", "usr/bin/bootart", "-init"), 0o755, &product));
    assert!(inspect_dracut_inventory(&entries, &product).is_err());
}

#[test]
fn dracut_inventory_rejects_payload_or_unit_changes() {
    let product = elf();
    let mut entries = inventory(&product);
    entries
        .iter_mut()
        .find(|entry| entry.path == "usr/bin/bootart")
        .unwrap()
        .bytes[119] ^= 1;
    assert!(inspect_dracut_inventory(&entries, &product).is_err());

    let mut entries = inventory(&product);
    entries
        .iter_mut()
        .find(|entry| entry.path.ends_with("bootart-start.service"))
        .unwrap()
        .bytes
        .push(b'\n');
    assert!(inspect_dracut_inventory(&entries, &product).is_err());
}

#[test]
fn verified_image_record_binds_candidate_inventory_and_recovery_hashes() {
    let product = elf();
    let contract = plan_dracut_systemd(&facts()).unwrap();
    let inspection = inspect_dracut_inventory(&inventory(&product), &product).unwrap();
    let candidate = b"bounded generated initramfs";
    let record =
        verified_dracut_systemd_image_record(&contract, candidate, &inspection, &product).unwrap();
    assert_eq!(record.active_digest, sha256(candidate));
    assert_eq!(record.candidate_digest, record.active_digest);
    assert_eq!(record.known_good_digest, contract.known_good_digest);
    assert_eq!(record.grub_script_digest, sha256(&contract.grub_script));
    assert_eq!(record.bootart_digest, sha256(&product));

    let mut foreign = inspection;
    foreign.bootart_digest = sha256(b"other ELF");
    assert!(
        verified_dracut_systemd_image_record(&contract, candidate, &foreign, &product).is_err()
    );
    assert!(verified_dracut_systemd_image_record(&contract, b"", &foreign, &product).is_err());
}

#[test]
fn alternate_root_plan_differs_from_the_host_plan_only_in_command_roots() {
    let host = plan_dracut_systemd(&facts()).unwrap();
    let guest = plan_dracut_systemd_for_root(&facts(), "/srv/guest").unwrap();
    assert_eq!(host.generate.alternate_root, "/");
    assert_eq!(guest.generate.alternate_root, "/srv/guest");
    assert_eq!(guest.update_grub.alternate_root, "/srv/guest");
    let mut moved = guest.clone();
    moved.generate.alternate_root = "/".to_string();
    moved.update_grub.alternate_root = "/".to_string();
    assert_eq!(moved, host);
}

#[test]
fn unpacked_members_are_admitted_and_classified_by_the_reviewed_rules() {
    assert!(admit_unpacked_member(0, "usr/bin/bootart", false).is_ok());
    match admit_unpacked_member(0, "../escape", false) {
        Err(InstallError::InvalidPlan(m)) => assert_eq!(m, "unsafe or duplicate dracut archive path: ../escape"),
        other => panic!("unexpected {other:?}"),
    }
    assert!(admit_unpacked_member(0, "etc", true).is_err());
    match admit_unpacked_member(MAX_ARCHIVE_ENTRIES, "etc", false) {
        Err(InstallError::InvalidPlan(m)) => assert_eq!(m, "dracut archive contains too many entries"),
        other => panic!("unexpected {other:?}"),
    }
    assert_eq!(classify_unpacked_node("etc", (S_IFDIR, 0o755, 1000, 0), (0, 0), 1000, 0), UnpackedNodeDecision::Directory);
    assert_eq!(classify_unpacked_node("etc", (S_IFDIR, 0o755, 0, 0), (0, 0), 1000, 0), UnpackedNodeDecision::Unowned);
    assert_eq!(classify_unpacked_node("init", (S_IFREG, 0o755, 0, 0), (0, 0), 0, 0), UnpackedNodeDecision::RegularFile);
    assert_eq!(classify_unpacked_node("bin", (S_IFLNK, 0o777, 0, 0), (0, 0), 0, 0), UnpackedNodeDecision::Symlink);
    assert_eq!(classify_unpacked_node("dev/null", (S_IFCHR, 0o666, 0, 0), (9, 9), 0, 0), UnpackedNodeDecision::UnreviewedSpecial);
    assert_eq!(classify_unpacked_node("dev/null", (S_IFCHR, 0o666, 0, 0), (9, 9), 0, 32), UnpackedNodeDecision::TooManySpecialNodes);
}
