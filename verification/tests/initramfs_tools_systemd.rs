use bootart::archive::{ArchiveEntry, ArchiveEntryKind};
use bootart::digest::sha256;
use bootart::dracut_systemd::{
    CryptsetupLocation, GrubRegeneration, ToolFact, MIN_BOOT_FREE_BYTES, MIN_BOOT_FREE_INODES,
    PRODUCT_ARCHITECTURE,
};
use bootart::embedded::{template_resource, TemplateId, TemplateMaterialization};
use bootart::initramfs_tools_systemd::{
    initramfs_tools_systemd_managed_image_path, initramfs_tools_systemd_required_tools,
    initramfs_tools_systemd_unpack_request, inspect_bootart_free_initramfs_tools_inventory,
    inspect_initramfs_tools_inventory, plan_initramfs_tools_systemd,
    plan_initramfs_tools_systemd_for_root, validate_initramfs_tools_systemd_contract,
    validate_initramfs_tools_systemd_generator_request,
    verified_initramfs_tools_systemd_image_record, InitramfsToolsPathFact,
    InitramfsToolsSystemdFacts, MKINITRAMFS_EXECUTABLE, UNMKINITRAMFS_EXECUTABLE,
};

const CONTRACT_FILES: &[(&str, bool)] = &[
    ("/usr/share/initramfs-tools/hook-functions", false),
    ("/usr/share/initramfs-tools/hooks/cryptroot", true),
    ("/usr/share/initramfs-tools/scripts/local-top/cryptroot", true),
    ("/usr/lib/cryptsetup/functions", false),
    ("/usr/lib/cryptsetup/askpass", true),
];

fn elf() -> Vec<u8> {
    let mut elf = vec![0_u8; 120];
    let length = elf.len() as u64;
    elf[0..4].copy_from_slice(b"\x7fELF");
    elf[4] = 2;
    elf[5] = 1;
    elf[6] = 1;
    elf[16..18].copy_from_slice(&2_u16.to_le_bytes());
    elf[18..20].copy_from_slice(&62_u16.to_le_bytes());
    elf[20..24].copy_from_slice(&1_u32.to_le_bytes());
    elf[24..32].copy_from_slice(&0x400000_u64.to_le_bytes());
    elf[32..40].copy_from_slice(&64_u64.to_le_bytes());
    elf[52..54].copy_from_slice(&64_u16.to_le_bytes());
    elf[54..56].copy_from_slice(&56_u16.to_le_bytes());
    elf[56..58].copy_from_slice(&1_u16.to_le_bytes());
    elf[64..68].copy_from_slice(&1_u32.to_le_bytes());
    elf[68..72].copy_from_slice(&5_u32.to_le_bytes());
    elf[80..88].copy_from_slice(&0x400000_u64.to_le_bytes());
    elf[88..96].copy_from_slice(&0x400000_u64.to_le_bytes());
    elf[96..104].copy_from_slice(&length.to_le_bytes());
    elf[104..112].copy_from_slice(&length.to_le_bytes());
    elf[112..120].copy_from_slice(&0x1000_u64.to_le_bytes());
    elf
}

fn file(path: &str, mode: u32, bytes: &[u8]) -> ArchiveEntry {
    ArchiveEntry {
        path: path.into(),
        kind: ArchiveEntryKind::File,
        mode,
        bytes: bytes.into(),
    }
}

fn initramfs_tools_expected_files() -> Vec<(&'static str, u32, &'static [u8])> {
    [
        ("main/scripts/init-top/bootart", TemplateId::InitramfsToolsEarlyHook),
        ("main/scripts/init-bottom/bootart", TemplateId::InitramfsToolsBottomHook),
        ("main/usr/lib/cryptsetup/askpass", TemplateId::InitramfsToolsAskpassWrapper),
    ]
    .into_iter()
    .map(|(archive_path, id)| {
        let resource = template_resource(id);
        let TemplateMaterialization::File { mode, .. } = resource.materialization else {
            unreachable!("initramfs-tools runtime resource must be a file")
        };
        (archive_path, mode, resource.contents.as_bytes())
    })
    .collect()
}

fn inventory(product: &[u8]) -> Vec<ArchiveEntry> {
    let mut entries = vec![
        file("main/usr/bin/bootart", 0o755, product),
        file("main/init", 0o755, b"stock init"),
        file("main/scripts/local-top/cryptroot", 0o755, b"stock cryptroot"),
        file("main/usr/lib/cryptsetup/functions", 0o644, b"stock functions"),
        file(
            "main/usr/lib/cryptsetup/askpass.bootart-console",
            0o755,
            b"stock askpass",
        ),
        file("main/etc/lvm/backup/bootart-vg", 0o600, b"stock LVM metadata"),
    ];
    for (path, mode, bytes) in initramfs_tools_expected_files() {
        entries.push(file(path, mode, bytes));
    }
    entries
}

fn facts() -> InitramfsToolsSystemdFacts {
    InitramfsToolsSystemdFacts {
        architecture: PRODUCT_ARCHITECTURE.into(),
        pid1_comm: "systemd".into(),
        kernel_versions: vec!["6.12.0-1-amd64".into()],
        root_filesystem_device: 1,
        boot_filesystem_device: 2,
        boot_writable: true,
        boot_free_bytes: MIN_BOOT_FREE_BYTES,
        boot_free_inodes: MIN_BOOT_FREE_INODES,
        grub_regeneration: GrubRegeneration::UpdateGrub,
        cryptsetup_location: CryptsetupLocation::UsrSbin,
        tools: initramfs_tools_systemd_required_tools(
            GrubRegeneration::UpdateGrub,
            CryptsetupLocation::UsrSbin,
        )
        .into_iter()
        .map(ToolFact::exact)
        .collect(),
        contract_files: CONTRACT_FILES
            .iter()
            .map(|(path, executable)| InitramfsToolsPathFact::exact(path, *executable))
            .collect(),
        known_good_path: "/boot/initrd.img-6.12.0-1-amd64".into(),
        known_good_digest: sha256(b"known-good"),
        known_good_bytes: 64 * 1024 * 1024,
        boot_filesystem_uuid: "1625-E85D".into(),
        kernel_command_line: "root=/dev/mapper/crypt-root ro quiet".into(),
    }
}

#[test]
fn exact_initramfs_tools_contract_has_fixed_paths_and_argv() {
    let contract = plan_initramfs_tools_systemd(&facts()).unwrap();
    assert_eq!(contract.active_image, "/boot/initrd.img-6.12.0-1-amd64");
    assert_eq!(
        contract.candidate_image,
        "/boot/.bootart-candidate-initrd.img-6.12.0-1-amd64"
    );
    assert_eq!(contract.generate.executable, MKINITRAMFS_EXECUTABLE);
    assert_eq!(
        contract.generate.arguments,
        [
            "-o",
            "/boot/.bootart-candidate-initrd.img-6.12.0-1-amd64",
            "6.12.0-1-amd64"
        ]
    );
    let unpack = initramfs_tools_systemd_unpack_request(&contract, "1234-5678-0").unwrap();
    assert_eq!(unpack.executable, UNMKINITRAMFS_EXECUTABLE);
    validate_initramfs_tools_systemd_generator_request(&unpack).unwrap();
    validate_initramfs_tools_systemd_contract(&contract).unwrap();
}

#[test]
fn initramfs_tools_requests_reject_shell_widening_and_escape() {
    let contract = plan_initramfs_tools_systemd(&facts()).unwrap();
    let mut request = contract.generate.clone();
    request.executable = "/bin/sh".into();
    assert!(validate_initramfs_tools_systemd_generator_request(&request).is_err());

    let mut request = contract.generate.clone();
    request.arguments.push("--unsupported".into());
    assert!(validate_initramfs_tools_systemd_generator_request(&request).is_err());

    let mut request = contract.generate;
    request.clear_environment = false;
    assert!(validate_initramfs_tools_systemd_generator_request(&request).is_err());

    let contract = plan_initramfs_tools_systemd(&facts()).unwrap();
    assert!(initramfs_tools_systemd_unpack_request(&contract, "../escape").is_err());
    assert!(plan_initramfs_tools_systemd_for_root(&facts(), "relative").is_err());
}

#[test]
fn initramfs_tools_contract_rejects_ambiguity_and_unsafe_capabilities() {
    let mut input = facts();
    input.kernel_versions.push("other".into());
    assert!(plan_initramfs_tools_systemd(&input).is_err());

    let mut input = facts();
    input.tools[0].symlink = true;
    assert!(plan_initramfs_tools_systemd(&input).is_err());

    let mut input = facts();
    input.contract_files[0].regular = false;
    assert!(plan_initramfs_tools_systemd(&input).is_err());

    let mut input = facts();
    input.boot_filesystem_device = input.root_filesystem_device;
    assert!(plan_initramfs_tools_systemd(&input).is_err());
}

#[test]
fn initramfs_tools_managed_paths_are_bounded() {
    assert!(initramfs_tools_systemd_managed_image_path(
        "/boot/initrd.img-6.12.0-1-amd64"
    ));
    assert!(initramfs_tools_systemd_managed_image_path(
        "/boot/initrd.img-6.12.0-1-amd64.bootart-known-good"
    ));
    assert!(initramfs_tools_systemd_managed_image_path(
        "/boot/.bootart-candidate-initrd.img-6.12.0-1-amd64"
    ));
    assert!(!initramfs_tools_systemd_managed_image_path("/boot/arbitrary"));
}

#[test]
fn exact_initramfs_tools_inventory_is_accepted_and_recorded() {
    let product = elf();
    let inspection = inspect_initramfs_tools_inventory(&inventory(&product), &product).unwrap();
    assert_eq!(inspection.bootart_digest, sha256(&product));
    let contract = plan_initramfs_tools_systemd(&facts()).unwrap();
    let candidate = b"bounded initramfs-tools candidate";
    let record =
        verified_initramfs_tools_systemd_image_record(&contract, candidate, &inspection, &product)
            .unwrap();
    assert_eq!(record.active_digest, sha256(candidate));
    assert_eq!(record.bootart_digest, sha256(&product));
}

#[test]
fn initramfs_tools_inventory_rejects_drift_and_foreign_members() {
    let product = elf();
    let mut changed = inventory(&product);
    changed
        .iter_mut()
        .find(|entry| entry.path == "main/scripts/init-top/bootart")
        .unwrap()
        .bytes
        .push(b'\n');
    assert!(inspect_initramfs_tools_inventory(&changed, &product).is_err());

    let mut foreign = inventory(&product);
    foreign.push(file("main/usr/bin/bootart-helper", 0o755, b"unreviewed"));
    assert!(inspect_initramfs_tools_inventory(&foreign, &product).is_err());
}

#[test]
fn bootart_free_initramfs_tools_inventory_requires_stock_unlock_path() {
    let mut entries = vec![
        file("main/init", 0o755, b"stock init"),
        file("main/scripts/local-top/cryptroot", 0o755, b"stock cryptroot"),
        file("main/usr/lib/cryptsetup/functions", 0o644, b"stock functions"),
        file("main/usr/lib/cryptsetup/askpass", 0o755, b"stock askpass"),
        file("main/etc/lvm/backup/bootart-vg", 0o600, b"stock LVM metadata"),
    ];
    inspect_bootart_free_initramfs_tools_inventory(&entries).unwrap();
    entries.push(file("main/scripts/init-top/bootart", 0o755, b"foreign"));
    assert!(inspect_bootart_free_initramfs_tools_inventory(&entries).is_err());
}
