use bootart::boot_deploy_init::{
    patch_init_functions_2nd, CLEANUP_HOOK, FDE_WRAPPER, NATIVE_UNL0KR, REVIEWED_INITRAMFS_VERSION,
    RUNTIME_HOOK, START_HOOK, STOCK_FDE_UNLOCK,
};
use bootart::digest::sha256;
use bootart::dracut_systemd::{ToolFact, MIN_BOOT_FREE_BYTES, MIN_BOOT_FREE_INODES, PRODUCT_ARCHITECTURE};
use bootart::error::InstallError;
use bootart::mkinitfs_boot_deploy_openrc::{
    inspect_mkinitfs_boot_deploy_openrc_archive, mkinitfs_boot_deploy_openrc_managed_image_path,
    parse_mkinitfs_boot_deploy_loader_entry, parse_mkinitfs_boot_deploy_version,
    plan_mkinitfs_boot_deploy_openrc, validate_mkinitfs_boot_deploy_openrc_generator_request,
    verified_mkinitfs_boot_deploy_openrc_image_record, MkinitfsBootDeployOpenRcFacts,
    MkinitfsBootDeployPathFact, ACTIVE_INITRAMFS_PATH, CANDIDATE_DIRECTORY,
    CANDIDATE_INITRAMFS_PATH, KNOWN_GOOD_ENTRY_PATH, MKINITFS_BOOT_DEPLOY_OPENRC_CONTRACT_FILES,
    MKINITFS_BOOT_DEPLOY_OPENRC_TOOLS,
};

fn tool(path: &str) -> ToolFact {
    ToolFact {
        path: path.into(),
        root_owned: true,
        regular: true,
        symlink: false,
        executable: true,
    }
}

fn pristine_functions() -> String {
    let source = r#"unlock_root_partition() {
	command -v cryptsetup >/dev/null || return
	if cryptsetup isLuks "$PMOS_ROOT"; then
		splash_hide
		tried=0
		until cryptsetup status root | grep -qwi active; do
			fde-unlock "$PMOS_ROOT" "$tried"
			tried=$((tried + 1))
		done
		PMOS_ROOT=/dev/mapper/root
		splash_set_message "Loading"
	fi
}
"#;
    format!("prefix\n{source}suffix\n")
}

fn facts() -> MkinitfsBootDeployOpenRcFacts {
    MkinitfsBootDeployOpenRcFacts {
        architecture: PRODUCT_ARCHITECTURE.into(),
        pid1_comm: "init".into(),
        root_filesystem_device: 1,
        boot_filesystem_device: 2,
        boot_writable: true,
        boot_free_bytes: MIN_BOOT_FREE_BYTES,
        boot_total_inodes: MIN_BOOT_FREE_INODES * 2,
        boot_free_inodes: MIN_BOOT_FREE_INODES,
        tools: MKINITFS_BOOT_DEPLOY_OPENRC_TOOLS
            .iter()
            .map(|path| tool(path))
            .collect(),
        contract_files: MKINITFS_BOOT_DEPLOY_OPENRC_CONTRACT_FILES
            .iter()
            .map(|(path, executable)| MkinitfsBootDeployPathFact::exact(path, *executable))
            .collect(),
        initramfs_version: REVIEWED_INITRAMFS_VERSION.into(),
        init_functions_2nd: pristine_functions(),
        kernel_image: "/boot/vmlinuz".into(),
        active_image: ACTIVE_INITRAMFS_PATH.into(),
        known_good_digest: sha256(b"stock-initramfs"),
        known_good_bytes: 4096,
        active_loader_entry: "/boot/loader/entries/current.conf".into(),
        active_loader_entry_mode: 0o644,
        active_loader_entry_bytes: b"title Mobile Linux\nlinux vmlinuz\ninitrd initramfs\noptions quiet splash console=ttyAMA0 root=/dev/mapper/root\n".to_vec(),
        kernel_command_line: "quiet splash console=ttyAMA0 root=/dev/mapper/root".into(),
    }
}

/// A `newc` archive of `(name, bytes, mode)` members, ending in a trailer.
fn build_cpio_archive(members: &[(&str, &[u8], u32)]) -> Vec<u8> {
    let mut archive = Vec::new();
    let mut push = |name: &str, bytes: &[u8], mode: u32, ino: usize| {
        let header = format!(
            "070701{:08x}{:08x}{:08x}{:08x}{:08x}{:08x}{:08x}{:08x}{:08x}{:08x}{:08x}{:08x}{:08x}",
            ino,
            mode,
            0,
            0,
            1,
            0,
            bytes.len(),
            0,
            0,
            0,
            0,
            name.len() + 1,
            0
        );
        archive.extend_from_slice(header.as_bytes());
        archive.extend_from_slice(name.as_bytes());
        archive.push(0);
        archive.resize((archive.len() + 3) & !3, 0);
        archive.extend_from_slice(bytes);
        archive.resize((archive.len() + 3) & !3, 0);
    };
    for (index, (name, bytes, mode)) in members.iter().enumerate() {
        push(name, bytes, *mode, index + 1);
    }
    push("TRAILER!!!", b"", 0, 0);
    archive
}

#[test]
fn exact_contract_uses_isolated_boot_deploy_output_and_known_good_entry() {
    let contract = plan_mkinitfs_boot_deploy_openrc(&facts()).unwrap();
    assert_eq!(contract.generate.executable, "/usr/sbin/mkinitfs");
    assert_eq!(contract.generate.arguments, ["-d", CANDIDATE_DIRECTORY]);
    assert_eq!(MKINITFS_BOOT_DEPLOY_OPENRC_TOOLS.len(), 3);
    assert_eq!(contract.candidate_image, CANDIDATE_INITRAMFS_PATH);
    assert_eq!(contract.known_good_entry_mode, 0o644);
    assert_eq!(contract.active_loader_entry_mode, 0o644);
    assert!(std::str::from_utf8(&contract.active_loader_entry_original)
        .unwrap()
        .contains("options quiet splash console="));
    assert!(std::str::from_utf8(&contract.active_loader_entry_activated)
        .unwrap()
        .contains("options quiet console="));
    assert!(!std::str::from_utf8(&contract.active_loader_entry_activated)
        .unwrap()
        .split_ascii_whitespace()
        .any(|token| token == "splash"));
    assert_eq!(contract.candidate_kernel, "/boot/.bootart-candidate/vmlinuz");
    assert!(contract
        .known_good_entry
        .ends_with(b" bootart=0 rd.bootart=0\n"));
    assert!(std::str::from_utf8(&contract.patched_init_functions_2nd)
        .unwrap()
        .contains("/usr/libexec/bootart/mkinitfs-boot-deploy-fde"));
}

#[test]
fn planner_rejects_wrong_version_merged_boot_and_unreviewed_tools() {
    let mut input = facts();
    input.initramfs_version = "3.12.1-r0".into();
    assert!(plan_mkinitfs_boot_deploy_openrc(&input).is_err());
    let mut input = facts();
    input.boot_filesystem_device = input.root_filesystem_device;
    assert!(plan_mkinitfs_boot_deploy_openrc(&input).is_err());
    let mut input = facts();
    input.tools[0].symlink = true;
    assert!(plan_mkinitfs_boot_deploy_openrc(&input).is_err());

    let mut no_inode_accounting = facts();
    no_inode_accounting.boot_total_inodes = 0;
    no_inode_accounting.boot_free_inodes = 0;
    assert!(plan_mkinitfs_boot_deploy_openrc(&no_inode_accounting).is_ok());

    let mut exhausted_inode_accounting = facts();
    exhausted_inode_accounting.boot_free_inodes = 0;
    assert!(plan_mkinitfs_boot_deploy_openrc(&exhausted_inode_accounting).is_err());

    let mut inconsistent_inode_accounting = facts();
    inconsistent_inode_accounting.boot_total_inodes = 0;
    inconsistent_inode_accounting.boot_free_inodes = 1;
    assert!(plan_mkinitfs_boot_deploy_openrc(&inconsistent_inode_accounting).is_err());

    let mut fat_entry_mode = facts();
    fat_entry_mode.active_loader_entry_mode = 0o700;
    assert_eq!(
        plan_mkinitfs_boot_deploy_openrc(&fat_entry_mode)
            .unwrap()
            .known_good_entry_mode,
        0o700
    );
    let mut unsafe_entry_mode = facts();
    unsafe_entry_mode.active_loader_entry_mode = 0o777;
    assert!(plan_mkinitfs_boot_deploy_openrc(&unsafe_entry_mode).is_err());
}

#[test]
fn generator_validator_rejects_path_and_argument_widening() {
    let contract = plan_mkinitfs_boot_deploy_openrc(&facts()).unwrap();
    let mut request = contract.generate.clone();
    request.arguments.push("--no-bootdeploy".into());
    assert!(validate_mkinitfs_boot_deploy_openrc_generator_request(&request).is_err());
    let mut request = contract.generate;
    request.executable = "/bin/sh".into();
    assert!(validate_mkinitfs_boot_deploy_openrc_generator_request(&request).is_err());
}

#[test]
fn exact_candidate_archive_validates_every_private_runtime_resource() {
    let elf = b"\x7fELFbootart";
    let patched =
        patch_init_functions_2nd(&pristine_functions(), REVIEWED_INITRAMFS_VERSION).unwrap();
    let archive = build_cpio_archive(&[
        (".", b"", 0o040755),
        ("usr/libexec/bootart", b"", 0o040755),
        ("usr/libexec/bootart/native-bin", b"", 0o040755),
        ("usr/bin/bootart", elf, 0o100755),
        (
            "usr/libexec/bootart/mkinitfs-boot-deploy-runtime",
            RUNTIME_HOOK.as_bytes(),
            0o100755,
        ),
        (
            "usr/libexec/bootart/mkinitfs-boot-deploy-fde",
            FDE_WRAPPER.as_bytes(),
            0o100755,
        ),
        (
            "usr/libexec/bootart/fde-unlock-stock",
            STOCK_FDE_UNLOCK.as_bytes(),
            0o100755,
        ),
        (
            "usr/libexec/bootart/native-bin/unl0kr",
            NATIVE_UNL0KR.as_bytes(),
            0o100755,
        ),
        ("hooks-extra/50-bootart-start.sh", START_HOOK.as_bytes(), 0o100755),
        (
            "hooks-cleanup/90-bootart-handoff.sh",
            CLEANUP_HOOK.as_bytes(),
            0o100755,
        ),
        ("init_functions_2nd.sh", patched.as_bytes(), 0o100644),
    ]);
    let inspection = inspect_mkinitfs_boot_deploy_openrc_archive(&archive, elf).unwrap();
    assert_eq!(inspection.bootart_digest, sha256(elf));
    let unsafe_root = build_cpio_archive(&[(".", b"", 0o040777)]);
    assert!(matches!(
        inspect_mkinitfs_boot_deploy_openrc_archive(&unsafe_root, elf),
        Err(InstallError::InvalidPlan(reason)) if reason.contains("archive root metadata")
    ));
    let unsafe_resource_directory = build_cpio_archive(&[("usr/libexec/bootart", b"", 0o040777)]);
    assert!(matches!(
        inspect_mkinitfs_boot_deploy_openrc_archive(&unsafe_resource_directory, elf),
        Err(InstallError::InvalidPlan(reason)) if reason.contains("resource directory metadata")
    ));
    let contract = plan_mkinitfs_boot_deploy_openrc(&facts()).unwrap();
    let compressed_candidate = b"zstd-compressed-candidate";
    let record = verified_mkinitfs_boot_deploy_openrc_image_record(
        &contract,
        compressed_candidate,
        &inspection,
        elf,
    )
    .unwrap();
    assert_eq!(record.active_digest, sha256(compressed_candidate));
    assert_eq!(record.grub_script_path, KNOWN_GOOD_ENTRY_PATH);
    assert_eq!(record.grub_config_path, contract.active_loader_entry);

    let corrupt = archive
        .windows(RUNTIME_HOOK.len())
        .position(|window| window == RUNTIME_HOOK.as_bytes())
        .map(|offset| {
            let mut bytes = archive.clone();
            bytes[offset] ^= 1;
            bytes
        })
        .unwrap();
    assert!(inspect_mkinitfs_boot_deploy_openrc_archive(&corrupt, elf).is_err());
}

#[test]
fn version_marker_and_managed_paths_are_exact() {
    let init = format!("#!/bin/sh\nINITRAMFS_PKG_VERSION=\"{REVIEWED_INITRAMFS_VERSION}\"\n");
    assert_eq!(
        parse_mkinitfs_boot_deploy_version(&init).unwrap(),
        REVIEWED_INITRAMFS_VERSION
    );
    assert!(parse_mkinitfs_boot_deploy_version("INITRAMFS_PKG_VERSION=\"future\"\n").is_err());
    assert!(mkinitfs_boot_deploy_openrc_managed_image_path(CANDIDATE_INITRAMFS_PATH));
    assert!(!mkinitfs_boot_deploy_openrc_managed_image_path("/boot/other"));
}

#[test]
fn loader_parser_accepts_only_the_reviewed_relative_boot_deploy_layout() {
    let source = "title current\nsort-key current\nlinux vmlinuz\ninitrd initramfs\noptions console=ttyAMA0 root=/dev/mapper/root\n";
    assert_eq!(
        parse_mkinitfs_boot_deploy_loader_entry(source).unwrap(),
        (
            "/boot/vmlinuz".into(),
            "console=ttyAMA0 root=/dev/mapper/root".into()
        )
    );
    assert_eq!(
        parse_mkinitfs_boot_deploy_loader_entry(
            &source.replace("linux vmlinuz\n", "linux vmlinuz-stable\n")
        )
        .unwrap()
        .0,
        "/boot/vmlinuz-stable"
    );
    assert!(parse_mkinitfs_boot_deploy_loader_entry(
        &source.replace("linux vmlinuz\n", "linux /vmlinuz\n")
    )
    .is_err());
    assert!(parse_mkinitfs_boot_deploy_loader_entry(
        &source.replace("linux vmlinuz\n", "linux vmlinuz/../kernel\n")
    )
    .is_err());
    assert!(parse_mkinitfs_boot_deploy_loader_entry(
        &source.replace("initrd initramfs\n", "initrd ../initramfs\n")
    )
    .is_err());
}

#[test]
fn zstandard_decoder_rejects_input_that_is_not_one_frame() {
    assert!(bootart::mkinitfs_boot_deploy_openrc::decompress_mkinitfs_boot_deploy_openrc_archive(
        b"not-zstandard"
    )
    .is_err());
}

#[test]
fn decoder_refusals_carry_the_decoder_error_text() {
    match bootart::mkinitfs_boot_deploy_openrc::accept_decoded_archive(4, Err((true, "bad magic".to_string()))) {
        Err(bootart::error::InstallError::InvalidPlan(m)) => {
            assert_eq!(m, "mkinitfs-boot-deploy candidate is not one supported Zstandard frame: bad magic")
        },
        other => panic!("unexpected {other:?}"),
    }
    match bootart::mkinitfs_boot_deploy_openrc::accept_decoded_archive(4, Err((false, "block overflow".to_string()))) {
        Err(bootart::error::InstallError::InvalidPlan(m)) => {
            assert_eq!(m, "mkinitfs-boot-deploy Zstandard decoding failed: block overflow")
        },
        other => panic!("unexpected {other:?}"),
    }
    assert_eq!(bootart::mkinitfs_boot_deploy_openrc::accept_decoded_archive(4, Ok((vec![1, 2], 4))).unwrap(), vec![1, 2]);
    assert!(bootart::mkinitfs_boot_deploy_openrc::accept_decoded_archive(5, Ok((vec![1, 2], 4))).is_err());
}

#[test]
fn loader_entry_takeover_changes_only_the_options_line() {
    let source = "title current\nsort-key current\nlinux vmlinuz\ninitrd initramfs\noptions quiet  splash console=ttyAMA0\n";
    let out = bootart::mkinitfs_boot_deploy_openrc::activate_mkinitfs_boot_deploy_loader_entry(source).unwrap();
    let text = String::from_utf8(out).unwrap();
    let before: Vec<&str> = source.split_inclusive('\n').collect();
    let after: Vec<&str> = text.split_inclusive('\n').collect();
    assert_eq!(before.len(), after.len());
    assert_eq!(&before[..4], &after[..4]);
    assert_eq!(after[4], "options quiet console=ttyAMA0\n");
}

#[test]
fn loader_entry_takeover_keeps_the_kernel() {
    let source = "title current\nlinux vmlinuz-lts\ninitrd initramfs\n  options splash root=/dev/sda2 quiet\n";
    let out = bootart::mkinitfs_boot_deploy_openrc::activate_mkinitfs_boot_deploy_loader_entry(source).unwrap();
    let text = String::from_utf8(out).unwrap();
    let (kernel_before, _) = parse_mkinitfs_boot_deploy_loader_entry(source).unwrap();
    let (kernel_after, options_after) = parse_mkinitfs_boot_deploy_loader_entry(&text).unwrap();
    assert_eq!(kernel_before, "/boot/vmlinuz-lts");
    assert_eq!(kernel_after, kernel_before);
    assert_eq!(options_after, "root=/dev/sda2 quiet");
}

#[test]
fn embedded_zstandard_decoder_is_bounded_and_rejects_extra_frames() {
    let payload = b"070701bounded-newc-payload";
    let compressed =
        ruzstd::encoding::compress_to_vec(payload.as_slice(), ruzstd::encoding::CompressionLevel::Fastest);
    assert_eq!(
        bootart::mkinitfs_boot_deploy_openrc::decompress_mkinitfs_boot_deploy_openrc_archive(&compressed).unwrap(),
        payload
    );

    let mut trailing = compressed.clone();
    trailing.extend_from_slice(&compressed);
    assert!(bootart::mkinitfs_boot_deploy_openrc::decompress_mkinitfs_boot_deploy_openrc_archive(&trailing).is_err());
    assert!(bootart::mkinitfs_boot_deploy_openrc::decompress_mkinitfs_boot_deploy_openrc_archive(b"not-zstandard").is_err());
}
