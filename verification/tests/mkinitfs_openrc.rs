use bootart::digest::sha256;
use bootart::dracut_systemd::{ToolFact, MIN_BOOT_FREE_BYTES, MIN_BOOT_FREE_INODES, PRODUCT_ARCHITECTURE};
use bootart::embedded::{template_resource, TemplateId, MKINITFS_FINDFS_WRAPPER, MKINITFS_RUNTIME_HOOK};
use bootart::mkinitfs_init::patch_initramfs_init;
use bootart::mkinitfs_openrc::{
    activate_mkinitfs_bootart_feature, inspect_mkinitfs_openrc_archive,
    mkinitfs_openrc_managed_image_path, parse_extlinux_entry_command_line, parse_mkinitfs_features,
    parse_update_extlinux_settings, plan_mkinitfs_openrc, validate_mkinitfs_openrc_contract,
    validate_mkinitfs_openrc_generator_request, MkinitfsOpenRcFacts, MkinitfsOpenRcPathFact,
    EXTLINUX_CONFIG_PATH, EXTLINUX_KNOWN_GOOD_FRAGMENT_PATH, INITRAMFS_INIT_PATH,
    MKINITFS_CONFIG_PATH, MKINITFS_OPENRC_TOOLS, UPDATE_EXTLINUX_CONFIG_PATH,
};

const RUNTIME_HOOK: &str = MKINITFS_RUNTIME_HOOK;
const FINDFS_WRAPPER: &str = MKINITFS_FINDFS_WRAPPER;

fn reviewed_init_source() -> String {
    "#!/bin/sh\nVERSION=3.14.0-r0\n\n# load available drivers to get access to modloop media\n$MOCK modprobe -a loop squashfs simpledrm\n\n# check if root=... was set\nif [ -n \"$KOPT_root\" ]; then\n\t# run nlplug-findfs before SINGLEMODE so we load keyboard drivers\n\t$MOCK nlplug-findfs\n\n\t\t\t$MOCK mount -o move \"$DIR\" \"$sysroot/$DIR\"\n\t\tfi\n\tdone\n\t$MOCK sync\n"
        .into()
}

fn facts() -> MkinitfsOpenRcFacts {
    let init = reviewed_init_source();
    let mkinitfs_config = "features=\"base ext4 virtio\"\n";
    let plain = b"safe";
    MkinitfsOpenRcFacts {
        architecture: PRODUCT_ARCHITECTURE.into(),
        pid1_comm: "init".into(),
        kernel_versions: vec!["6.18.35-0-virt".into()],
        boot_writable: true,
        boot_free_bytes: MIN_BOOT_FREE_BYTES,
        boot_free_inodes: MIN_BOOT_FREE_INODES,
        tools: MKINITFS_OPENRC_TOOLS
            .iter()
            .map(|path| ToolFact::exact(path))
            .collect(),
        contract_files: vec![
            MkinitfsOpenRcPathFact::exact(INITRAMFS_INIT_PATH, false, 0o644, init.as_bytes()),
            MkinitfsOpenRcPathFact::exact(
                MKINITFS_CONFIG_PATH,
                false,
                0o644,
                mkinitfs_config.as_bytes(),
            ),
            MkinitfsOpenRcPathFact::exact(UPDATE_EXTLINUX_CONFIG_PATH, false, 0o644, plain),
            MkinitfsOpenRcPathFact::exact(EXTLINUX_CONFIG_PATH, false, 0o644, plain),
            MkinitfsOpenRcPathFact::exact("/boot/vmlinuz-virt", false, 0o644, plain),
        ],
        initramfs_init_source: init,
        mkinitfs_config_source: mkinitfs_config.into(),
        mkinitfs_features: vec!["base".into(), "ext4".into(), "virtio".into()],
        extlinux_overwrite: true,
        extlinux_default_label: "virt".into(),
        kernel_command_line: "root=LABEL=/ modules=ext4,virtio console=ttyS0,115200n8".into(),
        known_good_path: "/boot/initramfs-virt".into(),
        known_good_digest: sha256(b"stock-initramfs"),
        known_good_bytes: 15,
    }
}

#[test]
fn exact_contract_has_fixed_raw_cpio_and_extlinux_requests() {
    let contract = plan_mkinitfs_openrc(&facts()).expect("valid contract");
    assert_eq!(contract.active_image, "/boot/initramfs-virt");
    assert_eq!(
        contract.candidate_image,
        "/boot/.bootart-candidate-initramfs-virt"
    );
    assert_eq!(
        contract.generate.arguments,
        [
            "-C",
            "none",
            "-o",
            "/boot/.bootart-candidate-initramfs-virt",
            "6.18.35-0-virt"
        ]
    );
    assert_eq!(contract.update_extlinux.arguments, Vec::<String>::new());
    assert!(std::str::from_utf8(&contract.extlinux_fragment)
        .unwrap()
        .contains("LABEL bootart-known-good"));
    validate_mkinitfs_openrc_contract(&contract).unwrap();
}

#[test]
fn planner_rejects_wrong_runtime_and_unreviewed_patch_source() {
    let mut wrong = facts();
    wrong.pid1_comm = "systemd".into();
    assert!(plan_mkinitfs_openrc(&wrong).is_err());
    let mut wrong = facts();
    wrong.initramfs_init_source = wrong.initramfs_init_source.replace("3.14.0-r0", "3.14.1-r0");
    let digest = sha256(wrong.initramfs_init_source.as_bytes());
    wrong
        .contract_files
        .iter_mut()
        .find(|fact| fact.path == INITRAMFS_INIT_PATH)
        .unwrap()
        .digest = digest;
    assert!(plan_mkinitfs_openrc(&wrong).is_err());
}

#[test]
fn generator_request_rejects_shell_or_output_widening() {
    let contract = plan_mkinitfs_openrc(&facts()).unwrap();
    let mut wrong = contract.generate.clone();
    wrong.executable = "/bin/sh".into();
    assert!(validate_mkinitfs_openrc_generator_request(&wrong).is_err());
    let mut wrong = contract.generate.clone();
    wrong.arguments[3] = "/boot/initramfs-virt".into();
    assert!(validate_mkinitfs_openrc_generator_request(&wrong).is_err());
}

#[test]
fn reviewed_configuration_parsers_bind_the_active_extlinux_entry() {
    let features =
        parse_mkinitfs_features("features=\"ata base ext4 keymap virtio ena\"\n").unwrap();
    assert_eq!(features, ["ata", "base", "ext4", "keymap", "virtio", "ena"]);
    let settings = parse_update_extlinux_settings(
        "overwrite=1\ndefault_kernel_opts=\"console=ttyS0,115200n8 console=tty0\"\nmodules=sd-mod,ext4,virtio\nroot=LABEL=/\ndefault=virt\n",
    )
    .unwrap();
    assert!(settings.overwrite);
    assert_eq!(settings.default_label, "virt");
    let config = format!(
        "DEFAULT menu.c32\nLABEL virt\n  LINUX vmlinuz-virt\n  INITRD initramfs-virt\n  APPEND {}\n",
        settings.kernel_command_line
    );
    assert_eq!(
        parse_extlinux_entry_command_line(&config, "virt").unwrap(),
        settings.kernel_command_line
    );
    assert!(parse_mkinitfs_features("features=\"base base\"\n").is_err());
    assert!(parse_update_extlinux_settings("overwrite=1\ndefault=virt\n").is_err());
}

#[test]
fn bootart_feature_activation_preserves_surrounding_configuration() {
    let source = "# generated by mkinitfs\n  features=\"ata base ext4 virtio\"  \n# keep me\n";
    let activated = activate_mkinitfs_bootart_feature(source).unwrap();
    assert_eq!(
        std::str::from_utf8(&activated).unwrap(),
        "# generated by mkinitfs\n  features=\"ata base ext4 virtio bootart\"  \n# keep me\n"
    );
    assert_eq!(
        parse_mkinitfs_features(std::str::from_utf8(&activated).unwrap()).unwrap(),
        ["ata", "base", "ext4", "virtio", "bootart"]
    );
}

#[test]
fn bootart_feature_activation_rejects_foreign_or_ambiguous_state() {
    assert!(activate_mkinitfs_bootart_feature("features=\"base bootart\"\n").is_err());
    assert!(activate_mkinitfs_bootart_feature("features=\"base base\"\n").is_err());
    assert!(activate_mkinitfs_bootart_feature("features=\"base\"\nfeatures=\"virtio\"\n").is_err());
}

#[test]
fn managed_image_paths_accept_only_fixed_extlinux_and_flavor_layouts() {
    for path in [
        MKINITFS_CONFIG_PATH,
        EXTLINUX_KNOWN_GOOD_FRAGMENT_PATH,
        EXTLINUX_CONFIG_PATH,
        "/boot/initramfs-virt",
        "/boot/initramfs-virt.bootart-known-good",
        "/boot/.bootart-candidate-initramfs-virt",
    ] {
        assert!(mkinitfs_openrc_managed_image_path(path), "{path}");
    }
    for path in [
        "/boot/.bootart-candidate-initramfs-../root",
        "/boot/initramfs-virt/extra",
        "/etc/update-extlinux.d/51-foreign",
    ] {
        assert!(!mkinitfs_openrc_managed_image_path(path), "{path}");
    }
}

fn push_newc(archive: &mut Vec<u8>, name: &str, mode: u32, bytes: &[u8]) {
    let namesize = name.len() + 1;
    let header = format!(
        "070701{:08x}{:08x}{:08x}{:08x}{:08x}{:08x}{:08x}{:08x}{:08x}{:08x}{:08x}{:08x}{:08x}",
        0,
        mode,
        0,
        0,
        1,
        0,
        bytes.len(),
        0,
        0,
        0,
        0,
        namesize,
        0
    );
    assert_eq!(header.len(), 110);
    archive.extend_from_slice(header.as_bytes());
    archive.extend_from_slice(name.as_bytes());
    archive.push(0);
    archive.resize((archive.len() + 3) & !3, 0);
    archive.extend_from_slice(bytes);
    archive.resize((archive.len() + 3) & !3, 0);
}

#[test]
fn exact_raw_newc_candidate_is_inspected_without_an_external_unpacker() {
    let bootart = b"bootart-static-elf";
    let patched = patch_initramfs_init(&reviewed_init_source()).unwrap();
    let mut archive = Vec::new();
    push_newc(&mut archive, ".", 0o040755, b"");
    push_newc(&mut archive, "./usr/bin/bootart", 0o100755, bootart);
    push_newc(
        &mut archive,
        "./usr/libexec/bootart/mkinitfs-runtime",
        0o100755,
        RUNTIME_HOOK.as_bytes(),
    );
    push_newc(
        &mut archive,
        "./usr/libexec/bootart/mkinitfs-findfs",
        0o100755,
        FINDFS_WRAPPER.as_bytes(),
    );
    push_newc(&mut archive, "./init", 0o100755, patched.as_bytes());
    push_newc(&mut archive, "TRAILER!!!", 0, b"");
    let inspection = inspect_mkinitfs_openrc_archive(&archive, bootart).unwrap();
    assert_eq!(inspection.bootart_digest, sha256(bootart));
    assert_eq!(inspection.inspected_entries, 5);

    let mut foreign = archive.clone();
    foreign[0] = b'x';
    assert!(inspect_mkinitfs_openrc_archive(&foreign, bootart).is_err());
}

#[test]
fn every_declared_template_is_owned_by_the_generic_pair() {
    for id in [
        TemplateId::MkinitfsFeatureFiles,
        TemplateId::MkinitfsRuntimeHook,
        TemplateId::MkinitfsFindfsWrapper,
        TemplateId::MkinitfsEarlyCallSnippet,
        TemplateId::MkinitfsHandoffCallSnippet,
    ] {
        assert!(!template_resource(id).contents.is_empty());
    }
}

#[test]
fn patched_init_is_refused_when_patched_again() {
    let patched = patch_initramfs_init(&reviewed_init_source()).unwrap();
    assert!(patched.contains(
        "$MOCK modprobe -a loop squashfs simpledrm\n[ -x /usr/libexec/bootart/mkinitfs-runtime ] && /usr/libexec/bootart/mkinitfs-runtime start\n"
    ));
    assert!(patched.contains(
        "[ -x /usr/libexec/bootart/mkinitfs-runtime ] && /usr/libexec/bootart/mkinitfs-runtime handoff\n\t$MOCK sync\n"
    ));
    assert_eq!(
        patch_initramfs_init(&patched),
        Err("initramfs-init already carries a lifecycle call")
    );
}

#[test]
fn init_without_the_reviewed_release_is_refused() {
    let other = reviewed_init_source().replace("3.14.0-r0", "3.15.0-r0");
    assert_eq!(
        patch_initramfs_init(&other),
        Err("initramfs-init is not the reviewed release")
    );
}
