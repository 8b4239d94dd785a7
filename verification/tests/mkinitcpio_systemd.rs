use bootart::mkinitcpio_systemd::{activate_mkinitcpio_hooks, validate_preset};

#[test]
fn hook_activation_is_exact_ordered_and_idempotent() {
    let source = "MODULES=()\nHOOKS=(base udev autodetect block encrypt filesystems fsck)\n";
    let (activated, already) = activate_mkinitcpio_hooks(source).unwrap();
    assert!(!already);
    assert!(activated.contains("block encrypt bootart filesystems"));
    let (second, already) = activate_mkinitcpio_hooks(&activated).unwrap();
    assert!(already);
    assert_eq!(second, activated);
}

#[test]
fn hook_activation_rejects_wrong_mechanism_and_position() {
    for source in [
        "HOOKS=(base systemd block sd-encrypt filesystems fsck)\n",
        "HOOKS=(base udev block bootart encrypt filesystems fsck)\n",
        "HOOKS=(base udev encrypt block filesystems fsck)\n",
    ] {
        assert!(activate_mkinitcpio_hooks(source).is_err());
    }
}

#[test]
fn current_and_fallback_preset_spellings_are_accepted() {
    validate_preset(
        "ALL_kver=\"/boot/vmlinuz-linux\"\nPRESETS=('default')\ndefault_image=\"/boot/initramfs-linux.img\"\n",
        "linux",
    )
    .unwrap();
    validate_preset(
        "ALL_kver='/boot/vmlinuz-linux'\nPRESETS=('default' 'fallback')\ndefault_image='/boot/initramfs-linux.img'\n",
        "linux",
    )
    .unwrap();
}
