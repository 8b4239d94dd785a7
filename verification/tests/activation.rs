use bootart::activation::{
    is_normalized_absolute_file_path, resolve_relative_activation_target,
    validate_absolute_activation_path,
};
use bootart::error::InstallError;

const QUIT_LINK: &str = "/etc/systemd/system/multi-user.target.wants/bootart-quit.service";

#[test]
fn destinations_are_normalized_absolute_file_paths() {
    assert!(is_normalized_absolute_file_path("/etc/runlevels/boot/bootart"));
    assert!(is_normalized_absolute_file_path("/a"));
    assert!(!is_normalized_absolute_file_path("/"));
    assert!(!is_normalized_absolute_file_path(""));
    assert!(!is_normalized_absolute_file_path("etc/x"));
    assert!(!is_normalized_absolute_file_path("/etc/"));
    assert!(!is_normalized_absolute_file_path("/etc//x"));
    assert!(!is_normalized_absolute_file_path("/etc/./x"));
    assert!(!is_normalized_absolute_file_path("/etc/../x"));
    assert!(validate_absolute_activation_path(QUIT_LINK).is_ok());
    assert!(matches!(
        validate_absolute_activation_path("/etc/x/"),
        Err(InstallError::InvalidPlan(_))
    ));
}

#[test]
fn relative_targets_resolve_from_the_link_directory() {
    assert_eq!(
        resolve_relative_activation_target(
            QUIT_LINK,
            "../../../../usr/lib/systemd/system/bootart-quit.service"
        )
        .unwrap(),
        "/usr/lib/systemd/system/bootart-quit.service"
    );
    assert_eq!(
        resolve_relative_activation_target(
            "/usr/lib/systemd/system/initrd.target.wants/bootart-start.service",
            "../bootart-start.service"
        )
        .unwrap(),
        "/usr/lib/systemd/system/bootart-start.service"
    );
    assert_eq!(
        resolve_relative_activation_target("/etc/runlevels/boot/bootart", "../../init.d/bootart")
            .unwrap(),
        "/etc/init.d/bootart"
    );
    assert_eq!(resolve_relative_activation_target("/etc/x", "y/z").unwrap(), "/etc/y/z");
}

#[test]
fn non_canonical_or_escaping_targets_are_refused() {
    for target in [
        "",
        "/usr/bin/bootart",
        "a/",
        "./a",
        "a/../b",
        "a//b",
        "a/./b",
        "..",
        "../../../../../x",
    ] {
        assert!(
            matches!(
                resolve_relative_activation_target("/etc/runlevels/boot/bootart", target),
                Err(InstallError::InvalidPlan(_))
            ),
            "{target}"
        );
    }
    assert!(resolve_relative_activation_target("/etc/runlevels/boot/bootart", "../../../x").is_ok());
    assert!(resolve_relative_activation_target("/etc/runlevels/boot/bootart", "../../../../x").is_err());
}
