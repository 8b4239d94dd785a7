use bootart::adapter::AdapterId;
use bootart::digest::sha256;
use bootart::embedded::{template_resource, TemplateId};
use bootart::error::InstallError;
use bootart::operations::{
    activation_operations_for_selection, managed_snippet_operations_for_selection,
    validate_activation_operation, validate_managed_snippet_operation, ActivationOperation,
    ActivationRelation, ActivationScope, ManagedSnippetOperation,
};
use bootart::safety::ExpectedPreviousState;
use bootart::selection::{AdapterSelection, AdapterSelectionReason, SupportPolicy};

fn select(initramfs: AdapterId, real_root: AdapterId) -> AdapterSelection {
    AdapterSelection::select_pair(
        (initramfs, AdapterSelectionReason::ExplicitRequest),
        (real_root, AdapterSelectionReason::ExplicitRequest),
        SupportPolicy::AllowExplicitExperimental,
    )
    .unwrap()
}

#[test]
fn dracut_systemd_activations_are_exact_and_ordered() {
    let selection = select(AdapterId::DracutSystemd, AdapterId::SystemdRealRoot);
    let ops = activation_operations_for_selection(selection).unwrap();
    let paths: Vec<&str> = ops.iter().map(|op| op.path()).collect();
    assert_eq!(
        paths,
        vec![
            "/usr/lib/systemd/system/initrd-switch-root.target.wants/bootart-switch-root.service",
            "/usr/lib/systemd/system/initrd.target.wants/bootart-show.service",
            "/usr/lib/systemd/system/initrd.target.wants/bootart-start.service",
            "/etc/systemd/system/multi-user.target.wants/bootart-quit.service",
        ]
    );
    assert_eq!(ops[0].scope(), ActivationScope::GeneratedInitramfs);
    assert_eq!(ops[3].scope(), ActivationScope::RealRoot);
    for op in &ops {
        assert_eq!(op.owner_uid(), 0);
        assert_eq!(op.expected_previous(), ExpectedPreviousState::Uninspected);
        assert_eq!(op.relation(), ActivationRelation::SystemdWants);
        assert!(validate_activation_operation(selection, op).is_ok());
    }
}

#[test]
fn openrc_activations_use_the_embedded_runlevels() {
    let selection = select(AdapterId::MkinitfsBusybox, AdapterId::OpenRcRealRoot);
    let ops = activation_operations_for_selection(selection).unwrap();
    assert_eq!(ops.len(), 2);
    assert_eq!(ops[0].path(), "/etc/runlevels/boot/bootart");
    assert_eq!(ops[0].relation().runlevel(), Some("boot"));
    assert_eq!(ops[1].path(), "/etc/runlevels/default/bootart-quit");
    assert_eq!(ops[1].relation().runlevel(), Some("default"));
    for op in &ops {
        assert!(validate_activation_operation(selection, op).is_ok());
    }
}

#[test]
fn activation_validation_rejects_drift() {
    let selection = select(AdapterId::DracutSystemd, AdapterId::SystemdRealRoot);
    let good = |path: &str, target: &str, relation, source| {
        ActivationOperation::new(
            AdapterId::SystemdRealRoot,
            ActivationScope::RealRoot,
            relation,
            path.to_string(),
            target.to_string(),
            0,
            source,
            ExpectedPreviousState::Absent,
        )
    };
    let link = "/etc/systemd/system/multi-user.target.wants/bootart-quit.service";
    let target = "../../../../usr/lib/systemd/system/bootart-quit.service";
    assert!(validate_activation_operation(
        selection,
        &good(link, target, ActivationRelation::SystemdWants, TemplateId::SystemdQuitUnit)
    )
    .is_ok());
    // The unit does not declare RequiredBy=.
    assert!(matches!(
        validate_activation_operation(
            selection,
            &good(link, target, ActivationRelation::SystemdRequires, TemplateId::SystemdQuitUnit)
        ),
        Err(InstallError::InvalidPlan(_))
    ));
    // The unit declares WantedBy=multi-user.target, not graphical.target.
    let other = "/etc/systemd/system/graphical.target.wants/bootart-quit.service";
    assert!(validate_activation_operation(
        selection,
        &good(other, target, ActivationRelation::SystemdWants, TemplateId::SystemdQuitUnit)
    )
    .is_err());
    // The target must resolve to the source file.
    assert!(validate_activation_operation(
        selection,
        &good(
            link,
            "../../../../usr/lib/systemd/system/bootart-show.service",
            ActivationRelation::SystemdWants,
            TemplateId::SystemdQuitUnit
        )
    )
    .is_err());
    // An unselected adapter owns nothing here.
    let foreign = ActivationOperation::new(
        AdapterId::OpenRcRealRoot,
        ActivationScope::RealRoot,
        ActivationRelation::OpenRcRunlevel { runlevel: "boot" },
        "/etc/runlevels/boot/bootart".to_string(),
        "../../init.d/bootart".to_string(),
        0,
        TemplateId::OpenRcSupervisorScript,
        ExpectedPreviousState::Uninspected,
    );
    assert!(validate_activation_operation(selection, &foreign).is_err());
    // A non-root owner is refused.
    let owned = ActivationOperation::new(
        AdapterId::SystemdRealRoot,
        ActivationScope::RealRoot,
        ActivationRelation::SystemdWants,
        link.to_string(),
        target.to_string(),
        1000,
        TemplateId::SystemdQuitUnit,
        ExpectedPreviousState::Uninspected,
    );
    assert!(validate_activation_operation(selection, &owned).is_err());
}

#[test]
fn openrc_activation_rejects_a_foreign_runlevel() {
    let selection = select(AdapterId::MkinitfsBusybox, AdapterId::OpenRcRealRoot);
    let op = ActivationOperation::new(
        AdapterId::OpenRcRealRoot,
        ActivationScope::RealRoot,
        ActivationRelation::OpenRcRunlevel { runlevel: "default" },
        "/etc/runlevels/default/bootart".to_string(),
        "../../init.d/bootart".to_string(),
        0,
        TemplateId::OpenRcSupervisorScript,
        ExpectedPreviousState::Uninspected,
    );
    assert!(validate_activation_operation(selection, &op).is_err());
}

#[test]
fn mkinitfs_snippets_are_planned_and_validated() {
    let selection = select(AdapterId::MkinitfsBusybox, AdapterId::OpenRcRealRoot);
    let ops = managed_snippet_operations_for_selection(selection);
    assert_eq!(ops.len(), 2);
    assert_eq!(ops[0].target(), "/usr/share/mkinitfs/initramfs-init");
    assert_eq!(ops[0].insertion_point(), "after-modloop-drivers");
    assert_eq!(ops[0].source(), TemplateId::MkinitfsEarlyCallSnippet);
    assert_eq!(
        ops[0].digest(),
        sha256(template_resource(TemplateId::MkinitfsEarlyCallSnippet).contents.as_bytes())
    );
    assert_eq!(ops[1].insertion_point(), "before-final-sync");
    for op in &ops {
        assert!(validate_managed_snippet_operation(selection, op).is_ok());
    }
    let systemd = select(AdapterId::DracutSystemd, AdapterId::SystemdRealRoot);
    assert!(managed_snippet_operations_for_selection(systemd).is_empty());
    assert!(validate_managed_snippet_operation(systemd, &ops[0]).is_err());

    let unsafe_point = ManagedSnippetOperation::new(
        AdapterId::MkinitfsBusybox,
        "/usr/share/mkinitfs/initramfs-init".to_string(),
        "after modloop".to_string(),
        ops[0].digest(),
        TemplateId::MkinitfsEarlyCallSnippet,
        ExpectedPreviousState::Uninspected,
    );
    assert!(validate_managed_snippet_operation(selection, &unsafe_point).is_err());
    let inspected = ManagedSnippetOperation::new(
        AdapterId::MkinitfsBusybox,
        "/usr/share/mkinitfs/initramfs-init".to_string(),
        "after-modloop-drivers".to_string(),
        ops[0].digest(),
        TemplateId::MkinitfsEarlyCallSnippet,
        ExpectedPreviousState::Absent,
    );
    assert!(validate_managed_snippet_operation(selection, &inspected).is_err());
}
