use bootart::adapter::AdapterId;
use bootart::digest::sha256;
use bootart::generator::GeneratorKind;
use bootart::render::{
    generator_stable_name, json_escape, planned_hash_json, planned_hash_human, planned_value_json,
    render_safety_record_human, render_safety_record_json,
};
use bootart::safety::{
    BackupSubjectKind, DirectoryScope, ExpectedPreviousState, GeneratorInvocation, InspectionKind,
    PlannedHashState, PlannedValue, PreviewExecutionState, RollbackAction, SafetyRecord,
};

const ABC_DIGEST: &str = "ba7816bf8f01cfea414140de5dae2223b00361a396177a9cb410ff61f20015ad";
const BLOCKED: PreviewExecutionState = PreviewExecutionState::Blocked { blocker: "locked" };

#[test]
fn json_strings_escape_quotes_backslashes_and_controls() {
    assert_eq!(json_escape("plain/path"), "plain/path");
    assert_eq!(json_escape("a\"b\\c\nd\re\tf"), "a\\\"b\\\\c\\nd\\re\\tf");
    assert_eq!(json_escape("\u{1}\u{1f}"), "\\u0001\\u001f");
    assert_eq!(json_escape("ä "), "ä ");
}

#[test]
fn values_and_hashes_render_their_state() {
    assert_eq!(
        planned_value_json(&PlannedValue::Exact("/boot/x".to_string())),
        "{\"state\":\"exact\",\"value\":\"/boot/x\"}"
    );
    assert_eq!(
        planned_value_json(&PlannedValue::Unresolved { blocker: "no \"path\"" }),
        "{\"state\":\"unresolved\",\"blocker\":\"no \\\"path\\\"\"}"
    );
    assert_eq!(planned_hash_json(PlannedHashState::Absent), "{\"state\":\"absent\"}");
    assert_eq!(
        planned_hash_json(PlannedHashState::Exact(sha256(b"abc"))),
        format!("{{\"state\":\"exact\",\"sha256\":\"{ABC_DIGEST}\"}}")
    );
    assert_eq!(planned_hash_human(PlannedHashState::Uninspected { blocker: "later" }), "uninspected:later");
    assert_eq!(generator_stable_name(GeneratorKind::InitramfsTools), "initramfs_tools");
}

#[test]
fn a_required_directory_renders_for_people_and_machines() {
    let record = SafetyRecord::RequiredDirectory {
        scope: DirectoryScope::RealRoot,
        path: "/var/lib/bootart".to_string(),
        mode: 0o700,
        owner_uid: 0,
        previous: ExpectedPreviousState::Uninspected,
        blocker: "not inspected",
    };
    assert_eq!(
        render_safety_record_json(&record),
        "{\"kind\":\"required_directory\",\"scope\":\"real_root\",\"path\":\"/var/lib/bootart\",\"mode\":448,\"owner_uid\":0,\"previous\":\"uninspected\",\"blocker\":\"not inspected\",\"execution\":\"unsupported\"}"
    );
    assert_eq!(
        render_safety_record_human(&record),
        "required-directory scope=real_root path=/var/lib/bootart mode=0700 owner=0 previous=uninspected blocker=not inspected execution=unsupported"
    );
}

#[test]
fn a_generator_renders_its_invocation() {
    let record = SafetyRecord::Generator {
        adapter: AdapterId::MkinitfsBusybox,
        generator: GeneratorKind::Mkinitfs,
        invocation: GeneratorInvocation::Exact {
            executable: "/sbin/mkinitfs".to_string(),
            arguments: vec!["-o".to_string(), "x \"y\"".to_string()],
        },
        execution: BLOCKED,
    };
    assert_eq!(
        render_safety_record_json(&record),
        "{\"kind\":\"generator\",\"adapter\":\"mkinitfs-busybox\",\"generator\":\"mkinitfs\",\"invocation\":{\"state\":\"exact\",\"executable\":\"/sbin/mkinitfs\",\"argv\":[\"-o\",\"x \\\"y\\\"\"]},\"execution\":\"blocked\",\"blocker\":\"locked\"}"
    );
    assert_eq!(
        render_safety_record_human(&record),
        "generator adapter=mkinitfs-busybox kind=mkinitfs invocation=exact:/sbin/mkinitfs argv=[\"-o\", \"x \\\"y\\\"\"] blocker=locked execution=unsupported"
    );
}

#[test]
fn images_backups_inspections_and_rollback_steps_render() {
    let candidate = SafetyRecord::CandidateImage {
        adapter: AdapterId::DracutSystemd,
        path: PlannedValue::Unresolved { blocker: "no path" },
        pre_change_hash: PlannedHashState::Absent,
        separately_named: true,
    };
    assert_eq!(
        render_safety_record_json(&candidate),
        "{\"kind\":\"candidate_image\",\"adapter\":\"dracut-systemd\",\"path\":{\"state\":\"unresolved\",\"blocker\":\"no path\"},\"pre_change_hash\":{\"state\":\"absent\"},\"separately_named\":true,\"execution\":\"unsupported\"}"
    );
    assert_eq!(
        render_safety_record_human(&candidate),
        "candidate-image adapter=dracut-systemd path=unresolved:no path pre-change-hash=absent separately-named=true execution=unsupported"
    );
    let known_good = SafetyRecord::KnownGood {
        adapter: AdapterId::DracutSystemd,
        image_path: PlannedValue::Exact("/boot/initrd.img".to_string()),
        image_hash: PlannedHashState::Unresolved { blocker: "unread" },
        boot_entry: PlannedValue::Unresolved { blocker: "no entry" },
        untouched: true,
    };
    assert_eq!(
        render_safety_record_human(&known_good),
        "known-good adapter=dracut-systemd image=exact:/boot/initrd.img hash=unresolved:unread boot-entry=unresolved:no entry untouched=true"
    );
    let backup = SafetyRecord::PlannedBackup {
        subject: BackupSubjectKind::ActivationLink,
        target: "/etc/x".to_string(),
        backup_path_template: "/var/lib/bootart/{transaction-id}/b".to_string(),
        pre_change_hash: PlannedHashState::Absent,
        execution: BLOCKED,
    };
    assert_eq!(
        render_safety_record_json(&backup),
        "{\"kind\":\"planned_backup\",\"subject\":\"activation_link\",\"target\":\"/etc/x\",\"backup_path_template\":\"/var/lib/bootart/{transaction-id}/b\",\"pre_change_hash\":{\"state\":\"absent\"},\"execution\":\"blocked\",\"blocker\":\"locked\"}"
    );
    let inspection = SafetyRecord::PostGenerationInspection {
        order: 2,
        check: InspectionKind::StaticBootartElf {
            path: "/usr/bin/bootart".to_string(),
            digest: sha256(b"abc"),
        },
        execution: BLOCKED,
    };
    assert_eq!(
        render_safety_record_human(&inspection),
        format!("post-generation-inspection order=2 check=static-bootart-elf path=/usr/bin/bootart sha256={ABC_DIGEST} blocker=locked execution=unsupported")
    );
    let rollback = SafetyRecord::Rollback {
        order: 1,
        action: RollbackAction::RemoveDirectoryIfCreated {
            scope: DirectoryScope::GeneratedInitramfs,
            path: "/usr/lib/bootart".to_string(),
        },
        execution: BLOCKED,
    };
    assert_eq!(
        render_safety_record_json(&rollback),
        "{\"kind\":\"rollback\",\"order\":1,\"action\":{\"kind\":\"remove_directory_if_created\",\"scope\":\"generated_initramfs\",\"path\":\"/usr/lib/bootart\"},\"execution\":\"blocked\",\"blocker\":\"locked\"}"
    );
    assert_eq!(
        render_safety_record_human(&rollback),
        "rollback order=1 action=remove-directory-if-created scope=generated_initramfs path=/usr/lib/bootart blocker=locked execution=unsupported"
    );
}
