use bootart::digest::sha256;
use bootart::status::{FileStatusState, InstalledFileStatus};
use bootart::transaction::{
    apply_step, uninstall_partition, uninstall_step, ApplyAction, ApplyEvent, ApplyOutcome,
    ApplyRefusal, ApplyState, ExistingInstall, UninstallAction, UninstallEvent, UninstallOutcome,
    UninstallState,
};

fn run(events: &[ApplyEvent]) -> Vec<ApplyAction> {
    let mut state = ApplyState::Start;
    let mut actions = Vec::new();
    let (next, action) = apply_step(&state, ApplyEvent::Succeeded);
    state = next;
    actions.push(action);
    for event in events {
        let (next, action) = apply_step(&state, *event);
        state = next;
        actions.push(action);
    }
    actions
}

#[test]
fn install_journals_before_writing_and_commits_last() {
    let actions = run(&[
        ApplyEvent::Succeeded,
        ApplyEvent::Existing { journal_present: false, installed: None },
        ApplyEvent::Captured { actions: 1, collisions: 0 },
        ApplyEvent::Succeeded,
        ApplyEvent::Succeeded,
        ApplyEvent::Succeeded,
        ApplyEvent::PreimageChecked { exact: true },
        ApplyEvent::Succeeded,
        ApplyEvent::Succeeded,
        ApplyEvent::Succeeded,
        ApplyEvent::Succeeded,
        ApplyEvent::Succeeded,
    ]);
    assert_eq!(
        actions,
        vec![
            ApplyAction::CheckGates,
            ApplyAction::ReadExisting,
            ApplyAction::CaptureActions,
            ApplyAction::WriteBootstrapJournal,
            ApplyAction::SetUpTransaction,
            ApplyAction::CreateDirectories,
            ApplyAction::CheckPreimage { index: 0 },
            ApplyAction::RecordIntent { index: 0 },
            ApplyAction::WritePayload { index: 0 },
            ApplyAction::RecordApplied { index: 0 },
            ApplyAction::WriteManifest,
            ApplyAction::RemoveJournal,
            ApplyAction::Finish(ApplyOutcome::Installed),
        ]
    );
}

#[test]
fn install_failure_after_a_write_rolls_back_every_started_entry() {
    let actions = run(&[
        ApplyEvent::Succeeded,
        ApplyEvent::Existing { journal_present: false, installed: None },
        ApplyEvent::Captured { actions: 2, collisions: 0 },
        ApplyEvent::Succeeded,
        ApplyEvent::Succeeded,
        ApplyEvent::Succeeded,
        ApplyEvent::PreimageChecked { exact: true },
        ApplyEvent::Succeeded,
        ApplyEvent::Failed,
        ApplyEvent::RolledBack { preserved_directories: 0 },
    ]);
    assert_eq!(actions[9], ApplyAction::RollBack { entries: 1 });
    assert_eq!(actions[10], ApplyAction::Refuse(ApplyRefusal::RolledBack));
}

#[test]
fn install_refuses_existing_state_before_any_change() {
    let recover = run(&[
        ApplyEvent::Succeeded,
        ApplyEvent::Existing { journal_present: true, installed: None },
    ]);
    assert_eq!(recover[2], ApplyAction::Refuse(ApplyRefusal::RecoveryRequired));
    let modified = run(&[
        ApplyEvent::Succeeded,
        ApplyEvent::Existing {
            journal_present: false,
            installed: Some(ExistingInstall { matches_plan: true, modified: 1 }),
        },
    ]);
    assert_eq!(modified[2], ApplyAction::Refuse(ApplyRefusal::ManagedFilesModified));
    let current = run(&[
        ApplyEvent::Succeeded,
        ApplyEvent::Existing {
            journal_present: false,
            installed: Some(ExistingInstall { matches_plan: true, modified: 0 }),
        },
    ]);
    assert_eq!(current[2], ApplyAction::Finish(ApplyOutcome::AlreadyCurrent));
    let collision = run(&[
        ApplyEvent::Succeeded,
        ApplyEvent::Existing { journal_present: false, installed: None },
        ApplyEvent::Captured { actions: 3, collisions: 1 },
    ]);
    assert_eq!(collision[3], ApplyAction::Refuse(ApplyRefusal::DestinationCollision));
}

#[test]
fn uninstall_preserves_and_reports_modified_files() {
    let file = |path: &str, state| InstalledFileStatus {
        path: path.to_string(),
        expected_digest: sha256(b"x"),
        expected_mode: 0o644,
        state,
    };
    let files = vec![
        file("/a", FileStatusState::Exact),
        file("/b", FileStatusState::Missing),
        file("/c", FileStatusState::Exact),
    ];
    let (exact, preserved) = uninstall_partition(&files);
    assert_eq!(exact, vec![0, 2]);
    assert_eq!(preserved, vec!["/b".to_string()]);

    let mut state = UninstallState::Start;
    let mut actions = Vec::new();
    for event in [
        UninstallEvent::Succeeded,
        UninstallEvent::Succeeded,
        UninstallEvent::Existing { journal_present: false, manifest_present: true },
        UninstallEvent::StatusRead { exact: exact.len() },
        UninstallEvent::Succeeded,
        UninstallEvent::Succeeded,
        UninstallEvent::Succeeded,
        UninstallEvent::EntryChecked { exact: true },
        UninstallEvent::Succeeded,
        UninstallEvent::Succeeded,
        UninstallEvent::Succeeded,
        UninstallEvent::EntryChecked { exact: true },
        UninstallEvent::Succeeded,
        UninstallEvent::Succeeded,
        UninstallEvent::Succeeded,
        UninstallEvent::Succeeded,
        UninstallEvent::Succeeded,
    ] {
        let (next, action) = uninstall_step(&state, event);
        state = next;
        actions.push(action);
    }
    let restored: Vec<usize> = actions
        .iter()
        .filter_map(|a| match a {
            UninstallAction::RestoreOriginal { index } => Some(exact[*index]),
            _ => None,
        })
        .collect();
    assert_eq!(restored, vec![0, 2]);
    assert_eq!(
        actions.last(),
        Some(&UninstallAction::Finish(UninstallOutcome::Uninstalled))
    );

    let all_modified = uninstall_step(&UninstallState::AwaitStatus, UninstallEvent::StatusRead { exact: 0 });
    assert_eq!(all_modified.1, UninstallAction::Finish(UninstallOutcome::AllPreserved));
}
