//! The decisions of an install transaction, as a state machine.  The caller
//! performs each action (reading the guest, writing the journal, writing a
//! payload) and reports how it went; the machine says what to do next.  It
//! never touches the filesystem itself.

use crate::status::{InstalledFileStatus, InstalledFileStatusView};
use crate::text::string_views;
use vstd::prelude::*;

verus! {

/// Where an install transaction stands.
#[derive(Debug, Clone, Copy, PartialEq, Eq, Structural)]
pub enum ApplyState {
    /// Nothing has been asked yet.
    Start,
    /// The mutation gates, root revalidation, lock and plan check were asked.
    AwaitGates,
    /// The journal and manifest of the guest were asked.
    AwaitExisting,
    /// The actions were assembled and their preimages captured.
    AwaitCapture,
    /// The bootstrap journal is being written.
    AwaitJournal { actions: usize },
    /// Transaction directories, preimage backups and the ready journal.
    AwaitSetup { actions: usize },
    /// The payload parent directories are being created.
    AwaitDirs { actions: usize },
    /// Action `index`'s destination is checked against its preimage.
    AwaitPreimage { index: usize, actions: usize },
    /// The journal marks action `index` in progress.
    AwaitIntent { index: usize, actions: usize },
    /// Action `index` is being written.
    AwaitPayload { index: usize, actions: usize },
    /// The journal marks action `index` applied.
    AwaitApplied { index: usize, actions: usize },
    /// The manifest is being committed.
    AwaitManifest { actions: usize },
    /// The committed journal is being removed.
    AwaitJournalRemoval,
    /// A rollback runs; `modified` names the action whose destination
    /// changed under the transaction, if that is why.
    AwaitRollback { modified: Option<usize> },
    /// The transaction ended.
    Done,
}

/// What an existing installation looks like.
#[derive(Debug, Clone, Copy, PartialEq, Eq, Structural)]
pub struct ExistingInstall {
    /// Its manifest names this plan's adapters and payloads.
    pub matches_plan: bool,
    /// How many owned paths are no longer exactly as installed.
    pub modified: usize,
}

/// How the last action went.
#[derive(Debug, Clone, Copy, PartialEq, Eq, Structural)]
pub enum ApplyEvent {
    /// The action succeeded.
    Succeeded,
    /// The action failed; the caller keeps its error.
    Failed,
    /// The guest was read: whether a journal is left over, and the existing
    /// installation, if any.
    Existing { journal_present: bool, installed: Option<ExistingInstall> },
    /// The actions were assembled: how many, and how many whole-file
    /// destinations already hold a regular file.
    Captured { actions: usize, collisions: usize },
    /// Whether the destination still holds exactly its captured preimage.
    PreimageChecked { exact: bool },
    /// The rollback finished, keeping this many non-empty directories.
    RolledBack { preserved_directories: usize },
}

/// Why a transaction ends without installing.
#[derive(Debug, Clone, Copy, PartialEq, Eq, Structural)]
pub enum ApplyRefusal {
    /// The error of the step that failed, before anything changed.
    StepFailed,
    /// A journal is left over: recover first.
    RecoveryRequired,
    /// Another installation is present.
    ExistingInstallationConflict,
    /// The existing installation was modified locally.
    ManagedFilesModified,
    /// Whole-file destinations already hold regular files.
    DestinationCollision,
    /// Rolled back after the destination of this action changed.
    RolledBackModified { index: usize },
    /// Rolled back after the error of the step that failed.
    RolledBack,
    /// Rolled back, but some created directories were not empty.
    RolledBackWithPreservedDirectories,
    /// The rollback itself failed; the journal stays for recovery.
    RollbackFailed,
}

/// How a transaction ends when it succeeds.
#[derive(Debug, Clone, Copy, PartialEq, Eq, Structural)]
pub enum ApplyOutcome {
    Installed,
    AlreadyCurrent,
}

/// What the caller does next.
#[derive(Debug, Clone, Copy, PartialEq, Eq, Structural)]
pub enum ApplyAction {
    CheckGates,
    ReadExisting,
    CaptureActions,
    WriteBootstrapJournal,
    SetUpTransaction,
    CreateDirectories,
    CheckPreimage { index: usize },
    RecordIntent { index: usize },
    WritePayload { index: usize },
    RecordApplied { index: usize },
    WriteManifest,
    RemoveJournal,
    /// Restore the first `entries` journal entries, last first, then remove
    /// the created directories.
    RollBack { entries: usize },
    Finish(ApplyOutcome),
    Refuse(ApplyRefusal),
    Nothing,
}

/// The journal is durable in this state: everything from the ready
/// transaction to its commit or rollback.
pub open spec fn journaled(s: ApplyState) -> bool {
    match s {
        ApplyState::AwaitSetup { .. } | ApplyState::AwaitDirs { .. } | ApplyState::AwaitPreimage {
            ..
        } | ApplyState::AwaitIntent { .. } | ApplyState::AwaitPayload { .. }
        | ApplyState::AwaitApplied { .. } | ApplyState::AwaitManifest { .. }
        | ApplyState::AwaitJournalRemoval | ApplyState::AwaitRollback { .. } => true,
        _ => false,
    }
}

/// How many journal entries have left `Planned` in this state.
pub open spec fn started_entries(s: ApplyState) -> int {
    match s {
        ApplyState::AwaitPreimage { index, .. } => index as int,
        ApplyState::AwaitIntent { index, .. } => saturating_next(index),
        ApplyState::AwaitPayload { index, .. } => saturating_next(index),
        ApplyState::AwaitApplied { index, .. } => saturating_next(index),
        ApplyState::AwaitManifest { actions } => actions as int,
        _ => 0,
    }
}

/// `index + 1`, at most the largest count.
pub open spec fn saturating_next(index: usize) -> int {
    if index < usize::MAX {
        index + 1
    } else {
        index as int
    }
}

/// The actions that change the guest or its journal.
pub open spec fn changes_guest(a: ApplyAction) -> bool {
    match a {
        ApplyAction::SetUpTransaction | ApplyAction::CreateDirectories | ApplyAction::RecordIntent {
            ..
        } | ApplyAction::WritePayload { .. } | ApplyAction::RecordApplied { .. }
        | ApplyAction::WriteManifest | ApplyAction::RollBack { .. } => true,
        _ => false,
    }
}

/// After action `index` is applied: the next check, or the commit.
pub open spec fn after_applied(index: usize, actions: usize) -> (ApplyState, ApplyAction) {
    if index + 1 < actions {
        (
            ApplyState::AwaitPreimage { index: (index + 1) as usize, actions },
            ApplyAction::CheckPreimage { index: (index + 1) as usize },
        )
    } else {
        (ApplyState::AwaitManifest { actions }, ApplyAction::WriteManifest)
    }
}

/// A failure once the journal is durable rolls back every entry that left
/// `Planned`.
pub open spec fn roll_back(s: ApplyState) -> (ApplyState, ApplyAction) {
    (
        ApplyState::AwaitRollback { modified: None },
        ApplyAction::RollBack { entries: started_entries(s) as usize },
    )
}

/// The next state and action of an install transaction.
pub open spec fn spec_apply_step(s: ApplyState, e: ApplyEvent) -> (ApplyState, ApplyAction) {
    match s {
        ApplyState::Start => (ApplyState::AwaitGates, ApplyAction::CheckGates),
        ApplyState::AwaitGates => match e {
            ApplyEvent::Succeeded => (ApplyState::AwaitExisting, ApplyAction::ReadExisting),
            _ => (ApplyState::Done, ApplyAction::Refuse(ApplyRefusal::StepFailed)),
        },
        ApplyState::AwaitExisting => match e {
            ApplyEvent::Existing { journal_present, installed } => if journal_present {
                (ApplyState::Done, ApplyAction::Refuse(ApplyRefusal::RecoveryRequired))
            } else {
                match installed {
                    Some(i) => if !i.matches_plan {
                        (
                            ApplyState::Done,
                            ApplyAction::Refuse(ApplyRefusal::ExistingInstallationConflict),
                        )
                    } else if i.modified > 0 {
                        (ApplyState::Done, ApplyAction::Refuse(ApplyRefusal::ManagedFilesModified))
                    } else {
                        (ApplyState::Done, ApplyAction::Finish(ApplyOutcome::AlreadyCurrent))
                    },
                    None => (ApplyState::AwaitCapture, ApplyAction::CaptureActions),
                }
            },
            _ => (ApplyState::Done, ApplyAction::Refuse(ApplyRefusal::StepFailed)),
        },
        ApplyState::AwaitCapture => match e {
            ApplyEvent::Captured { actions, collisions } => if collisions > 0 {
                (ApplyState::Done, ApplyAction::Refuse(ApplyRefusal::DestinationCollision))
            } else {
                (ApplyState::AwaitJournal { actions }, ApplyAction::WriteBootstrapJournal)
            },
            _ => (ApplyState::Done, ApplyAction::Refuse(ApplyRefusal::StepFailed)),
        },
        ApplyState::AwaitJournal { actions } => match e {
            ApplyEvent::Succeeded => (ApplyState::AwaitSetup { actions }, ApplyAction::SetUpTransaction),
            _ => (ApplyState::Done, ApplyAction::Refuse(ApplyRefusal::StepFailed)),
        },
        ApplyState::AwaitSetup { actions } => match e {
            ApplyEvent::Succeeded => (ApplyState::AwaitDirs { actions }, ApplyAction::CreateDirectories),
            _ => roll_back(s),
        },
        ApplyState::AwaitDirs { actions } => match e {
            ApplyEvent::Succeeded => if actions > 0 {
                (
                    ApplyState::AwaitPreimage { index: 0, actions },
                    ApplyAction::CheckPreimage { index: 0 },
                )
            } else {
                (ApplyState::AwaitManifest { actions }, ApplyAction::WriteManifest)
            },
            _ => roll_back(s),
        },
        ApplyState::AwaitPreimage { index, actions } => match e {
            ApplyEvent::PreimageChecked { exact } => if exact {
                (ApplyState::AwaitIntent { index, actions }, ApplyAction::RecordIntent { index })
            } else {
                (
                    ApplyState::AwaitRollback { modified: Some(index) },
                    ApplyAction::RollBack { entries: index },
                )
            },
            _ => roll_back(s),
        },
        ApplyState::AwaitIntent { index, actions } => match e {
            ApplyEvent::Succeeded => (
                ApplyState::AwaitPayload { index, actions },
                ApplyAction::WritePayload { index },
            ),
            _ => roll_back(s),
        },
        ApplyState::AwaitPayload { index, actions } => match e {
            ApplyEvent::Succeeded => (
                ApplyState::AwaitApplied { index, actions },
                ApplyAction::RecordApplied { index },
            ),
            _ => roll_back(s),
        },
        ApplyState::AwaitApplied { index, actions } => match e {
            ApplyEvent::Succeeded => after_applied(index, actions),
            _ => roll_back(s),
        },
        ApplyState::AwaitManifest { actions } => match e {
            ApplyEvent::Succeeded => (ApplyState::AwaitJournalRemoval, ApplyAction::RemoveJournal),
            _ => roll_back(s),
        },
        ApplyState::AwaitJournalRemoval => match e {
            ApplyEvent::Succeeded => (ApplyState::Done, ApplyAction::Finish(ApplyOutcome::Installed)),
            _ => (ApplyState::Done, ApplyAction::Refuse(ApplyRefusal::StepFailed)),
        },
        ApplyState::AwaitRollback { modified } => match e {
            ApplyEvent::RolledBack { preserved_directories } => if preserved_directories > 0 {
                (
                    ApplyState::Done,
                    ApplyAction::Refuse(ApplyRefusal::RolledBackWithPreservedDirectories),
                )
            } else {
                match modified {
                    Some(index) => (
                        ApplyState::Done,
                        ApplyAction::Refuse(ApplyRefusal::RolledBackModified { index }),
                    ),
                    None => (ApplyState::Done, ApplyAction::Refuse(ApplyRefusal::RolledBack)),
                }
            },
            _ => (ApplyState::Done, ApplyAction::Refuse(ApplyRefusal::RollbackFailed)),
        },
        ApplyState::Done => (ApplyState::Done, ApplyAction::Nothing),
    }
}

/// One step of an install transaction.
pub fn apply_step(state: &ApplyState, event: ApplyEvent) -> (r: (ApplyState, ApplyAction))
    ensures
        r == spec_apply_step(*state, event),
{
    let fail = (ApplyState::Done, ApplyAction::Refuse(ApplyRefusal::StepFailed));
    match *state {
        ApplyState::Start => (ApplyState::AwaitGates, ApplyAction::CheckGates),
        ApplyState::AwaitGates => match event {
            ApplyEvent::Succeeded => (ApplyState::AwaitExisting, ApplyAction::ReadExisting),
            _ => fail,
        },
        ApplyState::AwaitExisting => match event {
            ApplyEvent::Existing { journal_present, installed } => {
                if journal_present {
                    (ApplyState::Done, ApplyAction::Refuse(ApplyRefusal::RecoveryRequired))
                } else {
                    match installed {
                        Some(i) => {
                            if !i.matches_plan {
                                (
                                    ApplyState::Done,
                                    ApplyAction::Refuse(ApplyRefusal::ExistingInstallationConflict),
                                )
                            } else if i.modified > 0 {
                                (
                                    ApplyState::Done,
                                    ApplyAction::Refuse(ApplyRefusal::ManagedFilesModified),
                                )
                            } else {
                                (ApplyState::Done, ApplyAction::Finish(ApplyOutcome::AlreadyCurrent))
                            }
                        },
                        None => (ApplyState::AwaitCapture, ApplyAction::CaptureActions),
                    }
                }
            },
            _ => fail,
        },
        ApplyState::AwaitCapture => match event {
            ApplyEvent::Captured { actions, collisions } => {
                if collisions > 0 {
                    (ApplyState::Done, ApplyAction::Refuse(ApplyRefusal::DestinationCollision))
                } else {
                    (ApplyState::AwaitJournal { actions }, ApplyAction::WriteBootstrapJournal)
                }
            },
            _ => fail,
        },
        ApplyState::AwaitJournal { actions } => match event {
            ApplyEvent::Succeeded => (ApplyState::AwaitSetup { actions }, ApplyAction::SetUpTransaction),
            _ => fail,
        },
        ApplyState::AwaitSetup { actions } => match event {
            ApplyEvent::Succeeded => (ApplyState::AwaitDirs { actions }, ApplyAction::CreateDirectories),
            _ => (ApplyState::AwaitRollback { modified: None }, ApplyAction::RollBack { entries: 0 }),
        },
        ApplyState::AwaitDirs { actions } => match event {
            ApplyEvent::Succeeded => {
                if actions > 0 {
                    (
                        ApplyState::AwaitPreimage { index: 0, actions },
                        ApplyAction::CheckPreimage { index: 0 },
                    )
                } else {
                    (ApplyState::AwaitManifest { actions }, ApplyAction::WriteManifest)
                }
            },
            _ => (ApplyState::AwaitRollback { modified: None }, ApplyAction::RollBack { entries: 0 }),
        },
        ApplyState::AwaitPreimage { index, actions } => match event {
            ApplyEvent::PreimageChecked { exact } => {
                if exact {
                    (ApplyState::AwaitIntent { index, actions }, ApplyAction::RecordIntent { index })
                } else {
                    (
                        ApplyState::AwaitRollback { modified: Some(index) },
                        ApplyAction::RollBack { entries: index },
                    )
                }
            },
            _ => (
                ApplyState::AwaitRollback { modified: None },
                ApplyAction::RollBack { entries: index },
            ),
        },
        ApplyState::AwaitIntent { index, actions } => match event {
            ApplyEvent::Succeeded => (
                ApplyState::AwaitPayload { index, actions },
                ApplyAction::WritePayload { index },
            ),
            _ => (
                ApplyState::AwaitRollback { modified: None },
                ApplyAction::RollBack { entries: started_after(index) },
            ),
        },
        ApplyState::AwaitPayload { index, actions } => match event {
            ApplyEvent::Succeeded => (
                ApplyState::AwaitApplied { index, actions },
                ApplyAction::RecordApplied { index },
            ),
            _ => (
                ApplyState::AwaitRollback { modified: None },
                ApplyAction::RollBack { entries: started_after(index) },
            ),
        },
        ApplyState::AwaitApplied { index, actions } => match event {
            ApplyEvent::Succeeded => {
                if index < actions && index + 1 < actions {
                    (
                        ApplyState::AwaitPreimage { index: index + 1, actions },
                        ApplyAction::CheckPreimage { index: index + 1 },
                    )
                } else {
                    (ApplyState::AwaitManifest { actions }, ApplyAction::WriteManifest)
                }
            },
            _ => (
                ApplyState::AwaitRollback { modified: None },
                ApplyAction::RollBack { entries: started_after(index) },
            ),
        },
        ApplyState::AwaitManifest { actions } => match event {
            ApplyEvent::Succeeded => (ApplyState::AwaitJournalRemoval, ApplyAction::RemoveJournal),
            _ => (
                ApplyState::AwaitRollback { modified: None },
                ApplyAction::RollBack { entries: actions },
            ),
        },
        ApplyState::AwaitJournalRemoval => match event {
            ApplyEvent::Succeeded => (ApplyState::Done, ApplyAction::Finish(ApplyOutcome::Installed)),
            _ => fail,
        },
        ApplyState::AwaitRollback { modified } => match event {
            ApplyEvent::RolledBack { preserved_directories } => {
                if preserved_directories > 0 {
                    (
                        ApplyState::Done,
                        ApplyAction::Refuse(ApplyRefusal::RolledBackWithPreservedDirectories),
                    )
                } else {
                    match modified {
                        Some(index) => (
                            ApplyState::Done,
                            ApplyAction::Refuse(ApplyRefusal::RolledBackModified { index }),
                        ),
                        None => (ApplyState::Done, ApplyAction::Refuse(ApplyRefusal::RolledBack)),
                    }
                }
            },
            _ => (ApplyState::Done, ApplyAction::Refuse(ApplyRefusal::RollbackFailed)),
        },
        ApplyState::Done => (ApplyState::Done, ApplyAction::Nothing),
    }
}

/// The entries that left `Planned` once action `index` was marked in
/// progress.
fn started_after(index: usize) -> (n: usize)
    ensures
        n == saturating_next(index),
{
    if index < usize::MAX {
        index + 1
    } else {
        index
    }
}


/// The step counters are in range: an indexed step names one of the actions.
pub open spec fn apply_state_ok(s: ApplyState) -> bool {
    match s {
        ApplyState::AwaitPreimage { index, actions } => index < actions,
        ApplyState::AwaitIntent { index, actions } => index < actions,
        ApplyState::AwaitPayload { index, actions } => index < actions,
        ApplyState::AwaitApplied { index, actions } => index < actions,
        _ => true,
    }
}

/// The event that lets a journaled step go on.
pub open spec fn advances(s: ApplyState, e: ApplyEvent) -> bool {
    match s {
        ApplyState::AwaitPreimage { .. } => e == ApplyEvent::PreimageChecked { exact: true },
        _ => e == ApplyEvent::Succeeded,
    }
}

/// Every step keeps the counters in range.
pub proof fn lemma_apply_state_ok_kept(s: ApplyState, e: ApplyEvent)
    requires
        apply_state_ok(s),
    ensures
        apply_state_ok(spec_apply_step(s, e).0),
{
}

/// The journal is durable before the transaction changes anything: a step
/// that changes the guest, or reaches a journaled state, starts from a
/// journaled state or from the bootstrap journal's successful write.
pub proof fn lemma_journal_before_change(s: ApplyState, e: ApplyEvent)
    ensures
        changes_guest(spec_apply_step(s, e).1) ==> journaled(s) || (s is AwaitJournal && e
            == ApplyEvent::Succeeded),
        journaled(spec_apply_step(s, e).0) ==> journaled(s) || (s is AwaitJournal && e
            == ApplyEvent::Succeeded),
{
}

/// The manifest is committed only once every action was applied: after the
/// last action's applied record, or at once when there are no actions.
pub proof fn lemma_commit_after_every_action(s: ApplyState, e: ApplyEvent)
    requires
        apply_state_ok(s),
        spec_apply_step(s, e).1 == (ApplyAction::WriteManifest),
    ensures
        e == ApplyEvent::Succeeded,
        (s is AwaitApplied && s->AwaitApplied_index + 1 == s->AwaitApplied_actions) || (s
            == (ApplyState::AwaitDirs { actions: 0 })),
{
}

/// A failure once the journal is durable, and before the commit is done,
/// rolls back: the next action restores every journal entry that left
/// `Planned`, so every saved original comes back.
pub proof fn lemma_failure_restores_originals(s: ApplyState, e: ApplyEvent)
    requires
        journaled(s),
        !(s is AwaitRollback),
        !(s is AwaitJournalRemoval),
        !advances(s, e),
    ensures
        spec_apply_step(s, e).1 == (ApplyAction::RollBack { entries: started_entries(s) as usize }),
        spec_apply_step(s, e).0 is AwaitRollback,
{
}


// ---------------------------------------------------------------------------
// Uninstall
// ---------------------------------------------------------------------------

/// Where an uninstall transaction stands; `entries` counts the owned paths
/// that are still exactly as installed, the only ones it touches.
#[derive(Debug, Clone, Copy, PartialEq, Eq, Structural)]
pub enum UninstallState {
    Start,
    AwaitGates,
    AwaitExisting,
    /// The manifest's status was asked.
    AwaitStatus,
    /// The exact entries' current contents are captured and bounded.
    AwaitCapture { entries: usize },
    AwaitJournal { entries: usize },
    /// Backups of the exact entries and of the manifest, then the ready
    /// journal.
    AwaitBackups { entries: usize },
    /// Entry `index` is checked to be still exactly as installed.
    AwaitCheck { index: usize, entries: usize },
    AwaitIntent { index: usize, entries: usize },
    /// Entry `index` gets back what it held before the installation.
    AwaitRestore { index: usize, entries: usize },
    AwaitRestored { index: usize, entries: usize },
    /// The manifest is removed, or rewritten as a partial ledger of what was
    /// preserved.
    AwaitCommit { entries: usize },
    AwaitCleanup,
    AwaitRollback { modified: Option<usize> },
    Done,
}

/// How the last action of an uninstall went.
#[derive(Debug, Clone, Copy, PartialEq, Eq, Structural)]
pub enum UninstallEvent {
    Succeeded,
    Failed,
    /// Whether a journal is left over and whether a manifest is installed.
    Existing { journal_present: bool, manifest_present: bool },
    /// How many owned paths are still exactly as installed.
    StatusRead { exact: usize },
    /// Whether the entry is still exactly as installed.
    EntryChecked { exact: bool },
    RolledBack { preserved_directories: usize },
}

/// How an uninstall ends.
#[derive(Debug, Clone, Copy, PartialEq, Eq, Structural)]
pub enum UninstallOutcome {
    /// No installation was present.
    NothingInstalled,
    /// Every owned path was modified locally; all are preserved and reported.
    AllPreserved,
    /// The exact paths were removed or restored; modified ones are preserved
    /// and reported.
    Uninstalled,
}

/// What the caller of an uninstall does next.
#[derive(Debug, Clone, Copy, PartialEq, Eq, Structural)]
pub enum UninstallAction {
    CheckGates,
    ReadExisting,
    ReadStatus,
    CaptureEntries,
    WriteBootstrapJournal,
    WriteBackups,
    CheckEntry { index: usize },
    RecordIntent { index: usize },
    RestoreOriginal { index: usize },
    RecordRestored { index: usize },
    CommitManifest,
    CleanUp,
    RollBack { entries: usize },
    Finish(UninstallOutcome),
    Refuse(ApplyRefusal),
    Nothing,
}

/// The entry counts of the states are consistent with `n` exact entries and
/// the indexed steps name one of them.
pub open spec fn uninstall_state_ok(s: UninstallState, n: nat) -> bool {
    match s {
        UninstallState::AwaitCapture { entries } => entries == n,
        UninstallState::AwaitJournal { entries } => entries == n,
        UninstallState::AwaitBackups { entries } => entries == n,
        UninstallState::AwaitCheck { index, entries } => entries == n && index < entries,
        UninstallState::AwaitIntent { index, entries } => entries == n && index < entries,
        UninstallState::AwaitRestore { index, entries } => entries == n && index < entries,
        UninstallState::AwaitRestored { index, entries } => entries == n && index < entries,
        UninstallState::AwaitCommit { entries } => entries == n,
        _ => true,
    }
}

pub open spec fn uninstall_started(s: UninstallState) -> int {
    match s {
        UninstallState::AwaitCheck { index, .. } => index as int,
        UninstallState::AwaitIntent { index, .. } => saturating_next(index),
        UninstallState::AwaitRestore { index, .. } => saturating_next(index),
        UninstallState::AwaitRestored { index, .. } => saturating_next(index),
        UninstallState::AwaitCommit { entries } => entries as int,
        _ => 0,
    }
}

pub open spec fn uninstall_roll_back(s: UninstallState) -> (UninstallState, UninstallAction) {
    (
        UninstallState::AwaitRollback { modified: None },
        UninstallAction::RollBack { entries: uninstall_started(s) as usize },
    )
}

/// The next state and action of an uninstall transaction.
pub open spec fn spec_uninstall_step(s: UninstallState, e: UninstallEvent) -> (
    UninstallState,
    UninstallAction,
) {
    let refuse = (UninstallState::Done, UninstallAction::Refuse(ApplyRefusal::StepFailed));
    match s {
        UninstallState::Start => (UninstallState::AwaitGates, UninstallAction::CheckGates),
        UninstallState::AwaitGates => match e {
            UninstallEvent::Succeeded => (UninstallState::AwaitExisting, UninstallAction::ReadExisting),
            _ => refuse,
        },
        UninstallState::AwaitExisting => match e {
            UninstallEvent::Existing { journal_present, manifest_present } => if journal_present {
                (UninstallState::Done, UninstallAction::Refuse(ApplyRefusal::RecoveryRequired))
            } else if !manifest_present {
                (UninstallState::Done, UninstallAction::Finish(UninstallOutcome::NothingInstalled))
            } else {
                (UninstallState::AwaitStatus, UninstallAction::ReadStatus)
            },
            _ => refuse,
        },
        UninstallState::AwaitStatus => match e {
            UninstallEvent::StatusRead { exact } => if exact == 0 {
                (UninstallState::Done, UninstallAction::Finish(UninstallOutcome::AllPreserved))
            } else {
                (UninstallState::AwaitCapture { entries: exact }, UninstallAction::CaptureEntries)
            },
            _ => refuse,
        },
        UninstallState::AwaitCapture { entries } => match e {
            UninstallEvent::Succeeded => (
                UninstallState::AwaitJournal { entries },
                UninstallAction::WriteBootstrapJournal,
            ),
            _ => refuse,
        },
        UninstallState::AwaitJournal { entries } => match e {
            UninstallEvent::Succeeded => (
                UninstallState::AwaitBackups { entries },
                UninstallAction::WriteBackups,
            ),
            _ => refuse,
        },
        UninstallState::AwaitBackups { entries } => match e {
            UninstallEvent::Succeeded => if entries > 0 {
                (
                    UninstallState::AwaitCheck { index: 0, entries },
                    UninstallAction::CheckEntry { index: 0 },
                )
            } else {
                (UninstallState::AwaitCommit { entries }, UninstallAction::CommitManifest)
            },
            _ => uninstall_roll_back(s),
        },
        UninstallState::AwaitCheck { index, entries } => match e {
            UninstallEvent::EntryChecked { exact } => if exact {
                (
                    UninstallState::AwaitIntent { index, entries },
                    UninstallAction::RecordIntent { index },
                )
            } else {
                (
                    UninstallState::AwaitRollback { modified: Some(index) },
                    UninstallAction::RollBack { entries: index },
                )
            },
            _ => uninstall_roll_back(s),
        },
        UninstallState::AwaitIntent { index, entries } => match e {
            UninstallEvent::Succeeded => (
                UninstallState::AwaitRestore { index, entries },
                UninstallAction::RestoreOriginal { index },
            ),
            _ => uninstall_roll_back(s),
        },
        UninstallState::AwaitRestore { index, entries } => match e {
            UninstallEvent::Succeeded => (
                UninstallState::AwaitRestored { index, entries },
                UninstallAction::RecordRestored { index },
            ),
            _ => uninstall_roll_back(s),
        },
        UninstallState::AwaitRestored { index, entries } => match e {
            UninstallEvent::Succeeded => if index + 1 < entries {
                (
                    UninstallState::AwaitCheck { index: (index + 1) as usize, entries },
                    UninstallAction::CheckEntry { index: (index + 1) as usize },
                )
            } else {
                (UninstallState::AwaitCommit { entries }, UninstallAction::CommitManifest)
            },
            _ => uninstall_roll_back(s),
        },
        UninstallState::AwaitCommit { .. } => match e {
            UninstallEvent::Succeeded => (UninstallState::AwaitCleanup, UninstallAction::CleanUp),
            _ => uninstall_roll_back(s),
        },
        UninstallState::AwaitCleanup => match e {
            UninstallEvent::Succeeded => (
                UninstallState::Done,
                UninstallAction::Finish(UninstallOutcome::Uninstalled),
            ),
            _ => refuse,
        },
        UninstallState::AwaitRollback { modified } => match e {
            UninstallEvent::RolledBack { preserved_directories } => if preserved_directories > 0 {
                (
                    UninstallState::Done,
                    UninstallAction::Refuse(ApplyRefusal::RolledBackWithPreservedDirectories),
                )
            } else {
                match modified {
                    Some(index) => (
                        UninstallState::Done,
                        UninstallAction::Refuse(ApplyRefusal::RolledBackModified { index }),
                    ),
                    None => (UninstallState::Done, UninstallAction::Refuse(ApplyRefusal::RolledBack)),
                }
            },
            _ => (UninstallState::Done, UninstallAction::Refuse(ApplyRefusal::RollbackFailed)),
        },
        UninstallState::Done => (UninstallState::Done, UninstallAction::Nothing),
    }
}

/// One step of an uninstall transaction.
pub fn uninstall_step(state: &UninstallState, event: UninstallEvent) -> (r: (
    UninstallState,
    UninstallAction,
))
    ensures
        r == spec_uninstall_step(*state, event),
{
    let refuse = (UninstallState::Done, UninstallAction::Refuse(ApplyRefusal::StepFailed));
    let s = *state;
    match s {
        UninstallState::Start => (UninstallState::AwaitGates, UninstallAction::CheckGates),
        UninstallState::AwaitGates => match event {
            UninstallEvent::Succeeded => (UninstallState::AwaitExisting, UninstallAction::ReadExisting),
            _ => refuse,
        },
        UninstallState::AwaitExisting => match event {
            UninstallEvent::Existing { journal_present, manifest_present } => {
                if journal_present {
                    (UninstallState::Done, UninstallAction::Refuse(ApplyRefusal::RecoveryRequired))
                } else if !manifest_present {
                    (
                        UninstallState::Done,
                        UninstallAction::Finish(UninstallOutcome::NothingInstalled),
                    )
                } else {
                    (UninstallState::AwaitStatus, UninstallAction::ReadStatus)
                }
            },
            _ => refuse,
        },
        UninstallState::AwaitStatus => match event {
            UninstallEvent::StatusRead { exact } => {
                if exact == 0 {
                    (UninstallState::Done, UninstallAction::Finish(UninstallOutcome::AllPreserved))
                } else {
                    (UninstallState::AwaitCapture { entries: exact }, UninstallAction::CaptureEntries)
                }
            },
            _ => refuse,
        },
        UninstallState::AwaitCapture { entries } => match event {
            UninstallEvent::Succeeded => (
                UninstallState::AwaitJournal { entries },
                UninstallAction::WriteBootstrapJournal,
            ),
            _ => refuse,
        },
        UninstallState::AwaitJournal { entries } => match event {
            UninstallEvent::Succeeded => (
                UninstallState::AwaitBackups { entries },
                UninstallAction::WriteBackups,
            ),
            _ => refuse,
        },
        UninstallState::AwaitBackups { entries } => match event {
            UninstallEvent::Succeeded => {
                if entries > 0 {
                    (
                        UninstallState::AwaitCheck { index: 0, entries },
                        UninstallAction::CheckEntry { index: 0 },
                    )
                } else {
                    (UninstallState::AwaitCommit { entries }, UninstallAction::CommitManifest)
                }
            },
            _ => (
                UninstallState::AwaitRollback { modified: None },
                UninstallAction::RollBack { entries: 0 },
            ),
        },
        UninstallState::AwaitCheck { index, entries } => match event {
            UninstallEvent::EntryChecked { exact } => {
                if exact {
                    (
                        UninstallState::AwaitIntent { index, entries },
                        UninstallAction::RecordIntent { index },
                    )
                } else {
                    (
                        UninstallState::AwaitRollback { modified: Some(index) },
                        UninstallAction::RollBack { entries: index },
                    )
                }
            },
            _ => (
                UninstallState::AwaitRollback { modified: None },
                UninstallAction::RollBack { entries: index },
            ),
        },
        UninstallState::AwaitIntent { index, entries } => match event {
            UninstallEvent::Succeeded => (
                UninstallState::AwaitRestore { index, entries },
                UninstallAction::RestoreOriginal { index },
            ),
            _ => (
                UninstallState::AwaitRollback { modified: None },
                UninstallAction::RollBack { entries: started_after(index) },
            ),
        },
        UninstallState::AwaitRestore { index, entries } => match event {
            UninstallEvent::Succeeded => (
                UninstallState::AwaitRestored { index, entries },
                UninstallAction::RecordRestored { index },
            ),
            _ => (
                UninstallState::AwaitRollback { modified: None },
                UninstallAction::RollBack { entries: started_after(index) },
            ),
        },
        UninstallState::AwaitRestored { index, entries } => match event {
            UninstallEvent::Succeeded => {
                if index < entries && index + 1 < entries {
                    (
                        UninstallState::AwaitCheck { index: index + 1, entries },
                        UninstallAction::CheckEntry { index: index + 1 },
                    )
                } else {
                    (UninstallState::AwaitCommit { entries }, UninstallAction::CommitManifest)
                }
            },
            _ => (
                UninstallState::AwaitRollback { modified: None },
                UninstallAction::RollBack { entries: started_after(index) },
            ),
        },
        UninstallState::AwaitCommit { entries } => match event {
            UninstallEvent::Succeeded => (UninstallState::AwaitCleanup, UninstallAction::CleanUp),
            _ => (
                UninstallState::AwaitRollback { modified: None },
                UninstallAction::RollBack { entries },
            ),
        },
        UninstallState::AwaitCleanup => match event {
            UninstallEvent::Succeeded => (
                UninstallState::Done,
                UninstallAction::Finish(UninstallOutcome::Uninstalled),
            ),
            _ => refuse,
        },
        UninstallState::AwaitRollback { modified } => match event {
            UninstallEvent::RolledBack { preserved_directories } => {
                if preserved_directories > 0 {
                    (
                        UninstallState::Done,
                        UninstallAction::Refuse(ApplyRefusal::RolledBackWithPreservedDirectories),
                    )
                } else {
                    match modified {
                        Some(index) => (
                            UninstallState::Done,
                            UninstallAction::Refuse(ApplyRefusal::RolledBackModified { index }),
                        ),
                        None => (
                            UninstallState::Done,
                            UninstallAction::Refuse(ApplyRefusal::RolledBack),
                        ),
                    }
                }
            },
            _ => (UninstallState::Done, UninstallAction::Refuse(ApplyRefusal::RollbackFailed)),
        },
        UninstallState::Done => (UninstallState::Done, UninstallAction::Nothing),
    }
}

/// The positions of the owned paths still exactly as installed, in order.
pub open spec fn exact_positions(fs: Seq<InstalledFileStatusView>) -> Seq<int>
    decreases fs.len(),
{
    if fs.len() == 0 {
        seq![]
    } else if fs.last().state is Exact {
        exact_positions(fs.drop_last()).push(fs.len() - 1)
    } else {
        exact_positions(fs.drop_last())
    }
}

/// The paths modified locally, in order: preserved and reported.
pub open spec fn modified_paths(fs: Seq<InstalledFileStatusView>) -> Seq<Seq<char>>
    decreases fs.len(),
{
    if fs.len() == 0 {
        seq![]
    } else if fs.last().state is Exact {
        modified_paths(fs.drop_last())
    } else {
        modified_paths(fs.drop_last()).push(fs.last().path)
    }
}

pub open spec fn status_views(v: Seq<InstalledFileStatus>) -> Seq<InstalledFileStatusView> {
    v.map_values(|f: InstalledFileStatus| f@)
}

/// Splits an installation's file statuses: the positions an uninstall may
/// remove or restore, and the modified paths it preserves and reports.
pub fn uninstall_partition(files: &Vec<InstalledFileStatus>) -> (r: (Vec<usize>, Vec<String>))
    ensures
        r.0@.map_values(|i: usize| i as int) == exact_positions(status_views(files@)),
        string_views(r.1@) == modified_paths(status_views(files@)),
{
    let ghost fv = status_views(files@);
    let mut exact: Vec<usize> = Vec::new();
    let mut kept: Vec<String> = Vec::new();
    let mut i: usize = 0;
    assert(fv.take(0) =~= Seq::<InstalledFileStatusView>::empty());
    assert(exact@.map_values(|i: usize| i as int) =~= Seq::<int>::empty());
    assert(string_views(kept@) =~= Seq::<Seq<char>>::empty());
    while i < files.len()
        invariant
            i <= files@.len(),
            fv == status_views(files@),
            exact@.map_values(|k: usize| k as int) == exact_positions(fv.take(i as int)),
            string_views(kept@) == modified_paths(fv.take(i as int)),
        decreases files.len() - i,
    {
        assert(fv.take(i as int + 1).drop_last() =~= fv.take(i as int));
        assert(fv.take(i as int + 1).last() == files@[i as int]@);
        let ghost e0 = exact@;
        let ghost k0 = kept@;
        if files[i].state.is_exact() {
            exact.push(i);
            assert(exact@.map_values(|k: usize| k as int) =~= e0.map_values(|k: usize| k as int).push(
                i as int,
            ));
        } else {
            kept.push(files[i].path.clone());
            assert(string_views(kept@) =~= string_views(k0).push(files@[i as int].path@));
        }
        i = i + 1;
    }
    assert(fv.take(files@.len() as int) =~= fv);
    (exact, kept)
}

proof fn lemma_exact_positions(fs: Seq<InstalledFileStatusView>)
    ensures
        forall|k: int|
            0 <= k < exact_positions(fs).len() ==> 0 <= #[trigger] exact_positions(fs)[k] < fs.len()
                && fs[exact_positions(fs)[k]].state is Exact,
    decreases fs.len(),
{
    if fs.len() > 0 {
        lemma_exact_positions(fs.drop_last());
        let p = exact_positions(fs.drop_last());
        assert forall|k: int| 0 <= k < p.len() implies fs[p[k]] == fs.drop_last()[p[k]] by {}
    }
}

/// A locally modified path is never removed: an uninstall of the exact
/// positions `exact_positions(files)` restores only positions of paths that
/// are still exactly as installed, and a modified path is at no such
/// position.
pub proof fn lemma_modified_never_removed(
    files: Seq<InstalledFileStatusView>,
    s: UninstallState,
    e: UninstallEvent,
)
    requires
        uninstall_state_ok(s, exact_positions(files).len()),
    ensures
        spec_uninstall_step(s, e).1 matches UninstallAction::RestoreOriginal { index } ==> (index
            < exact_positions(files).len() && files[exact_positions(files)[index as int]].state
            is Exact),
        forall|j: int|
            0 <= j < files.len() && !(files[j].state is Exact) ==> !exact_positions(files).contains(j),
{
    lemma_exact_positions(files);
}

/// Every step keeps an uninstall's counts consistent with its exact entries.
pub proof fn lemma_uninstall_state_ok_kept(s: UninstallState, e: UninstallEvent, n: nat)
    requires
        uninstall_state_ok(s, n),
        s is AwaitStatus ==> (e matches UninstallEvent::StatusRead { exact } && exact == n),
    ensures
        uninstall_state_ok(spec_uninstall_step(s, e).0, n),
{
}

/// The guest holds a journal left over from an interrupted transaction.
pub open spec fn left_over_journal(e: ApplyEvent) -> bool {
    e matches ApplyEvent::Existing { journal_present: true, .. }
}

/// The guest holds no journal and an installation whose manifest records
/// another plan.
pub open spec fn foreign_installation(e: ApplyEvent) -> bool {
    match e {
        ApplyEvent::Existing { journal_present, installed } => !journal_present && match installed {
            Some(i) => !i.matches_plan,
            None => false,
        },
        _ => false,
    }
}

/// The guest holds no journal and an installation of this plan with
/// locally modified paths.
pub open spec fn modified_installation(e: ApplyEvent) -> bool {
    match e {
        ApplyEvent::Existing { journal_present, installed } => !journal_present && match installed {
            Some(i) => i.matches_plan && i.modified > 0,
            None => false,
        },
        _ => false,
    }
}

/// The guest holds no journal and an unmodified installation of this plan.
pub open spec fn current_installation(e: ApplyEvent) -> bool {
    match e {
        ApplyEvent::Existing { journal_present, installed } => !journal_present && match installed {
            Some(i) => i.matches_plan && i.modified == 0,
            None => false,
        },
        _ => false,
    }
}

/// The install ends at once, refused for `why`.
pub open spec fn install_refused(why: ApplyRefusal) -> (ApplyState, ApplyAction) {
    (ApplyState::Done, ApplyAction::Refuse(why))
}

/// What the guest already holds decides an install before anything is
/// written: a left-over journal is refused as needing recovery, an
/// installation of another plan as a conflict, and a modified installation
/// of this plan as modified; the install is reported already current only
/// for an unmodified installation of this very plan, and only then.
pub proof fn lemma_existing_installation_decides(s: ApplyState, e: ApplyEvent)
    ensures
        spec_apply_step(s, e).1 == ApplyAction::Finish(ApplyOutcome::AlreadyCurrent) ==> (s
            == ApplyState::AwaitExisting && current_installation(e)),
        (s == ApplyState::AwaitExisting && left_over_journal(e)) ==> spec_apply_step(s, e)
            == install_refused(ApplyRefusal::RecoveryRequired),
        (s == ApplyState::AwaitExisting && foreign_installation(e)) ==> spec_apply_step(s, e)
            == install_refused(ApplyRefusal::ExistingInstallationConflict),
        (s == ApplyState::AwaitExisting && modified_installation(e)) ==> spec_apply_step(s, e)
            == install_refused(ApplyRefusal::ManagedFilesModified),
{
}

/// The guest reports a left-over journal to an uninstall.
pub open spec fn uninstall_sees_journal(e: UninstallEvent) -> bool {
    e matches UninstallEvent::Existing { journal_present: true, .. }
}

/// The guest reports no journal and whether a manifest is installed.
pub open spec fn uninstall_sees_clean(e: UninstallEvent, manifest: bool) -> bool {
    match e {
        UninstallEvent::Existing { journal_present, manifest_present } => !journal_present
            && manifest_present == manifest,
        _ => false,
    }
}

/// An uninstall never runs over a left-over journal: when the guest holds
/// one, the uninstall is refused as needing recovery, and the status of the
/// installation is read only when no journal is left and a manifest is
/// installed.  Nothing installed and no journal ends it with nothing done.
pub proof fn lemma_uninstall_never_runs_over_a_journal(s: UninstallState, e: UninstallEvent)
    ensures
        (s == UninstallState::AwaitExisting && uninstall_sees_journal(e)) ==> spec_uninstall_step(
            s,
            e,
        ) == (UninstallState::Done, UninstallAction::Refuse(ApplyRefusal::RecoveryRequired)),
        spec_uninstall_step(s, e).1 == UninstallAction::ReadStatus ==> (s
            == UninstallState::AwaitExisting && uninstall_sees_clean(e, true)),
        spec_uninstall_step(s, e).1 == UninstallAction::Finish(UninstallOutcome::NothingInstalled)
            ==> (s == UninstallState::AwaitExisting && uninstall_sees_clean(e, false)),
{
}

/// The capture found whole-file destinations that already hold a file.
pub open spec fn colliding_capture(e: ApplyEvent) -> bool {
    match e {
        ApplyEvent::Captured { collisions, .. } => collisions > 0,
        _ => false,
    }
}

/// Destination collisions stop an install before its journal: the
/// bootstrap journal is written only for a capture without collisions, and
/// a capture with collisions is refused as such.  The install is reported
/// installed only once its journal was removed after the commit.
pub proof fn lemma_collisions_stop_before_the_journal(s: ApplyState, e: ApplyEvent)
    ensures
        spec_apply_step(s, e).1 == ApplyAction::WriteBootstrapJournal ==> (s == ApplyState::AwaitCapture
            && e matches ApplyEvent::Captured { collisions: 0, .. }),
        (s == ApplyState::AwaitCapture && colliding_capture(e)) ==> spec_apply_step(s, e)
            == install_refused(ApplyRefusal::DestinationCollision),
        spec_apply_step(s, e).1 == ApplyAction::Finish(ApplyOutcome::Installed) ==> (s
            == ApplyState::AwaitJournalRemoval && e == ApplyEvent::Succeeded),
{
}

/// Each destination is written only after it was found exactly as
/// captured and the intent to write it was recorded; one found changed
/// rolls back exactly the destinations before it.
pub proof fn lemma_write_only_over_the_captured_preimage(s: ApplyState, e: ApplyEvent)
    ensures
        spec_apply_step(s, e).1 matches ApplyAction::WritePayload { index } ==> (s is AwaitIntent
            && s->AwaitIntent_index == index && e == ApplyEvent::Succeeded),
        spec_apply_step(s, e).1 matches ApplyAction::RecordIntent { index } ==> (s is AwaitPreimage
            && s->AwaitPreimage_index == index && e == (ApplyEvent::PreimageChecked { exact: true })),
        (s is AwaitPreimage && e == (ApplyEvent::PreimageChecked { exact: false })) ==> (
        spec_apply_step(s, e).1 == (ApplyAction::RollBack { entries: s->AwaitPreimage_index })),
{
}

/// Each owned path is given back its original only after it was found
/// still exactly as installed and the intent was recorded; one found
/// changed rolls back exactly the paths before it.
pub proof fn lemma_restore_only_what_is_still_installed(s: UninstallState, e: UninstallEvent)
    ensures
        spec_uninstall_step(s, e).1 matches UninstallAction::RestoreOriginal { index } ==> (s
            is AwaitIntent && s->AwaitIntent_index == index && e == UninstallEvent::Succeeded),
        spec_uninstall_step(s, e).1 matches UninstallAction::RecordIntent { index } ==> (s
            is AwaitCheck && s->AwaitCheck_index == index && e == (UninstallEvent::EntryChecked {
            exact: true,
        })),
        (s is AwaitCheck && e == (UninstallEvent::EntryChecked { exact: false })) ==> (
        spec_uninstall_step(s, e).1 == (UninstallAction::RollBack { entries: s->AwaitCheck_index })),
{
}

} // verus!
