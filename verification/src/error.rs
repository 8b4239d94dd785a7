//! Installer failures.  They are explicit and never converted into success.

use crate::adapter::{AdapterId, AdapterKind};
use crate::generator::GeneratorKind;
use vstd::prelude::*;

verus! {

/// A transaction checkpoint at which an injected fault may fire.
#[derive(Debug, Clone, PartialEq, Eq)]
pub enum FailurePoint {
    JournalDurable,
    BeforeBackup { index: usize, path: String },
    BeforePayload { index: usize, path: String },
    PayloadIntentDurable { index: usize, path: String },
    BeforeManifestCommit,
}

/// Every refusal of the installer.
#[allow(inconsistent_fields)]
#[derive(Debug, Clone)]
pub enum InstallError {
    InvalidAlternateRoot { path: String, reason: String },
    UnsafePath { path: String, reason: String },
    Io { action: String, path: String, message: String },
    WrongAdapterKind { id: AdapterId, expected: AdapterKind, actual: AdapterKind },
    AdapterNotDetected { kind: AdapterKind },
    AmbiguousAdapters { kind: AdapterKind, candidates: Vec<AdapterId> },
    UnsupportedAdapterPair { initramfs: AdapterId, real_root: AdapterId, limitation: &'static str },
    DiscoveryFailed(String),
    DuplicateAdapter(AdapterId),
    IncompatibleAdapterPair { initramfs: AdapterId, real_root: AdapterId },
    InvalidBootartBinary,
    InvalidBootartElf(String),
    FileTooLarge { path: String, size: u64, limit: u64 },
    InsufficientFreeSpace { path: String, required: u64, available: u64 },
    InvalidPlan(String),
    PlanRootMismatch { planned: String, actual: String },
    MutationIdentityMismatch { effective_uid: u32, required_uid: u32 },
    MutationLocked,
    TransactionBusy,
    ExistingInstallationConflict,
    DestinationCollision(Vec<String>),
    ManagedFilesModified(Vec<String>),
    RecoveryRequired,
    CorruptManifest(String),
    CorruptJournal(String),
    BackupDigestMismatch { path: String },
    InjectedFailure { point: FailurePoint, message: String },
    ApplyAndRollbackFailed { apply: String, rollback: String },
    RolledBackWithPreservedDirectories { apply: String, directories: Vec<String> },
    CleanupFailed(Vec<String>),
    GeneratorsUnsupported { generator: GeneratorKind },
}

/// A plan refusal with `reason`.
pub fn invalid(reason: &str) -> (e: InstallError)
    ensures
        e matches InstallError::InvalidPlan(m) && m@ == reason@,
{
    InstallError::InvalidPlan(String::from_str(reason))
}

} // verus!
