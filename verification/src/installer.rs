//! The installer engine: an accepted alternate root, the ownership policy
//! it was checked under, the metadata, command and fault seams, and the
//! lock that keeps mutation off in production.  The filesystem work of a
//! transaction is done by the caller, which feeds its outcome to the step
//! machines of [`crate::transaction`] and [`crate::status`].

use crate::error::{FailurePoint, InstallError};
use crate::generator::{CommandOutput, GeneratorRequest};
use crate::root::{root_shape_ok, AlternateRoot, MetadataSource, RootPolicy, only_root_components};
use vstd::prelude::*;

verus! {

/// Runs generator commands; injected so that no command runs by default.
pub trait CommandRunner {
    fn run(&mut self, request: &GeneratorRequest) -> Result<CommandOutput, InstallError>;
}

/// The runner that refuses every command.
#[derive(Debug, Clone, Copy, Default)]
pub struct RejectCommands;

impl CommandRunner for RejectCommands {
    fn run(&mut self, request: &GeneratorRequest) -> Result<CommandOutput, InstallError> {
        Err(InstallError::GeneratorsUnsupported { generator: request.generator })
    }
}

/// Injects failures at the named points of a transaction.
pub trait FaultInjector {
    fn check(&mut self, point: &FailurePoint) -> Result<(), String>;

    /// Whether a failure stands for a crash that leaves the journal behind.
    fn simulates_interruption(&self) -> bool {
        false
    }
}

/// No failure anywhere.
#[derive(Debug, Clone, Copy, Default)]
pub struct NoFaults;

impl FaultInjector for NoFaults {
    fn check(&mut self, point: &FailurePoint) -> Result<(), String> {
        Ok(())
    }
}

/// The installer engine over its environment-dependent seams.
pub struct Installer<M, C, F> {
    root: AlternateRoot,
    metadata: M,
    policy: RootPolicy,
    commands: C,
    faults: F,
    mutation_unlocked: bool,
}

impl<M, C, F> Installer<M, C, F> {
    pub closed spec fn spec_root(&self) -> AlternateRoot {
        self.root
    }

    pub closed spec fn spec_policy(&self) -> RootPolicy {
        self.policy
    }

    /// Whether the public mutators may change the root.
    pub closed spec fn spec_mutation_unlocked(&self) -> bool {
        self.mutation_unlocked
    }
}

/// What every constructor promises of an installer built for `path`.
pub open spec fn installer_built<M, C, F>(
    i: Installer<M, C, F>,
    path: Seq<char>,
    policy: RootPolicy,
    unlocked: bool,
) -> bool {
    &&& i.spec_root().spec_path() == path
    &&& root_shape_ok(path)
    &&& i.spec_policy() == policy
    &&& i.spec_mutation_unlocked() == unlocked
}

/// The refusals every constructor makes before any observation.
pub open spec fn lexically_refused<M, C, F>(
    path: Seq<char>,
    r: Result<Installer<M, C, F>, InstallError>,
) -> bool {
    &&& (path.len() == 0 || path[0] != '/') ==> (r matches Err(
        InstallError::InvalidAlternateRoot { path: p, reason },
    ) && p@ == path && reason@ == "path must be absolute"@)
    &&& (path.len() > 0 && path[0] == '/' && only_root_components(path)) ==> (r matches Err(
        InstallError::InvalidAlternateRoot { path: p, reason },
    ) && p@ == path && reason@ == "the running host root is categorically forbidden"@)
}

impl<M: MetadataSource, C: CommandRunner, F: FaultInjector> Installer<M, C, F> {
    fn assemble(
        path: &str,
        metadata: M,
        policy: RootPolicy,
        commands: C,
        faults: F,
        mutation_unlocked: bool,
    ) -> (r: Result<Self, InstallError>)
        ensures
            r matches Ok(i) ==> installer_built(i, path@, policy, mutation_unlocked),
            lexically_refused(path@, r),
    {
        let root = match AlternateRoot::with_metadata(path, &metadata, policy) {
            Ok(root) => root,
            Err(e) => {
                return Err(e);
            },
        };
        Ok(Installer { root, metadata, policy, commands, faults, mutation_unlocked })
    }

    /// An installer over injected seams whose mutators are unlocked; the
    /// root is validated through `metadata` under `policy`.
    pub fn with_test_components(
        path: &str,
        metadata: M,
        policy: RootPolicy,
        commands: C,
        faults: F,
    ) -> (r: Result<Self, InstallError>)
        ensures
            r matches Ok(i) ==> installer_built(i, path@, policy, true),
            lexically_refused(path@, r),
    {
        Self::assemble(path, metadata, policy, commands, faults, true)
    }

    /// The production mutation posture around injected seams: the mutators
    /// stay locked.
    pub fn with_locked_test_components(
        path: &str,
        metadata: M,
        policy: RootPolicy,
        commands: C,
        faults: F,
    ) -> (r: Result<Self, InstallError>)
        ensures
            r matches Ok(i) ==> installer_built(i, path@, policy, false),
            lexically_refused(path@, r),
    {
        Self::assemble(path, metadata, policy, commands, faults, false)
    }

    /// The validated alternate root.
    pub fn root(&self) -> (r: &AlternateRoot)
        ensures
            *r == self.spec_root(),
    {
        &self.root
    }

    /// The ownership policy the root was validated under.
    pub fn policy(&self) -> (r: RootPolicy)
        ensures
            r == self.spec_policy(),
    {
        self.policy
    }

    /// The metadata seam.
    pub fn metadata(&self) -> &M {
        &self.metadata
    }

    /// Whether an injected failure stands for a crash.
    pub fn simulates_interruption(&self) -> bool {
        self.faults.simulates_interruption()
    }

    /// Passes the checkpoint `point` unless the fault seam fails it; a
    /// failure becomes an `InjectedFailure` at that point.
    pub fn checkpoint(&mut self, point: FailurePoint) -> (r: Result<(), InstallError>)
        ensures
            r is Ok || (r matches Err(InstallError::InjectedFailure { point: p, .. }) && p
                == point),
            final(self).spec_root() == old(self).spec_root(),
            final(self).spec_policy() == old(self).spec_policy(),
            final(self).spec_mutation_unlocked() == old(self).spec_mutation_unlocked(),
    {
        match self.faults.check(&point) {
            Ok(()) => Ok(()),
            Err(message) => Err(InstallError::InjectedFailure { point, message }),
        }
    }

    /// No generator is enabled yet: every request is refused with its kind,
    /// and the injected runner is never called.
    pub fn run_generator(&mut self, request: &GeneratorRequest) -> (r: Result<
        CommandOutput,
        InstallError,
    >)
        ensures
            r matches Err(InstallError::GeneratorsUnsupported { generator }) && generator
                == request.generator,
            *final(self) == *old(self),
    {
        Err(InstallError::GeneratorsUnsupported { generator: request.generator })
    }

    /// Mutation runs only where it was unlocked; production is locked.
    pub fn require_mutation_unlocked(&self) -> (r: Result<(), InstallError>)
        ensures
            r is Ok <==> self.spec_mutation_unlocked(),
            r is Err ==> r matches Err(InstallError::MutationLocked),
    {
        if self.mutation_unlocked {
            Ok(())
        } else {
            Err(InstallError::MutationLocked)
        }
    }
}

impl<M: MetadataSource> Installer<M, RejectCommands, NoFaults> {
    /// The production installer: the root is validated under the production
    /// policy through `metadata`, no command runs, no fault is injected, and
    /// the mutators stay locked.
    pub fn production(path: &str, metadata: M) -> (r: Result<Self, InstallError>)
        ensures
            r matches Ok(i) ==> installer_built(i, path@, i.spec_policy(), false)
                && i.spec_policy().spec_expected_owner_uid() == 0
                && i.spec_policy().spec_rejects_group_world_writable(),
            lexically_refused(path@, r),
    {
        Self::assemble(path, metadata, RootPolicy::production(), RejectCommands, NoFaults, false)
    }
}

} // verus!
