//! Fixed external command requests produced by the adapter planners.

use vstd::prelude::*;

verus! {

/// The reviewed external programs an installer transaction may run.
#[derive(Debug, Clone, Copy, PartialEq, Eq, Structural)]
pub enum GeneratorKind {
    Dracut,
    InitramfsTools,
    Mkinitcpio,
    Mkinitfs,
    MkinitfsBootDeploy,
    InitramfsInspection,
    GrubUpdate,
    ExtlinuxUpdate,
    SystemdReload,
    OpenRcRunlevel,
}

/// One exact command: executable, argv, optional working directory, the
/// alternate root it runs against, and whether its environment is cleared.
#[derive(Debug, Clone, PartialEq, Eq)]
pub struct GeneratorRequest {
    pub generator: GeneratorKind,
    pub executable: String,
    pub alternate_root: String,
    pub working_directory: Option<String>,
    pub arguments: Vec<String>,
    pub clear_environment: bool,
}

/// What a command runner reports back.
#[derive(Debug, Clone, PartialEq, Eq)]
pub struct CommandOutput {
    pub status: i32,
    pub stdout: Vec<u8>,
    pub stderr: Vec<u8>,
}

impl GeneratorRequest {
    /// The argument views.
    pub open spec fn args(&self) -> Seq<Seq<char>> {
        self.arguments@.map_values(|a: String| a@)
    }

    /// The request runs exactly `executable` with `args` against `root`,
    /// in `workdir`, with a cleared environment.
    pub open spec fn is_exactly(
        &self,
        generator: GeneratorKind,
        executable: Seq<char>,
        root: Seq<char>,
        workdir: Option<Seq<char>>,
        args: Seq<Seq<char>>,
    ) -> bool {
        &&& self.generator == generator
        &&& self.executable@ == executable
        &&& self.alternate_root@ == root
        &&& self.workdir() == workdir
        &&& self.args() == args
        &&& self.clear_environment
    }

    /// The working directory view.
    pub open spec fn workdir(&self) -> Option<Seq<char>> {
        match self.working_directory {
            Some(d) => Some(d@),
            None => None,
        }
    }
}

} // verus!
