//! The sentence an operator reads for each installer refusal.  Enum values
//! are named as `Debug` names them, lists are joined, numbers are decimal.

use crate::adapter::{AdapterId, AdapterKind};
use crate::error::{FailurePoint, InstallError};
use crate::generator::GeneratorKind;
use crate::render::join_strs;
use crate::text::{concat_all, decimal, owned, spec_decimal, str_views, string_views};
use vstd::prelude::*;

verus! {

pub open spec fn adapter_debug(v: AdapterId) -> Seq<char> {
    match v {
        AdapterId::DracutSystemd => "DracutSystemd"@,
        AdapterId::DracutClassic => "DracutClassic"@,
        AdapterId::InitramfsToolsBusybox => "InitramfsToolsBusybox"@,
        AdapterId::MkinitcpioBusybox => "MkinitcpioBusybox"@,
        AdapterId::MkinitfsBusybox => "MkinitfsBusybox"@,
        AdapterId::SystemdRealRoot => "SystemdRealRoot"@,
        AdapterId::OpenRcRealRoot => "OpenRcRealRoot"@,
    }
}

fn adapter_debug_exec(v: AdapterId) -> (r: String)
    ensures
        r@ == adapter_debug(v),
{
    match v {
        AdapterId::DracutSystemd => owned("DracutSystemd"),
        AdapterId::DracutClassic => owned("DracutClassic"),
        AdapterId::InitramfsToolsBusybox => owned("InitramfsToolsBusybox"),
        AdapterId::MkinitcpioBusybox => owned("MkinitcpioBusybox"),
        AdapterId::MkinitfsBusybox => owned("MkinitfsBusybox"),
        AdapterId::SystemdRealRoot => owned("SystemdRealRoot"),
        AdapterId::OpenRcRealRoot => owned("OpenRcRealRoot"),
    }
}

pub open spec fn kind_debug(v: AdapterKind) -> Seq<char> {
    match v {
        AdapterKind::InitramfsRuntime => "InitramfsRuntime"@,
        AdapterKind::RealRootSupervisor => "RealRootSupervisor"@,
    }
}

fn kind_debug_exec(v: AdapterKind) -> (r: String)
    ensures
        r@ == kind_debug(v),
{
    match v {
        AdapterKind::InitramfsRuntime => owned("InitramfsRuntime"),
        AdapterKind::RealRootSupervisor => owned("RealRootSupervisor"),
    }
}

pub open spec fn generator_debug(v: GeneratorKind) -> Seq<char> {
    match v {
        GeneratorKind::Dracut => "Dracut"@,
        GeneratorKind::InitramfsTools => "InitramfsTools"@,
        GeneratorKind::Mkinitcpio => "Mkinitcpio"@,
        GeneratorKind::Mkinitfs => "Mkinitfs"@,
        GeneratorKind::MkinitfsBootDeploy => "MkinitfsBootDeploy"@,
        GeneratorKind::InitramfsInspection => "InitramfsInspection"@,
        GeneratorKind::GrubUpdate => "GrubUpdate"@,
        GeneratorKind::ExtlinuxUpdate => "ExtlinuxUpdate"@,
        GeneratorKind::SystemdReload => "SystemdReload"@,
        GeneratorKind::OpenRcRunlevel => "OpenRcRunlevel"@,
    }
}

fn generator_debug_exec(v: GeneratorKind) -> (r: String)
    ensures
        r@ == generator_debug(v),
{
    match v {
        GeneratorKind::Dracut => owned("Dracut"),
        GeneratorKind::InitramfsTools => owned("InitramfsTools"),
        GeneratorKind::Mkinitcpio => owned("Mkinitcpio"),
        GeneratorKind::Mkinitfs => owned("Mkinitfs"),
        GeneratorKind::MkinitfsBootDeploy => owned("MkinitfsBootDeploy"),
        GeneratorKind::InitramfsInspection => owned("InitramfsInspection"),
        GeneratorKind::GrubUpdate => owned("GrubUpdate"),
        GeneratorKind::ExtlinuxUpdate => owned("ExtlinuxUpdate"),
        GeneratorKind::SystemdReload => owned("SystemdReload"),
        GeneratorKind::OpenRcRunlevel => owned("OpenRcRunlevel"),
    }
}

/// `parts` joined with `sep` (`[String]::join`).
pub open spec fn join_with(parts: Seq<Seq<char>>, sep: Seq<char>) -> Seq<char>
    decreases parts.len(),
{
    if parts.len() == 0 {
        seq![]
    } else if parts.len() == 1 {
        parts[0]
    } else {
        join_with(parts.drop_last(), sep) + sep + parts.last()
    }
}

pub(crate) fn join_strings(v: &Vec<String>, sep: &str) -> (r: String)
    ensures
        r@ == join_with(string_views(v@), sep@),
{
    let ghost sv = string_views(v@);
    if v.len() == 0 {
        return String::new();
    }
    let mut out = v[0].clone();
    let mut i: usize = 1;
    assert(sv.take(1).drop_last() =~= Seq::<Seq<char>>::empty());
    assert(join_with(sv.take(1), sep@) == v@[0]@);
    while i < v.len()
        invariant
            1 <= i <= v@.len(),
            sv == string_views(v@),
            out@ == join_with(sv.take(i as int), sep@),
        decreases v.len() - i,
    {
        assert(sv.take(i as int + 1).drop_last() =~= sv.take(i as int));
        assert(sv.take(i as int + 1).last() == v@[i as int]@);
        out.append(sep);
        out.append(v[i].as_str());
        i = i + 1;
    }
    assert(sv.take(v@.len() as int) =~= sv);
    out
}

/// `Debug` of a list of adapters.
pub open spec fn adapters_debug(ids: Seq<AdapterId>) -> Seq<char> {
    concat_all(seq!["["@, join_with(ids.map_values(|id: AdapterId| adapter_debug(id)), ", "@), "]"@])
}

fn adapters_debug_exec(ids: &Vec<AdapterId>) -> (r: String)
    ensures
        r@ == adapters_debug(ids@),
{
    let mut names: Vec<String> = Vec::new();
    let mut i: usize = 0;
    while i < ids.len()
        invariant
            i <= ids@.len(),
            string_views(names@) == ids@.take(i as int).map_values(|id: AdapterId| adapter_debug(id)),
        decreases ids.len() - i,
    {
        let ghost before = names@;
        names.push(adapter_debug_exec(ids[i]));
        assert(string_views(names@) =~= string_views(before).push(adapter_debug(ids@[i as int])));
        assert(ids@.take(i as int + 1).map_values(|id: AdapterId| adapter_debug(id)) =~= ids@.take(
            i as int,
        ).map_values(|id: AdapterId| adapter_debug(id)).push(adapter_debug(ids@[i as int])));
        i = i + 1;
    }
    assert(ids@.take(ids@.len() as int) =~= ids@);
    let joined = join_strings(&names, ", ");
    let parts = vec!["[", joined.as_str(), "]"];
    assert(str_views(parts@) =~= seq!["["@, joined@, "]"@]);
    join_strs(parts)
}

/// What `{:?}` writes for a string.
pub uninterp spec fn debug_str_text(s: Seq<char>) -> Seq<char>;

/// `format!("{:?}", s)`: std's `Debug` for a string, which quotes it and
/// escapes quotes, backslashes and unprintable characters.  The escaping
/// itself is left to std and named only.
#[verifier::external_body]
pub(crate) fn debug_str(s: &str) -> (r: String)
    ensures
        r@ == debug_str_text(s@),
{
    format!("{:?}", s)
}

/// `Debug` of a fault-injection point.
pub open spec fn failure_point_debug(p: FailurePoint) -> Seq<char> {
    match p {
        FailurePoint::JournalDurable => "JournalDurable"@,
        FailurePoint::BeforeBackup { index, path } => concat_all(
            seq!["BeforeBackup { index: "@, spec_decimal(index as nat), ", path: "@, debug_str_text(path@), " }"@],
        ),
        FailurePoint::BeforePayload { index, path } => concat_all(
            seq!["BeforePayload { index: "@, spec_decimal(index as nat), ", path: "@, debug_str_text(path@), " }"@],
        ),
        FailurePoint::PayloadIntentDurable { index, path } => concat_all(
            seq!["PayloadIntentDurable { index: "@, spec_decimal(index as nat), ", path: "@, debug_str_text(path@), " }"@],
        ),
        FailurePoint::BeforeManifestCommit => "BeforeManifestCommit"@,
    }
}

fn failure_point_debug_exec(p: &FailurePoint) -> (r: String)
    ensures
        r@ == failure_point_debug(*p),
{
    match p {
        FailurePoint::JournalDurable => owned("JournalDurable"),
        FailurePoint::BeforeBackup { index, path } => {
            let a = decimal(*index as u64);
            let b = debug_str(path.as_str());
            let parts = vec!["BeforeBackup { index: ", a.as_str(), ", path: ", b.as_str(), " }"];
            assert(str_views(parts@) =~= seq!["BeforeBackup { index: "@, a@, ", path: "@, b@, " }"@]);
            join_strs(parts)
        },
        FailurePoint::BeforePayload { index, path } => {
            let a = decimal(*index as u64);
            let b = debug_str(path.as_str());
            let parts = vec!["BeforePayload { index: ", a.as_str(), ", path: ", b.as_str(), " }"];
            assert(str_views(parts@) =~= seq!["BeforePayload { index: "@, a@, ", path: "@, b@, " }"@]);
            join_strs(parts)
        },
        FailurePoint::PayloadIntentDurable { index, path } => {
            let a = decimal(*index as u64);
            let b = debug_str(path.as_str());
            let parts = vec!["PayloadIntentDurable { index: ", a.as_str(), ", path: ", b.as_str(), " }"];
            assert(str_views(parts@) =~= seq!["PayloadIntentDurable { index: "@, a@, ", path: "@, b@, " }"@]);
            join_strs(parts)
        },
        FailurePoint::BeforeManifestCommit => owned("BeforeManifestCommit"),
    }
}

/// The sentence for `e`.
pub open spec fn spec_describe(e: InstallError) -> Seq<char> {
    match e {
        InstallError::InvalidAlternateRoot { path, reason } => concat_all(seq!["invalid alternate root "@, path@, ": "@, reason@]),
        InstallError::UnsafePath { path, reason } => concat_all(seq!["unsafe path "@, path@, ": "@, reason@]),
        InstallError::Io { action, path, message } => concat_all(seq!["could not "@, action@, " "@, path@, ": "@, message@]),
        InstallError::WrongAdapterKind { id, expected, actual } => concat_all(seq!["adapter "@, adapter_debug(id), " is "@, kind_debug(actual), ", expected "@, kind_debug(expected)]),
        InstallError::AdapterNotDetected { kind } => concat_all(seq!["no "@, kind_debug(kind), " adapter was detected"@]),
        InstallError::AmbiguousAdapters { kind, candidates } => concat_all(seq!["multiple "@, kind_debug(kind), " adapters were detected: "@, adapters_debug(candidates@)]),
        InstallError::UnsupportedAdapterPair { initramfs, real_root, limitation } => concat_all(seq!["adapter pair "@, adapter_debug(initramfs), " + "@, adapter_debug(real_root), " is unsupported: "@, limitation@]),
        InstallError::DiscoveryFailed(message) => concat_all(seq!["adapter discovery failed: "@, message@]),
        InstallError::DuplicateAdapter(id) => concat_all(seq!["adapter "@, adapter_debug(id), " was selected twice"@]),
        InstallError::IncompatibleAdapterPair { initramfs, real_root } => concat_all(seq!["adapter pair "@, adapter_debug(initramfs), " + "@, adapter_debug(real_root), " is not an explicit supported combination"@]),
        InstallError::InvalidBootartBinary => concat_all(seq!["bootart payload is not an ELF image"@]),
        InstallError::InvalidBootartElf(reason) => concat_all(seq!["invalid bootart ELF: "@, reason@]),
        InstallError::FileTooLarge { path, size, limit } => concat_all(seq!["file "@, path@, " is "@, spec_decimal(size as nat), " bytes, above the hard "@, spec_decimal(limit as nat), "-byte limit"@]),
        InstallError::InsufficientFreeSpace { path, required, available } => concat_all(seq!["insufficient free space below "@, path@, ": require "@, spec_decimal(required as nat), " bytes, have "@, spec_decimal(available as nat)]),
        InstallError::InvalidPlan(reason) => concat_all(seq!["invalid install plan: "@, reason@]),
        InstallError::PlanRootMismatch { planned, actual } => concat_all(seq!["plan root "@, planned@, " does not match installer root "@, actual@]),
        InstallError::MutationIdentityMismatch { effective_uid, required_uid } => concat_all(seq!["effective uid "@, spec_decimal(effective_uid as nat), " cannot mutate a tree requiring uid "@, spec_decimal(required_uid as nat)]),
        InstallError::MutationLocked => concat_all(seq!["installer mutation is locked until exact generator and VM acceptance gates pass"@]),
        InstallError::TransactionBusy => concat_all(seq!["another installer transaction holds the alternate-root lock"@]),
        InstallError::ExistingInstallationConflict => concat_all(seq!["an installation with a different plan already exists; uninstall it first"@]),
        InstallError::DestinationCollision(paths) => concat_all(seq!["unowned install destinations already exist: "@, join_with(string_views(paths@), ", "@)]),
        InstallError::ManagedFilesModified(paths) => concat_all(seq!["managed files were modified: "@, join_with(string_views(paths@), ", "@)]),
        InstallError::RecoveryRequired => concat_all(seq!["an interrupted transaction exists; explicit recovery is required"@]),
        InstallError::CorruptManifest(reason) => concat_all(seq!["corrupt installer manifest: "@, reason@]),
        InstallError::CorruptJournal(reason) => concat_all(seq!["corrupt installer journal: "@, reason@]),
        InstallError::BackupDigestMismatch { path } => concat_all(seq!["backup digest does not match for "@, path@]),
        InstallError::InjectedFailure { point, message } => concat_all(seq!["injected failure at "@, failure_point_debug(point), ": "@, message@]),
        InstallError::ApplyAndRollbackFailed { apply, rollback } => concat_all(seq!["transaction failed ("@, apply@, ") and rollback also failed ("@, rollback@, ")"@]),
        InstallError::RolledBackWithPreservedDirectories { apply, directories } => concat_all(seq!["transaction failed ("@, apply@, "); rollback preserved nonempty directories: "@, join_with(string_views(directories@), ", "@)]),
        InstallError::CleanupFailed(errors) => concat_all(seq!["transaction cleanup failed: "@, join_with(string_views(errors@), "; "@)]),
        InstallError::GeneratorsUnsupported { generator } => concat_all(seq!["generator "@, generator_debug(generator), " is unsupported until its disposable-VM gate passes"@]),
    }
}

impl InstallError {
    /// The sentence an operator reads for this refusal.
    pub fn describe(&self) -> (r: String)
        ensures
            r@ == spec_describe(*self),
    {
        match self {
            InstallError::InvalidAlternateRoot { path, reason } => {
                let parts = vec!["invalid alternate root ", path.as_str(), ": ", reason.as_str()];
                assert(str_views(parts@) =~= seq!["invalid alternate root "@, path@, ": "@, reason@]);
                join_strs(parts)
            },
            InstallError::UnsafePath { path, reason } => {
                let parts = vec!["unsafe path ", path.as_str(), ": ", reason.as_str()];
                assert(str_views(parts@) =~= seq!["unsafe path "@, path@, ": "@, reason@]);
                join_strs(parts)
            },
            InstallError::Io { action, path, message } => {
                let parts = vec!["could not ", action.as_str(), " ", path.as_str(), ": ", message.as_str()];
                assert(str_views(parts@) =~= seq!["could not "@, action@, " "@, path@, ": "@, message@]);
                join_strs(parts)
            },
            InstallError::WrongAdapterKind { id, expected, actual } => {
                let a = adapter_debug_exec(*id);
                let b = kind_debug_exec(*actual);
                let c = kind_debug_exec(*expected);
                let parts = vec!["adapter ", a.as_str(), " is ", b.as_str(), ", expected ", c.as_str()];
                assert(str_views(parts@) =~= seq!["adapter "@, a@, " is "@, b@, ", expected "@, c@]);
                join_strs(parts)
            },
            InstallError::AdapterNotDetected { kind } => {
                let a = kind_debug_exec(*kind);
                let parts = vec!["no ", a.as_str(), " adapter was detected"];
                assert(str_views(parts@) =~= seq!["no "@, a@, " adapter was detected"@]);
                join_strs(parts)
            },
            InstallError::AmbiguousAdapters { kind, candidates } => {
                let a = kind_debug_exec(*kind);
                let b = adapters_debug_exec(candidates);
                let parts = vec!["multiple ", a.as_str(), " adapters were detected: ", b.as_str()];
                assert(str_views(parts@) =~= seq!["multiple "@, a@, " adapters were detected: "@, b@]);
                join_strs(parts)
            },
            InstallError::UnsupportedAdapterPair { initramfs, real_root, limitation } => {
                let a = adapter_debug_exec(*initramfs);
                let b = adapter_debug_exec(*real_root);
                let parts = vec!["adapter pair ", a.as_str(), " + ", b.as_str(), " is unsupported: ", *limitation];
                assert(str_views(parts@) =~= seq!["adapter pair "@, a@, " + "@, b@, " is unsupported: "@, limitation@]);
                join_strs(parts)
            },
            InstallError::DiscoveryFailed(message) => {
                let parts = vec!["adapter discovery failed: ", message.as_str()];
                assert(str_views(parts@) =~= seq!["adapter discovery failed: "@, message@]);
                join_strs(parts)
            },
            InstallError::DuplicateAdapter(id) => {
                let a = adapter_debug_exec(*id);
                let parts = vec!["adapter ", a.as_str(), " was selected twice"];
                assert(str_views(parts@) =~= seq!["adapter "@, a@, " was selected twice"@]);
                join_strs(parts)
            },
            InstallError::IncompatibleAdapterPair { initramfs, real_root } => {
                let a = adapter_debug_exec(*initramfs);
                let b = adapter_debug_exec(*real_root);
                let parts = vec!["adapter pair ", a.as_str(), " + ", b.as_str(), " is not an explicit supported combination"];
                assert(str_views(parts@) =~= seq!["adapter pair "@, a@, " + "@, b@, " is not an explicit supported combination"@]);
                join_strs(parts)
            },
            InstallError::InvalidBootartBinary => {
                let parts = vec!["bootart payload is not an ELF image"];
                assert(str_views(parts@) =~= seq!["bootart payload is not an ELF image"@]);
                join_strs(parts)
            },
            InstallError::InvalidBootartElf(reason) => {
                let parts = vec!["invalid bootart ELF: ", reason.as_str()];
                assert(str_views(parts@) =~= seq!["invalid bootart ELF: "@, reason@]);
                join_strs(parts)
            },
            InstallError::FileTooLarge { path, size, limit } => {
                let a = decimal(*size);
                let b = decimal(*limit);
                let parts = vec!["file ", path.as_str(), " is ", a.as_str(), " bytes, above the hard ", b.as_str(), "-byte limit"];
                assert(str_views(parts@) =~= seq!["file "@, path@, " is "@, a@, " bytes, above the hard "@, b@, "-byte limit"@]);
                join_strs(parts)
            },
            InstallError::InsufficientFreeSpace { path, required, available } => {
                let a = decimal(*required);
                let b = decimal(*available);
                let parts = vec!["insufficient free space below ", path.as_str(), ": require ", a.as_str(), " bytes, have ", b.as_str()];
                assert(str_views(parts@) =~= seq!["insufficient free space below "@, path@, ": require "@, a@, " bytes, have "@, b@]);
                join_strs(parts)
            },
            InstallError::InvalidPlan(reason) => {
                let parts = vec!["invalid install plan: ", reason.as_str()];
                assert(str_views(parts@) =~= seq!["invalid install plan: "@, reason@]);
                join_strs(parts)
            },
            InstallError::PlanRootMismatch { planned, actual } => {
                let parts = vec!["plan root ", planned.as_str(), " does not match installer root ", actual.as_str()];
                assert(str_views(parts@) =~= seq!["plan root "@, planned@, " does not match installer root "@, actual@]);
                join_strs(parts)
            },
            InstallError::MutationIdentityMismatch { effective_uid, required_uid } => {
                let a = decimal(*effective_uid as u64);
                let b = decimal(*required_uid as u64);
                let parts = vec!["effective uid ", a.as_str(), " cannot mutate a tree requiring uid ", b.as_str()];
                assert(str_views(parts@) =~= seq!["effective uid "@, a@, " cannot mutate a tree requiring uid "@, b@]);
                join_strs(parts)
            },
            InstallError::MutationLocked => {
                let parts = vec!["installer mutation is locked until exact generator and VM acceptance gates pass"];
                assert(str_views(parts@) =~= seq!["installer mutation is locked until exact generator and VM acceptance gates pass"@]);
                join_strs(parts)
            },
            InstallError::TransactionBusy => {
                let parts = vec!["another installer transaction holds the alternate-root lock"];
                assert(str_views(parts@) =~= seq!["another installer transaction holds the alternate-root lock"@]);
                join_strs(parts)
            },
            InstallError::ExistingInstallationConflict => {
                let parts = vec!["an installation with a different plan already exists; uninstall it first"];
                assert(str_views(parts@) =~= seq!["an installation with a different plan already exists; uninstall it first"@]);
                join_strs(parts)
            },
            InstallError::DestinationCollision(paths) => {
                let a = join_strings(paths, ", ");
                let parts = vec!["unowned install destinations already exist: ", a.as_str()];
                assert(str_views(parts@) =~= seq!["unowned install destinations already exist: "@, a@]);
                join_strs(parts)
            },
            InstallError::ManagedFilesModified(paths) => {
                let a = join_strings(paths, ", ");
                let parts = vec!["managed files were modified: ", a.as_str()];
                assert(str_views(parts@) =~= seq!["managed files were modified: "@, a@]);
                join_strs(parts)
            },
            InstallError::RecoveryRequired => {
                let parts = vec!["an interrupted transaction exists; explicit recovery is required"];
                assert(str_views(parts@) =~= seq!["an interrupted transaction exists; explicit recovery is required"@]);
                join_strs(parts)
            },
            InstallError::CorruptManifest(reason) => {
                let parts = vec!["corrupt installer manifest: ", reason.as_str()];
                assert(str_views(parts@) =~= seq!["corrupt installer manifest: "@, reason@]);
                join_strs(parts)
            },
            InstallError::CorruptJournal(reason) => {
                let parts = vec!["corrupt installer journal: ", reason.as_str()];
                assert(str_views(parts@) =~= seq!["corrupt installer journal: "@, reason@]);
                join_strs(parts)
            },
            InstallError::BackupDigestMismatch { path } => {
                let parts = vec!["backup digest does not match for ", path.as_str()];
                assert(str_views(parts@) =~= seq!["backup digest does not match for "@, path@]);
                join_strs(parts)
            },
            InstallError::InjectedFailure { point, message } => {
                let a = failure_point_debug_exec(point);
                let parts = vec!["injected failure at ", a.as_str(), ": ", message.as_str()];
                assert(str_views(parts@) =~= seq!["injected failure at "@, a@, ": "@, message@]);
                join_strs(parts)
            },
            InstallError::ApplyAndRollbackFailed { apply, rollback } => {
                let parts = vec!["transaction failed (", apply.as_str(), ") and rollback also failed (", rollback.as_str(), ")"];
                assert(str_views(parts@) =~= seq!["transaction failed ("@, apply@, ") and rollback also failed ("@, rollback@, ")"@]);
                join_strs(parts)
            },
            InstallError::RolledBackWithPreservedDirectories { apply, directories } => {
                let a = join_strings(directories, ", ");
                let parts = vec!["transaction failed (", apply.as_str(), "); rollback preserved nonempty directories: ", a.as_str()];
                assert(str_views(parts@) =~= seq!["transaction failed ("@, apply@, "); rollback preserved nonempty directories: "@, a@]);
                join_strs(parts)
            },
            InstallError::CleanupFailed(errors) => {
                let a = join_strings(errors, "; ");
                let parts = vec!["transaction cleanup failed: ", a.as_str()];
                assert(str_views(parts@) =~= seq!["transaction cleanup failed: "@, a@]);
                join_strs(parts)
            },
            InstallError::GeneratorsUnsupported { generator } => {
                let a = generator_debug_exec(*generator);
                let parts = vec!["generator ", a.as_str(), " is unsupported until its disposable-VM gate passes"];
                assert(str_views(parts@) =~= seq!["generator "@, a@, " is unsupported until its disposable-VM gate passes"@]);
                join_strs(parts)
            },
        }
    }
}

} // verus!
