//! Adapter selection: explicit requests or unique discovery, resolved to one
//! exact initramfs/real-root pair.  Nothing is inferred from a cross-product
//! of adapter kinds.

use crate::adapter::{adapter, spec_adapter_kind, AdapterId, AdapterKind, SupportStatus};
use crate::error::InstallError;
use crate::root::AlternateRoot;
use vstd::prelude::*;

verus! {

#[derive(Debug, Clone, Copy, PartialEq, Eq, Structural)]
pub enum SupportPolicy {
    ProvenOnly,
    AllowExplicitExperimental,
}

#[derive(Debug, Clone, Copy, PartialEq, Eq, Structural)]
pub enum AdapterRequest {
    Explicit(AdapterId),
    Discover,
}

/// Discovery only returns evidence; selection decides.  Nothing is assumed
/// of what an implementation reports.
pub trait AdapterDiscovery {
    fn candidates(&self, root: &AlternateRoot, kind: AdapterKind) -> Result<Vec<AdapterId>, String>;
}

/// Discovery that never finds anything.
#[derive(Debug, Clone, Copy, Default)]
pub struct NoAdapterDiscovery;

impl AdapterDiscovery for NoAdapterDiscovery {
    fn candidates(&self, root: &AlternateRoot, kind: AdapterKind) -> Result<Vec<AdapterId>, String> {
        Ok(Vec::new())
    }
}

#[derive(Debug, Clone, Copy, PartialEq, Eq, Structural)]
pub enum AdapterSelectionReason {
    ExplicitRequest,
    UniqueDiscovery,
}

/// One exact, reviewed adapter combination.
#[derive(Debug, Clone, Copy, PartialEq, Eq)]
pub struct AdapterPairMetadata {
    /// Stable suffix shared by the build targets and the disposable-VM matrix.
    pub proof_slug: &'static str,
    pub initramfs: AdapterId,
    pub real_root: AdapterId,
    pub status: SupportStatus,
    pub proof_gates: [&'static str; 3],
    pub limitation: &'static str,
}

/// Number of exact pairs.
pub open spec fn pair_count() -> int {
    5
}

/// The adapters of row `i` of the pair table.
pub open spec fn spec_pair_row(i: int) -> (AdapterId, AdapterId) {
    if i == 0 {
        (AdapterId::DracutSystemd, AdapterId::SystemdRealRoot)
    } else if i == 1 {
        (AdapterId::InitramfsToolsBusybox, AdapterId::SystemdRealRoot)
    } else if i == 2 {
        (AdapterId::MkinitcpioBusybox, AdapterId::SystemdRealRoot)
    } else if i == 3 {
        (AdapterId::DracutClassic, AdapterId::OpenRcRealRoot)
    } else {
        (AdapterId::MkinitfsBusybox, AdapterId::OpenRcRealRoot)
    }
}

/// Every row is experimental until its VM gates pass.
pub open spec fn spec_pair_status(i: int) -> SupportStatus {
    SupportStatus::ExperimentalUnproven
}

/// `(initramfs, real_root)` is an exact row of the table.
pub open spec fn is_exact_pair(initramfs: AdapterId, real_root: AdapterId) -> bool {
    exists|i: int| 0 <= i < pair_count() && #[trigger] spec_pair_row(i) == (initramfs, real_root)
}

/// The row index of an exact pair.
pub open spec fn pair_index(initramfs: AdapterId, real_root: AdapterId) -> int {
    choose|i: int| 0 <= i < pair_count() && #[trigger] spec_pair_row(i) == (initramfs, real_root)
}

/// The VM gates of row `i` that must pass before the pair is proven:
/// lifecycle, install and password, in that order.
pub open spec fn spec_pair_gate(i: int, k: int) -> &'static str {
    if i == 0 {
        if k == 0 {
            "make vm-test-lifecycle-dracut-systemd"
        } else if k == 1 {
            "make vm-test-install-dracut-systemd"
        } else {
            "make vm-test-password-dracut-systemd"
        }
    } else if i == 1 {
        if k == 0 {
            "make vm-test-lifecycle-initramfs-tools"
        } else if k == 1 {
            "make vm-test-install-initramfs-tools"
        } else {
            "make vm-test-password-initramfs-tools"
        }
    } else if i == 2 {
        if k == 0 {
            "make vm-test-lifecycle-mkinitcpio"
        } else if k == 1 {
            "make vm-test-install-mkinitcpio"
        } else {
            "make vm-test-password-mkinitcpio"
        }
    } else if i == 3 {
        if k == 0 {
            "make vm-test-lifecycle-dracut-classic"
        } else if k == 1 {
            "make vm-test-install-dracut-classic"
        } else {
            "make vm-test-password-dracut-classic"
        }
    } else {
        if k == 0 {
            "make vm-test-lifecycle-mkinitfs-openrc"
        } else if k == 1 {
            "make vm-test-install-mkinitfs-openrc"
        } else {
            "make vm-test-password-mkinitfs-openrc"
        }
    }
}

/// The pair table, in its reviewed order.
pub fn adapter_pairs() -> (v: Vec<AdapterPairMetadata>)
    ensures
        v.len() == pair_count(),
        forall|i: int|
            0 <= i < pair_count() ==> (#[trigger] v[i].initramfs, v[i].real_root) == spec_pair_row(i)
                && v[i].status == spec_pair_status(i),
        forall|i: int, k: int|
            0 <= i < pair_count() && 0 <= k < 3 ==> #[trigger] v[i].proof_gates[k] == spec_pair_gate(i, k),
{
    let v = vec![
        AdapterPairMetadata {
            proof_slug: "dracut-systemd",
            initramfs: AdapterId::DracutSystemd,
            real_root: AdapterId::SystemdRealRoot,
            status: SupportStatus::ExperimentalUnproven,
            proof_gates: [
                "make vm-test-lifecycle-dracut-systemd",
                "make vm-test-install-dracut-systemd",
                "make vm-test-password-dracut-systemd",
            ],
            limitation: "dracut/systemd end-to-end installation is not VM-proven",
        },
        AdapterPairMetadata {
            proof_slug: "initramfs-tools",
            initramfs: AdapterId::InitramfsToolsBusybox,
            real_root: AdapterId::SystemdRealRoot,
            status: SupportStatus::ExperimentalUnproven,
            proof_gates: [
                "make vm-test-lifecycle-initramfs-tools",
                "make vm-test-install-initramfs-tools",
                "make vm-test-password-initramfs-tools",
            ],
            limitation: "initramfs-tools/systemd end-to-end installation is not VM-proven",
        },
        AdapterPairMetadata {
            proof_slug: "mkinitcpio",
            initramfs: AdapterId::MkinitcpioBusybox,
            real_root: AdapterId::SystemdRealRoot,
            status: SupportStatus::ExperimentalUnproven,
            proof_gates: [
                "make vm-test-lifecycle-mkinitcpio",
                "make vm-test-install-mkinitcpio",
                "make vm-test-password-mkinitcpio",
            ],
            limitation: "mkinitcpio/systemd end-to-end installation is not VM-proven",
        },
        AdapterPairMetadata {
            proof_slug: "dracut-classic",
            initramfs: AdapterId::DracutClassic,
            real_root: AdapterId::OpenRcRealRoot,
            status: SupportStatus::ExperimentalUnproven,
            proof_gates: [
                "make vm-test-lifecycle-dracut-classic",
                "make vm-test-install-dracut-classic",
                "make vm-test-password-dracut-classic",
            ],
            limitation: "classic dracut/OpenRC end-to-end installation is not VM-proven",
        },
        AdapterPairMetadata {
            proof_slug: "mkinitfs-openrc",
            initramfs: AdapterId::MkinitfsBusybox,
            real_root: AdapterId::OpenRcRealRoot,
            status: SupportStatus::ExperimentalUnproven,
            proof_gates: [
                "make vm-test-lifecycle-mkinitfs-openrc",
                "make vm-test-install-mkinitfs-openrc",
                "make vm-test-password-mkinitfs-openrc",
            ],
            limitation: "mkinitfs/OpenRC end-to-end installation is not VM-proven",
        },
    ];
    v
}

/// The row of the pair table for `(initramfs, real_root)`, if it is exact.
pub fn find_pair(initramfs: AdapterId, real_root: AdapterId) -> (r: Option<AdapterPairMetadata>)
    ensures
        r is Some <==> is_exact_pair(initramfs, real_root),
        r matches Some(m) ==> m.initramfs == initramfs && m.real_root == real_root && m.status
            == spec_pair_status(pair_index(initramfs, real_root)) && forall|k: int|
            0 <= k < 3 ==> #[trigger] m.proof_gates[k] == spec_pair_gate(pair_index(initramfs, real_root), k),
{
    let pairs = adapter_pairs();
    let mut i: usize = 0;
    while i < pairs.len()
        invariant
            i <= pairs.len(),
            pairs.len() == pair_count(),
            forall|k: int|
                0 <= k < pair_count() ==> (#[trigger] pairs[k].initramfs, pairs[k].real_root)
                    == spec_pair_row(k) && pairs[k].status == spec_pair_status(k),
            forall|i: int, k: int|
                0 <= i < pair_count() && 0 <= k < 3 ==> #[trigger] pairs[i].proof_gates[k] == spec_pair_gate(i, k),
            forall|k: int| 0 <= k < i ==> #[trigger] spec_pair_row(k) != (initramfs, real_root),
        decreases pairs.len() - i,
    {
        if pairs[i].initramfs == initramfs && pairs[i].real_root == real_root {
            assert(spec_pair_row(i as int) == (initramfs, real_root));
            return Some(pairs[i]);
        }
        assert(spec_pair_row(i as int) == (pairs[i as int].initramfs, pairs[i as int].real_root));
        i = i + 1;
    }
    assert(!is_exact_pair(initramfs, real_root));
    None
}

/// The adapters in their declared order.
pub open spec fn all_adapters() -> Seq<AdapterId> {
    seq![
        AdapterId::DracutSystemd,
        AdapterId::DracutClassic,
        AdapterId::InitramfsToolsBusybox,
        AdapterId::MkinitcpioBusybox,
        AdapterId::MkinitfsBusybox,
        AdapterId::SystemdRealRoot,
        AdapterId::OpenRcRealRoot,
    ]
}

/// The distinct members of `c`, in declared order, among the first `k`
/// adapters: what sorting and deduplicating `c` yields.
pub open spec fn sorted_distinct_upto(c: Seq<AdapterId>, k: nat) -> Seq<AdapterId>
    decreases k,
{
    if k == 0 {
        Seq::empty()
    } else {
        let prev = sorted_distinct_upto(c, (k - 1) as nat);
        if c.contains(all_adapters()[k - 1]) {
            prev.push(all_adapters()[k - 1])
        } else {
            prev
        }
    }
}

pub open spec fn sorted_distinct(c: Seq<AdapterId>) -> Seq<AdapterId> {
    sorted_distinct_upto(c, 7)
}

fn adapter_at(k: usize) -> (id: AdapterId)
    requires
        k < 7,
    ensures
        id == all_adapters()[k as int],
{
    match k {
        0 => AdapterId::DracutSystemd,
        1 => AdapterId::DracutClassic,
        2 => AdapterId::InitramfsToolsBusybox,
        3 => AdapterId::MkinitcpioBusybox,
        4 => AdapterId::MkinitfsBusybox,
        5 => AdapterId::SystemdRealRoot,
        _ => AdapterId::OpenRcRealRoot,
    }
}

fn contains_adapter(c: &Vec<AdapterId>, id: AdapterId) -> (r: bool)
    ensures
        r == c@.contains(id),
{
    let mut i: usize = 0;
    while i < c.len()
        invariant
            i <= c.len(),
            forall|k: int| 0 <= k < i ==> c@[k] != id,
        decreases c.len() - i,
    {
        if c[i] == id {
            assert(c@[i as int] == id);
            return true;
        }
        i = i + 1;
    }
    false
}

/// The discovered candidates, sorted and without repetition.
pub fn sort_dedup_candidates(c: &Vec<AdapterId>) -> (r: Vec<AdapterId>)
    ensures
        r@ == sorted_distinct(c@),
{
    let mut r: Vec<AdapterId> = Vec::new();
    let mut k: usize = 0;
    while k < 7
        invariant
            k <= 7,
            r@ == sorted_distinct_upto(c@, k as nat),
        decreases 7 - k,
    {
        let id = adapter_at(k);
        if contains_adapter(c, id) {
            r.push(id);
        }
        k = k + 1;
    }
    r
}

/// Accepts an adapter for `expected` only if it is of that kind.
pub fn check_adapter_kind(expected: AdapterKind, id: AdapterId, reason: AdapterSelectionReason) -> (r:
    Result<(AdapterId, AdapterSelectionReason), InstallError>)
    ensures
        spec_adapter_kind(id) == expected ==> r == Ok::<
            (AdapterId, AdapterSelectionReason),
            InstallError,
        >((id, reason)),
        spec_adapter_kind(id) != expected ==> (r matches Err(
            InstallError::WrongAdapterKind { id: i, expected: e, actual: a },
        ) && i == id && e == expected && a == spec_adapter_kind(id)),
{
    let metadata = adapter(id);
    if metadata.kind != expected {
        return Err(InstallError::WrongAdapterKind { id, expected, actual: metadata.kind });
    }
    Ok((id, reason))
}

/// Resolves a discovery result for `expected`: it must name exactly one
/// distinct adapter, of the expected kind.
pub fn resolve_discovered(expected: AdapterKind, discovered: Result<Vec<AdapterId>, String>) -> (r:
    Result<(AdapterId, AdapterSelectionReason), InstallError>)
    ensures
        discovered matches Err(m) ==> r matches Err(InstallError::DiscoveryFailed(n)) && n@ == m@,
        discovered matches Ok(c) ==> {
            let d = sorted_distinct(c@);
            &&& d.len() == 0 ==> (r matches Err(InstallError::AdapterNotDetected { kind }) && kind
                == expected)
            &&& d.len() > 1 ==> (r matches Err(InstallError::AmbiguousAdapters { kind, candidates })
                && kind == expected && candidates@ == d)
            &&& d.len() == 1 && spec_adapter_kind(d[0]) == expected ==> r == Ok::<
                (AdapterId, AdapterSelectionReason),
                InstallError,
            >((d[0], AdapterSelectionReason::UniqueDiscovery))
            &&& d.len() == 1 && spec_adapter_kind(d[0]) != expected ==> (r matches Err(
                InstallError::WrongAdapterKind { id, .. },
            ) && id == d[0])
        },
{
    let candidates = match discovered {
        Ok(c) => c,
        Err(m) => {
            return Err(InstallError::DiscoveryFailed(m));
        },
    };
    let distinct = sort_dedup_candidates(&candidates);
    if distinct.len() == 0 {
        return Err(InstallError::AdapterNotDetected { kind: expected });
    }
    if distinct.len() > 1 {
        return Err(InstallError::AmbiguousAdapters { kind: expected, candidates: distinct });
    }
    check_adapter_kind(expected, distinct[0], AdapterSelectionReason::UniqueDiscovery)
}

/// No exact pair is proven yet, so a pair is admitted only when both
/// adapters were requested explicitly under the explicit-experimental
/// policy: discovery alone never selects an unproven pair.
pub proof fn lemma_only_explicit_selection_is_admitted(
    initramfs: AdapterId,
    real_root: AdapterId,
    initramfs_reason: AdapterSelectionReason,
    real_root_reason: AdapterSelectionReason,
    support: SupportPolicy,
)
    requires
        is_exact_pair(initramfs, real_root),
        pair_admitted(
            spec_pair_status(pair_index(initramfs, real_root)),
            initramfs_reason,
            real_root_reason,
            support,
        ),
    ensures
        initramfs_reason == AdapterSelectionReason::ExplicitRequest,
        real_root_reason == AdapterSelectionReason::ExplicitRequest,
        support == SupportPolicy::AllowExplicitExperimental,
{
}

/// One resolved initramfs/real-root pair that is an exact row of the table.
#[derive(Debug, Clone, Copy, PartialEq, Eq)]
pub struct AdapterSelection {
    initramfs: AdapterId,
    initramfs_reason: AdapterSelectionReason,
    real_root: AdapterId,
    real_root_reason: AdapterSelectionReason,
}

/// The pair may be selected under `support`: its row is proven, or both
/// adapters were requested explicitly and experimental pairs are allowed.
pub open spec fn pair_admitted(
    status: SupportStatus,
    initramfs_reason: AdapterSelectionReason,
    real_root_reason: AdapterSelectionReason,
    support: SupportPolicy,
) -> bool {
    status.spec_is_supported() || (initramfs_reason == AdapterSelectionReason::ExplicitRequest
        && real_root_reason == AdapterSelectionReason::ExplicitRequest && support
        == SupportPolicy::AllowExplicitExperimental)
}

impl AdapterSelection {
    #[verifier::type_invariant]
    spec fn inv(self) -> bool {
        &&& is_exact_pair(self.initramfs, self.real_root)
        &&& spec_adapter_kind(self.initramfs) == AdapterKind::InitramfsRuntime
        &&& spec_adapter_kind(self.real_root) == AdapterKind::RealRootSupervisor
    }

    pub closed spec fn spec_initramfs(self) -> AdapterId {
        self.initramfs
    }

    pub closed spec fn spec_real_root(self) -> AdapterId {
        self.real_root
    }

    pub closed spec fn spec_initramfs_reason(self) -> AdapterSelectionReason {
        self.initramfs_reason
    }

    pub closed spec fn spec_real_root_reason(self) -> AdapterSelectionReason {
        self.real_root_reason
    }

    /// Combines two resolved adapters into a selection: they must differ,
    /// form an exact row, and be admitted under `support`.
    pub fn select_pair(
        initramfs: (AdapterId, AdapterSelectionReason),
        real_root: (AdapterId, AdapterSelectionReason),
        support: SupportPolicy,
    ) -> (r: Result<AdapterSelection, InstallError>)
        requires
            spec_adapter_kind(initramfs.0) == AdapterKind::InitramfsRuntime,
            spec_adapter_kind(real_root.0) == AdapterKind::RealRootSupervisor,
        ensures
            !is_exact_pair(initramfs.0, real_root.0) ==> (r matches Err(
                InstallError::IncompatibleAdapterPair { initramfs: i, real_root: j },
            ) && i == initramfs.0 && j == real_root.0),
            is_exact_pair(initramfs.0, real_root.0) && !pair_admitted(
                spec_pair_status(pair_index(initramfs.0, real_root.0)),
                initramfs.1,
                real_root.1,
                support,
            ) ==> (r matches Err(InstallError::UnsupportedAdapterPair { initramfs: i, real_root: j, .. })
                && i == initramfs.0 && j == real_root.0),
            is_exact_pair(initramfs.0, real_root.0) && pair_admitted(
                spec_pair_status(pair_index(initramfs.0, real_root.0)),
                initramfs.1,
                real_root.1,
                support,
            ) ==> (r matches Ok(s) && s.spec_initramfs() == initramfs.0 && s.spec_real_root()
                == real_root.0 && s.spec_initramfs_reason() == initramfs.1
                && s.spec_real_root_reason() == real_root.1),
    {
        let (i, ir) = initramfs;
        let (j, jr) = real_root;
        if i == j {
            return Err(InstallError::DuplicateAdapter(i));
        }
        let pair = match find_pair(i, j) {
            Some(p) => p,
            None => {
                return Err(InstallError::IncompatibleAdapterPair { initramfs: i, real_root: j });
            },
        };
        let explicitly_selected = ir == AdapterSelectionReason::ExplicitRequest && jr
            == AdapterSelectionReason::ExplicitRequest;
        if !(pair.status.is_supported() || (explicitly_selected && support
            == SupportPolicy::AllowExplicitExperimental)) {
            return Err(
                InstallError::UnsupportedAdapterPair {
                    initramfs: i,
                    real_root: j,
                    limitation: pair.limitation,
                },
            );
        }
        Ok(AdapterSelection { initramfs: i, initramfs_reason: ir, real_root: j, real_root_reason: jr })
    }

    /// Resolves both requests against `root` and combines them.  Explicit
    /// requests are taken as given; discovery is asked only for `Discover`.
    pub fn resolve<D: AdapterDiscovery>(
        root: &AlternateRoot,
        initramfs: AdapterRequest,
        real_root: AdapterRequest,
        support: SupportPolicy,
        discovery: &D,
    ) -> (r: Result<AdapterSelection, InstallError>)
        ensures
            initramfs is Explicit && spec_adapter_kind(initramfs->0) != AdapterKind::InitramfsRuntime
                ==> r matches Err(InstallError::WrongAdapterKind { .. }),
            initramfs is Explicit && spec_adapter_kind(initramfs->0) == AdapterKind::InitramfsRuntime
                && real_root is Explicit && spec_adapter_kind(real_root->0)
                != AdapterKind::RealRootSupervisor ==> r matches Err(
                InstallError::WrongAdapterKind { .. },
            ),
            real_root is Explicit && spec_adapter_kind(real_root->0) != AdapterKind::RealRootSupervisor ==> (
            r matches Err(e) && (e is WrongAdapterKind || (initramfs is Discover && (e is DiscoveryFailed
                || e is AdapterNotDetected || e is AmbiguousAdapters)))),
            initramfs is Explicit && real_root is Explicit && spec_adapter_kind(initramfs->0)
                == AdapterKind::InitramfsRuntime && spec_adapter_kind(real_root->0)
                == AdapterKind::RealRootSupervisor ==> (r is Ok <==> is_exact_pair(
                initramfs->0,
                real_root->0,
            ) && pair_admitted(
                spec_pair_status(pair_index(initramfs->0, real_root->0)),
                AdapterSelectionReason::ExplicitRequest,
                AdapterSelectionReason::ExplicitRequest,
                support,
            )),
            r matches Ok(s) ==> {
                &&& initramfs is Explicit ==> s.spec_initramfs() == initramfs->0
                    && s.spec_initramfs_reason() == AdapterSelectionReason::ExplicitRequest
                &&& initramfs is Discover ==> s.spec_initramfs_reason()
                    == AdapterSelectionReason::UniqueDiscovery
                &&& real_root is Explicit ==> s.spec_real_root() == real_root->0
                    && s.spec_real_root_reason() == AdapterSelectionReason::ExplicitRequest
                &&& real_root is Discover ==> s.spec_real_root_reason()
                    == AdapterSelectionReason::UniqueDiscovery
                &&& is_exact_pair(s.spec_initramfs(), s.spec_real_root())
                &&& pair_admitted(
                    spec_pair_status(pair_index(s.spec_initramfs(), s.spec_real_root())),
                    s.spec_initramfs_reason(),
                    s.spec_real_root_reason(),
                    support,
                )
            },
    {
        let first = match initramfs {
            AdapterRequest::Explicit(id) => check_adapter_kind(
                AdapterKind::InitramfsRuntime,
                id,
                AdapterSelectionReason::ExplicitRequest,
            ),
            AdapterRequest::Discover => resolve_discovered(
                AdapterKind::InitramfsRuntime,
                discovery.candidates(root, AdapterKind::InitramfsRuntime),
            ),
        };
        let first = match first {
            Ok(p) => p,
            Err(e) => {
                return Err(e);
            },
        };
        let second = match real_root {
            AdapterRequest::Explicit(id) => check_adapter_kind(
                AdapterKind::RealRootSupervisor,
                id,
                AdapterSelectionReason::ExplicitRequest,
            ),
            AdapterRequest::Discover => resolve_discovered(
                AdapterKind::RealRootSupervisor,
                discovery.candidates(root, AdapterKind::RealRootSupervisor),
            ),
        };
        let second = match second {
            Ok(p) => p,
            Err(e) => {
                return Err(e);
            },
        };
        Self::select_pair(first, second, support)
    }

    pub fn initramfs(self) -> (id: AdapterId)
        ensures
            id == self.spec_initramfs(),
            spec_adapter_kind(id) == AdapterKind::InitramfsRuntime,
            is_exact_pair(id, self.spec_real_root()),
    {
        proof {
            use_type_invariant(&self);
        }
        self.initramfs
    }

    pub fn real_root(self) -> (id: AdapterId)
        ensures
            id == self.spec_real_root(),
    {
        self.real_root
    }

    pub fn initramfs_reason(self) -> (r: AdapterSelectionReason)
        ensures
            r == self.spec_initramfs_reason(),
    {
        self.initramfs_reason
    }

    pub fn real_root_reason(self) -> (r: AdapterSelectionReason)
        ensures
            r == self.spec_real_root_reason(),
    {
        self.real_root_reason
    }

    /// The table row of the selected pair; every selection has one.
    pub fn pair_metadata(self) -> (m: AdapterPairMetadata)
        ensures
            m.initramfs == self.spec_initramfs(),
            m.real_root == self.spec_real_root(),
            m.status == spec_pair_status(pair_index(self.spec_initramfs(), self.spec_real_root())),
            forall|k: int|
                0 <= k < 3 ==> #[trigger] m.proof_gates[k] == spec_pair_gate(
                    pair_index(self.spec_initramfs(), self.spec_real_root()),
                    k,
                ),
    {
        proof {
            use_type_invariant(self);
        }
        match find_pair(self.initramfs, self.real_root) {
            Some(m) => m,
            None => {
                proof {
                    assert(false);
                }
                adapter_pairs()[0]
            },
        }
    }
}

} // verus!
