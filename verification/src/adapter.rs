//! Identities of the initramfs and real-root adapters and their metadata.

use crate::embedded::TemplateId;
use vstd::prelude::*;

verus! {

/// The exact adapters known to the installer.
#[derive(Debug, Clone, Copy, PartialEq, Eq, PartialOrd, Ord, Hash, Structural)]
pub enum AdapterId {
    DracutSystemd,
    DracutClassic,
    InitramfsToolsBusybox,
    MkinitcpioBusybox,
    MkinitfsBusybox,
    SystemdRealRoot,
    OpenRcRealRoot,
}

/// Which half of a boot an adapter owns.
#[derive(Debug, Clone, Copy, PartialEq, Eq, Structural)]
pub enum AdapterKind {
    InitramfsRuntime,
    RealRootSupervisor,
}

/// Proof status of an adapter or an adapter pair.
#[derive(Debug, Clone, Copy, PartialEq, Eq, Structural)]
pub enum SupportStatus {
    Proven,
    ExperimentalUnproven,
}

impl SupportStatus {
    pub open spec fn spec_is_supported(self) -> bool {
        self == SupportStatus::Proven
    }

    /// Only proven combinations are supported without an explicit opt-in.
    #[verifier::when_used_as_spec(spec_is_supported)]
    pub fn is_supported(self) -> (r: bool)
        ensures
            r == self.spec_is_supported(),
    {
        match self {
            SupportStatus::Proven => true,
            SupportStatus::ExperimentalUnproven => false,
        }
    }
}

/// Static description of one adapter.
#[derive(Debug, Clone, Copy, PartialEq, Eq)]
pub struct AdapterMetadata {
    pub id: AdapterId,
    pub name: &'static str,
    pub kind: AdapterKind,
}

/// The kind of each adapter.
pub open spec fn spec_adapter_kind(id: AdapterId) -> AdapterKind {
    match id {
        AdapterId::SystemdRealRoot | AdapterId::OpenRcRealRoot => AdapterKind::RealRootSupervisor,
        _ => AdapterKind::InitramfsRuntime,
    }
}

/// The name an adapter is recorded under.
pub open spec fn spec_adapter_name(id: AdapterId) -> &'static str {
    match id {
        AdapterId::DracutSystemd => "dracut-systemd",
        AdapterId::DracutClassic => "dracut-classic",
        AdapterId::InitramfsToolsBusybox => "initramfs-tools-busybox",
        AdapterId::MkinitcpioBusybox => "mkinitcpio-busybox",
        AdapterId::MkinitfsBusybox => "mkinitfs-busybox",
        AdapterId::SystemdRealRoot => "systemd-real-root",
        AdapterId::OpenRcRealRoot => "openrc-real-root",
    }
}

/// The adapter recorded under `name`.
pub open spec fn spec_adapter_by_name(name: Seq<char>) -> Option<AdapterId> {
    if name == "dracut-systemd"@ {
        Some(AdapterId::DracutSystemd)
    } else if name == "dracut-classic"@ {
        Some(AdapterId::DracutClassic)
    } else if name == "initramfs-tools-busybox"@ {
        Some(AdapterId::InitramfsToolsBusybox)
    } else if name == "mkinitcpio-busybox"@ {
        Some(AdapterId::MkinitcpioBusybox)
    } else if name == "mkinitfs-busybox"@ {
        Some(AdapterId::MkinitfsBusybox)
    } else if name == "systemd-real-root"@ {
        Some(AdapterId::SystemdRealRoot)
    } else if name == "openrc-real-root"@ {
        Some(AdapterId::OpenRcRealRoot)
    } else {
        None
    }
}

/// The adapter recorded under `name`.
pub fn adapter_by_name(name: &str) -> (r: Option<AdapterId>)
    ensures
        r == spec_adapter_by_name(name@),
{
    if crate::text::str_eq(name, "dracut-systemd") {
        Some(AdapterId::DracutSystemd)
    } else if crate::text::str_eq(name, "dracut-classic") {
        Some(AdapterId::DracutClassic)
    } else if crate::text::str_eq(name, "initramfs-tools-busybox") {
        Some(AdapterId::InitramfsToolsBusybox)
    } else if crate::text::str_eq(name, "mkinitcpio-busybox") {
        Some(AdapterId::MkinitcpioBusybox)
    } else if crate::text::str_eq(name, "mkinitfs-busybox") {
        Some(AdapterId::MkinitfsBusybox)
    } else if crate::text::str_eq(name, "systemd-real-root") {
        Some(AdapterId::SystemdRealRoot)
    } else if crate::text::str_eq(name, "openrc-real-root") {
        Some(AdapterId::OpenRcRealRoot)
    } else {
        None
    }
}

/// Each adapter is read back from its recorded name.
pub proof fn lemma_adapter_name(id: AdapterId)
    ensures
        spec_adapter_by_name(spec_adapter_name(id)@) == Some(id),
{
    reveal_strlit("dracut-systemd");
    reveal_strlit("dracut-classic");
    reveal_strlit("initramfs-tools-busybox");
    reveal_strlit("mkinitcpio-busybox");
    reveal_strlit("mkinitfs-busybox");
    reveal_strlit("systemd-real-root");
    reveal_strlit("openrc-real-root");
    match id {
        AdapterId::DracutSystemd => {
        },
        AdapterId::DracutClassic => {
            assert("dracut-classic"@[7] != "dracut-systemd"@[7]);
        },
        AdapterId::InitramfsToolsBusybox => {
            assert("initramfs-tools-busybox"@.len() != "dracut-systemd"@.len());
            assert("initramfs-tools-busybox"@.len() != "dracut-classic"@.len());
        },
        AdapterId::MkinitcpioBusybox => {
            assert("mkinitcpio-busybox"@.len() != "dracut-systemd"@.len());
            assert("mkinitcpio-busybox"@.len() != "dracut-classic"@.len());
            assert("mkinitcpio-busybox"@.len() != "initramfs-tools-busybox"@.len());
        },
        AdapterId::MkinitfsBusybox => {
            assert("mkinitfs-busybox"@.len() != "dracut-systemd"@.len());
            assert("mkinitfs-busybox"@.len() != "dracut-classic"@.len());
            assert("mkinitfs-busybox"@.len() != "initramfs-tools-busybox"@.len());
            assert("mkinitfs-busybox"@.len() != "mkinitcpio-busybox"@.len());
        },
        AdapterId::SystemdRealRoot => {
            assert("systemd-real-root"@.len() != "dracut-systemd"@.len());
            assert("systemd-real-root"@.len() != "dracut-classic"@.len());
            assert("systemd-real-root"@.len() != "initramfs-tools-busybox"@.len());
            assert("systemd-real-root"@.len() != "mkinitcpio-busybox"@.len());
            assert("systemd-real-root"@.len() != "mkinitfs-busybox"@.len());
        },
        AdapterId::OpenRcRealRoot => {
            assert("openrc-real-root"@.len() != "dracut-systemd"@.len());
            assert("openrc-real-root"@.len() != "dracut-classic"@.len());
            assert("openrc-real-root"@.len() != "initramfs-tools-busybox"@.len());
            assert("openrc-real-root"@.len() != "mkinitcpio-busybox"@.len());
            assert("openrc-real-root"@[0] != "mkinitfs-busybox"@[0]);
            assert("openrc-real-root"@.len() != "systemd-real-root"@.len());
        },
    }
}

/// Metadata for one adapter.
pub fn adapter(id: AdapterId) -> (m: AdapterMetadata)
    ensures
        m.id == id,
        m.name == spec_adapter_name(id),
        m.kind == spec_adapter_kind(id),
{
    match id {
        AdapterId::DracutSystemd => AdapterMetadata {
            id,
            name: "dracut-systemd",
            kind: AdapterKind::InitramfsRuntime,
        },
        AdapterId::DracutClassic => AdapterMetadata {
            id,
            name: "dracut-classic",
            kind: AdapterKind::InitramfsRuntime,
        },
        AdapterId::InitramfsToolsBusybox => AdapterMetadata {
            id,
            name: "initramfs-tools-busybox",
            kind: AdapterKind::InitramfsRuntime,
        },
        AdapterId::MkinitcpioBusybox => AdapterMetadata {
            id,
            name: "mkinitcpio-busybox",
            kind: AdapterKind::InitramfsRuntime,
        },
        AdapterId::MkinitfsBusybox => AdapterMetadata {
            id,
            name: "mkinitfs-busybox",
            kind: AdapterKind::InitramfsRuntime,
        },
        AdapterId::SystemdRealRoot => AdapterMetadata {
            id,
            name: "systemd-real-root",
            kind: AdapterKind::RealRootSupervisor,
        },
        AdapterId::OpenRcRealRoot => AdapterMetadata {
            id,
            name: "openrc-real-root",
            kind: AdapterKind::RealRootSupervisor,
        },
    }
}


/// The embedded resources each adapter owns.  Adapters of one pair own
/// disjoint sets, and the classic dracut adapter owns none.
pub open spec fn spec_adapter_resources(id: AdapterId) -> Seq<TemplateId> {
    match id {
        AdapterId::DracutSystemd => seq![
            TemplateId::SystemdStartUnit,
            TemplateId::SystemdShowUnit,
            TemplateId::SystemdSwitchRootUnit,
            TemplateId::SystemdConsoleAgentDropIn,
        ],
        AdapterId::DracutClassic => seq![],
        AdapterId::InitramfsToolsBusybox => seq![
            TemplateId::InitramfsToolsEarlyHook,
            TemplateId::InitramfsToolsBottomHook,
            TemplateId::InitramfsToolsAskpassWrapper,
        ],
        AdapterId::MkinitcpioBusybox => seq![
            TemplateId::MkinitcpioRuntimeHook,
            TemplateId::MkinitcpioPlymouthBridge,
        ],
        AdapterId::MkinitfsBusybox => seq![
            TemplateId::MkinitfsFeatureFiles,
            TemplateId::MkinitfsRuntimeHook,
            TemplateId::MkinitfsFindfsWrapper,
            TemplateId::MkinitfsEarlyCallSnippet,
            TemplateId::MkinitfsHandoffCallSnippet,
        ],
        AdapterId::SystemdRealRoot => seq![TemplateId::SystemdQuitUnit],
        AdapterId::OpenRcRealRoot => seq![
            TemplateId::OpenRcSupervisorScript,
            TemplateId::OpenRcQuitScript,
        ],
    }
}

/// The embedded resources `id` owns, in declaration order.
pub fn adapter_resources(id: AdapterId) -> (v: Vec<TemplateId>)
    ensures
        v@ == spec_adapter_resources(id),
{
    let v = match id {
        AdapterId::DracutSystemd => vec![
            TemplateId::SystemdStartUnit,
            TemplateId::SystemdShowUnit,
            TemplateId::SystemdSwitchRootUnit,
            TemplateId::SystemdConsoleAgentDropIn,
        ],
        AdapterId::DracutClassic => Vec::new(),
        AdapterId::InitramfsToolsBusybox => vec![
            TemplateId::InitramfsToolsEarlyHook,
            TemplateId::InitramfsToolsBottomHook,
            TemplateId::InitramfsToolsAskpassWrapper,
        ],
        AdapterId::MkinitcpioBusybox => vec![
            TemplateId::MkinitcpioRuntimeHook,
            TemplateId::MkinitcpioPlymouthBridge,
        ],
        AdapterId::MkinitfsBusybox => vec![
            TemplateId::MkinitfsFeatureFiles,
            TemplateId::MkinitfsRuntimeHook,
            TemplateId::MkinitfsFindfsWrapper,
            TemplateId::MkinitfsEarlyCallSnippet,
            TemplateId::MkinitfsHandoffCallSnippet,
        ],
        AdapterId::SystemdRealRoot => vec![TemplateId::SystemdQuitUnit],
        AdapterId::OpenRcRealRoot => vec![
            TemplateId::OpenRcSupervisorScript,
            TemplateId::OpenRcQuitScript,
        ],
    };
    assert(v@ =~= spec_adapter_resources(id));
    v
}

/// Whether `id` owns the resource `t`.
pub fn adapter_owns(id: AdapterId, t: TemplateId) -> (r: bool)
    ensures
        r == spec_adapter_resources(id).contains(t),
{
    let v = adapter_resources(id);
    let mut i: usize = 0;
    while i < v.len()
        invariant
            i <= v@.len(),
            v@ == spec_adapter_resources(id),
            forall|j: int| 0 <= j < i ==> v@[j] != t,
        decreases v.len() - i,
    {
        if v[i] == t {
            assert(v@[i as int] == t);
            return true;
        }
        i = i + 1;
    }
    false
}

} // verus!
