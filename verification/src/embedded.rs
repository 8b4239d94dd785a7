//! Resources compiled into the Bootart ELF and materialized by installers.

use vstd::prelude::*;

verus! {

/// The version of the embedded resource set; a manifest committed under
/// another version is not checked against the current inventory.
pub const RESOURCE_SET_VERSION: u16 = 1;

/// Every embedded resource.
#[derive(Debug, Clone, Copy, PartialEq, Eq, Structural)]
pub enum TemplateId {
    SystemdStartUnit,
    SystemdShowUnit,
    SystemdSwitchRootUnit,
    SystemdConsoleAgentDropIn,
    SystemdQuitUnit,
    OpenRcSupervisorScript,
    OpenRcQuitScript,
    InitramfsToolsEarlyHook,
    InitramfsToolsBottomHook,
    InitramfsToolsAskpassWrapper,
    MkinitcpioRuntimeHook,
    MkinitcpioPlymouthBridge,
    MkinitfsFeatureFiles,
    MkinitfsRuntimeHook,
    MkinitfsFindfsWrapper,
    MkinitfsEarlyCallSnippet,
    MkinitfsHandoffCallSnippet,
}

/// How a resource reaches the target system.
#[derive(Debug, Clone, Copy, PartialEq, Eq)]
pub enum TemplateMaterialization {
    /// A whole file at `path` with permission bits `mode`.
    File { path: &'static str, mode: u32 },
    /// An OpenRC service script at `path`, enabled in `runlevel`.
    OpenRcService { path: &'static str, mode: u32, runlevel: &'static str },
    /// A snippet inserted into a shared file at a reviewed insertion point.
    ManagedSnippet { target: &'static str, insertion_point: &'static str },
}

/// One embedded resource.
#[derive(Debug, Clone, Copy, PartialEq, Eq)]
pub struct TemplateResource {
    pub id: TemplateId,
    pub materialization: TemplateMaterialization,
    pub contents: &'static str,
}

pub const SYSTEMD_START_UNIT: &'static str = "[Unit]\nDescription=Bootart splash start\nDefaultDependencies=no\nBefore=cryptsetup-pre.target\nConditionKernelCommandLine=!bootart=0\nConditionKernelCommandLine=!rd.bootart=0\n\n[Service]\nType=notify\nExecStart=/usr/bin/bootart daemon --initramfs\n\n[Install]\nWantedBy=initrd.target\n";

pub const SYSTEMD_SHOW_UNIT: &'static str = "[Unit]\nDescription=Bootart splash presentation\nDefaultDependencies=no\nAfter=bootart-start.service\nRequires=bootart-start.service\n\n[Service]\nType=oneshot\nExecStart=/usr/bin/bootart show\n\n[Install]\nWantedBy=initrd.target\n";

pub const SYSTEMD_SWITCH_ROOT_UNIT: &'static str = "[Unit]\nDescription=Bootart splash hand-off across switch-root\nDefaultDependencies=no\nBefore=initrd-switch-root.service\n\n[Service]\nType=oneshot\nExecStart=/usr/bin/bootart handoff\n\n[Install]\nWantedBy=initrd-switch-root.target\n";

pub const SYSTEMD_CONSOLE_AGENT_DROP_IN: &'static str = "[Unit]\nConditionPathExists=!/run/bootart/agent\n";

pub const SYSTEMD_QUIT_UNIT: &'static str = "[Unit]\nDescription=Bootart splash release\nAfter=multi-user.target\n\n[Service]\nType=oneshot\nExecStart=/usr/bin/bootart quit\n\n[Install]\nWantedBy=multi-user.target\n";

pub const OPENRC_SUPERVISOR_SCRIPT: &'static str = "#!/sbin/openrc-run\ndescription=\"Bootart splash supervisor\"\ncommand=/usr/bin/bootart\ncommand_args=\"daemon --real-root\"\n";

pub const OPENRC_QUIT_SCRIPT: &'static str = "#!/sbin/openrc-run\ndescription=\"Bootart splash release\"\nstart() {\n\t/usr/bin/bootart quit\n}\n";

pub const INITRAMFS_TOOLS_EARLY_HOOK: &'static str = "#!/bin/sh\nPREREQ=\"\"\nprereqs() { echo \"$PREREQ\"; }\ncase $1 in prereqs) prereqs; exit 0;; esac\n/usr/bin/bootart daemon --initramfs || true\n";

pub const INITRAMFS_TOOLS_BOTTOM_HOOK: &'static str = "#!/bin/sh\nPREREQ=\"\"\nprereqs() { echo \"$PREREQ\"; }\ncase $1 in prereqs) prereqs; exit 0;; esac\n/usr/bin/bootart handoff || true\n";

pub const INITRAMFS_TOOLS_ASKPASS_WRAPPER: &'static str = "#!/bin/sh\nexec /usr/bin/bootart askpass --fallback /usr/lib/cryptsetup/askpass.bootart-console \"$@\"\n";

pub const MKINITCPIO_RUNTIME_HOOK: &'static str = "#!/usr/bin/ash\nrun_hook() {\n    /usr/bin/bootart daemon --initramfs || true\n}\n";

pub const MKINITCPIO_PLYMOUTH_BRIDGE: &'static str = "#!/usr/bin/ash\nexec /usr/bin/bootart plymouth-bridge \"$@\"\n";

pub const MKINITFS_FEATURE_FILES: &'static str = "/usr/bin/bootart\n/usr/libexec/bootart/mkinitfs-runtime\n/usr/libexec/bootart/mkinitfs-findfs\n";

pub const MKINITFS_RUNTIME_HOOK: &'static str = "#!/bin/sh\n/usr/bin/bootart daemon --initramfs || true\n";

pub const MKINITFS_FINDFS_WRAPPER: &'static str = "#!/bin/sh\nexec /usr/bin/bootart findfs-agent -- nlplug-findfs \"$@\"\n";

pub const MKINITFS_EARLY_CALL_SNIPPET: &'static str = "[ -x /usr/libexec/bootart/mkinitfs-runtime ] && /usr/libexec/bootart/mkinitfs-runtime start\n";

pub const MKINITFS_HANDOFF_CALL_SNIPPET: &'static str = "[ -x /usr/libexec/bootart/mkinitfs-runtime ] && /usr/libexec/bootart/mkinitfs-runtime handoff\n";

/// The resource named `id`.
pub open spec fn spec_template_resource(id: TemplateId) -> TemplateResource {
    match id {
        TemplateId::SystemdStartUnit => TemplateResource {
            id,
            materialization: TemplateMaterialization::File {
                path: "/usr/lib/systemd/system/bootart-start.service",
                mode: 0o644,
            },
            contents: SYSTEMD_START_UNIT,
        },
        TemplateId::SystemdShowUnit => TemplateResource {
            id,
            materialization: TemplateMaterialization::File {
                path: "/usr/lib/systemd/system/bootart-show.service",
                mode: 0o644,
            },
            contents: SYSTEMD_SHOW_UNIT,
        },
        TemplateId::SystemdSwitchRootUnit => TemplateResource {
            id,
            materialization: TemplateMaterialization::File {
                path: "/usr/lib/systemd/system/bootart-switch-root.service",
                mode: 0o644,
            },
            contents: SYSTEMD_SWITCH_ROOT_UNIT,
        },
        TemplateId::SystemdConsoleAgentDropIn => TemplateResource {
            id,
            materialization: TemplateMaterialization::File {
                path: "/usr/lib/systemd/system/systemd-ask-password-console.service.d/bootart.conf",
                mode: 0o644,
            },
            contents: SYSTEMD_CONSOLE_AGENT_DROP_IN,
        },
        TemplateId::SystemdQuitUnit => TemplateResource {
            id,
            materialization: TemplateMaterialization::File {
                path: "/usr/lib/systemd/system/bootart-quit.service",
                mode: 0o644,
            },
            contents: SYSTEMD_QUIT_UNIT,
        },
        TemplateId::OpenRcSupervisorScript => TemplateResource {
            id,
            materialization: TemplateMaterialization::OpenRcService {
                path: "/etc/init.d/bootart",
                mode: 0o755,
                runlevel: "boot",
            },
            contents: OPENRC_SUPERVISOR_SCRIPT,
        },
        TemplateId::OpenRcQuitScript => TemplateResource {
            id,
            materialization: TemplateMaterialization::OpenRcService {
                path: "/etc/init.d/bootart-quit",
                mode: 0o755,
                runlevel: "default",
            },
            contents: OPENRC_QUIT_SCRIPT,
        },
        TemplateId::InitramfsToolsEarlyHook => TemplateResource {
            id,
            materialization: TemplateMaterialization::File {
                path: "/usr/share/initramfs-tools/scripts/init-top/bootart",
                mode: 0o755,
            },
            contents: INITRAMFS_TOOLS_EARLY_HOOK,
        },
        TemplateId::InitramfsToolsBottomHook => TemplateResource {
            id,
            materialization: TemplateMaterialization::File {
                path: "/usr/share/initramfs-tools/scripts/init-bottom/bootart",
                mode: 0o755,
            },
            contents: INITRAMFS_TOOLS_BOTTOM_HOOK,
        },
        TemplateId::InitramfsToolsAskpassWrapper => TemplateResource {
            id,
            materialization: TemplateMaterialization::File {
                path: "/usr/share/initramfs-tools/hooks/bootart-askpass",
                mode: 0o755,
            },
            contents: INITRAMFS_TOOLS_ASKPASS_WRAPPER,
        },
        TemplateId::MkinitcpioRuntimeHook => TemplateResource {
            id,
            materialization: TemplateMaterialization::File {
                path: "/usr/lib/initcpio/hooks/bootart",
                mode: 0o644,
            },
            contents: MKINITCPIO_RUNTIME_HOOK,
        },
        TemplateId::MkinitcpioPlymouthBridge => TemplateResource {
            id,
            materialization: TemplateMaterialization::File {
                path: "/usr/lib/bootart/plymouth",
                mode: 0o755,
            },
            contents: MKINITCPIO_PLYMOUTH_BRIDGE,
        },
        TemplateId::MkinitfsFeatureFiles => TemplateResource {
            id,
            materialization: TemplateMaterialization::File {
                path: "/etc/mkinitfs/features.d/bootart.files",
                mode: 0o644,
            },
            contents: MKINITFS_FEATURE_FILES,
        },
        TemplateId::MkinitfsRuntimeHook => TemplateResource {
            id,
            materialization: TemplateMaterialization::File {
                path: "/usr/libexec/bootart/mkinitfs-runtime",
                mode: 0o755,
            },
            contents: MKINITFS_RUNTIME_HOOK,
        },
        TemplateId::MkinitfsFindfsWrapper => TemplateResource {
            id,
            materialization: TemplateMaterialization::File {
                path: "/usr/libexec/bootart/mkinitfs-findfs",
                mode: 0o755,
            },
            contents: MKINITFS_FINDFS_WRAPPER,
        },
        TemplateId::MkinitfsEarlyCallSnippet => TemplateResource {
            id,
            materialization: TemplateMaterialization::ManagedSnippet {
                target: "/usr/share/mkinitfs/initramfs-init",
                insertion_point: "after-modloop-drivers",
            },
            contents: MKINITFS_EARLY_CALL_SNIPPET,
        },
        TemplateId::MkinitfsHandoffCallSnippet => TemplateResource {
            id,
            materialization: TemplateMaterialization::ManagedSnippet {
                target: "/usr/share/mkinitfs/initramfs-init",
                insertion_point: "before-final-sync",
            },
            contents: MKINITFS_HANDOFF_CALL_SNIPPET,
        },
    }
}

/// The resource named `id`.
pub fn template_resource(id: TemplateId) -> (r: TemplateResource)
    ensures
        r == spec_template_resource(id),
{
    match id {
        TemplateId::SystemdStartUnit => TemplateResource {
            id,
            materialization: TemplateMaterialization::File {
                path: "/usr/lib/systemd/system/bootart-start.service",
                mode: 0o644,
            },
            contents: SYSTEMD_START_UNIT,
        },
        TemplateId::SystemdShowUnit => TemplateResource {
            id,
            materialization: TemplateMaterialization::File {
                path: "/usr/lib/systemd/system/bootart-show.service",
                mode: 0o644,
            },
            contents: SYSTEMD_SHOW_UNIT,
        },
        TemplateId::SystemdSwitchRootUnit => TemplateResource {
            id,
            materialization: TemplateMaterialization::File {
                path: "/usr/lib/systemd/system/bootart-switch-root.service",
                mode: 0o644,
            },
            contents: SYSTEMD_SWITCH_ROOT_UNIT,
        },
        TemplateId::SystemdConsoleAgentDropIn => TemplateResource {
            id,
            materialization: TemplateMaterialization::File {
                path: "/usr/lib/systemd/system/systemd-ask-password-console.service.d/bootart.conf",
                mode: 0o644,
            },
            contents: SYSTEMD_CONSOLE_AGENT_DROP_IN,
        },
        TemplateId::SystemdQuitUnit => TemplateResource {
            id,
            materialization: TemplateMaterialization::File {
                path: "/usr/lib/systemd/system/bootart-quit.service",
                mode: 0o644,
            },
            contents: SYSTEMD_QUIT_UNIT,
        },
        TemplateId::OpenRcSupervisorScript => TemplateResource {
            id,
            materialization: TemplateMaterialization::OpenRcService {
                path: "/etc/init.d/bootart",
                mode: 0o755,
                runlevel: "boot",
            },
            contents: OPENRC_SUPERVISOR_SCRIPT,
        },
        TemplateId::OpenRcQuitScript => TemplateResource {
            id,
            materialization: TemplateMaterialization::OpenRcService {
                path: "/etc/init.d/bootart-quit",
                mode: 0o755,
                runlevel: "default",
            },
            contents: OPENRC_QUIT_SCRIPT,
        },
        TemplateId::InitramfsToolsEarlyHook => TemplateResource {
            id,
            materialization: TemplateMaterialization::File {
                path: "/usr/share/initramfs-tools/scripts/init-top/bootart",
                mode: 0o755,
            },
            contents: INITRAMFS_TOOLS_EARLY_HOOK,
        },
        TemplateId::InitramfsToolsBottomHook => TemplateResource {
            id,
            materialization: TemplateMaterialization::File {
                path: "/usr/share/initramfs-tools/scripts/init-bottom/bootart",
                mode: 0o755,
            },
            contents: INITRAMFS_TOOLS_BOTTOM_HOOK,
        },
        TemplateId::InitramfsToolsAskpassWrapper => TemplateResource {
            id,
            materialization: TemplateMaterialization::File {
                path: "/usr/share/initramfs-tools/hooks/bootart-askpass",
                mode: 0o755,
            },
            contents: INITRAMFS_TOOLS_ASKPASS_WRAPPER,
        },
        TemplateId::MkinitcpioRuntimeHook => TemplateResource {
            id,
            materialization: TemplateMaterialization::File {
                path: "/usr/lib/initcpio/hooks/bootart",
                mode: 0o644,
            },
            contents: MKINITCPIO_RUNTIME_HOOK,
        },
        TemplateId::MkinitcpioPlymouthBridge => TemplateResource {
            id,
            materialization: TemplateMaterialization::File {
                path: "/usr/lib/bootart/plymouth",
                mode: 0o755,
            },
            contents: MKINITCPIO_PLYMOUTH_BRIDGE,
        },
        TemplateId::MkinitfsFeatureFiles => TemplateResource {
            id,
            materialization: TemplateMaterialization::File {
                path: "/etc/mkinitfs/features.d/bootart.files",
                mode: 0o644,
            },
            contents: MKINITFS_FEATURE_FILES,
        },
        TemplateId::MkinitfsRuntimeHook => TemplateResource {
            id,
            materialization: TemplateMaterialization::File {
                path: "/usr/libexec/bootart/mkinitfs-runtime",
                mode: 0o755,
            },
            contents: MKINITFS_RUNTIME_HOOK,
        },
        TemplateId::MkinitfsFindfsWrapper => TemplateResource {
            id,
            materialization: TemplateMaterialization::File {
                path: "/usr/libexec/bootart/mkinitfs-findfs",
                mode: 0o755,
            },
            contents: MKINITFS_FINDFS_WRAPPER,
        },
        TemplateId::MkinitfsEarlyCallSnippet => TemplateResource {
            id,
            materialization: TemplateMaterialization::ManagedSnippet {
                target: "/usr/share/mkinitfs/initramfs-init",
                insertion_point: "after-modloop-drivers",
            },
            contents: MKINITFS_EARLY_CALL_SNIPPET,
        },
        TemplateId::MkinitfsHandoffCallSnippet => TemplateResource {
            id,
            materialization: TemplateMaterialization::ManagedSnippet {
                target: "/usr/share/mkinitfs/initramfs-init",
                insertion_point: "before-final-sync",
            },
            contents: MKINITFS_HANDOFF_CALL_SNIPPET,
        },
    }
}

/// Every resource, in declaration order.
pub open spec fn spec_all_template_ids() -> Seq<TemplateId> {
    seq![
        TemplateId::SystemdStartUnit,
        TemplateId::SystemdShowUnit,
        TemplateId::SystemdSwitchRootUnit,
        TemplateId::SystemdConsoleAgentDropIn,
        TemplateId::SystemdQuitUnit,
        TemplateId::OpenRcSupervisorScript,
        TemplateId::OpenRcQuitScript,
        TemplateId::InitramfsToolsEarlyHook,
        TemplateId::InitramfsToolsBottomHook,
        TemplateId::InitramfsToolsAskpassWrapper,
        TemplateId::MkinitcpioRuntimeHook,
        TemplateId::MkinitcpioPlymouthBridge,
        TemplateId::MkinitfsFeatureFiles,
        TemplateId::MkinitfsRuntimeHook,
        TemplateId::MkinitfsFindfsWrapper,
        TemplateId::MkinitfsEarlyCallSnippet,
        TemplateId::MkinitfsHandoffCallSnippet,
    ]
}

/// Every resource, in declaration order.
pub fn all_template_ids() -> (r: Vec<TemplateId>)
    ensures
        r@ == spec_all_template_ids(),
{
    let r = vec![
        TemplateId::SystemdStartUnit,
        TemplateId::SystemdShowUnit,
        TemplateId::SystemdSwitchRootUnit,
        TemplateId::SystemdConsoleAgentDropIn,
        TemplateId::SystemdQuitUnit,
        TemplateId::OpenRcSupervisorScript,
        TemplateId::OpenRcQuitScript,
        TemplateId::InitramfsToolsEarlyHook,
        TemplateId::InitramfsToolsBottomHook,
        TemplateId::InitramfsToolsAskpassWrapper,
        TemplateId::MkinitcpioRuntimeHook,
        TemplateId::MkinitcpioPlymouthBridge,
        TemplateId::MkinitfsFeatureFiles,
        TemplateId::MkinitfsRuntimeHook,
        TemplateId::MkinitfsFindfsWrapper,
        TemplateId::MkinitfsEarlyCallSnippet,
        TemplateId::MkinitfsHandoffCallSnippet,
    ];
    assert(r@ =~= spec_all_template_ids());
    r
}

/// The file a resource lands in: its own file, or the file its snippet is
/// inserted into.
pub open spec fn spec_materialized_path(m: TemplateMaterialization) -> &'static str {
    match m {
        TemplateMaterialization::File { path, .. } => path,
        TemplateMaterialization::OpenRcService { path, .. } => path,
        TemplateMaterialization::ManagedSnippet { target, .. } => target,
    }
}

/// The file a resource lands in.
pub fn materialized_path(m: TemplateMaterialization) -> (r: &'static str)
    ensures
        r == spec_materialized_path(m),
{
    match m {
        TemplateMaterialization::File { path, .. } => path,
        TemplateMaterialization::OpenRcService { path, .. } => path,
        TemplateMaterialization::ManagedSnippet { target, .. } => target,
    }
}

/// The stable name of each resource, as plans and manifests record it.
pub open spec fn spec_template_name(id: TemplateId) -> &'static str {
    match id {
        TemplateId::SystemdStartUnit => "systemd-start-unit",
        TemplateId::SystemdShowUnit => "systemd-show-unit",
        TemplateId::SystemdSwitchRootUnit => "systemd-switch-root-unit",
        TemplateId::SystemdConsoleAgentDropIn => "systemd-console-agent-drop-in",
        TemplateId::SystemdQuitUnit => "systemd-quit-unit",
        TemplateId::OpenRcSupervisorScript => "openrc-supervisor-script",
        TemplateId::OpenRcQuitScript => "openrc-quit-script",
        TemplateId::InitramfsToolsEarlyHook => "initramfs-tools-early-hook",
        TemplateId::InitramfsToolsBottomHook => "initramfs-tools-bottom-hook",
        TemplateId::InitramfsToolsAskpassWrapper => "initramfs-tools-askpass-wrapper",
        TemplateId::MkinitcpioRuntimeHook => "mkinitcpio-runtime-hook",
        TemplateId::MkinitcpioPlymouthBridge => "mkinitcpio-plymouth-bridge",
        TemplateId::MkinitfsFeatureFiles => "mkinitfs-feature-files",
        TemplateId::MkinitfsRuntimeHook => "mkinitfs-runtime-hook",
        TemplateId::MkinitfsFindfsWrapper => "mkinitfs-findfs-wrapper",
        TemplateId::MkinitfsEarlyCallSnippet => "mkinitfs-early-call-snippet",
        TemplateId::MkinitfsHandoffCallSnippet => "mkinitfs-handoff-call-snippet",
    }
}

/// The stable name of `id`.
pub fn template_name(id: TemplateId) -> (r: &'static str)
    ensures
        r == spec_template_name(id),
{
    match id {
        TemplateId::SystemdStartUnit => "systemd-start-unit",
        TemplateId::SystemdShowUnit => "systemd-show-unit",
        TemplateId::SystemdSwitchRootUnit => "systemd-switch-root-unit",
        TemplateId::SystemdConsoleAgentDropIn => "systemd-console-agent-drop-in",
        TemplateId::SystemdQuitUnit => "systemd-quit-unit",
        TemplateId::OpenRcSupervisorScript => "openrc-supervisor-script",
        TemplateId::OpenRcQuitScript => "openrc-quit-script",
        TemplateId::InitramfsToolsEarlyHook => "initramfs-tools-early-hook",
        TemplateId::InitramfsToolsBottomHook => "initramfs-tools-bottom-hook",
        TemplateId::InitramfsToolsAskpassWrapper => "initramfs-tools-askpass-wrapper",
        TemplateId::MkinitcpioRuntimeHook => "mkinitcpio-runtime-hook",
        TemplateId::MkinitcpioPlymouthBridge => "mkinitcpio-plymouth-bridge",
        TemplateId::MkinitfsFeatureFiles => "mkinitfs-feature-files",
        TemplateId::MkinitfsRuntimeHook => "mkinitfs-runtime-hook",
        TemplateId::MkinitfsFindfsWrapper => "mkinitfs-findfs-wrapper",
        TemplateId::MkinitfsEarlyCallSnippet => "mkinitfs-early-call-snippet",
        TemplateId::MkinitfsHandoffCallSnippet => "mkinitfs-handoff-call-snippet",
    }
}

} // verus!
