//! Distribution-neutral systemd-based dracut installation contract.
//!
//! This module contains no host mutation.  It turns already-observed facts
//! into a fixed candidate/known-good plan and validates a bounded unpacked
//! dracut inventory.  The transactional executor consumes this contract; it
//! must not guess paths, tools, kernels, or archive members independently.

use crate::archive::{
    archive_bytes, archive_members_safe, archive_paths_distinct, archive_paths_distinct_exec,
    archive_total, entry_is, entry_is_exec, find_entry, has_executable_file,
    has_executable_file_exec, some_path_contains, some_path_contains_exec, symlink_is,
    symlink_is_exec, ArchiveEntry, ArchiveEntryKind,
};
use crate::digest::{sha256, spec_sha256, Sha256Digest};
use crate::embedded::spec_template_resource;
use crate::elf::{static_elf_valid, validate_static_elf};
use crate::embedded::{template_resource, TemplateId, TemplateMaterialization};
use crate::error::{invalid, InstallError};
use crate::generator::{GeneratorKind, GeneratorRequest};
use crate::paths::{safe_alternate_root, spec_archive_path_is_safe, spec_safe_alternate_root};
use crate::text::{utf8_to_str, owned, strings_contain, str_bytes, slice_range, string_from_chars, bounded_token, chars_of, concat2, concat3, contains, has_prefix, has_suffix, replace_all, replace_str, str_eq, str_has_prefix, str_is_bounded_token, string_views, str_views, strings_equal, strings_equal_strs, strings_of, strip_prefix, strip_suffix, str_contains, CharClass};
use vstd::prelude::*;
use vstd::string::*;
use vstd::utf8::*;

verus! {

pub const PRODUCT_ARCHITECTURE: &'static str = "x86_64";
pub const DRACUT_EXECUTABLE: &'static str = "/usr/bin/dracut";
pub const LSINITRD_EXECUTABLE: &'static str = "/usr/bin/lsinitrd";
pub const UPDATE_GRUB_EXECUTABLE: &'static str = "/usr/sbin/update-grub";
pub const GRUB_PROBE_EXECUTABLE: &'static str = "/usr/sbin/grub-probe";
pub const GRUB2_MKCONFIG_EXECUTABLE: &'static str = "/usr/bin/grub2-mkconfig";
pub const GRUB2_PROBE_EXECUTABLE: &'static str = "/usr/bin/grub2-probe";
pub const GRUB_MKCONFIG_EXECUTABLE: &'static str = "/usr/bin/grub-mkconfig";
pub const GRUB_BIN_PROBE_EXECUTABLE: &'static str = "/usr/bin/grub-probe";
pub const FINDMNT_EXECUTABLE: &'static str = "/usr/bin/findmnt";
pub const CRYPTSETUP_EXECUTABLE: &'static str = "/usr/sbin/cryptsetup";
pub const CRYPTSETUP_USR_BIN_EXECUTABLE: &'static str = "/usr/bin/cryptsetup";
pub const SYSTEMD_EXECUTABLE: &'static str = "/usr/lib/systemd/systemd";
pub const MAX_CANDIDATE_BYTES: u64 = 536870912;
pub const MAX_GRUB_CONFIG_BYTES: u64 = 16777216;
pub const MIN_BOOT_FREE_BYTES: u64 = 1610612736;
pub const MIN_BOOT_FREE_INODES: u64 = 16;
pub const MAX_ARCHIVE_ENTRIES: usize = 262144;
pub const MAX_INSPECTED_ARCHIVE_BYTES: u64 = 805306368;
pub const GRUB_SCRIPT_PATH: &'static str = "/etc/grub.d/41_bootart_known_good";
pub const KNOWN_GOOD_SUFFIX: &'static str = ".bootart-known-good";
pub const TRANSACTIONS_PREFIX: &'static str = "/var/lib/bootart/install/transactions/";
pub const UNPACKED_SUFFIX: &'static str = "/unpacked-candidate";

/// Exact image naming contracts of the generic dracut backend.  Selection is
/// made from observed files, never from distribution identity.
#[derive(Debug, Clone, Copy, PartialEq, Eq, Structural)]
pub enum DracutImageLayout {
    InitrdImg,
    InitramfsImg,
}

impl DracutImageLayout {
    pub open spec fn spec_active_image(self, kernel: Seq<char>) -> Seq<char> {
        match self {
            DracutImageLayout::InitrdImg => "/boot/initrd.img-"@ + kernel,
            DracutImageLayout::InitramfsImg => "/boot/initramfs-"@ + kernel + ".img"@,
        }
    }

    pub open spec fn spec_candidate_image(self, kernel: Seq<char>) -> Seq<char> {
        match self {
            DracutImageLayout::InitrdImg => "/boot/.bootart-candidate-initrd.img-"@ + kernel,
            DracutImageLayout::InitramfsImg => "/boot/.bootart-candidate-initramfs-"@ + kernel
                + ".img"@,
        }
    }

    /// The active image path for `kernel`.
    pub fn active_image(self, kernel: &str) -> (r: String)
        ensures
            r@ == self.spec_active_image(kernel@),
    {
        match self {
            DracutImageLayout::InitrdImg => concat2("/boot/initrd.img-", kernel),
            DracutImageLayout::InitramfsImg => concat3("/boot/initramfs-", kernel, ".img"),
        }
    }

    /// The separately named candidate image path for `kernel`.
    pub fn candidate_image(self, kernel: &str) -> (r: String)
        ensures
            r@ == self.spec_candidate_image(kernel@),
    {
        match self {
            DracutImageLayout::InitrdImg => concat2("/boot/.bootart-candidate-initrd.img-", kernel),
            DracutImageLayout::InitramfsImg => concat3(
                "/boot/.bootart-candidate-initramfs-",
                kernel,
                ".img",
            ),
        }
    }
}

/// Exact GRUB regeneration contracts of the generic backend.
#[derive(Debug, Clone, Copy, PartialEq, Eq, Structural)]
pub enum GrubRegeneration {
    UpdateGrub,
    Grub2Mkconfig,
    GrubMkconfig,
}

impl GrubRegeneration {
    pub open spec fn spec_updater(self) -> &'static str {
        match self {
            GrubRegeneration::UpdateGrub => UPDATE_GRUB_EXECUTABLE,
            GrubRegeneration::Grub2Mkconfig => GRUB2_MKCONFIG_EXECUTABLE,
            GrubRegeneration::GrubMkconfig => GRUB_MKCONFIG_EXECUTABLE,
        }
    }

    pub open spec fn spec_probe(self) -> &'static str {
        match self {
            GrubRegeneration::UpdateGrub => GRUB_PROBE_EXECUTABLE,
            GrubRegeneration::Grub2Mkconfig => GRUB2_PROBE_EXECUTABLE,
            GrubRegeneration::GrubMkconfig => GRUB_BIN_PROBE_EXECUTABLE,
        }
    }

    pub open spec fn spec_config_path(self) -> &'static str {
        match self {
            GrubRegeneration::UpdateGrub => "/boot/grub/grub.cfg",
            GrubRegeneration::Grub2Mkconfig => "/boot/grub2/grub.cfg",
            GrubRegeneration::GrubMkconfig => "/boot/grub/grub.cfg",
        }
    }

    pub open spec fn spec_arguments(self) -> Seq<Seq<char>> {
        match self {
            GrubRegeneration::UpdateGrub => seq![],
            _ => seq!["-o"@, self.spec_config_path()@],
        }
    }

    /// The GRUB configuration regenerator.
    pub fn updater(self) -> (r: &'static str)
        ensures
            r == self.spec_updater(),
    {
        match self {
            GrubRegeneration::UpdateGrub => UPDATE_GRUB_EXECUTABLE,
            GrubRegeneration::Grub2Mkconfig => GRUB2_MKCONFIG_EXECUTABLE,
            GrubRegeneration::GrubMkconfig => GRUB_MKCONFIG_EXECUTABLE,
        }
    }

    /// The matching device probe.
    pub fn probe(self) -> (r: &'static str)
        ensures
            r == self.spec_probe(),
    {
        match self {
            GrubRegeneration::UpdateGrub => GRUB_PROBE_EXECUTABLE,
            GrubRegeneration::Grub2Mkconfig => GRUB2_PROBE_EXECUTABLE,
            GrubRegeneration::GrubMkconfig => GRUB_BIN_PROBE_EXECUTABLE,
        }
    }

    /// The generated configuration.
    pub fn config_path(self) -> (r: &'static str)
        ensures
            r == self.spec_config_path(),
    {
        match self {
            GrubRegeneration::UpdateGrub => "/boot/grub/grub.cfg",
            GrubRegeneration::Grub2Mkconfig => "/boot/grub2/grub.cfg",
            GrubRegeneration::GrubMkconfig => "/boot/grub/grub.cfg",
        }
    }

    /// The regenerator's fixed argv.
    pub fn arguments(self) -> (r: Vec<String>)
        ensures
            string_views(r@) == self.spec_arguments(),
    {
        match self {
            GrubRegeneration::UpdateGrub => {
                let r: Vec<String> = Vec::new();
                assert(string_views(r@) =~= self.spec_arguments());
                r
            },
            _ => {
                let r = strings_of(&["-o", self.config_path()]);
                assert(str_views(seq!["-o", self.spec_config_path()]) =~= self.spec_arguments());
                r
            },
        }
    }
}

/// Canonical cryptsetup locations: a capability choice, not a distribution
/// choice.
#[derive(Debug, Clone, Copy, PartialEq, Eq, Structural)]
pub enum CryptsetupLocation {
    UsrBin,
    UsrSbin,
}

impl CryptsetupLocation {
    pub open spec fn spec_executable(self) -> &'static str {
        match self {
            CryptsetupLocation::UsrBin => CRYPTSETUP_USR_BIN_EXECUTABLE,
            CryptsetupLocation::UsrSbin => CRYPTSETUP_EXECUTABLE,
        }
    }

    pub fn executable(self) -> (r: &'static str)
        ensures
            r == self.spec_executable(),
    {
        match self {
            CryptsetupLocation::UsrBin => CRYPTSETUP_USR_BIN_EXECUTABLE,
            CryptsetupLocation::UsrSbin => CRYPTSETUP_EXECUTABLE,
        }
    }
}

pub open spec fn spec_dracut_systemd_required_tools(
    grub: GrubRegeneration,
    cryptsetup: CryptsetupLocation,
) -> Seq<&'static str> {
    seq![
        DRACUT_EXECUTABLE,
        LSINITRD_EXECUTABLE,
        FINDMNT_EXECUTABLE,
        SYSTEMD_EXECUTABLE,
        cryptsetup.spec_executable(),
        grub.spec_updater(),
        grub.spec_probe(),
    ]
}

/// The exact tool set of the dracut-systemd mechanism.
pub fn dracut_systemd_required_tools(grub: GrubRegeneration, cryptsetup: CryptsetupLocation) -> (r:
    Vec<&'static str>)
    ensures
        r@ == spec_dracut_systemd_required_tools(grub, cryptsetup),
{
    let r = vec![
        DRACUT_EXECUTABLE,
        LSINITRD_EXECUTABLE,
        FINDMNT_EXECUTABLE,
        SYSTEMD_EXECUTABLE,
        cryptsetup.executable(),
        grub.updater(),
        grub.probe(),
    ];
    assert(r@ =~= spec_dracut_systemd_required_tools(grub, cryptsetup));
    r
}

/// A descriptor-derived executable fact.  A false field is a hard refusal;
/// the planner never repairs or searches `PATH`.
#[derive(Debug, Clone, PartialEq, Eq)]
pub struct ToolFact {
    pub path: String,
    pub root_owned: bool,
    pub regular: bool,
    pub symlink: bool,
    pub executable: bool,
}

impl ToolFact {
    /// A fact describing a safe root-owned regular executable at `path`.
    pub fn exact(path: &str) -> (r: Self)
        ensures
            r.path@ == path@,
            r.root_owned && r.regular && !r.symlink && r.executable,
    {
        ToolFact {
            path: String::from_str(path),
            root_owned: true,
            regular: true,
            symlink: false,
            executable: true,
        }
    }
}

/// A file fact that matches its reviewed executability.
pub open spec fn file_fact_safe(t: ToolFact, executable: bool) -> bool {
    t.root_owned && t.regular && !t.symlink && t.executable == executable
}

pub open spec fn tool_paths_distinct(tools: Seq<ToolFact>) -> bool {
    forall|i: int, j: int| 0 <= i < j < tools.len() ==> tools[i].path@ != tools[j].path@
}

/// `tools` describes exactly the `required` paths, each once, each matching
/// its reviewed executability.
pub open spec fn facts_match_exactly(
    tools: Seq<ToolFact>,
    required: Seq<Seq<char>>,
    executable: Seq<bool>,
) -> bool {
    &&& tool_paths_distinct(tools)
    &&& tools.len() == required.len()
    &&& forall|k: int|
        0 <= k < required.len() ==> #[trigger] fact_present(tools, required[k], executable[k])
}

/// Some fact of `tools` describes `path` safely.
pub open spec fn fact_present(tools: Seq<ToolFact>, path: Seq<char>, executable: bool) -> bool {
    exists|i: int| 0 <= i < tools.len() && tools[i].path@ == path && file_fact_safe(tools[i], executable)
}

/// `tools` describes exactly the `required` executables.
pub open spec fn tools_match_exactly(tools: Seq<ToolFact>, required: Seq<Seq<char>>) -> bool {
    facts_match_exactly(tools, required, Seq::new(required.len(), |_i: int| true))
}

fn tool_paths_distinct_exec(tools: &Vec<ToolFact>) -> (r: bool)
    ensures
        r == tool_paths_distinct(tools@),
{
    let mut i: usize = 0;
    while i < tools.len()
        invariant
            i <= tools.len(),
            forall|a: int, b: int| 0 <= a < b < tools.len() && a < i ==> tools@[a].path@ != tools@[b].path@,
        decreases tools.len() - i,
    {
        let mut j: usize = i + 1;
        while j < tools.len()
            invariant
                i < tools.len(),
                i + 1 <= j <= tools.len(),
                forall|a: int, b: int| 0 <= a < b < tools.len() && a < i ==> tools@[a].path@ != tools@[b].path@,
                forall|b: int| i < b < j ==> tools@[i as int].path@ != tools@[b].path@,
            decreases tools.len() - j,
        {
            if str_eq(tools[i].path.as_str(), tools[j].path.as_str()) {
                return false;
            }
            j = j + 1;
        }
        i = i + 1;
    }
    true
}

/// Whether `tools` describes exactly `required` with matching executability.
pub fn facts_match_exactly_exec(tools: &Vec<ToolFact>, required: &Vec<&str>, executable: &Vec<bool>) -> (r: bool)
    requires
        required@.len() == executable@.len(),
    ensures
        r == facts_match_exactly(tools@, str_views(required@), executable@),
{
    let ghost req = str_views(required@);
    if !tool_paths_distinct_exec(tools) {
        return false;
    }
    if tools.len() != required.len() {
        return false;
    }
    let mut k: usize = 0;
    while k < required.len()
        invariant
            k <= required@.len(),
            required@.len() == executable@.len(),
            req == str_views(required@),
            tool_paths_distinct(tools@),
            forall|m: int| 0 <= m < k ==> #[trigger] fact_present(tools@, req[m], executable@[m]),
        decreases required.len() - k,
    {
        let mut found: Option<usize> = None;
        let mut i: usize = 0;
        while i < tools.len()
            invariant
                i <= tools@.len(),
                k < required@.len(),
                found matches Some(f) ==> f < tools@.len() && tools@[f as int].path@ == required@[k as int]@,
                found is None ==> forall|j: int| 0 <= j < i ==> tools@[j].path@ != required@[k as int]@,
            decreases tools.len() - i,
        {
            if found.is_none() && str_eq(tools[i].path.as_str(), required[k]) {
                found = Some(i);
            }
            i = i + 1;
        }
        match found {
            None => {
                assert(!fact_present(tools@, req[k as int], executable@[k as int]));
                return false;
            },
            Some(f) => {
                let t = &tools[f];
                if !(t.root_owned && t.regular && !t.symlink && t.executable == executable[k]) {
                    assert forall|i: int|
                        0 <= i < tools@.len() && tools@[i].path@ == req[k as int] implies !file_fact_safe(
                        #[trigger] tools@[i],
                        executable@[k as int],
                    ) by {
                        if i != f {
                            if i < f {
                                assert(tools@[i].path@ != tools@[f as int].path@);
                            } else {
                                assert(tools@[f as int].path@ != tools@[i].path@);
                            }
                        }
                    }
                    assert(!fact_present(tools@, req[k as int], executable@[k as int]));
                    return false;
                }
                assert(tools@[f as int].path@ == req[k as int]);
                assert(fact_present(tools@, req[k as int], executable@[k as int]));
            },
        }
        k = k + 1;
    }
    true
}

/// Whether `tools` describes exactly the `required` executables.
pub fn tools_match_exactly_exec(tools: &Vec<ToolFact>, required: &Vec<&str>) -> (r: bool)
    ensures
        r == tools_match_exactly(tools@, str_views(required@)),
{
    let mut executable: Vec<bool> = Vec::new();
    let mut i: usize = 0;
    while i < required.len()
        invariant
            i <= required@.len(),
            executable@.len() == i,
            forall|j: int| 0 <= j < i ==> executable@[j],
        decreases required.len() - i,
    {
        executable.push(true);
        i = i + 1;
    }
    assert(executable@ =~= Seq::new(str_views(required@).len(), |_i: int| true));
    facts_match_exactly_exec(tools, required, &executable)
}

// ---------------------------------------------------------------------------
// Token validators
// ---------------------------------------------------------------------------

pub open spec fn spec_safe_kernel_version(v: Seq<char>) -> bool {
    bounded_token(v, 128, CharClass::KernelVersion)
}

pub open spec fn spec_safe_uuid(v: Seq<char>) -> bool {
    bounded_token(v, 64, CharClass::Uuid)
}

pub open spec fn spec_safe_kernel_command_line(v: Seq<char>) -> bool {
    bounded_token(v, 4096, CharClass::CommandLine) && !contains(v, "BOOTART_GRUB_EOF"@)
}

pub open spec fn spec_safe_transaction_id(v: Seq<char>) -> bool {
    bounded_token(v, 128, CharClass::TransactionId)
}

/// A kernel version of at most 128 ASCII alphanumerics, `.`, `_`, `+`, `-`.
pub fn safe_kernel_version(value: &str) -> (r: bool)
    ensures
        r == spec_safe_kernel_version(value@),
{
    str_is_bounded_token(value, 128, CharClass::KernelVersion)
}

fn safe_uuid(value: &str) -> (r: bool)
    ensures
        r == spec_safe_uuid(value@),
{
    str_is_bounded_token(value, 64, CharClass::Uuid)
}

fn safe_kernel_command_line(value: &str) -> (r: bool)
    ensures
        r == spec_safe_kernel_command_line(value@),
{
    str_is_bounded_token(value, 4096, CharClass::CommandLine) && !str_contains(
        value,
        "BOOTART_GRUB_EOF",
    )
}

/// A transaction id of at most 128 ASCII alphanumerics and `-`.
pub fn safe_transaction_id(value: &str) -> (r: bool)
    ensures
        r == spec_safe_transaction_id(value@),
{
    str_is_bounded_token(value, 128, CharClass::TransactionId)
}

// ---------------------------------------------------------------------------
// The known-good GRUB entry
// ---------------------------------------------------------------------------

/// Embedded GRUB generator text.  Dynamic values replace only validated
/// single-line placeholders; no external script or template is read.
pub const GRUB_KNOWN_GOOD_TEMPLATE: &'static str = "#!/bin/sh\nset -eu\ncat <<'BOOTART_GRUB_EOF'\nmenuentry 'Bootart known-good' --id bootart-known-good {\n    search --no-floppy --fs-uuid --set=root @BOOT_UUID@\n    linux /vmlinuz-@KERNEL@ @CMDLINE@\n    initrd /@INITRD@\n}\nBOOTART_GRUB_EOF\n";

/// The script text for the given values.
pub open spec fn grub_script_text(
    boot_uuid: Seq<char>,
    kernel: Seq<char>,
    command_line: Seq<char>,
    initrd: Seq<char>,
) -> Seq<char> {
    replace_all(
        replace_all(
            replace_all(
                replace_all(GRUB_KNOWN_GOOD_TEMPLATE@, "@BOOT_UUID@"@, boot_uuid),
                "@KERNEL@"@,
                kernel,
            ),
            "@CMDLINE@"@,
            command_line,
        ),
        "@INITRD@"@,
        initrd,
    )
}

/// The inputs `render_grub_script` accepts.
pub open spec fn grub_inputs_ok(
    boot_uuid: Seq<char>,
    kernel: Seq<char>,
    command_line: Seq<char>,
    known_good_image: Seq<char>,
) -> bool {
    &&& spec_safe_uuid(boot_uuid)
    &&& spec_safe_kernel_version(kernel)
    &&& spec_safe_kernel_command_line(command_line)
    &&& has_prefix(known_good_image, "/boot/"@)
    &&& bounded_token(known_good_image.skip(6), 256, CharClass::KernelVersion)
}

/// Renders the known-good GRUB generator script.
pub fn render_grub_script(
    boot_uuid: &str,
    kernel: &str,
    command_line: &str,
    known_good_image: &str,
) -> (r: Result<Vec<u8>, InstallError>)
    ensures
        r is Ok <==> grub_inputs_ok(boot_uuid@, kernel@, command_line@, known_good_image@),
        r matches Ok(bytes) ==> bytes@ == encode_utf8(
            grub_script_text(boot_uuid@, kernel@, command_line@, known_good_image@.skip(6)),
        ),
        r matches Err(e) ==> e is InvalidPlan,
{
    if !safe_uuid(boot_uuid) {
        return Err(invalid("dracut-systemd /boot filesystem UUID is unsafe"));
    }
    if !safe_kernel_version(kernel) {
        return Err(invalid("dracut-systemd kernel version is unsafe"));
    }
    if !safe_kernel_command_line(command_line) {
        return Err(invalid("dracut-systemd kernel command line is unsafe"));
    }
    let initrd_path = match strip_prefix(known_good_image, "/boot/") {
        Some(rest) => rest,
        None => {
            return Err(
                invalid("dracut-systemd known-good image is outside the supported /boot layout"),
            );
        },
    };
    proof {
        reveal_strlit("/boot/");
    }
    if !str_is_bounded_token(initrd_path, 256, CharClass::KernelVersion) {
        return Err(invalid("dracut-systemd known-good image name is unsafe"));
    }
    proof {
        reveal_strlit("@BOOT_UUID@");
        reveal_strlit("@KERNEL@");
        reveal_strlit("@CMDLINE@");
        reveal_strlit("@INITRD@");
    }
    let a = replace_str(GRUB_KNOWN_GOOD_TEMPLATE, "@BOOT_UUID@", boot_uuid);
    let b = replace_str(a.as_str(), "@KERNEL@", kernel);
    let c = replace_str(b.as_str(), "@CMDLINE@", command_line);
    let d = replace_str(c.as_str(), "@INITRD@", initrd_path);
    Ok(d.as_str().as_bytes_vec())
}

// ---------------------------------------------------------------------------
// Command requests
// ---------------------------------------------------------------------------

pub open spec fn spec_generator_of(executable: Seq<char>) -> GeneratorKind {
    if executable == DRACUT_EXECUTABLE@ {
        GeneratorKind::Dracut
    } else if executable == LSINITRD_EXECUTABLE@ {
        GeneratorKind::InitramfsInspection
    } else {
        GeneratorKind::GrubUpdate
    }
}

pub open spec fn dracut_tool_executable(executable: Seq<char>) -> bool {
    executable == DRACUT_EXECUTABLE@ || executable == LSINITRD_EXECUTABLE@ || executable
        == UPDATE_GRUB_EXECUTABLE@ || executable == GRUB2_MKCONFIG_EXECUTABLE@ || executable
        == GRUB_MKCONFIG_EXECUTABLE@
}

/// A fixed request for one of the dracut-systemd tools.
pub fn request(executable: &str, alternate_root: &str, arguments: Vec<String>) -> (r:
    GeneratorRequest)
    requires
        dracut_tool_executable(executable@),
    ensures
        r.generator == spec_generator_of(executable@),
        r.executable@ == executable@,
        r.alternate_root@ == alternate_root@,
        r.working_directory is None,
        r.arguments@ == arguments@,
        r.clear_environment,
{
    let generator = if str_eq(executable, DRACUT_EXECUTABLE) {
        GeneratorKind::Dracut
    } else if str_eq(executable, LSINITRD_EXECUTABLE) {
        GeneratorKind::InitramfsInspection
    } else {
        GeneratorKind::GrubUpdate
    };
    GeneratorRequest {
        generator,
        executable: String::from_str(executable),
        alternate_root: String::from_str(alternate_root),
        working_directory: None,
        arguments,
        clear_environment: true,
    }
}

// ---------------------------------------------------------------------------
// Managed image paths
// ---------------------------------------------------------------------------

/// The layout and kernel of a candidate image path.
pub open spec fn spec_candidate_layout_kernel(path: Seq<char>) -> Option<(DracutImageLayout, Seq<char>)> {
    let p1 = "/boot/.bootart-candidate-initrd.img-"@;
    let p2 = "/boot/.bootart-candidate-initramfs-"@;
    if has_prefix(path, p1) {
        let k = path.skip(p1.len() as int);
        if spec_safe_kernel_version(k) {
            Some((DracutImageLayout::InitrdImg, k))
        } else {
            None
        }
    } else if has_prefix(path, p2) && has_suffix(path.skip(p2.len() as int), ".img"@) {
        let rest = path.skip(p2.len() as int);
        let k = rest.subrange(0, rest.len() - 4);
        if spec_safe_kernel_version(k) {
            Some((DracutImageLayout::InitramfsImg, k))
        } else {
            None
        }
    } else {
        None
    }
}

/// The layout and kernel of an active image path.
pub open spec fn spec_active_layout_kernel(path: Seq<char>) -> Option<(DracutImageLayout, Seq<char>)> {
    let p1 = "/boot/initrd.img-"@;
    let p2 = "/boot/initramfs-"@;
    if has_prefix(path, p1) {
        let k = path.skip(p1.len() as int);
        if spec_safe_kernel_version(k) {
            Some((DracutImageLayout::InitrdImg, k))
        } else {
            None
        }
    } else if has_prefix(path, p2) && has_suffix(path.skip(p2.len() as int), ".img"@) {
        let rest = path.skip(p2.len() as int);
        let k = rest.subrange(0, rest.len() - 4);
        if spec_safe_kernel_version(k) {
            Some((DracutImageLayout::InitramfsImg, k))
        } else {
            None
        }
    } else {
        None
    }
}

fn layout_kernel(path: &str, prefix1: &str, prefix2: &str) -> (r: Option<(DracutImageLayout, String)>)
    ensures
        r matches Some((l, k)) ==> {
            &&& has_prefix(path@, prefix1@) ==> l == DracutImageLayout::InitrdImg && k@ == path@.skip(prefix1@.len() as int) && spec_safe_kernel_version(k@)
            &&& !has_prefix(path@, prefix1@) ==> l == DracutImageLayout::InitramfsImg && has_prefix(path@, prefix2@) && has_suffix(path@.skip(prefix2@.len() as int), ".img"@) && k@ == path@.skip(prefix2@.len() as int).subrange(0, path@.skip(prefix2@.len() as int).len() - ".img"@.len()) && spec_safe_kernel_version(k@)
        },
        r is None ==> {
            &&& has_prefix(path@, prefix1@) ==> !spec_safe_kernel_version(path@.skip(prefix1@.len() as int))
            &&& (!has_prefix(path@, prefix1@) && has_prefix(path@, prefix2@) && has_suffix(path@.skip(prefix2@.len() as int), ".img"@)) ==> !spec_safe_kernel_version(path@.skip(prefix2@.len() as int).subrange(0, path@.skip(prefix2@.len() as int).len() - ".img"@.len()))
        },
{
    if let Some(kernel) = strip_prefix(path, prefix1) {
        if safe_kernel_version(kernel) {
            return Some((DracutImageLayout::InitrdImg, String::from_str(kernel)));
        }
        return None;
    }
    let rest = match strip_prefix(path, prefix2) {
        Some(rest) => rest,
        None => return None,
    };
    let kernel = match strip_suffix(rest, ".img") {
        Some(kernel) => kernel,
        None => return None,
    };
    if safe_kernel_version(kernel) {
        Some((DracutImageLayout::InitramfsImg, String::from_str(kernel)))
    } else {
        None
    }
}

/// The layout and kernel named by a candidate image path.
pub fn candidate_layout_kernel(path: &str) -> (r: Option<(DracutImageLayout, String)>)
    ensures
        r is None <==> spec_candidate_layout_kernel(path@) is None,
        r matches Some((l, k)) ==> spec_candidate_layout_kernel(path@) == Some((l, k@)),
{
    proof {
        reveal_strlit(".img");
    }
    layout_kernel(path, "/boot/.bootart-candidate-initrd.img-", "/boot/.bootart-candidate-initramfs-")
}

/// The layout and kernel named by an active image path.
pub fn active_layout_kernel(path: &str) -> (r: Option<(DracutImageLayout, String)>)
    ensures
        r is None <==> spec_active_layout_kernel(path@) is None,
        r matches Some((l, k)) ==> spec_active_layout_kernel(path@) == Some((l, k@)),
{
    proof {
        reveal_strlit(".img");
    }
    layout_kernel(path, "/boot/initrd.img-", "/boot/initramfs-")
}

/// `path` without a trailing `.bootart-known-good`.
pub open spec fn without_known_good(path: Seq<char>) -> Seq<char> {
    if has_suffix(path, KNOWN_GOOD_SUFFIX@) {
        path.subrange(0, path.len() - KNOWN_GOOD_SUFFIX@.len())
    } else {
        path
    }
}

fn strip_known_good(path: &str) -> (r: &str)
    ensures
        r@ == without_known_good(path@),
{
    match strip_suffix(path, KNOWN_GOOD_SUFFIX) {
        Some(active) => active,
        None => path,
    }
}

pub open spec fn spec_dracut_systemd_managed_image_path(path: Seq<char>) -> bool {
    path == GRUB_SCRIPT_PATH@ || path == "/boot/grub/grub.cfg"@ || path == "/boot/grub2/grub.cfg"@
        || spec_candidate_layout_kernel(path) is Some || spec_active_layout_kernel(
        without_known_good(path),
    ) is Some
}

/// Whether the dracut-systemd backend owns `path`.
pub fn dracut_systemd_managed_image_path(path: &str) -> (r: bool)
    ensures
        r == spec_dracut_systemd_managed_image_path(path@),
{
    if str_eq(path, GRUB_SCRIPT_PATH) || str_eq(path, "/boot/grub/grub.cfg") || str_eq(
        path,
        "/boot/grub2/grub.cfg",
    ) {
        return true;
    }
    if candidate_layout_kernel(path).is_some() {
        return true;
    }
    active_layout_kernel(strip_known_good(path)).is_some()
}


// ---------------------------------------------------------------------------
// Image path round trips
// ---------------------------------------------------------------------------

/// A candidate image path names its layout and kernel.
pub proof fn lemma_candidate_image_parses(layout: DracutImageLayout, k: Seq<char>)
    requires
        spec_safe_kernel_version(k),
    ensures
        spec_candidate_layout_kernel(layout.spec_candidate_image(k)) == Some((layout, k)),
{
    reveal_strlit("/boot/.bootart-candidate-initrd.img-");
    reveal_strlit("/boot/.bootart-candidate-initramfs-");
    reveal_strlit(".img");
    let p1 = "/boot/.bootart-candidate-initrd.img-"@;
    let p2 = "/boot/.bootart-candidate-initramfs-"@;
    let path = layout.spec_candidate_image(k);
    match layout {
        DracutImageLayout::InitrdImg => {
            assert(path.subrange(0, p1.len() as int) =~= p1);
            assert(path.skip(p1.len() as int) =~= k);
        },
        DracutImageLayout::InitramfsImg => {
            assert(path[30] == 'a');
            assert(p1[30] == 'd');
            assert(path.subrange(0, p1.len() as int)[30] != p1[30]);
            assert(path.subrange(0, p2.len() as int) =~= p2);
            let rest = path.skip(p2.len() as int);
            assert(rest =~= k + ".img"@);
            assert(rest.subrange(rest.len() - 4, rest.len() as int) =~= ".img"@);
            assert(rest.subrange(0, rest.len() - 4) =~= k);
        },
    }
}

/// An active image path names its layout and kernel.
pub proof fn lemma_active_image_parses(layout: DracutImageLayout, k: Seq<char>)
    requires
        spec_safe_kernel_version(k),
    ensures
        spec_active_layout_kernel(layout.spec_active_image(k)) == Some((layout, k)),
        has_prefix(layout.spec_active_image(k), "/boot/"@),
{
    reveal_strlit("/boot/initrd.img-");
    reveal_strlit("/boot/initramfs-");
    reveal_strlit(".img");
    reveal_strlit("/boot/");
    let p1 = "/boot/initrd.img-"@;
    let p2 = "/boot/initramfs-"@;
    let path = layout.spec_active_image(k);
    match layout {
        DracutImageLayout::InitrdImg => {
            assert(path.subrange(0, p1.len() as int) =~= p1);
            assert(path.skip(p1.len() as int) =~= k);
            assert(path.subrange(0, 6) =~= "/boot/"@);
        },
        DracutImageLayout::InitramfsImg => {
            assert(path.len() >= p1.len());
            assert(path[11] == 'a');
            assert(p1[11] == 'd');
            assert(path.subrange(0, p1.len() as int)[11] != p1[11]);
            assert(path.subrange(0, p2.len() as int) =~= p2);
            let rest = path.skip(p2.len() as int);
            assert(rest =~= k + ".img"@);
            assert(rest.subrange(rest.len() - 4, rest.len() as int) =~= ".img"@);
            assert(rest.subrange(0, rest.len() - 4) =~= k);
            assert(path.subrange(0, 6) =~= "/boot/"@);
        },
    }
}

// ---------------------------------------------------------------------------
// Generator request validation
// ---------------------------------------------------------------------------

/// A working directory `/var/lib/bootart/install/transactions/<id>/unpacked-candidate`
/// with a safe transaction id.
pub open spec fn transaction_unpack_dir(d: Seq<char>) -> bool {
    &&& has_prefix(d, TRANSACTIONS_PREFIX@)
    &&& has_suffix(d.skip(TRANSACTIONS_PREFIX@.len() as int), UNPACKED_SUFFIX@)
    &&& spec_safe_transaction_id(
        d.skip(TRANSACTIONS_PREFIX@.len() as int).subrange(
            0,
            d.len() - TRANSACTIONS_PREFIX@.len() - UNPACKED_SUFFIX@.len(),
        ),
    )
}

/// The fixed command language of the dracut-systemd backend.
pub open spec fn dracut_generator_request_valid(r: GeneratorRequest) -> bool {
    let a = r.args();
    &&& r.clear_environment
    &&& spec_safe_alternate_root(r.alternate_root@)
    &&& match r.generator {
        GeneratorKind::Dracut => {
            &&& r.executable@ == DRACUT_EXECUTABLE@
            &&& r.working_directory is None
            &&& a.len() == 6
            &&& a[0] == "--force"@
            &&& a[1] == "--kver"@
            &&& (a[3] == "--add"@ || a[3] == "--omit"@)
            &&& a[4] == "bootart-systemd"@
            &&& spec_safe_kernel_version(a[2])
            &&& spec_candidate_layout_kernel(a[5]) matches Some((_, k)) && k == a[2]
        },
        GeneratorKind::InitramfsInspection => {
            &&& r.executable@ == LSINITRD_EXECUTABLE@
            &&& a.len() == 2
            &&& a[0] == "--unpack"@
            &&& spec_candidate_layout_kernel(a[1]) is Some
            &&& r.workdir() matches Some(d) && transaction_unpack_dir(d)
        },
        GeneratorKind::GrubUpdate => {
            &&& r.working_directory is None
            &&& {
                ||| r.executable@ == UPDATE_GRUB_EXECUTABLE@ && a.len() == 0
                ||| r.executable@ == GRUB2_MKCONFIG_EXECUTABLE@ && a == seq![
                    "-o"@,
                    "/boot/grub2/grub.cfg"@,
                ]
                ||| r.executable@ == GRUB_MKCONFIG_EXECUTABLE@ && a == seq![
                    "-o"@,
                    "/boot/grub/grub.cfg"@,
                ]
            }
        },
        _ => false,
    }
}

/// The transaction id inside an unpack working directory.
pub fn transaction_of_dir(d: &str) -> (r: bool)
    ensures
        r == transaction_unpack_dir(d@),
{
    let rest = match strip_prefix(d, TRANSACTIONS_PREFIX) {
        Some(rest) => rest,
        None => return false,
    };
    let id = match strip_suffix(rest, UNPACKED_SUFFIX) {
        Some(id) => id,
        None => return false,
    };
    assert(id@ =~= d@.skip(TRANSACTIONS_PREFIX@.len() as int).subrange(
        0,
        d@.len() - TRANSACTIONS_PREFIX@.len() - UNPACKED_SUFFIX@.len(),
    ));
    safe_transaction_id(id)
}

fn dracut_argv_valid(a: &Vec<String>) -> (r: bool)
    ensures
        r == {
            let a = string_views(a@);
            &&& a.len() == 6
            &&& a[0] == "--force"@
            &&& a[1] == "--kver"@
            &&& (a[3] == "--add"@ || a[3] == "--omit"@)
            &&& a[4] == "bootart-systemd"@
            &&& spec_safe_kernel_version(a[2])
            &&& spec_candidate_layout_kernel(a[5]) matches Some((_, k)) && k == a[2]
        },
{
    if a.len() != 6 {
        return false;
    }
    let ok = str_eq(a[0].as_str(), "--force") && str_eq(a[1].as_str(), "--kver") && (str_eq(
        a[3].as_str(),
        "--add",
    ) || str_eq(a[3].as_str(), "--omit")) && str_eq(a[4].as_str(), "bootart-systemd")
        && safe_kernel_version(a[2].as_str());
    if !ok {
        return false;
    }
    match candidate_layout_kernel(a[5].as_str()) {
        Some((_, k)) => str_eq(k.as_str(), a[2].as_str()),
        None => false,
    }
}

/// Rejects every command shape except the fixed dracut-systemd operations.
/// The check is independent of any command runner, so a test seam cannot
/// widen the production command language.
pub fn validate_dracut_systemd_generator_request(request: &GeneratorRequest) -> (r: Result<
    (),
    InstallError,
>)
    ensures
        r is Ok <==> dracut_generator_request_valid(*request),
        r matches Err(e) ==> e is InvalidPlan,
{
    if !request.clear_environment || !safe_alternate_root(request.alternate_root.as_str()) {
        return Err(
            invalid("dracut-systemd generator request requires a safe root and cleared environment"),
        );
    }
    let exe = request.executable.as_str();
    match request.generator {
        GeneratorKind::Dracut => {
            if !str_eq(exe, DRACUT_EXECUTABLE) {
                return Err(invalid("unreviewed dracut-systemd generator executable or kind"));
            }
            if request.working_directory.is_some() {
                return Err(invalid("dracut-systemd dracut generation cannot change directory"));
            }
            if !dracut_argv_valid(&request.arguments) {
                return Err(invalid("dracut-systemd dracut argv differs from the fixed contract"));
            }
        },
        GeneratorKind::InitramfsInspection => {
            if !str_eq(exe, LSINITRD_EXECUTABLE) {
                return Err(invalid("unreviewed dracut-systemd generator executable or kind"));
            }
            if request.arguments.len() != 2 {
                return Err(invalid("dracut-systemd lsinitrd argv differs from the fixed contract"));
            }
            let dir_ok = match &request.working_directory {
                Some(d) => transaction_of_dir(d.as_str()),
                None => false,
            };
            if !dir_ok {
                return Err(invalid("dracut-systemd lsinitrd working directory is unsafe"));
            }
            if !str_eq(request.arguments[0].as_str(), "--unpack") || candidate_layout_kernel(
                request.arguments[1].as_str(),
            ).is_none() {
                return Err(invalid("dracut-systemd lsinitrd candidate path is unsafe"));
            }
        },
        GeneratorKind::GrubUpdate => {
            proof {
                reveal_strlit("/usr/sbin/update-grub");
                reveal_strlit("/usr/bin/grub2-mkconfig");
                reveal_strlit("/usr/bin/grub-mkconfig");
                assert(UPDATE_GRUB_EXECUTABLE@.len() == 21);
                assert(GRUB2_MKCONFIG_EXECUTABLE@.len() == 23);
                assert(GRUB_MKCONFIG_EXECUTABLE@.len() == 22);
            }
            if str_eq(exe, UPDATE_GRUB_EXECUTABLE) {
                if request.arguments.len() != 0 || request.working_directory.is_some() {
                    return Err(invalid("dracut-systemd update-grub accepts no installer arguments"));
                }
            } else if str_eq(exe, GRUB2_MKCONFIG_EXECUTABLE) {
                let lits = ["-o", "/boot/grub2/grub.cfg"];
                assert(str_views(lits@) =~= seq!["-o"@, "/boot/grub2/grub.cfg"@]);
                if !strings_equal_strs(&request.arguments, &lits)
                    || request.working_directory.is_some() {
                    return Err(
                        invalid("dracut-systemd grub2-mkconfig argv differs from the fixed contract"),
                    );
                }
            } else if str_eq(exe, GRUB_MKCONFIG_EXECUTABLE) {
                let lits = ["-o", "/boot/grub/grub.cfg"];
                assert(str_views(lits@) =~= seq!["-o"@, "/boot/grub/grub.cfg"@]);
                if !strings_equal_strs(&request.arguments, &lits)
                    || request.working_directory.is_some() {
                    return Err(
                        invalid("dracut-systemd grub-mkconfig argv differs from the fixed contract"),
                    );
                }
            } else {
                return Err(invalid("unreviewed dracut-systemd generator executable or kind"));
            }
        },
        _ => {
            return Err(invalid("unreviewed dracut-systemd generator executable or kind"));
        },
    }
    Ok(())
}


// ---------------------------------------------------------------------------
// Facts and contract
// ---------------------------------------------------------------------------

/// Non-secret facts that must be collected before a single byte is changed.
#[derive(Debug, Clone, PartialEq, Eq)]
pub struct DracutSystemdFacts {
    pub architecture: String,
    pub pid1_comm: String,
    pub kernel_versions: Vec<String>,
    pub root_filesystem_device: u64,
    pub boot_filesystem_device: u64,
    pub boot_writable: bool,
    pub boot_free_bytes: u64,
    pub boot_free_inodes: u64,
    pub dracut_modules: Vec<String>,
    pub image_layout: DracutImageLayout,
    pub grub_regeneration: GrubRegeneration,
    pub cryptsetup_location: CryptsetupLocation,
    pub tools: Vec<ToolFact>,
    pub known_good_path: String,
    pub known_good_digest: Sha256Digest,
    pub known_good_bytes: u64,
    pub boot_filesystem_uuid: String,
    pub kernel_command_line: String,
}

/// Fully resolved paths and command requests for the dracut-systemd pair.
#[derive(Debug, Clone, PartialEq, Eq)]
pub struct DracutSystemdContract {
    pub image_layout: DracutImageLayout,
    pub grub_regeneration: GrubRegeneration,
    pub kernel_version: String,
    pub active_image: String,
    pub candidate_image: String,
    pub known_good_image: String,
    pub known_good_digest: Sha256Digest,
    pub grub_script_path: String,
    pub grub_config_path: String,
    pub grub_script: Vec<u8>,
    pub generate: GeneratorRequest,
    pub update_grub: GeneratorRequest,
}

/// The GRUB script starts with the fixed shell prologue, loads the named
/// initrd, and keeps no unresolved placeholder.
pub open spec fn grub_script_ok(bytes: Seq<u8>, initrd_name: Seq<char>) -> bool {
    &&& valid_utf8(bytes)
    &&& has_prefix(decode_utf8(bytes), "#!/bin/sh\nset -eu\n"@)
    &&& contains(decode_utf8(bytes), "initrd /"@ + initrd_name + "\n"@)
    &&& !contains(decode_utf8(bytes), "@BOOT_UUID@"@)
    &&& !contains(decode_utf8(bytes), "@KERNEL@"@)
    &&& !contains(decode_utf8(bytes), "@CMDLINE@"@)
    &&& !contains(decode_utf8(bytes), "@INITRD@"@)
}

/// The path and GRUB relations of a contract.
pub open spec fn dracut_contract_fields_ok(c: DracutSystemdContract) -> bool {
    let k = c.kernel_version@;
    &&& spec_safe_kernel_version(k)
    &&& c.active_image@ == c.image_layout.spec_active_image(k)
    &&& c.candidate_image@ == c.image_layout.spec_candidate_image(k)
    &&& c.known_good_image@ == c.active_image@ + KNOWN_GOOD_SUFFIX@
    &&& c.grub_script_path@ == GRUB_SCRIPT_PATH@
    &&& c.grub_config_path@ == c.grub_regeneration.spec_config_path()@
    &&& c.update_grub.executable@ == c.grub_regeneration.spec_updater()@
    &&& c.update_grub.args() == c.grub_regeneration.spec_arguments()
    &&& c.generate.alternate_root@ == c.update_grub.alternate_root@
}

/// Every cross-field relation of a resolved contract.
pub open spec fn dracut_contract_valid(c: DracutSystemdContract) -> bool {
    &&& dracut_contract_fields_ok(c)
    &&& has_prefix(c.known_good_image@, "/boot/"@)
    &&& grub_script_ok(c.grub_script@, c.known_good_image@.skip(6))
    &&& dracut_generator_request_valid(c.generate)
    &&& dracut_generator_request_valid(c.update_grub)
    &&& c.generate.args().len() > 5
    &&& c.generate.args()[2] == c.kernel_version@
    &&& c.generate.args()[5] == c.candidate_image@
}

fn dracut_contract_fields_ok_exec(c: &DracutSystemdContract) -> (r: bool)
    ensures
        r == dracut_contract_fields_ok(*c),
{
    if !safe_kernel_version(c.kernel_version.as_str()) {
        return false;
    }
    let active = c.image_layout.active_image(c.kernel_version.as_str());
    let candidate = c.image_layout.candidate_image(c.kernel_version.as_str());
    let known_good = concat2(c.active_image.as_str(), KNOWN_GOOD_SUFFIX);
    let args = c.grub_regeneration.arguments();
    str_eq(c.active_image.as_str(), active.as_str()) && str_eq(
        c.candidate_image.as_str(),
        candidate.as_str(),
    ) && str_eq(c.known_good_image.as_str(), known_good.as_str()) && str_eq(
        c.grub_script_path.as_str(),
        GRUB_SCRIPT_PATH,
    ) && str_eq(c.grub_config_path.as_str(), c.grub_regeneration.config_path()) && str_eq(
        c.update_grub.executable.as_str(),
        c.grub_regeneration.updater(),
    ) && strings_equal(&c.update_grub.arguments, &args) && str_eq(
        c.generate.alternate_root.as_str(),
        c.update_grub.alternate_root.as_str(),
    )
}

pub fn grub_script_matches(bytes: &Vec<u8>, initrd_name: &str) -> (r: bool)
    ensures
        r == grub_script_ok(bytes@, initrd_name@),
{
    let script = match utf8_to_str(bytes.as_slice()) {
        Some(s) => s,
        None => return false,
    };
    let initrd_line = concat3("initrd /", initrd_name, "\n");
    str_has_prefix(script, "#!/bin/sh\nset -eu\n") && str_contains(script, initrd_line.as_str())
        && !str_contains(script, "@BOOT_UUID@") && !str_contains(script, "@KERNEL@")
        && !str_contains(script, "@CMDLINE@") && !str_contains(script, "@INITRD@")
}

/// Revalidates every cross-field relation of a resolved contract.  The
/// structs are public, so executors never trust that a caller obtained one
/// from the planner.
pub fn validate_dracut_systemd_contract(contract: &DracutSystemdContract) -> (r: Result<
    (),
    InstallError,
>)
    ensures
        r is Ok <==> dracut_contract_valid(*contract),
        r matches Err(e) ==> e is InvalidPlan,
{
    if !dracut_contract_fields_ok_exec(contract) {
        return Err(
            invalid("dracut-systemd contract mixes incompatible image or GRUB capabilities"),
        );
    }
    let initrd_name = match strip_prefix(contract.known_good_image.as_str(), "/boot/") {
        Some(name) => name,
        None => return Err(invalid("dracut-systemd known-good image is outside /boot")),
    };
    proof {
        reveal_strlit("/boot/");
    }
    if !grub_script_matches(&contract.grub_script, initrd_name) {
        return Err(
            invalid("dracut-systemd GRUB script does not match the resolved image contract"),
        );
    }
    validate_dracut_systemd_generator_request(&contract.generate)?;
    validate_dracut_systemd_generator_request(&contract.update_grub)?;
    let args = &contract.generate.arguments;
    if args.len() <= 5 || !str_eq(args[2].as_str(), contract.kernel_version.as_str()) || !str_eq(
        args[5].as_str(),
        contract.candidate_image.as_str(),
    ) {
        return Err(
            invalid("dracut-systemd generation request is not bound to the resolved image contract"),
        );
    }
    Ok(())
}


// ---------------------------------------------------------------------------
// Planning
// ---------------------------------------------------------------------------

/// The single installed kernel.
pub open spec fn dracut_kernel(f: DracutSystemdFacts) -> Seq<char> {
    f.kernel_versions@[0]@
}

pub open spec fn dracut_active(f: DracutSystemdFacts) -> Seq<char> {
    f.image_layout.spec_active_image(dracut_kernel(f))
}

pub open spec fn dracut_known_good(f: DracutSystemdFacts) -> Seq<char> {
    dracut_active(f) + KNOWN_GOOD_SUFFIX@
}

/// The host checks made before any size check.
pub open spec fn dracut_host_ok(f: DracutSystemdFacts, root: Seq<char>) -> bool {
    &&& spec_safe_alternate_root(root)
    &&& f.architecture@ == PRODUCT_ARCHITECTURE@
    &&& f.pid1_comm@ == "systemd"@
    &&& f.kernel_versions.len() == 1
    &&& spec_safe_kernel_version(dracut_kernel(f))
    &&& f.root_filesystem_device != f.boot_filesystem_device
    &&& f.boot_writable
}

/// Every preflight check of the dracut-systemd planner.
pub open spec fn dracut_preflight_ok(f: DracutSystemdFacts, root: Seq<char>) -> bool {
    &&& dracut_host_ok(f, root)
    &&& f.boot_free_bytes >= MIN_BOOT_FREE_BYTES
    &&& f.boot_free_inodes >= MIN_BOOT_FREE_INODES
    &&& 0 < f.known_good_bytes <= MAX_CANDIDATE_BYTES
    &&& f.known_good_path@ == dracut_active(f)
    &&& string_views(f.dracut_modules@).contains("systemd"@)
    &&& string_views(f.dracut_modules@).contains("crypt"@)
    &&& tools_match_exactly(
        f.tools@,
        str_views(spec_dracut_systemd_required_tools(f.grub_regeneration, f.cryptsetup_location)),
    )
    &&& grub_inputs_ok(
        f.boot_filesystem_uuid@,
        dracut_kernel(f),
        f.kernel_command_line@,
        dracut_known_good(f),
    )
}

/// A required tool whose fact is a symlink, not root-owned, not a regular
/// file or not executable makes the plan refused.
pub proof fn lemma_unsafe_required_tool_is_refused(f: DracutSystemdFacts, root: Seq<char>, k: int)
    requires
        0 <= k < f.tools@.len(),
        str_views(spec_dracut_systemd_required_tools(f.grub_regeneration, f.cryptsetup_location))
            .contains(f.tools@[k].path@),
        !file_fact_safe(f.tools@[k], true),
    ensures
        !dracut_plan_ok(f, root),
{
    let required = str_views(spec_dracut_systemd_required_tools(f.grub_regeneration, f.cryptsetup_location));
    if dracut_plan_ok(f, root) {
        let r = choose|r: int| 0 <= r < required.len() && required[r] == f.tools@[k].path@;
        assert(fact_present(f.tools@, required[r], Seq::new(required.len(), |_i: int| true)[r]));
        let i = choose|i: int|
            0 <= i < f.tools@.len() && f.tools@[i].path@ == required[r] && file_fact_safe(
                f.tools@[i],
                true,
            );
        if i < k {
            assert(f.tools@[i].path@ != f.tools@[k].path@);
        } else if i > k {
            assert(f.tools@[k].path@ != f.tools@[i].path@);
        }
    }
}

/// The rendered known-good GRUB script of the facts.
pub open spec fn dracut_grub_script(f: DracutSystemdFacts) -> Seq<u8> {
    encode_utf8(
        grub_script_text(
            f.boot_filesystem_uuid@,
            dracut_kernel(f),
            f.kernel_command_line@,
            dracut_known_good(f).skip(6),
        ),
    )
}

/// The inputs on which the planner succeeds.
pub open spec fn dracut_plan_ok(f: DracutSystemdFacts, root: Seq<char>) -> bool {
    &&& dracut_preflight_ok(f, root)
    &&& grub_script_ok(dracut_grub_script(f), dracut_known_good(f).skip(6))
}

/// The contract the planner resolves from `f` for `root`.
pub open spec fn dracut_contract_for(
    c: DracutSystemdContract,
    f: DracutSystemdFacts,
    root: Seq<char>,
) -> bool {
    let k = dracut_kernel(f);
    let candidate = f.image_layout.spec_candidate_image(k);
    &&& c.image_layout == f.image_layout
    &&& c.grub_regeneration == f.grub_regeneration
    &&& c.kernel_version@ == k
    &&& c.active_image@ == dracut_active(f)
    &&& c.candidate_image@ == candidate
    &&& c.known_good_image@ == dracut_known_good(f)
    &&& c.known_good_digest == f.known_good_digest
    &&& c.grub_script_path@ == GRUB_SCRIPT_PATH@
    &&& c.grub_config_path@ == f.grub_regeneration.spec_config_path()@
    &&& c.grub_script@ == dracut_grub_script(f)
    &&& c.generate.is_exactly(
        GeneratorKind::Dracut,
        DRACUT_EXECUTABLE@,
        root,
        None,
        seq!["--force"@, "--kver"@, k, "--add"@, "bootart-systemd"@, candidate],
    )
    &&& c.update_grub.is_exactly(
        GeneratorKind::GrubUpdate,
        f.grub_regeneration.spec_updater()@,
        root,
        None,
        f.grub_regeneration.spec_arguments(),
    )
}

/// The refusal the planner gives for facts it rejects.
pub open spec fn dracut_plan_error(f: DracutSystemdFacts, root: Seq<char>, e: InstallError) -> bool {
    if dracut_host_ok(f, root) && f.boot_free_bytes < MIN_BOOT_FREE_BYTES {
        e matches InstallError::InsufficientFreeSpace { path, required, available } && path@
            == "/boot"@ && required == MIN_BOOT_FREE_BYTES && available == f.boot_free_bytes
    } else if dracut_host_ok(f, root) && f.boot_free_bytes >= MIN_BOOT_FREE_BYTES
        && f.boot_free_inodes >= MIN_BOOT_FREE_INODES && (f.known_good_bytes == 0
        || f.known_good_bytes > MAX_CANDIDATE_BYTES) {
        e matches InstallError::FileTooLarge { path, size, limit } && path@ == f.known_good_path@
            && size == f.known_good_bytes && limit == MAX_CANDIDATE_BYTES
    } else {
        e is InvalidPlan
    }
}

/// Candidate, active, and known-good images never alias.
pub proof fn lemma_image_paths_distinct(layout: DracutImageLayout, k: Seq<char>)
    ensures
        layout.spec_candidate_image(k) != layout.spec_active_image(k),
        layout.spec_active_image(k) + KNOWN_GOOD_SUFFIX@ != layout.spec_active_image(k),
{
    reveal_strlit("/boot/.bootart-candidate-initrd.img-");
    reveal_strlit("/boot/.bootart-candidate-initramfs-");
    reveal_strlit("/boot/initrd.img-");
    reveal_strlit("/boot/initramfs-");
    reveal_strlit(".bootart-known-good");
    assert(layout.spec_candidate_image(k)[6] == '.');
    assert(layout.spec_active_image(k)[6] == 'i');
    assert((layout.spec_active_image(k) + KNOWN_GOOD_SUFFIX@).len() != layout.spec_active_image(
        k,
    ).len());
}

/// A planned contract satisfies every relation the validator checks except
/// the rendered-script check, which it satisfies exactly when the facts'
/// script does.
pub proof fn lemma_planned_contract_shape(
    c: DracutSystemdContract,
    f: DracutSystemdFacts,
    root: Seq<char>,
)
    requires
        dracut_preflight_ok(f, root),
        dracut_contract_for(c, f, root),
    ensures
        dracut_contract_valid(c) <==> grub_script_ok(
            dracut_grub_script(f),
            dracut_known_good(f).skip(6),
        ),
{
    let k = dracut_kernel(f);
    lemma_candidate_image_parses(f.image_layout, k);
    lemma_active_image_parses(f.image_layout, k);
    reveal_strlit("/boot/");
    let kg = dracut_known_good(f);
    assert(kg.subrange(0, 6) =~= dracut_active(f).subrange(0, 6));
    assert(has_prefix(c.known_good_image@, "/boot/"@));
    assert(dracut_contract_fields_ok(c));
    assert(c.generate.args()[5] == c.candidate_image@);
    assert(dracut_generator_request_valid(c.generate));
    reveal_strlit("/boot/grub/grub.cfg");
    reveal_strlit("/boot/grub2/grub.cfg");
    assert(dracut_generator_request_valid(c.update_grub));
}

/// Checks the facts before anything is resolved.
fn dracut_preflight(facts: &DracutSystemdFacts, alternate_root: &str) -> (r: Result<
    (),
    InstallError,
>)
    ensures
        r is Ok <==> dracut_preflight_ok(*facts, alternate_root@),
        r matches Err(e) ==> dracut_plan_error(*facts, alternate_root@, e),
{
    if !safe_alternate_root(alternate_root) {
        return Err(invalid("dracut-systemd generator alternate root is unsafe"));
    }
    if !str_eq(facts.architecture.as_str(), PRODUCT_ARCHITECTURE) {
        return Err(invalid("dracut-systemd architecture does not match this Bootart ELF"));
    }
    if !str_eq(facts.pid1_comm.as_str(), "systemd") {
        return Err(invalid("dracut-systemd PID 1 is not systemd"));
    }
    if facts.kernel_versions.len() != 1 {
        return Err(
            invalid("dracut-systemd must have exactly one unambiguous installed kernel module tree"),
        );
    }
    let kernel = facts.kernel_versions[0].as_str();
    if !safe_kernel_version(kernel) {
        return Err(invalid("dracut-systemd kernel version is unsafe"));
    }
    if facts.root_filesystem_device == facts.boot_filesystem_device {
        return Err(invalid("dracut-systemd /boot is not a separate filesystem"));
    }
    if !facts.boot_writable {
        return Err(invalid("dracut-systemd /boot is not writable"));
    }
    if facts.boot_free_bytes < MIN_BOOT_FREE_BYTES {
        return Err(
            InstallError::InsufficientFreeSpace {
                path: owned("/boot"),
                required: MIN_BOOT_FREE_BYTES,
                available: facts.boot_free_bytes,
            },
        );
    }
    if facts.boot_free_inodes < MIN_BOOT_FREE_INODES {
        return Err(invalid("dracut-systemd /boot has insufficient free inodes"));
    }
    if facts.known_good_bytes == 0 || facts.known_good_bytes > MAX_CANDIDATE_BYTES {
        return Err(
            InstallError::FileTooLarge {
                path: owned(facts.known_good_path.as_str()),
                size: facts.known_good_bytes,
                limit: MAX_CANDIDATE_BYTES,
            },
        );
    }
    let active_image = facts.image_layout.active_image(kernel);
    if !str_eq(facts.known_good_path.as_str(), active_image.as_str()) {
        return Err(invalid("dracut-systemd known-good initramfs path is not canonical"));
    }
    if !strings_contain(&facts.dracut_modules, "systemd") || !strings_contain(
        &facts.dracut_modules,
        "crypt",
    ) {
        return Err(invalid("dracut-systemd dracut lacks the required systemd and crypt modules"));
    }
    let required = dracut_systemd_required_tools(
        facts.grub_regeneration,
        facts.cryptsetup_location,
    );
    if !tools_match_exactly_exec(&facts.tools, &required) {
        return Err(invalid("dracut-systemd preflight tool facts differ from the reviewed set"));
    }
    let known_good_image = concat2(active_image.as_str(), KNOWN_GOOD_SUFFIX);
    if !grub_inputs_ok_exec(
        facts.boot_filesystem_uuid.as_str(),
        kernel,
        facts.kernel_command_line.as_str(),
        known_good_image.as_str(),
    ) {
        return Err(invalid("dracut-systemd GRUB entry inputs are unsafe"));
    }
    Ok(())
}

pub fn grub_inputs_ok_exec(
    boot_uuid: &str,
    kernel: &str,
    command_line: &str,
    known_good_image: &str,
) -> (r: bool)
    ensures
        r == grub_inputs_ok(boot_uuid@, kernel@, command_line@, known_good_image@),
{
    render_grub_script(boot_uuid, kernel, command_line, known_good_image).is_ok()
}

/// Resolves the guest-visible paths and commands for an alternate root.  The
/// root is carried separately to the runner and never interpolated into an
/// executable or argument.
pub fn plan_dracut_systemd_for_root(facts: &DracutSystemdFacts, alternate_root: &str) -> (r: Result<
    DracutSystemdContract,
    InstallError,
>)
    ensures
        r is Ok <==> dracut_plan_ok(*facts, alternate_root@),
        r matches Ok(c) ==> dracut_contract_for(c, *facts, alternate_root@),
        r matches Err(e) ==> dracut_plan_error(*facts, alternate_root@, e),
{
    dracut_preflight(facts, alternate_root)?;
    let kernel = facts.kernel_versions[0].as_str();
    let active_image = facts.image_layout.active_image(kernel);
    let candidate_image = facts.image_layout.candidate_image(kernel);
    let known_good_image = concat2(active_image.as_str(), KNOWN_GOOD_SUFFIX);
    proof {
        lemma_image_paths_distinct(facts.image_layout, kernel@);
    }
    let grub_script = match render_grub_script(
        facts.boot_filesystem_uuid.as_str(),
        kernel,
        facts.kernel_command_line.as_str(),
        known_good_image.as_str(),
    ) {
        Ok(bytes) => bytes,
        Err(e) => return Err(e),
    };
    let generate = request(
        DRACUT_EXECUTABLE,
        alternate_root,
        vec![
            owned("--force"),
            owned("--kver"),
            owned(kernel),
            owned("--add"),
            owned("bootart-systemd"),
            owned(candidate_image.as_str()),
        ],
    );
    let update_grub = request(
        facts.grub_regeneration.updater(),
        alternate_root,
        facts.grub_regeneration.arguments(),
    );
    let contract = DracutSystemdContract {
        image_layout: facts.image_layout,
        grub_regeneration: facts.grub_regeneration,
        kernel_version: owned(kernel),
        active_image,
        candidate_image,
        known_good_image,
        known_good_digest: facts.known_good_digest,
        grub_script_path: owned(GRUB_SCRIPT_PATH),
        grub_config_path: owned(facts.grub_regeneration.config_path()),
        grub_script,
        generate,
        update_grub,
    };
    proof {
        assert(contract.generate.args() =~= seq![
            "--force"@,
            "--kver"@,
            kernel@,
            "--add"@,
            "bootart-systemd"@,
            contract.candidate_image@,
        ]);
        assert(contract.update_grub.args() =~= string_views(contract.update_grub.arguments@));
        reveal_strlit("/usr/bin/dracut");
        reveal_strlit("/usr/bin/lsinitrd");
        reveal_strlit("/usr/sbin/update-grub");
        reveal_strlit("/usr/bin/grub2-mkconfig");
        reveal_strlit("/usr/bin/grub-mkconfig");
        match facts.grub_regeneration {
            GrubRegeneration::UpdateGrub => {
                assert(UPDATE_GRUB_EXECUTABLE@.len() == 21);
            },
            GrubRegeneration::Grub2Mkconfig => {
                assert(GRUB2_MKCONFIG_EXECUTABLE@.len() == 23);
            },
            GrubRegeneration::GrubMkconfig => {
                assert(GRUB_MKCONFIG_EXECUTABLE@.len() == 22);
            },
        }
        assert(DRACUT_EXECUTABLE@.len() == 15 && LSINITRD_EXECUTABLE@.len() == 17);
        assert(contract.update_grub.generator == GeneratorKind::GrubUpdate);
        assert(contract.update_grub.executable@ == facts.grub_regeneration.spec_updater()@);
        assert(contract.update_grub.alternate_root@ == alternate_root@);
        assert(contract.update_grub.workdir() == None::<Seq<char>>);
        assert(contract.update_grub.args() == facts.grub_regeneration.spec_arguments());
        assert(contract.grub_script@ == dracut_grub_script(*facts));
        assert(contract.generate.is_exactly(
            GeneratorKind::Dracut,
            DRACUT_EXECUTABLE@,
            alternate_root@,
            None,
            seq!["--force"@, "--kver"@, kernel@, "--add"@, "bootart-systemd"@, contract.candidate_image@],
        ));
        assert(contract.update_grub.is_exactly(
            GeneratorKind::GrubUpdate,
            facts.grub_regeneration.spec_updater()@,
            alternate_root@,
            None,
            facts.grub_regeneration.spec_arguments(),
        ));
        assert(dracut_contract_for(contract, *facts, alternate_root@));
        lemma_planned_contract_shape(contract, *facts, alternate_root@);
    }
    match validate_dracut_systemd_contract(&contract) {
        Ok(()) => Ok(contract),
        Err(e) => Err(e),
    }
}

/// Plans against the running system's root.
pub fn plan_dracut_systemd(facts: &DracutSystemdFacts) -> (r: Result<
    DracutSystemdContract,
    InstallError,
>)
    ensures
        r is Ok <==> dracut_plan_ok(*facts, "/"@),
        r matches Ok(c) ==> dracut_contract_for(c, *facts, "/"@),
        r matches Err(e) ==> dracut_plan_error(*facts, "/"@, e),
{
    plan_dracut_systemd_for_root(facts, "/")
}


/// Planning for a safe alternate root and planning for the running system
/// (`/`) succeed on the same facts, and their contracts differ only in the
/// root the dracut and GRUB-update commands run under: every path, digest,
/// script, executable, argument and environment rule is the same.
pub proof fn lemma_alternate_root_only_moves_the_commands(
    f: DracutSystemdFacts,
    root: Seq<char>,
    at_root: DracutSystemdContract,
    at_host: DracutSystemdContract,
)
    requires
        spec_safe_alternate_root(root),
        dracut_contract_for(at_root, f, root),
        dracut_contract_for(at_host, f, "/"@),
    ensures
        dracut_plan_ok(f, root) <==> dracut_plan_ok(f, "/"@),
        at_root.generate.alternate_root@ == root,
        at_root.update_grub.alternate_root@ == root,
        at_host.generate.alternate_root@ == "/"@,
        at_host.update_grub.alternate_root@ == "/"@,
        at_root.image_layout == at_host.image_layout,
        at_root.grub_regeneration == at_host.grub_regeneration,
        at_root.kernel_version@ == at_host.kernel_version@,
        at_root.active_image@ == at_host.active_image@,
        at_root.candidate_image@ == at_host.candidate_image@,
        at_root.known_good_image@ == at_host.known_good_image@,
        at_root.known_good_digest == at_host.known_good_digest,
        at_root.grub_script_path@ == at_host.grub_script_path@,
        at_root.grub_config_path@ == at_host.grub_config_path@,
        at_root.grub_script@ == at_host.grub_script@,
        at_root.generate.generator == at_host.generate.generator,
        at_root.generate.executable@ == at_host.generate.executable@,
        at_root.generate.workdir() == at_host.generate.workdir(),
        at_root.generate.args() == at_host.generate.args(),
        at_root.generate.clear_environment == at_host.generate.clear_environment,
        at_root.update_grub.generator == at_host.update_grub.generator,
        at_root.update_grub.executable@ == at_host.update_grub.executable@,
        at_root.update_grub.workdir() == at_host.update_grub.workdir(),
        at_root.update_grub.args() == at_host.update_grub.args(),
        at_root.update_grub.clear_environment == at_host.update_grub.clear_environment,
{
    reveal_strlit("/");
    assert("/"@ =~= seq!['/']);
    assert(seq!['/'].drop_first() =~= Seq::<char>::empty());
    assert(seq!['/'][0] as u32 == 0x2f);
    assert(encode_utf8(seq!['/']) == vstd::utf8::encode_scalar(0x2f) + encode_utf8(Seq::<char>::empty()));
    assert(vstd::utf8::has_width_1_encoding(0x2f));
    assert(encode_utf8(seq!['/']).len() == 1);
    assert forall|i: int| !#[trigger] crate::paths::dotdot_at(seq!['/'], i) by {}
}

// ---------------------------------------------------------------------------
// Unpacked inventory inspection
// ---------------------------------------------------------------------------

/// Adds `size` bytes to the running inspected total, refusing a total above
/// the inspection bound.
pub fn account_inspected_bytes(total: u64, size: u64) -> (r: Result<u64, InstallError>)
    ensures
        r is Ok <==> total + size <= MAX_INSPECTED_ARCHIVE_BYTES,
        r matches Ok(t) ==> t == total + size,
        r matches Err(e) ==> e is InvalidPlan,
{
    if size > MAX_INSPECTED_ARCHIVE_BYTES || total > MAX_INSPECTED_ARCHIVE_BYTES - size {
        return Err(invalid("archive inspection byte bound exceeded"));
    }
    Ok(total + size)
}

/// `S_IFCHR`, the character-device file type.
pub const S_IFCHR: u32 = 8192;

/// What an inspection of a Bootart-carrying candidate reports.
#[derive(Debug, Clone, PartialEq, Eq)]
pub struct ArchiveInspection {
    pub bootart_digest: Sha256Digest,
    pub inspected_entries: usize,
    pub inspected_bytes: u64,
}

/// Bounded proof that a generated initramfs keeps the distribution's
/// systemd/crypt plumbing while containing no Bootart-named member.
#[derive(Debug, Clone, PartialEq, Eq)]
pub struct BootartFreeArchiveInspection {
    pub inspected_entries: usize,
    pub inspected_bytes: u64,
}

/// The device nodes dracut-systemd archives carry.
pub open spec fn reviewed_device_node(path: Seq<char>, major: u32, minor: u32) -> bool {
    ||| path == "dev/console"@ && major == 5 && minor == 1
    ||| path == "dev/kmsg"@ && major == 1 && minor == 11
    ||| path == "dev/null"@ && major == 1 && minor == 3
    ||| path == "dev/random"@ && major == 1 && minor == 8
    ||| path == "dev/urandom"@ && major == 1 && minor == 9
}

/// A root-owned mode-0644 character device among the reviewed nodes.
pub open spec fn spec_reviewed_dracut_character_device(
    path: Seq<char>,
    file_type: u32,
    mode: u32,
    uid: u32,
    gid: u32,
    major: u32,
    minor: u32,
    expected_owner_uid: u32,
) -> bool {
    &&& file_type == S_IFCHR
    &&& mode == 0o644u32
    &&& expected_owner_uid == 0
    &&& uid == 0
    &&& gid == 0
    &&& reviewed_device_node(path, major, minor)
}

fn reviewed_device_node_exec(path: &str, major: u32, minor: u32) -> (r: bool)
    ensures
        r == reviewed_device_node(path@, major, minor),
{
    str_eq(path, "dev/console") && major == 5 && minor == 1 || str_eq(path, "dev/kmsg") && major
        == 1 && minor == 11 || str_eq(path, "dev/null") && major == 1 && minor == 3 || str_eq(
        path,
        "dev/random",
    ) && major == 1 && minor == 8 || str_eq(path, "dev/urandom") && major == 1 && minor == 9
}

/// Exactly the character devices dracut-systemd images carry are accepted:
/// archive metadata, never devices created on the real root.
fn reviewed_dracut_character_device(
    path: &str,
    inode: (u32, u32, u32, u32),
    device: (u32, u32),
    expected_owner_uid: u32,
) -> (r: bool)
    ensures
        r == spec_reviewed_dracut_character_device(
            path@,
            inode.0,
            inode.1,
            inode.2,
            inode.3,
            device.0,
            device.1,
            expected_owner_uid,
        ),
{
    inode.0 == S_IFCHR && inode.1 == 0o644u32 && expected_owner_uid == 0 && inode.2 == 0 && inode.3
        == 0 && reviewed_device_node_exec(path, device.0, device.1)
}

/// `S_IFDIR`, the directory file type.
pub const S_IFDIR: u32 = 16384;

/// `S_IFREG`, the regular-file file type.
pub const S_IFREG: u32 = 32768;

/// `S_IFLNK`, the symbolic-link file type.
pub const S_IFLNK: u32 = 40960;

/// How many unreviewed special nodes an unpacked-tree walk reports before
/// it stops.
pub const MAX_UNREVIEWED_SPECIAL_REPORTS: usize = 32;

/// Admits the next member of an unpacked-tree walk by its path: refused
/// once the walk has seen as many members as an archive may hold, and for
/// an unsafe path or one seen before.
pub fn admit_unpacked_member(entries_seen: usize, path: &str, duplicate: bool) -> (r: Result<(), InstallError>)
    ensures
        r is Ok <==> entries_seen < MAX_ARCHIVE_ENTRIES && spec_archive_path_is_safe(path@) && !duplicate,
        entries_seen >= MAX_ARCHIVE_ENTRIES ==> (r matches Err(InstallError::InvalidPlan(m)) && m@
            == "dracut archive contains too many entries"@),
        entries_seen < MAX_ARCHIVE_ENTRIES && (!spec_archive_path_is_safe(path@) || duplicate) ==> (r matches Err(
            InstallError::InvalidPlan(m),
        ) && m@ == "unsafe or duplicate dracut archive path: "@ + path@),
{
    if entries_seen >= MAX_ARCHIVE_ENTRIES {
        return Err(invalid("dracut archive contains too many entries"));
    }
    if !crate::paths::archive_path_is_safe(path) || duplicate {
        let message = concat2("unsafe or duplicate dracut archive path: ", path);
        return Err(invalid(message.as_str()));
    }
    Ok(())
}

/// What an unpacked-tree walk does with an admitted member it has stat'ed.
#[derive(Debug, Clone, Copy, PartialEq, Eq, Structural)]
pub enum UnpackedNodeDecision {
    /// The member is not owned by the expected user.
    Unowned,
    /// Record a directory and walk into it.
    Directory,
    /// Record a regular file with its bytes.
    RegularFile,
    /// Record a symbolic link with its target.
    Symlink,
    /// Record one of the reviewed character devices.
    ReviewedDevice,
    /// Report an unreviewed special node and go on.
    UnreviewedSpecial,
    /// Too many unreviewed special nodes were reported already.
    TooManySpecialNodes,
}

/// The decision for an admitted member at `path` whose `inode` is
/// `(file type, permission bits, uid, gid)` and whose device numbers are
/// `device`, after `unreviewed_reported` reported special nodes: ownership
/// first, then the type, with only the reviewed character devices recorded.
pub open spec fn spec_unpacked_node_decision(
    path: Seq<char>,
    inode: (u32, u32, u32, u32),
    device: (u32, u32),
    expected_owner_uid: u32,
    unreviewed_reported: nat,
) -> UnpackedNodeDecision {
    let (file_type, mode, uid, gid) = inode;
    if uid != expected_owner_uid {
        UnpackedNodeDecision::Unowned
    } else if file_type == S_IFDIR {
        UnpackedNodeDecision::Directory
    } else if file_type == S_IFREG {
        UnpackedNodeDecision::RegularFile
    } else if file_type == S_IFLNK {
        UnpackedNodeDecision::Symlink
    } else if file_type == S_IFCHR && spec_reviewed_dracut_character_device(
        path,
        file_type,
        mode,
        uid,
        gid,
        device.0,
        device.1,
        expected_owner_uid,
    ) {
        UnpackedNodeDecision::ReviewedDevice
    } else if unreviewed_reported >= MAX_UNREVIEWED_SPECIAL_REPORTS {
        UnpackedNodeDecision::TooManySpecialNodes
    } else {
        UnpackedNodeDecision::UnreviewedSpecial
    }
}

/// Decides what an unpacked-tree walk does with an admitted member.
pub fn classify_unpacked_node(
    path: &str,
    inode: (u32, u32, u32, u32),
    device: (u32, u32),
    expected_owner_uid: u32,
    unreviewed_reported: usize,
) -> (r: UnpackedNodeDecision)
    ensures
        r == spec_unpacked_node_decision(path@, inode, device, expected_owner_uid, unreviewed_reported as nat),
{
    let (file_type, mode, uid, gid) = inode;
    if uid != expected_owner_uid {
        UnpackedNodeDecision::Unowned
    } else if file_type == S_IFDIR {
        UnpackedNodeDecision::Directory
    } else if file_type == S_IFREG {
        UnpackedNodeDecision::RegularFile
    } else if file_type == S_IFLNK {
        UnpackedNodeDecision::Symlink
    } else if file_type == S_IFCHR && reviewed_dracut_character_device_for_tests(
        path,
        file_type,
        mode,
        uid,
        gid,
        device.0,
        device.1,
        expected_owner_uid,
    ) {
        UnpackedNodeDecision::ReviewedDevice
    } else if unreviewed_reported >= MAX_UNREVIEWED_SPECIAL_REPORTS {
        UnpackedNodeDecision::TooManySpecialNodes
    } else {
        UnpackedNodeDecision::UnreviewedSpecial
    }
}

/// The reviewed character-device rule, with its inputs spelled out.
pub fn reviewed_dracut_character_device_for_tests(
    path: &str,
    file_type: u32,
    mode: u32,
    uid: u32,
    gid: u32,
    major: u32,
    minor: u32,
    expected_owner_uid: u32,
) -> (r: bool)
    ensures
        r == spec_reviewed_dracut_character_device(
            path@,
            file_type,
            mode,
            uid,
            gid,
            major,
            minor,
            expected_owner_uid,
        ),
{
    reviewed_dracut_character_device(path, (file_type, mode, uid, gid), (major, minor), expected_owner_uid)
}

/// A dracut member whose path, mode and device identity are acceptable.
pub open spec fn dracut_entry_ok(e: ArchiveEntry) -> bool {
    &&& spec_archive_path_is_safe(e.path@)
    &&& e.mode <= 0o7777u32
    &&& (e.kind matches ArchiveEntryKind::CharacterDevice { major, minor } ==> e.mode == 0o644u32
        && reviewed_device_node(e.path@, major, minor) && e.bytes@.len() == 0)
}

/// The inventory relations shared by every dracut inspection.
pub open spec fn dracut_common_inventory_ok(es: Seq<ArchiveEntry>) -> bool {
    &&& es.len() <= MAX_ARCHIVE_ENTRIES
    &&& forall|i: int| 0 <= i < es.len() ==> dracut_entry_ok(#[trigger] es[i])
    &&& archive_bytes(es) <= MAX_INSPECTED_ARCHIVE_BYTES
    &&& archive_paths_distinct(es)
    &&& has_executable_file(es, "usr/lib/systemd/systemd"@)
    &&& {
        ||| has_executable_file(es, "usr/lib/systemd/systemd-cryptsetup"@)
        ||| has_executable_file(es, "usr/bin/systemd-cryptsetup"@)
        ||| has_executable_file(es, "usr/sbin/cryptsetup"@)
    }
}

fn devices_reviewed(entries: &[ArchiveEntry]) -> (r: bool)
    ensures
        r == forall|i: int|
            #![trigger entries@[i]]
            0 <= i < entries@.len() ==> (entries@[i].kind matches ArchiveEntryKind::CharacterDevice {
                major,
                minor,
            } ==> entries@[i].mode == 0o644u32 && reviewed_device_node(
                entries@[i].path@,
                major,
                minor,
            ) && entries@[i].bytes@.len() == 0),
{
    let mut i: usize = 0;
    while i < entries.len()
        invariant
            i <= entries@.len(),
            forall|j: int|
                #![trigger entries@[j]]
                0 <= j < i ==> (entries@[j].kind matches ArchiveEntryKind::CharacterDevice {
                    major,
                    minor,
                } ==> entries@[j].mode == 0o644u32 && reviewed_device_node(
                    entries@[j].path@,
                    major,
                    minor,
                ) && entries@[j].bytes@.len() == 0),
        decreases entries.len() - i,
    {
        if let ArchiveEntryKind::CharacterDevice { major, minor } = entries[i].kind {
            if !reviewed_dracut_character_device(
                entries[i].path.as_str(),
                (S_IFCHR, entries[i].mode, 0, 0),
                (major, minor),
                0,
            ) || entries[i].bytes.len() != 0 {
                return false;
            }
        }
        i = i + 1;
    }
    true
}

/// Checks the relations every dracut inventory must satisfy and returns the
/// inspected byte count.
fn validate_common_dracut_inventory(entries: &[ArchiveEntry]) -> (r: Result<u64, InstallError>)
    ensures
        r is Ok <==> dracut_common_inventory_ok(entries@),
        r matches Ok(total) ==> total == archive_bytes(entries@),
        r matches Err(e) ==> e is InvalidPlan,
{
    if entries.len() > MAX_ARCHIVE_ENTRIES {
        return Err(invalid("dracut archive contains too many entries"));
    }
    if !archive_members_safe(entries) {
        return Err(invalid("unsafe dracut archive path or mode"));
    }
    if !devices_reviewed(entries) {
        return Err(invalid("unreviewed dracut archive character device"));
    }
    assert(forall|i: int| 0 <= i < entries@.len() ==> dracut_entry_ok(#[trigger] entries@[i]));
    let total = match archive_total(entries, MAX_INSPECTED_ARCHIVE_BYTES) {
        Some(total) => total,
        None => return Err(invalid("dracut archive inspection byte bound exceeded")),
    };
    if !archive_paths_distinct_exec(entries) {
        return Err(invalid("duplicate dracut archive path"));
    }
    let has_systemd = has_executable_file_exec(entries, "usr/lib/systemd/systemd");
    let has_crypt = has_executable_file_exec(entries, "usr/lib/systemd/systemd-cryptsetup")
        || has_executable_file_exec(entries, "usr/bin/systemd-cryptsetup")
        || has_executable_file_exec(entries, "usr/sbin/cryptsetup");
    if !has_systemd || !has_crypt {
        return Err(invalid("dracut archive lacks executable systemd/crypt support"));
    }
    Ok(total)
}

/// Inspects a candidate that must carry no Bootart member.
pub fn inspect_bootart_free_dracut_inventory(entries: &[ArchiveEntry]) -> (r: Result<
    BootartFreeArchiveInspection,
    InstallError,
>)
    ensures
        r is Ok <==> dracut_common_inventory_ok(entries@) && !some_path_contains(
            entries@,
            "bootart"@,
        ),
        r matches Ok(i) ==> i.inspected_entries == entries@.len() && i.inspected_bytes
            == archive_bytes(entries@),
        r matches Err(e) ==> e is InvalidPlan,
{
    let total = validate_common_dracut_inventory(entries)?;
    if some_path_contains_exec(entries, "bootart") {
        return Err(invalid("Bootart-free dracut archive contains a Bootart member"));
    }
    Ok(BootartFreeArchiveInspection { inspected_entries: entries.len(), inspected_bytes: total })
}

/// The installed-file resources a dracut-systemd candidate carries.
pub open spec fn dracut_resource_ids() -> Seq<TemplateId> {
    seq![
        TemplateId::SystemdStartUnit,
        TemplateId::SystemdShowUnit,
        TemplateId::SystemdSwitchRootUnit,
        TemplateId::SystemdConsoleAgentDropIn,
    ]
}

/// The member at the resource's path, relative to the archive root, holds
/// exactly the resource.
pub open spec fn resource_member_ok(es: Seq<ArchiveEntry>, id: TemplateId) -> bool {
    let r = spec_template_resource(id);
    r.materialization matches TemplateMaterialization::File { path, mode } && entry_is(
        es,
        path@.skip(1),
        ArchiveEntryKind::File,
        mode,
        encode_utf8(r.contents@),
    )
}

/// The activation links a dracut-systemd candidate carries.
pub open spec fn dracut_links() -> Seq<(Seq<char>, Seq<char>)> {
    seq![
        (
            "usr/lib/systemd/system/initrd.target.wants/bootart-start.service"@,
            "../bootart-start.service"@,
        ),
        (
            "usr/lib/systemd/system/initrd.target.wants/bootart-show.service"@,
            "../bootart-show.service"@,
        ),
        (
            "usr/lib/systemd/system/initrd-switch-root.target.wants/bootart-switch-root.service"@,
            "../bootart-switch-root.service"@,
        ),
    ]
}

/// A Bootart-named member the candidate is expected to hold.
pub open spec fn dracut_expected_member(p: Seq<char>) -> bool {
    ||| p == "usr/bin/bootart"@
    ||| exists|k: int|
        0 <= k < dracut_resource_ids().len() && (spec_template_resource(
            #[trigger] dracut_resource_ids()[k],
        ).materialization matches TemplateMaterialization::File { path, .. } && p == path@.skip(1))
    ||| exists|k: int| 0 <= k < dracut_links().len() && p == (#[trigger] dracut_links()[k]).0
}

/// Every Bootart-named member is expected, none is an init override, and
/// only the ELF is executable.
pub open spec fn dracut_bootart_members_ok(es: Seq<ArchiveEntry>) -> bool {
    forall|i: int|
        #![trigger es[i]]
        0 <= i < es.len() && contains(es[i].path@, "bootart"@) ==> {
            &&& dracut_expected_member(es[i].path@)
            &&& !contains(es[i].path@, "bootart-init"@)
            &&& !(es[i].kind == ArchiveEntryKind::File && es[i].mode & 0o111u32 != 0 && es[i].path@
                != "usr/bin/bootart"@)
        }
}

/// Everything a Bootart-carrying dracut candidate must satisfy.
pub open spec fn dracut_inventory_ok(es: Seq<ArchiveEntry>, expected_bootart: Seq<u8>) -> bool {
    &&& static_elf_valid(expected_bootart)
    &&& dracut_common_inventory_ok(es)
    &&& exists|i: int|
        0 <= i < es.len() && es[i].path@ == "usr/bin/bootart"@ && es[i].kind
            == ArchiveEntryKind::File && es[i].mode == 0o755u32 && static_elf_valid(es[i].bytes@)
            && spec_sha256(es[i].bytes@) == spec_sha256(expected_bootart)
    &&& forall|k: int|
        0 <= k < dracut_resource_ids().len() ==> resource_member_ok(
            es,
            #[trigger] dracut_resource_ids()[k],
        )
    &&& forall|k: int|
        0 <= k < dracut_links().len() ==> symlink_is(
            es,
            (#[trigger] dracut_links()[k]).0,
            encode_utf8(dracut_links()[k].1),
        )
    &&& dracut_bootart_members_ok(es)
}

fn resource_member_ok_exec(entries: &[ArchiveEntry], id: TemplateId) -> (r: bool)
    requires
        archive_paths_distinct(entries@),
        dracut_resource_ids().contains(id),
    ensures
        r == resource_member_ok(entries@, id),
{
    proof {
        reveal_strlit("/usr/lib/systemd/system/bootart-start.service");
        reveal_strlit("/usr/lib/systemd/system/bootart-show.service");
        reveal_strlit("/usr/lib/systemd/system/bootart-switch-root.service");
        reveal_strlit("/usr/lib/systemd/system/systemd-ask-password-console.service.d/bootart.conf");
        let k = choose|k: int| 0 <= k < 4 && dracut_resource_ids()[k] == id;
    }
    let resource = template_resource(id);
    match resource.materialization {
        TemplateMaterialization::File { path, mode } => {
            let relative = slice_chars_from(path, 1);
            let contents = str_bytes(resource.contents);
            entry_is_exec(entries, relative.as_str(), ArchiveEntryKind::File, mode, contents.as_slice())
        },
        TemplateMaterialization::OpenRcService { .. } => false,
        TemplateMaterialization::ManagedSnippet { .. } => false,
    }
}

/// `s` without its first `n` characters.
fn slice_chars_from(s: &str, n: usize) -> (r: String)
    requires
        n <= s@.len(),
    ensures
        r@ == s@.skip(n as int),
{
    let chars = chars_of(s);
    if n == chars.len() {
        assert(s@.skip(n as int) =~= Seq::<char>::empty());
        return String::new();
    }
    let rest = slice_range(chars.as_slice(), n, chars.len());
    assert(rest@ =~= s@.skip(n as int));
    string_from_chars(rest.as_slice())
}

fn dracut_expected_member_exec(p: &str) -> (r: bool)
    ensures
        r == dracut_expected_member(p@),
{
    proof {
        reveal_strlit("/usr/lib/systemd/system/bootart-start.service");
        reveal_strlit("/usr/lib/systemd/system/bootart-show.service");
        reveal_strlit("/usr/lib/systemd/system/bootart-switch-root.service");
        reveal_strlit("/usr/lib/systemd/system/systemd-ask-password-console.service.d/bootart.conf");
        reveal_strlit("usr/lib/systemd/system/bootart-start.service");
        reveal_strlit("usr/lib/systemd/system/bootart-show.service");
        reveal_strlit("usr/lib/systemd/system/bootart-switch-root.service");
        reveal_strlit("usr/lib/systemd/system/systemd-ask-password-console.service.d/bootart.conf");
    }
    let names = [
        "usr/bin/bootart",
        "usr/lib/systemd/system/bootart-start.service",
        "usr/lib/systemd/system/bootart-show.service",
        "usr/lib/systemd/system/bootart-switch-root.service",
        "usr/lib/systemd/system/systemd-ask-password-console.service.d/bootart.conf",
        "usr/lib/systemd/system/initrd.target.wants/bootart-start.service",
        "usr/lib/systemd/system/initrd.target.wants/bootart-show.service",
        "usr/lib/systemd/system/initrd-switch-root.target.wants/bootart-switch-root.service",
    ];
    let mut i: usize = 0;
    let mut found = false;
    while i < 8
        invariant
            i <= 8,
            found == exists|j: int| 0 <= j < i && p@ == names@[j]@,
        decreases 8 - i,
    {
        if str_eq(p, names[i]) {
            found = true;
        }
        i = i + 1;
    }
    proof {
        let ids = dracut_resource_ids();
        assert(spec_template_resource(ids[0]).materialization matches TemplateMaterialization::File { path, .. } && path@.skip(1) =~= names@[1]@);
        assert(spec_template_resource(ids[1]).materialization matches TemplateMaterialization::File { path, .. } && path@.skip(1) =~= names@[2]@);
        assert(spec_template_resource(ids[2]).materialization matches TemplateMaterialization::File { path, .. } && path@.skip(1) =~= names@[3]@);
        assert(spec_template_resource(ids[3]).materialization matches TemplateMaterialization::File { path, .. } && path@.skip(1) =~= names@[4]@);
        if found {
            let j = choose|j: int| 0 <= j < 8 && p@ == names@[j]@;
            if j == 1 || j == 2 || j == 3 || j == 4 {
                assert(spec_template_resource(dracut_resource_ids()[j - 1]).materialization matches TemplateMaterialization::File { path, .. } && p@ == path@.skip(1));
            } else if j >= 5 {
                assert(p@ == dracut_links()[j - 5].0);
            }
        } else {
            assert forall|k: int| 0 <= k < dracut_resource_ids().len() implies !(spec_template_resource(
                #[trigger] dracut_resource_ids()[k],
            ).materialization matches TemplateMaterialization::File { path, .. } && p@ == path@.skip(1)) by {
                assert(p@ != names@[k + 1]@);
            }
            assert forall|k: int| 0 <= k < dracut_links().len() implies p@ != (#[trigger] dracut_links()[k]).0 by {
                assert(p@ != names@[k + 5]@);
            }
            assert(p@ != names@[0]@);
        }
    }
    found
}

fn dracut_bootart_members_ok_exec(entries: &[ArchiveEntry]) -> (r: bool)
    ensures
        r == dracut_bootart_members_ok(entries@),
{
    let mut i: usize = 0;
    while i < entries.len()
        invariant
            i <= entries@.len(),
            forall|j: int|
                #![trigger entries@[j]]
                0 <= j < i && contains(entries@[j].path@, "bootart"@) ==> {
                    &&& dracut_expected_member(entries@[j].path@)
                    &&& !contains(entries@[j].path@, "bootart-init"@)
                    &&& !(entries@[j].kind == ArchiveEntryKind::File && entries@[j].mode & 0o111u32
                        != 0 && entries@[j].path@ != "usr/bin/bootart"@)
                },
        decreases entries.len() - i,
    {
        let path = entries[i].path.as_str();
        if str_contains(path, "bootart") {
            if !dracut_expected_member_exec(path) || str_contains(path, "bootart-init") {
                return false;
            }
            if entries[i].kind == ArchiveEntryKind::File && entries[i].mode & 0o111u32 != 0
                && !str_eq(path, "usr/bin/bootart") {
                return false;
            }
        }
        i = i + 1;
    }
    true
}

/// Inspects a Bootart-carrying dracut candidate against the running ELF.
pub fn inspect_dracut_inventory(entries: &[ArchiveEntry], expected_bootart: &[u8]) -> (r: Result<
    ArchiveInspection,
    InstallError,
>)
    ensures
        r is Ok <==> dracut_inventory_ok(entries@, expected_bootart@),
        r matches Ok(i) ==> i.bootart_digest == spec_sha256(expected_bootart@)
            && i.inspected_entries == entries@.len() && i.inspected_bytes == archive_bytes(
            entries@,
        ),
        static_elf_valid(expected_bootart@) ==> (r matches Err(e) ==> e is InvalidPlan
            || e is InvalidBootartElf || e is FileTooLarge),
        static_elf_valid(expected_bootart@) && !dracut_common_inventory_ok(entries@) ==> (r matches Err(
            e,
        ) && e is InvalidPlan),
{
    validate_static_elf(expected_bootart)?;
    let total = validate_common_dracut_inventory(entries)?;
    let index = match find_entry(entries, "usr/bin/bootart") {
        Some(i) => i,
        None => return Err(invalid("dracut archive has no /usr/bin/bootart")),
    };
    let bootart = &entries[index];
    if bootart.kind != ArchiveEntryKind::File || bootart.mode != 0o755u32 {
        return Err(invalid("dracut /usr/bin/bootart is not a mode-0755 regular file"));
    }
    validate_static_elf(bootart.bytes.as_slice())?;
    let expected_digest = sha256(expected_bootart);
    let actual_digest = sha256(bootart.bytes.as_slice());
    if actual_digest != expected_digest {
        return Err(invalid("dracut /usr/bin/bootart digest differs from the running ELF"));
    }
    let ids = [
        TemplateId::SystemdStartUnit,
        TemplateId::SystemdShowUnit,
        TemplateId::SystemdSwitchRootUnit,
        TemplateId::SystemdConsoleAgentDropIn,
    ];
    assert(ids@ =~= dracut_resource_ids());
    let mut k: usize = 0;
    while k < 4
        invariant
            k <= 4,
            ids@ == dracut_resource_ids(),
            archive_paths_distinct(entries@),
            forall|j: int| 0 <= j < k ==> resource_member_ok(entries@, #[trigger] dracut_resource_ids()[j]),
        decreases 4 - k,
    {
        assert(dracut_resource_ids()[k as int] == ids[k as int]);
        if !resource_member_ok_exec(entries, ids[k]) {
            return Err(invalid("dracut archive resource differs"));
        }
        k = k + 1;
    }
    let links = [
        ("usr/lib/systemd/system/initrd.target.wants/bootart-start.service", "../bootart-start.service"),
        ("usr/lib/systemd/system/initrd.target.wants/bootart-show.service", "../bootart-show.service"),
        (
            "usr/lib/systemd/system/initrd-switch-root.target.wants/bootart-switch-root.service",
            "../bootart-switch-root.service",
        ),
    ];
    let mut k: usize = 0;
    while k < 3
        invariant
            k <= 3,
            archive_paths_distinct(entries@),
            forall|j: int| 0 <= j < 3 ==> (#[trigger] links@[j]).0@ == dracut_links()[j].0 && links@[j].1@ == dracut_links()[j].1,
            forall|j: int|
                0 <= j < k ==> symlink_is(
                    entries@,
                    (#[trigger] dracut_links()[j]).0,
                    encode_utf8(dracut_links()[j].1),
                ),
        decreases 3 - k,
    {
        let target = str_bytes(links[k].1);
        if !symlink_is_exec(entries, links[k].0, target.as_slice()) {
            return Err(invalid("dracut activation link differs"));
        }
        k = k + 1;
    }
    if !dracut_bootart_members_ok_exec(entries) {
        return Err(invalid("unexpected Bootart archive member"));
    }
    proof {
        assert(entries@[index as int].bytes@ == bootart.bytes@);
    }
    Ok(
        ArchiveInspection {
            bootart_digest: actual_digest,
            inspected_entries: entries.len(),
            inspected_bytes: total,
        },
    )
}


// ---------------------------------------------------------------------------
// Inspection requests and image records
// ---------------------------------------------------------------------------

/// `/var/lib/bootart/install/transactions/<transaction>/unpacked-candidate`.
pub open spec fn unpack_dir(transaction: Seq<char>) -> Seq<char> {
    TRANSACTIONS_PREFIX@ + transaction + UNPACKED_SUFFIX@
}

pub fn unpack_dir_exec(transaction: &str) -> (r: String)
    ensures
        r@ == unpack_dir(transaction@),
{
    concat3(TRANSACTIONS_PREFIX, transaction, UNPACKED_SUFFIX)
}

/// An `lsinitrd --unpack` request for `candidate` in the transaction's
/// private directory.
fn unpack_request(alternate_root: &str, candidate: &str, transaction: &str) -> (r: GeneratorRequest)
    ensures
        r.is_exactly(
            GeneratorKind::InitramfsInspection,
            LSINITRD_EXECUTABLE@,
            alternate_root@,
            Some(unpack_dir(transaction@)),
            seq!["--unpack"@, candidate@],
        ),
{
    proof {
        reveal_strlit("/usr/bin/dracut");
        reveal_strlit("/usr/bin/lsinitrd");
        assert(LSINITRD_EXECUTABLE@.len() == 17 && DRACUT_EXECUTABLE@.len() == 15);
    }
    let mut request = request(
        LSINITRD_EXECUTABLE,
        alternate_root,
        vec![owned("--unpack"), owned(candidate)],
    );
    request.working_directory = Some(unpack_dir_exec(transaction));
    assert(request.args() =~= seq!["--unpack"@, candidate@]);
    request
}

/// The `lsinitrd` request that unpacks a validated contract's candidate.
pub fn dracut_systemd_unpack_request(contract: &DracutSystemdContract, transaction: &str) -> (r:
    Result<GeneratorRequest, InstallError>)
    ensures
        r is Ok <==> dracut_contract_valid(*contract) && spec_safe_transaction_id(transaction@),
        r matches Ok(q) ==> q.is_exactly(
            GeneratorKind::InitramfsInspection,
            LSINITRD_EXECUTABLE@,
            contract.generate.alternate_root@,
            Some(unpack_dir(transaction@)),
            seq!["--unpack"@, contract.candidate_image@],
        ),
        r matches Err(e) ==> e is InvalidPlan,
{
    validate_dracut_systemd_contract(contract)?;
    if !safe_transaction_id(transaction) {
        return Err(invalid("dracut-systemd inspection transaction id is unsafe"));
    }
    Ok(
        unpack_request(
            contract.generate.alternate_root.as_str(),
            contract.candidate_image.as_str(),
            transaction,
        ),
    )
}

/// Hash-only image state for the durable installer manifest.  The candidate
/// path stays recorded after its verified bytes are activated.
#[derive(Debug, Clone, PartialEq, Eq)]
pub struct DracutSystemdImageRecord {
    pub kernel_version: String,
    pub active_image: String,
    pub active_digest: Sha256Digest,
    pub candidate_image: String,
    pub candidate_digest: Sha256Digest,
    pub candidate_bytes: u64,
    pub known_good_image: String,
    pub known_good_digest: Sha256Digest,
    pub grub_script_path: String,
    pub grub_script_digest: Sha256Digest,
    pub grub_config_path: String,
    pub bootart_digest: Sha256Digest,
}

/// The fixed path and hash relations of an image record.
pub open spec fn dracut_image_record_valid(r: DracutSystemdImageRecord) -> bool {
    let k = r.kernel_version@;
    &&& spec_active_layout_kernel(r.active_image@) matches Some((al, ak))
    &&& spec_candidate_layout_kernel(r.candidate_image@) matches Some((cl, ck))
    &&& spec_safe_kernel_version(k)
    &&& al == cl
    &&& ak == k
    &&& ck == k
    &&& r.known_good_image@ == r.active_image@ + KNOWN_GOOD_SUFFIX@
    &&& r.grub_script_path@ == GRUB_SCRIPT_PATH@
    &&& (r.grub_config_path@ == "/boot/grub/grub.cfg"@ || r.grub_config_path@
        == "/boot/grub2/grub.cfg"@)
    &&& 0 < r.candidate_bytes <= MAX_CANDIDATE_BYTES
    &&& r.active_digest == r.candidate_digest
}

/// Checks a record's fixed path and hash relations.
pub fn validate_dracut_systemd_image_record(record: &DracutSystemdImageRecord) -> (r: Result<
    (),
    InstallError,
>)
    ensures
        r is Ok <==> dracut_image_record_valid(*record),
        r matches Err(e) ==> e is InvalidPlan,
{
    let (active_layout, active_kernel) = match active_layout_kernel(record.active_image.as_str()) {
        Some(x) => x,
        None => return Err(
            invalid("dracut-systemd image record has an unsupported active-image layout"),
        ),
    };
    let (candidate_layout, candidate_kernel) = match candidate_layout_kernel(
        record.candidate_image.as_str(),
    ) {
        Some(x) => x,
        None => return Err(
            invalid("dracut-systemd image record has an unsupported candidate-image layout"),
        ),
    };
    let known_good = concat2(record.active_image.as_str(), KNOWN_GOOD_SUFFIX);
    if !safe_kernel_version(record.kernel_version.as_str()) || active_layout != candidate_layout
        || !str_eq(active_kernel.as_str(), record.kernel_version.as_str()) || !str_eq(
        candidate_kernel.as_str(),
        record.kernel_version.as_str(),
    ) || !str_eq(record.known_good_image.as_str(), known_good.as_str()) || !str_eq(
        record.grub_script_path.as_str(),
        GRUB_SCRIPT_PATH,
    ) || !(str_eq(record.grub_config_path.as_str(), "/boot/grub/grub.cfg") || str_eq(
        record.grub_config_path.as_str(),
        "/boot/grub2/grub.cfg",
    )) || record.candidate_bytes == 0 || record.candidate_bytes > MAX_CANDIDATE_BYTES
        || record.active_digest != record.candidate_digest {
        return Err(invalid("dracut-systemd image record violates the fixed path/hash contract"));
    }
    Ok(())
}

/// The uninstall generation request: the module stays installed until the
/// clean candidate is generated and inspected, so it is omitted explicitly.
pub fn dracut_systemd_bootart_free_generate_request(
    record: &DracutSystemdImageRecord,
    alternate_root: &str,
) -> (r: Result<GeneratorRequest, InstallError>)
    ensures
        r is Ok <==> dracut_image_record_valid(*record) && spec_safe_alternate_root(
            alternate_root@,
        ),
        r matches Ok(q) ==> q.is_exactly(
            GeneratorKind::Dracut,
            DRACUT_EXECUTABLE@,
            alternate_root@,
            None,
            seq![
                "--force"@,
                "--kver"@,
                record.kernel_version@,
                "--omit"@,
                "bootart-systemd"@,
                record.candidate_image@,
            ],
        ),
        r matches Err(e) ==> e is InvalidPlan,
{
    validate_dracut_systemd_image_record(record)?;
    if !safe_alternate_root(alternate_root) {
        return Err(invalid("dracut-systemd generator alternate root is unsafe"));
    }
    proof {
        reveal_strlit("/usr/bin/dracut");
    }
    let q = request(
        DRACUT_EXECUTABLE,
        alternate_root,
        vec![
            owned("--force"),
            owned("--kver"),
            owned(record.kernel_version.as_str()),
            owned("--omit"),
            owned("bootart-systemd"),
            owned(record.candidate_image.as_str()),
        ],
    );
    assert(q.args() =~= seq![
        "--force"@,
        "--kver"@,
        record.kernel_version@,
        "--omit"@,
        "bootart-systemd"@,
        record.candidate_image@,
    ]);
    Ok(q)
}

/// The uninstall inspection request for the clean candidate.
pub fn dracut_systemd_bootart_free_unpack_request(
    record: &DracutSystemdImageRecord,
    alternate_root: &str,
    transaction: &str,
) -> (r: Result<GeneratorRequest, InstallError>)
    ensures
        r is Ok <==> dracut_image_record_valid(*record) && spec_safe_alternate_root(
            alternate_root@,
        ) && spec_safe_transaction_id(transaction@),
        r matches Ok(q) ==> q.is_exactly(
            GeneratorKind::InitramfsInspection,
            LSINITRD_EXECUTABLE@,
            alternate_root@,
            Some(unpack_dir(transaction@)),
            seq!["--unpack"@, record.candidate_image@],
        ),
        r matches Err(e) ==> e is InvalidPlan,
{
    validate_dracut_systemd_image_record(record)?;
    if !safe_alternate_root(alternate_root) || !safe_transaction_id(transaction) {
        return Err(invalid("dracut-systemd uninstall inspection context is unsafe"));
    }
    Ok(unpack_request(alternate_root, record.candidate_image.as_str(), transaction))
}

/// The record `verified_dracut_systemd_image_record` makes.
pub open spec fn dracut_record_for(
    r: DracutSystemdImageRecord,
    c: DracutSystemdContract,
    candidate: Seq<u8>,
    expected_bootart: Seq<u8>,
) -> bool {
    &&& r.kernel_version@ == c.kernel_version@
    &&& r.active_image@ == c.active_image@
    &&& r.active_digest == spec_sha256(candidate)
    &&& r.candidate_image@ == c.candidate_image@
    &&& r.candidate_digest == spec_sha256(candidate)
    &&& r.candidate_bytes == candidate.len()
    &&& r.known_good_image@ == c.known_good_image@
    &&& r.known_good_digest == c.known_good_digest
    &&& r.grub_script_path@ == c.grub_script_path@
    &&& r.grub_script_digest == spec_sha256(c.grub_script@)
    &&& r.grub_config_path@ == c.grub_config_path@
    &&& r.bootart_digest == spec_sha256(expected_bootart)
}

/// Binds an archive inspection to the exact candidate bytes before
/// activation: a record cannot pair one file's inventory with another's
/// digest.
pub fn verified_dracut_systemd_image_record(
    contract: &DracutSystemdContract,
    candidate: &[u8],
    inspection: &ArchiveInspection,
    expected_bootart: &[u8],
) -> (r: Result<DracutSystemdImageRecord, InstallError>)
    ensures
        r is Ok <==> dracut_contract_valid(*contract) && 0 < candidate@.len()
            <= MAX_CANDIDATE_BYTES && inspection.bootart_digest == spec_sha256(expected_bootart@),
        r matches Ok(rec) ==> dracut_record_for(rec, *contract, candidate@, expected_bootart@)
            && dracut_image_record_valid(rec),
        r matches Err(e) ==> if dracut_contract_valid(*contract) && candidate@.len()
            > MAX_CANDIDATE_BYTES {
            e matches InstallError::FileTooLarge { path, size, limit } && path@
                == contract.candidate_image@ && size == candidate@.len() && limit
                == MAX_CANDIDATE_BYTES
        } else {
            e is InvalidPlan
        },
{
    validate_dracut_systemd_contract(contract)?;
    if candidate.len() == 0 {
        return Err(invalid("candidate initramfs is empty"));
    }
    if candidate.len() as u64 > MAX_CANDIDATE_BYTES {
        return Err(
            InstallError::FileTooLarge {
                path: owned(contract.candidate_image.as_str()),
                size: candidate.len() as u64,
                limit: MAX_CANDIDATE_BYTES,
            },
        );
    }
    let expected_bootart_digest = sha256(expected_bootart);
    if inspection.bootart_digest != expected_bootart_digest {
        return Err(invalid("candidate archive report is not bound to the running Bootart ELF"));
    }
    let candidate_digest = sha256(candidate);
    let record = DracutSystemdImageRecord {
        kernel_version: owned(contract.kernel_version.as_str()),
        active_image: owned(contract.active_image.as_str()),
        active_digest: candidate_digest,
        candidate_image: owned(contract.candidate_image.as_str()),
        candidate_digest,
        candidate_bytes: candidate.len() as u64,
        known_good_image: owned(contract.known_good_image.as_str()),
        known_good_digest: contract.known_good_digest,
        grub_script_path: owned(contract.grub_script_path.as_str()),
        grub_script_digest: sha256(contract.grub_script.as_slice()),
        grub_config_path: owned(contract.grub_config_path.as_str()),
        bootart_digest: expected_bootart_digest,
    };
    proof {
        lemma_active_image_parses(contract.image_layout, contract.kernel_version@);
        lemma_candidate_image_parses(contract.image_layout, contract.kernel_version@);
        reveal_strlit("/boot/grub/grub.cfg");
        reveal_strlit("/boot/grub2/grub.cfg");
    }
    validate_dracut_systemd_image_record(&record)?;
    Ok(record)
}

} // verus!
