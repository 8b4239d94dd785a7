//! Distribution-neutral systemd-based initramfs-tools installation contract.
//!
//! It describes an exact mechanism contract from already-observed
//! capabilities; it identifies no distribution and mutates nothing.  The
//! transaction executor consumes only requests that pass these validators.

use crate::archive::{
    archive_bytes, archive_paths_distinct, archive_paths_distinct_exec, archive_total, entry_is,
    entry_is_exec, find_entry, ArchiveEntry, ArchiveEntryKind,
};
use crate::digest::{sha256, spec_sha256, Sha256Digest};
use crate::dracut_systemd::{dracut_image_record_valid, facts_match_exactly, facts_match_exactly_exec, grub_inputs_ok, grub_inputs_ok_exec, grub_script_matches, grub_script_ok, grub_script_text, lemma_active_image_parses, lemma_candidate_image_parses, render_grub_script, request, safe_kernel_version, safe_transaction_id, spec_safe_kernel_version, spec_safe_transaction_id, tools_match_exactly, tools_match_exactly_exec, transaction_of_dir, transaction_unpack_dir, unpack_dir, unpack_dir_exec, validate_dracut_systemd_image_record, ArchiveInspection, BootartFreeArchiveInspection, CryptsetupLocation, DracutImageLayout, DracutSystemdImageRecord, GrubRegeneration, ToolFact, FINDMNT_EXECUTABLE, GRUB2_MKCONFIG_EXECUTABLE, GRUB_MKCONFIG_EXECUTABLE, GRUB_SCRIPT_PATH, KNOWN_GOOD_SUFFIX, MAX_ARCHIVE_ENTRIES, MAX_CANDIDATE_BYTES, MAX_INSPECTED_ARCHIVE_BYTES, MIN_BOOT_FREE_BYTES, MIN_BOOT_FREE_INODES, PRODUCT_ARCHITECTURE, SYSTEMD_EXECUTABLE, UPDATE_GRUB_EXECUTABLE};
use crate::elf::{static_elf_valid, validate_static_elf};
use crate::embedded::{spec_template_resource, template_resource, TemplateId, TemplateMaterialization};
use crate::error::{invalid, InstallError};
use crate::generator::{GeneratorKind, GeneratorRequest};
use crate::paths::{
    has_parent_component, leading_curdir, no_parent_component, safe_alternate_root,
    spec_safe_alternate_root,
};
use crate::text::{
    chars_of, concat2, has_prefix, has_suffix, owned, str_bytes, str_eq, str_has_prefix,
    string_views, str_views, strings_equal, strings_equal_strs, strip_prefix, strip_suffix,
};
use vstd::prelude::*;
use vstd::string::*;
use vstd::utf8::*;

verus! {

pub const MKINITRAMFS_EXECUTABLE: &'static str = "/usr/sbin/mkinitramfs";
pub const UNMKINITRAMFS_EXECUTABLE: &'static str = "/usr/bin/unmkinitramfs";
pub const CANDIDATE_PREFIX: &'static str = "/boot/.bootart-candidate-initrd.img-";
pub const ACTIVE_PREFIX: &'static str = "/boot/initrd.img-";

/// The host files that prove the reviewed cryptsetup-initramfs build and
/// runtime path is available, each with its expected executability.
pub open spec fn initramfs_tools_contract_files() -> Seq<(Seq<char>, bool)> {
    seq![
        ("/usr/share/initramfs-tools/hook-functions"@, false),
        ("/usr/share/initramfs-tools/hooks/cryptroot"@, true),
        ("/usr/share/initramfs-tools/scripts/local-top/cryptroot"@, true),
        ("/usr/lib/cryptsetup/functions"@, false),
        ("/usr/lib/cryptsetup/askpass"@, true),
    ]
}

pub open spec fn spec_initramfs_tools_systemd_required_tools(
    grub: GrubRegeneration,
    cryptsetup: CryptsetupLocation,
) -> Seq<&'static str> {
    seq![
        MKINITRAMFS_EXECUTABLE,
        UNMKINITRAMFS_EXECUTABLE,
        FINDMNT_EXECUTABLE,
        SYSTEMD_EXECUTABLE,
        cryptsetup.spec_executable(),
        grub.spec_updater(),
        grub.spec_probe(),
    ]
}

/// The exact tool set of the initramfs-tools mechanism.
pub fn initramfs_tools_systemd_required_tools(
    grub: GrubRegeneration,
    cryptsetup: CryptsetupLocation,
) -> (r: Vec<&'static str>)
    ensures
        r@ == spec_initramfs_tools_systemd_required_tools(grub, cryptsetup),
{
    let r = vec![
        MKINITRAMFS_EXECUTABLE,
        UNMKINITRAMFS_EXECUTABLE,
        FINDMNT_EXECUTABLE,
        SYSTEMD_EXECUTABLE,
        cryptsetup.executable(),
        grub.updater(),
        grub.probe(),
    ];
    assert(r@ =~= spec_initramfs_tools_systemd_required_tools(grub, cryptsetup));
    r
}

/// A descriptor-derived file fact with its reviewed executability.
#[derive(Debug, Clone, PartialEq, Eq)]
pub struct InitramfsToolsPathFact {
    pub path: String,
    pub root_owned: bool,
    pub regular: bool,
    pub symlink: bool,
    pub executable: bool,
}

impl InitramfsToolsPathFact {
    /// A safe root-owned regular file at `path`.
    pub fn exact(path: &str, executable: bool) -> (r: Self)
        ensures
            r.path@ == path@,
            r.root_owned && r.regular && !r.symlink && r.executable == executable,
    {
        InitramfsToolsPathFact {
            path: owned(path),
            root_owned: true,
            regular: true,
            symlink: false,
            executable,
        }
    }

    pub open spec fn as_tool_fact(self) -> ToolFact {
        ToolFact {
            path: self.path,
            root_owned: self.root_owned,
            regular: self.regular,
            symlink: self.symlink,
            executable: self.executable,
        }
    }
}

pub open spec fn as_tool_facts(s: Seq<InitramfsToolsPathFact>) -> Seq<ToolFact> {
    s.map_values(|f: InitramfsToolsPathFact| f.as_tool_fact())
}

fn path_facts_as_tools(s: &Vec<InitramfsToolsPathFact>) -> (r: Vec<ToolFact>)
    ensures
        r@ == as_tool_facts(s@),
{
    let mut r: Vec<ToolFact> = Vec::new();
    let mut i: usize = 0;
    while i < s.len()
        invariant
            i <= s@.len(),
            r@ =~= as_tool_facts(s@).take(i as int),
        decreases s.len() - i,
    {
        let f = &s[i];
        r.push(
            ToolFact {
                path: f.path.clone(),
                root_owned: f.root_owned,
                regular: f.regular,
                symlink: f.symlink,
                executable: f.executable,
            },
        );
        i = i + 1;
    }
    r
}

/// Non-secret observations required before planning.  The running kernel is
/// selected explicitly by the collector.
#[derive(Debug, Clone, PartialEq, Eq)]
pub struct InitramfsToolsSystemdFacts {
    pub architecture: String,
    pub pid1_comm: String,
    pub kernel_versions: Vec<String>,
    pub root_filesystem_device: u64,
    pub boot_filesystem_device: u64,
    pub boot_writable: bool,
    pub boot_free_bytes: u64,
    pub boot_free_inodes: u64,
    pub grub_regeneration: GrubRegeneration,
    pub cryptsetup_location: CryptsetupLocation,
    pub tools: Vec<ToolFact>,
    pub contract_files: Vec<InitramfsToolsPathFact>,
    pub known_good_path: String,
    pub known_good_digest: Sha256Digest,
    pub known_good_bytes: u64,
    pub boot_filesystem_uuid: String,
    pub kernel_command_line: String,
}

/// Fully resolved paths and fixed command requests.
#[derive(Debug, Clone, PartialEq, Eq)]
pub struct InitramfsToolsSystemdContract {
    pub kernel_version: String,
    pub active_image: String,
    pub candidate_image: String,
    pub known_good_image: String,
    pub known_good_digest: Sha256Digest,
    pub grub_regeneration: GrubRegeneration,
    pub grub_script_path: String,
    pub grub_config_path: String,
    pub grub_script: Vec<u8>,
    pub generate: GeneratorRequest,
    pub update_grub: GeneratorRequest,
}

pub open spec fn itools_active(k: Seq<char>) -> Seq<char> {
    ACTIVE_PREFIX@ + k
}

pub open spec fn itools_candidate(k: Seq<char>) -> Seq<char> {
    CANDIDATE_PREFIX@ + k
}

/// The kernel named by `path` after `prefix`, if it is safe.
pub open spec fn prefixed_kernel(path: Seq<char>, prefix: Seq<char>) -> Option<Seq<char>> {
    if has_prefix(path, prefix) && spec_safe_kernel_version(path.skip(prefix.len() as int)) {
        Some(path.skip(prefix.len() as int))
    } else {
        None
    }
}

fn prefixed_kernel_exec<'a>(path: &'a str, prefix: &str) -> (r: Option<&'a str>)
    ensures
        r is Some <==> prefixed_kernel(path@, prefix@) is Some,
        r matches Some(k) ==> prefixed_kernel(path@, prefix@) == Some(k@),
{
    match strip_prefix(path, prefix) {
        Some(k) => if safe_kernel_version(k) {
            Some(k)
        } else {
            None
        },
        None => None,
    }
}

pub proof fn lemma_prefixed_kernel(prefix: Seq<char>, k: Seq<char>)
    requires
        spec_safe_kernel_version(k),
    ensures
        prefixed_kernel(prefix + k, prefix) == Some(k),
{
    assert((prefix + k).subrange(0, prefix.len() as int) =~= prefix);
    assert((prefix + k).skip(prefix.len() as int) =~= k);
}

pub open spec fn spec_initramfs_tools_systemd_managed_image_path(path: Seq<char>) -> bool {
    ||| path == GRUB_SCRIPT_PATH@
    ||| path == "/boot/grub/grub.cfg"@
    ||| path == "/boot/grub2/grub.cfg"@
    ||| prefixed_kernel(path, CANDIDATE_PREFIX@) is Some
    ||| prefixed_kernel(
        if has_suffix(path, KNOWN_GOOD_SUFFIX@) {
            path.subrange(0, path.len() - KNOWN_GOOD_SUFFIX@.len())
        } else {
            path
        },
        ACTIVE_PREFIX@,
    ) is Some
}

/// Whether the initramfs-tools backend owns `path`.
pub fn initramfs_tools_systemd_managed_image_path(path: &str) -> (r: bool)
    ensures
        r == spec_initramfs_tools_systemd_managed_image_path(path@),
{
    if str_eq(path, GRUB_SCRIPT_PATH) || str_eq(path, "/boot/grub/grub.cfg") || str_eq(
        path,
        "/boot/grub2/grub.cfg",
    ) {
        return true;
    }
    if prefixed_kernel_exec(path, CANDIDATE_PREFIX).is_some() {
        return true;
    }
    let active = match strip_suffix(path, KNOWN_GOOD_SUFFIX) {
        Some(a) => a,
        None => path,
    };
    prefixed_kernel_exec(active, ACTIVE_PREFIX).is_some()
}

// ---------------------------------------------------------------------------
// Requests and contracts
// ---------------------------------------------------------------------------

/// The fixed command language of the initramfs-tools backend.
pub open spec fn itools_generator_request_valid(r: GeneratorRequest) -> bool {
    let a = r.args();
    &&& r.clear_environment
    &&& spec_safe_alternate_root(r.alternate_root@)
    &&& match r.generator {
        GeneratorKind::InitramfsTools => {
            &&& r.executable@ == MKINITRAMFS_EXECUTABLE@
            &&& a.len() == 3
            &&& a[0] == "-o"@
            &&& r.working_directory is None
            &&& prefixed_kernel(a[1], CANDIDATE_PREFIX@) == Some(a[2])
        },
        GeneratorKind::InitramfsInspection => {
            &&& r.executable@ == UNMKINITRAMFS_EXECUTABLE@
            &&& a.len() == 2
            &&& transaction_unpack_dir(a[1])
            &&& r.working_directory is None
            &&& prefixed_kernel(a[0], CANDIDATE_PREFIX@) is Some
        },
        GeneratorKind::GrubUpdate => {
            &&& r.working_directory is None
            &&& {
                ||| r.executable@ == UPDATE_GRUB_EXECUTABLE@ && a.len() == 0
                ||| r.executable@ == GRUB2_MKCONFIG_EXECUTABLE@ && a == seq![
                    "-o"@,
                    "/boot/grub2/grub.cfg"@,
                ]
                ||| r.executable@ == GRUB_MKCONFIG_EXECUTABLE@ && a == seq![
                    "-o"@,
                    "/boot/grub/grub.cfg"@,
                ]
            }
        },
        _ => false,
    }
}

/// Rejects every command except the exact mkinitramfs, unmkinitramfs and
/// GRUB operations, independently of the command runner.
pub fn validate_initramfs_tools_systemd_generator_request(request: &GeneratorRequest) -> (r:
    Result<(), InstallError>)
    ensures
        r is Ok <==> itools_generator_request_valid(*request),
        r matches Err(e) ==> e is InvalidPlan,
{
    if !request.clear_environment || !safe_alternate_root(request.alternate_root.as_str()) {
        return Err(
            invalid("initramfs-tools-systemd request requires a safe root and cleared environment"),
        );
    }
    let exe = request.executable.as_str();
    let a = &request.arguments;
    match request.generator {
        GeneratorKind::InitramfsTools => {
            if !str_eq(exe, MKINITRAMFS_EXECUTABLE) {
                return Err(invalid("unreviewed initramfs-tools-systemd generator executable or kind"));
            }
            if a.len() != 3 || !str_eq(a[0].as_str(), "-o") || request.working_directory.is_some() {
                return Err(
                    invalid("initramfs-tools-systemd mkinitramfs argv differs from the fixed contract"),
                );
            }
            let bound = match prefixed_kernel_exec(a[1].as_str(), CANDIDATE_PREFIX) {
                Some(k) => str_eq(k, a[2].as_str()),
                None => false,
            };
            if !bound {
                return Err(
                    invalid("initramfs-tools-systemd mkinitramfs argv differs from the fixed contract"),
                );
            }
        },
        GeneratorKind::InitramfsInspection => {
            if !str_eq(exe, UNMKINITRAMFS_EXECUTABLE) {
                return Err(invalid("unreviewed initramfs-tools-systemd generator executable or kind"));
            }
            if a.len() != 2 {
                return Err(
                    invalid("initramfs-tools-systemd unmkinitramfs argv differs from the fixed contract"),
                );
            }
            if !transaction_of_dir(a[1].as_str()) {
                return Err(invalid("initramfs-tools-systemd unmkinitramfs destination is unsafe"));
            }
            if request.working_directory.is_some() || prefixed_kernel_exec(
                a[0].as_str(),
                CANDIDATE_PREFIX,
            ).is_none() {
                return Err(invalid("initramfs-tools-systemd unmkinitramfs request is unsafe"));
            }
        },
        GeneratorKind::GrubUpdate => {
            proof {
                reveal_strlit("/usr/sbin/update-grub");
                reveal_strlit("/usr/bin/grub2-mkconfig");
                reveal_strlit("/usr/bin/grub-mkconfig");
                assert(UPDATE_GRUB_EXECUTABLE@.len() == 21);
                assert(GRUB2_MKCONFIG_EXECUTABLE@.len() == 23);
                assert(GRUB_MKCONFIG_EXECUTABLE@.len() == 22);
            }
            let lits2 = ["-o", "/boot/grub2/grub.cfg"];
            let lits1 = ["-o", "/boot/grub/grub.cfg"];
            assert(str_views(lits2@) =~= seq!["-o"@, "/boot/grub2/grub.cfg"@]);
            assert(str_views(lits1@) =~= seq!["-o"@, "/boot/grub/grub.cfg"@]);
            let ok = if str_eq(exe, UPDATE_GRUB_EXECUTABLE) {
                a.len() == 0
            } else if str_eq(exe, GRUB2_MKCONFIG_EXECUTABLE) {
                strings_equal_strs(a, &lits2)
            } else if str_eq(exe, GRUB_MKCONFIG_EXECUTABLE) {
                strings_equal_strs(a, &lits1)
            } else {
                return Err(invalid("unreviewed initramfs-tools-systemd generator executable or kind"));
            };
            if !ok || request.working_directory.is_some() {
                return Err(invalid("initramfs-tools-systemd GRUB argv differs from the fixed contract"));
            }
        },
        _ => {
            return Err(invalid("unreviewed initramfs-tools-systemd generator executable or kind"));
        },
    }
    Ok(())
}

/// The path and GRUB relations of a contract.
pub open spec fn itools_contract_fields_ok(c: InitramfsToolsSystemdContract) -> bool {
    let k = c.kernel_version@;
    &&& spec_safe_kernel_version(k)
    &&& c.active_image@ == itools_active(k)
    &&& c.candidate_image@ == itools_candidate(k)
    &&& c.known_good_image@ == c.active_image@ + KNOWN_GOOD_SUFFIX@
    &&& c.grub_script_path@ == GRUB_SCRIPT_PATH@
    &&& c.grub_config_path@ == c.grub_regeneration.spec_config_path()@
    &&& c.update_grub.executable@ == c.grub_regeneration.spec_updater()@
    &&& c.update_grub.args() == c.grub_regeneration.spec_arguments()
    &&& c.generate.alternate_root@ == c.update_grub.alternate_root@
}

/// Every cross-field relation of a resolved contract.
pub open spec fn itools_contract_valid(c: InitramfsToolsSystemdContract) -> bool {
    &&& itools_contract_fields_ok(c)
    &&& has_prefix(c.known_good_image@, "/boot/"@)
    &&& grub_script_ok(c.grub_script@, c.known_good_image@.skip(6))
    &&& itools_generator_request_valid(c.generate)
    &&& itools_generator_request_valid(c.update_grub)
    &&& c.generate.args().len() > 2
    &&& c.generate.args()[1] == c.candidate_image@
    &&& c.generate.args()[2] == c.kernel_version@
}

fn itools_contract_fields_ok_exec(c: &InitramfsToolsSystemdContract) -> (r: bool)
    ensures
        r == itools_contract_fields_ok(*c),
{
    if !safe_kernel_version(c.kernel_version.as_str()) {
        return false;
    }
    let active = concat2(ACTIVE_PREFIX, c.kernel_version.as_str());
    let candidate = concat2(CANDIDATE_PREFIX, c.kernel_version.as_str());
    let known_good = concat2(c.active_image.as_str(), KNOWN_GOOD_SUFFIX);
    let args = c.grub_regeneration.arguments();
    proof {
        assert(c.update_grub.args() =~= string_views(c.update_grub.arguments@));
    }
    str_eq(c.active_image.as_str(), active.as_str()) && str_eq(
        c.candidate_image.as_str(),
        candidate.as_str(),
    ) && str_eq(c.known_good_image.as_str(), known_good.as_str()) && str_eq(
        c.grub_script_path.as_str(),
        GRUB_SCRIPT_PATH,
    ) && str_eq(c.grub_config_path.as_str(), c.grub_regeneration.config_path()) && str_eq(
        c.update_grub.executable.as_str(),
        c.grub_regeneration.updater(),
    ) && strings_equal(&c.update_grub.arguments, &args) && str_eq(
        c.generate.alternate_root.as_str(),
        c.update_grub.alternate_root.as_str(),
    )
}

/// Revalidates every cross-field relation of a resolved contract.
pub fn validate_initramfs_tools_systemd_contract(contract: &InitramfsToolsSystemdContract) -> (r:
    Result<(), InstallError>)
    ensures
        r is Ok <==> itools_contract_valid(*contract),
        r matches Err(e) ==> e is InvalidPlan,
{
    if !itools_contract_fields_ok_exec(contract) {
        return Err(
            invalid("initramfs-tools-systemd contract mixes incompatible image or GRUB capabilities"),
        );
    }
    let initrd_name = match strip_prefix(contract.known_good_image.as_str(), "/boot/") {
        Some(name) => name,
        None => return Err(invalid("initramfs-tools-systemd known-good image is outside /boot")),
    };
    proof {
        reveal_strlit("/boot/");
    }
    if !grub_script_matches(&contract.grub_script, initrd_name) {
        return Err(
            invalid("initramfs-tools-systemd GRUB script does not match the resolved image contract"),
        );
    }
    validate_initramfs_tools_systemd_generator_request(&contract.generate)?;
    validate_initramfs_tools_systemd_generator_request(&contract.update_grub)?;
    let args = &contract.generate.arguments;
    if args.len() <= 2 || !str_eq(args[1].as_str(), contract.candidate_image.as_str()) || !str_eq(
        args[2].as_str(),
        contract.kernel_version.as_str(),
    ) {
        return Err(
            invalid("initramfs-tools-systemd generation request is not bound to the image contract"),
        );
    }
    Ok(())
}


// ---------------------------------------------------------------------------
// Planning
// ---------------------------------------------------------------------------

pub open spec fn itools_kernel(f: InitramfsToolsSystemdFacts) -> Seq<char> {
    f.kernel_versions@[0]@
}

pub open spec fn itools_known_good(f: InitramfsToolsSystemdFacts) -> Seq<char> {
    itools_active(itools_kernel(f)) + KNOWN_GOOD_SUFFIX@
}

pub open spec fn itools_host_ok(f: InitramfsToolsSystemdFacts, root: Seq<char>) -> bool {
    &&& spec_safe_alternate_root(root)
    &&& f.architecture@ == PRODUCT_ARCHITECTURE@
    &&& f.pid1_comm@ == "systemd"@
    &&& f.kernel_versions.len() == 1
    &&& spec_safe_kernel_version(itools_kernel(f))
    &&& f.root_filesystem_device != f.boot_filesystem_device
    &&& f.boot_writable
}

/// The checks made before a known-good size check.
pub open spec fn itools_before_size_ok(f: InitramfsToolsSystemdFacts, root: Seq<char>) -> bool {
    &&& itools_host_ok(f, root)
    &&& f.boot_free_bytes >= MIN_BOOT_FREE_BYTES
    &&& f.boot_free_inodes >= MIN_BOOT_FREE_INODES
    &&& f.known_good_path@ == itools_active(itools_kernel(f))
}

pub open spec fn contract_file_paths() -> Seq<Seq<char>> {
    initramfs_tools_contract_files().map_values(|e: (Seq<char>, bool)| e.0)
}

pub open spec fn contract_file_modes() -> Seq<bool> {
    initramfs_tools_contract_files().map_values(|e: (Seq<char>, bool)| e.1)
}

pub open spec fn itools_preflight_ok(f: InitramfsToolsSystemdFacts, root: Seq<char>) -> bool {
    &&& itools_before_size_ok(f, root)
    &&& 0 < f.known_good_bytes <= MAX_CANDIDATE_BYTES
    &&& tools_match_exactly(
        f.tools@,
        str_views(
            spec_initramfs_tools_systemd_required_tools(f.grub_regeneration, f.cryptsetup_location),
        ),
    )
    &&& facts_match_exactly(
        as_tool_facts(f.contract_files@),
        contract_file_paths(),
        contract_file_modes(),
    )
    &&& grub_inputs_ok(
        f.boot_filesystem_uuid@,
        itools_kernel(f),
        f.kernel_command_line@,
        itools_known_good(f),
    )
}

pub open spec fn itools_grub_script(f: InitramfsToolsSystemdFacts) -> Seq<u8> {
    encode_utf8(
        grub_script_text(
            f.boot_filesystem_uuid@,
            itools_kernel(f),
            f.kernel_command_line@,
            itools_known_good(f).skip(6),
        ),
    )
}

/// The inputs on which the planner succeeds.
pub open spec fn itools_plan_ok(f: InitramfsToolsSystemdFacts, root: Seq<char>) -> bool {
    &&& itools_preflight_ok(f, root)
    &&& grub_script_ok(itools_grub_script(f), itools_known_good(f).skip(6))
}

/// The contract the planner resolves from `f` for `root`.
pub open spec fn itools_contract_for(
    c: InitramfsToolsSystemdContract,
    f: InitramfsToolsSystemdFacts,
    root: Seq<char>,
) -> bool {
    let k = itools_kernel(f);
    &&& c.kernel_version@ == k
    &&& c.active_image@ == itools_active(k)
    &&& c.candidate_image@ == itools_candidate(k)
    &&& c.known_good_image@ == itools_known_good(f)
    &&& c.known_good_digest == f.known_good_digest
    &&& c.grub_regeneration == f.grub_regeneration
    &&& c.grub_script_path@ == GRUB_SCRIPT_PATH@
    &&& c.grub_config_path@ == f.grub_regeneration.spec_config_path()@
    &&& c.grub_script@ == itools_grub_script(f)
    &&& c.generate.is_exactly(
        GeneratorKind::InitramfsTools,
        MKINITRAMFS_EXECUTABLE@,
        root,
        None,
        seq!["-o"@, itools_candidate(k), k],
    )
    &&& c.update_grub.is_exactly(
        GeneratorKind::GrubUpdate,
        f.grub_regeneration.spec_updater()@,
        root,
        None,
        f.grub_regeneration.spec_arguments(),
    )
}

/// The refusal the planner gives for facts it rejects.
pub open spec fn itools_plan_error(
    f: InitramfsToolsSystemdFacts,
    root: Seq<char>,
    e: InstallError,
) -> bool {
    if itools_host_ok(f, root) && f.boot_free_bytes < MIN_BOOT_FREE_BYTES {
        e matches InstallError::InsufficientFreeSpace { path, required, available } && path@
            == "/boot"@ && required == MIN_BOOT_FREE_BYTES && available == f.boot_free_bytes
    } else if itools_before_size_ok(f, root) && (f.known_good_bytes == 0 || f.known_good_bytes
        > MAX_CANDIDATE_BYTES) {
        e matches InstallError::FileTooLarge { path, size, limit } && path@ == f.known_good_path@
            && size == f.known_good_bytes && limit == MAX_CANDIDATE_BYTES
    } else {
        e is InvalidPlan
    }
}

/// A planned contract satisfies every validated relation but the rendered
/// script, which it satisfies exactly when the facts' script does.
pub proof fn lemma_itools_planned_contract_shape(
    c: InitramfsToolsSystemdContract,
    f: InitramfsToolsSystemdFacts,
    root: Seq<char>,
)
    requires
        itools_preflight_ok(f, root),
        itools_contract_for(c, f, root),
    ensures
        itools_contract_valid(c) <==> grub_script_ok(
            itools_grub_script(f),
            itools_known_good(f).skip(6),
        ),
{
    let k = itools_kernel(f);
    lemma_prefixed_kernel(CANDIDATE_PREFIX@, k);
    reveal_strlit("/boot/");
    reveal_strlit("/boot/initrd.img-");
    reveal_strlit("/boot/grub/grub.cfg");
    reveal_strlit("/boot/grub2/grub.cfg");
    assert(itools_known_good(f).subrange(0, 6) =~= "/boot/"@);
    assert(itools_contract_fields_ok(c));
    assert(itools_generator_request_valid(c.generate));
    assert(itools_generator_request_valid(c.update_grub));
}

fn itools_preflight(facts: &InitramfsToolsSystemdFacts, alternate_root: &str) -> (r: Result<
    (),
    InstallError,
>)
    ensures
        r is Ok <==> itools_preflight_ok(*facts, alternate_root@),
        r matches Err(e) ==> itools_plan_error(*facts, alternate_root@, e),
{
    if !safe_alternate_root(alternate_root) {
        return Err(invalid("initramfs-tools-systemd generator alternate root is unsafe"));
    }
    if !str_eq(facts.architecture.as_str(), PRODUCT_ARCHITECTURE) {
        return Err(invalid("initramfs-tools-systemd architecture does not match this Bootart ELF"));
    }
    if !str_eq(facts.pid1_comm.as_str(), "systemd") {
        return Err(invalid("initramfs-tools-systemd PID 1 is not systemd"));
    }
    if facts.kernel_versions.len() != 1 {
        return Err(invalid("initramfs-tools-systemd must have one selected running kernel module tree"));
    }
    let kernel = facts.kernel_versions[0].as_str();
    if !safe_kernel_version(kernel) {
        return Err(invalid("initramfs-tools-systemd kernel version is unsafe"));
    }
    if facts.root_filesystem_device == facts.boot_filesystem_device {
        return Err(invalid("initramfs-tools-systemd /boot is not a separate filesystem"));
    }
    if !facts.boot_writable {
        return Err(invalid("initramfs-tools-systemd /boot is not writable"));
    }
    if facts.boot_free_bytes < MIN_BOOT_FREE_BYTES {
        return Err(
            InstallError::InsufficientFreeSpace {
                path: owned("/boot"),
                required: MIN_BOOT_FREE_BYTES,
                available: facts.boot_free_bytes,
            },
        );
    }
    if facts.boot_free_inodes < MIN_BOOT_FREE_INODES {
        return Err(invalid("initramfs-tools-systemd /boot has insufficient free inodes"));
    }
    let active_image = concat2(ACTIVE_PREFIX, kernel);
    if !str_eq(facts.known_good_path.as_str(), active_image.as_str()) {
        return Err(invalid("initramfs-tools-systemd known-good initramfs path is not canonical"));
    }
    if facts.known_good_bytes == 0 || facts.known_good_bytes > MAX_CANDIDATE_BYTES {
        return Err(
            InstallError::FileTooLarge {
                path: owned(facts.known_good_path.as_str()),
                size: facts.known_good_bytes,
                limit: MAX_CANDIDATE_BYTES,
            },
        );
    }
    let required = initramfs_tools_systemd_required_tools(
        facts.grub_regeneration,
        facts.cryptsetup_location,
    );
    if !tools_match_exactly_exec(&facts.tools, &required) {
        return Err(invalid("initramfs-tools-systemd preflight tool set differs from the fixed contract"));
    }
    let files = path_facts_as_tools(&facts.contract_files);
    let paths = vec![
        "/usr/share/initramfs-tools/hook-functions",
        "/usr/share/initramfs-tools/hooks/cryptroot",
        "/usr/share/initramfs-tools/scripts/local-top/cryptroot",
        "/usr/lib/cryptsetup/functions",
        "/usr/lib/cryptsetup/askpass",
    ];
    let modes = vec![false, true, true, false, true];
    assert(str_views(paths@) =~= contract_file_paths());
    assert(modes@ =~= contract_file_modes());
    if !facts_match_exactly_exec(&files, &paths, &modes) {
        return Err(
            invalid("initramfs-tools-systemd build/runtime file set differs from the fixed contract"),
        );
    }
    let known_good_image = concat2(active_image.as_str(), KNOWN_GOOD_SUFFIX);
    if !grub_inputs_ok_exec(
        facts.boot_filesystem_uuid.as_str(),
        kernel,
        facts.kernel_command_line.as_str(),
        known_good_image.as_str(),
    ) {
        return Err(invalid("initramfs-tools-systemd GRUB entry inputs are unsafe"));
    }
    Ok(())
}

/// Resolves the guest-visible paths and commands for an alternate root.
pub fn plan_initramfs_tools_systemd_for_root(
    facts: &InitramfsToolsSystemdFacts,
    alternate_root: &str,
) -> (r: Result<InitramfsToolsSystemdContract, InstallError>)
    ensures
        r is Ok <==> itools_plan_ok(*facts, alternate_root@),
        r matches Ok(c) ==> itools_contract_for(c, *facts, alternate_root@),
        r matches Err(e) ==> itools_plan_error(*facts, alternate_root@, e),
{
    itools_preflight(facts, alternate_root)?;
    let kernel = facts.kernel_versions[0].as_str();
    let active_image = concat2(ACTIVE_PREFIX, kernel);
    let candidate_image = concat2(CANDIDATE_PREFIX, kernel);
    let known_good_image = concat2(active_image.as_str(), KNOWN_GOOD_SUFFIX);
    let grub_script = match render_grub_script(
        facts.boot_filesystem_uuid.as_str(),
        kernel,
        facts.kernel_command_line.as_str(),
        known_good_image.as_str(),
    ) {
        Ok(bytes) => bytes,
        Err(e) => return Err(e),
    };
    let generate = GeneratorRequest {
        generator: GeneratorKind::InitramfsTools,
        executable: owned(MKINITRAMFS_EXECUTABLE),
        alternate_root: owned(alternate_root),
        working_directory: None,
        arguments: vec![owned("-o"), owned(candidate_image.as_str()), owned(kernel)],
        clear_environment: true,
    };
    let update_grub = request(
        facts.grub_regeneration.updater(),
        alternate_root,
        facts.grub_regeneration.arguments(),
    );
    let contract = InitramfsToolsSystemdContract {
        kernel_version: owned(kernel),
        active_image,
        candidate_image,
        known_good_image,
        known_good_digest: facts.known_good_digest,
        grub_regeneration: facts.grub_regeneration,
        grub_script_path: owned(GRUB_SCRIPT_PATH),
        grub_config_path: owned(facts.grub_regeneration.config_path()),
        grub_script,
        generate,
        update_grub,
    };
    proof {
        assert(contract.generate.args() =~= seq!["-o"@, contract.candidate_image@, kernel@]);
        assert(contract.update_grub.args() =~= string_views(contract.update_grub.arguments@));
        reveal_strlit("/usr/bin/dracut");
        reveal_strlit("/usr/bin/lsinitrd");
        reveal_strlit("/usr/sbin/update-grub");
        reveal_strlit("/usr/bin/grub2-mkconfig");
        reveal_strlit("/usr/bin/grub-mkconfig");
        match facts.grub_regeneration {
            GrubRegeneration::UpdateGrub => {
                assert(UPDATE_GRUB_EXECUTABLE@.len() == 21);
            },
            GrubRegeneration::Grub2Mkconfig => {
                assert(GRUB2_MKCONFIG_EXECUTABLE@.len() == 23);
            },
            GrubRegeneration::GrubMkconfig => {
                assert(GRUB_MKCONFIG_EXECUTABLE@.len() == 22);
            },
        }
        assert(crate::dracut_systemd::DRACUT_EXECUTABLE@.len() == 15);
        assert(crate::dracut_systemd::LSINITRD_EXECUTABLE@.len() == 17);
        assert(itools_contract_for(contract, *facts, alternate_root@));
        lemma_itools_planned_contract_shape(contract, *facts, alternate_root@);
    }
    match validate_initramfs_tools_systemd_contract(&contract) {
        Ok(()) => Ok(contract),
        Err(e) => Err(e),
    }
}

/// Plans against the running system's root.
pub fn plan_initramfs_tools_systemd(facts: &InitramfsToolsSystemdFacts) -> (r: Result<
    InitramfsToolsSystemdContract,
    InstallError,
>)
    ensures
        r is Ok <==> itools_plan_ok(*facts, "/"@),
        r matches Ok(c) ==> itools_contract_for(c, *facts, "/"@),
        r matches Err(e) ==> itools_plan_error(*facts, "/"@, e),
{
    plan_initramfs_tools_systemd_for_root(facts, "/")
}

/// The `unmkinitramfs` request that unpacks a validated contract's
/// candidate into the transaction's private directory.
pub fn initramfs_tools_systemd_unpack_request(
    contract: &InitramfsToolsSystemdContract,
    transaction: &str,
) -> (r: Result<GeneratorRequest, InstallError>)
    ensures
        r is Ok <==> itools_contract_valid(*contract) && spec_safe_transaction_id(transaction@),
        r matches Ok(q) ==> q.is_exactly(
            GeneratorKind::InitramfsInspection,
            UNMKINITRAMFS_EXECUTABLE@,
            contract.generate.alternate_root@,
            None,
            seq![contract.candidate_image@, unpack_dir(transaction@)],
        ),
        r matches Err(e) ==> e is InvalidPlan,
{
    validate_initramfs_tools_systemd_contract(contract)?;
    if !safe_transaction_id(transaction) {
        return Err(invalid("initramfs-tools-systemd inspection transaction id is unsafe"));
    }
    let q = GeneratorRequest {
        generator: GeneratorKind::InitramfsInspection,
        executable: owned(UNMKINITRAMFS_EXECUTABLE),
        alternate_root: owned(contract.generate.alternate_root.as_str()),
        working_directory: None,
        arguments: vec![owned(contract.candidate_image.as_str()), unpack_dir_exec(transaction)],
        clear_environment: true,
    };
    assert(q.args() =~= seq![contract.candidate_image@, unpack_dir(transaction@)]);
    Ok(q)
}

/// Binds an inspection to the exact candidate bytes before activation.
pub fn verified_initramfs_tools_systemd_image_record(
    contract: &InitramfsToolsSystemdContract,
    candidate: &[u8],
    inspection: &ArchiveInspection,
    expected_bootart: &[u8],
) -> (r: Result<DracutSystemdImageRecord, InstallError>)
    ensures
        r is Ok <==> itools_contract_valid(*contract) && 0 < candidate@.len()
            <= MAX_CANDIDATE_BYTES && inspection.bootart_digest == spec_sha256(expected_bootart@),
        r matches Ok(rec) ==> dracut_image_record_valid(rec) && rec.kernel_version@
            == contract.kernel_version@ && rec.active_image@ == contract.active_image@
            && rec.active_digest == spec_sha256(candidate@) && rec.candidate_image@
            == contract.candidate_image@ && rec.candidate_digest == spec_sha256(candidate@)
            && rec.candidate_bytes == candidate@.len() && rec.known_good_image@
            == contract.known_good_image@ && rec.known_good_digest == contract.known_good_digest
            && rec.grub_script_path@ == contract.grub_script_path@ && rec.grub_script_digest
            == spec_sha256(contract.grub_script@) && rec.grub_config_path@
            == contract.grub_config_path@ && rec.bootart_digest == spec_sha256(expected_bootart@),
        r matches Err(e) ==> if itools_contract_valid(*contract) && (candidate@.len() == 0
            || candidate@.len() > MAX_CANDIDATE_BYTES) {
            e matches InstallError::FileTooLarge { path, size, limit } && path@
                == contract.candidate_image@ && size == candidate@.len() && limit
                == MAX_CANDIDATE_BYTES
        } else {
            e is InvalidPlan
        },
{
    validate_initramfs_tools_systemd_contract(contract)?;
    if candidate.len() == 0 || candidate.len() as u64 > MAX_CANDIDATE_BYTES {
        return Err(
            InstallError::FileTooLarge {
                path: owned(contract.candidate_image.as_str()),
                size: candidate.len() as u64,
                limit: MAX_CANDIDATE_BYTES,
            },
        );
    }
    let expected_bootart_digest = sha256(expected_bootart);
    if inspection.bootart_digest != expected_bootart_digest {
        return Err(invalid("initramfs-tools inventory is not bound to the running Bootart ELF"));
    }
    let candidate_digest = sha256(candidate);
    let record = DracutSystemdImageRecord {
        kernel_version: owned(contract.kernel_version.as_str()),
        active_image: owned(contract.active_image.as_str()),
        active_digest: candidate_digest,
        candidate_image: owned(contract.candidate_image.as_str()),
        candidate_digest,
        candidate_bytes: candidate.len() as u64,
        known_good_image: owned(contract.known_good_image.as_str()),
        known_good_digest: contract.known_good_digest,
        grub_script_path: owned(contract.grub_script_path.as_str()),
        grub_script_digest: sha256(contract.grub_script.as_slice()),
        grub_config_path: owned(contract.grub_config_path.as_str()),
        bootart_digest: expected_bootart_digest,
    };
    proof {
        lemma_active_image_parses(DracutImageLayout::InitrdImg, contract.kernel_version@);
        lemma_candidate_image_parses(DracutImageLayout::InitrdImg, contract.kernel_version@);
        reveal_strlit("/boot/grub/grub.cfg");
        reveal_strlit("/boot/grub2/grub.cfg");
    }
    validate_dracut_systemd_image_record(&record)?;
    Ok(record)
}


// ---------------------------------------------------------------------------
// Layered inventory inspection
// ---------------------------------------------------------------------------

/// The layer names `unmkinitramfs` emits.
pub open spec fn itools_layer(l: Seq<char>) -> bool {
    l == "early"@ || l == "early2"@ || l == "main"@
}

/// A nonempty relative member name whose components are all normal names.
pub open spec fn itools_rest_ok(r: Seq<char>) -> bool {
    &&& r.len() > 0
    &&& r[0] != '/'
    &&& !leading_curdir(r)
    &&& no_parent_component(r)
}

/// The first `/` of `p` is at `i`, splitting a layer from a safe name.
pub open spec fn itools_split_at(p: Seq<char>, i: int) -> bool {
    &&& 0 <= i < p.len()
    &&& p[i] == '/'
    &&& forall|j: int| 0 <= j < i ==> p[j] != '/'
}

/// `<layer>/<name>` with a reviewed layer and a safe name.
pub open spec fn itools_member_path_ok(p: Seq<char>) -> bool {
    exists|i: int|
        itools_split_at(p, i) && itools_layer(p.take(i)) && itools_rest_ok(p.skip(i + 1))
}

/// The relations every initramfs-tools inventory satisfies.
pub open spec fn itools_common_ok(es: Seq<ArchiveEntry>) -> bool {
    &&& 0 < es.len() <= MAX_ARCHIVE_ENTRIES
    &&& forall|i: int| 0 <= i < es.len() ==> itools_member_path_ok(#[trigger] es[i].path@)
    &&& archive_paths_distinct(es)
    &&& archive_bytes(es) <= MAX_INSPECTED_ARCHIVE_BYTES
}

fn itools_member_path_ok_exec(p: &str) -> (r: bool)
    ensures
        r == itools_member_path_ok(p@),
{
    let v = chars_of(p);
    let mut i: usize = 0;
    while i < v.len() && v[i] != '/'
        invariant
            i <= v@.len(),
            v@ == p@,
            forall|j: int| 0 <= j < i ==> v@[j] != '/',
        decreases v.len() - i,
    {
        i = i + 1;
    }
    if i == v.len() {
        assert forall|k: int| !itools_split_at(p@, k) by {
            if itools_split_at(p@, k) {
                assert(v@[k] != '/');
            }
        }
        return false;
    }
    assert(itools_split_at(p@, i as int));
    assert forall|k: int| itools_split_at(p@, k) implies k == i by {
        if k < i {
            assert(v@[k] != '/');
        } else if k > i {
            assert(p@[i as int] != '/');
        }
    }
    let layer = crate::text::slice_range(v.as_slice(), 0, i);
    let rest = crate::text::slice_range(v.as_slice(), i + 1, v.len());
    assert(layer@ =~= p@.take(i as int));
    assert(rest@ =~= p@.skip(i as int + 1));
    let layer_ok = (layer.len() == 5 && layer[0] == 'e' && layer[1] == 'a' && layer[2] == 'r'
        && layer[3] == 'l' && layer[4] == 'y') || (layer.len() == 6 && layer[0] == 'e' && layer[1]
        == 'a' && layer[2] == 'r' && layer[3] == 'l' && layer[4] == 'y' && layer[5] == '2') || (
    layer.len() == 4 && layer[0] == 'm' && layer[1] == 'a' && layer[2] == 'i' && layer[3] == 'n');
    proof {
        reveal_strlit("early");
        reveal_strlit("early2");
        reveal_strlit("main");
        if layer_ok {
            if layer.len() == 5 {
                assert(layer@ =~= "early"@);
            } else if layer.len() == 6 {
                assert(layer@ =~= "early2"@);
            } else {
                assert(layer@ =~= "main"@);
            }
        }
    }
    if !layer_ok {
        return false;
    }
    if rest.len() == 0 || rest[0] == '/' {
        return false;
    }
    if rest.len() == 1 && rest[0] == '.' {
        assert(rest@ =~= seq!['.']);
        return false;
    }
    if rest.len() >= 2 && rest[0] == '.' && rest[1] == '/' {
        return false;
    }
    assert(!leading_curdir(rest@));
    !has_parent_component(rest.as_slice())
}

fn itools_members_ok(entries: &[ArchiveEntry]) -> (r: bool)
    ensures
        r == forall|i: int|
            0 <= i < entries@.len() ==> itools_member_path_ok(#[trigger] entries@[i].path@),
{
    let mut i: usize = 0;
    while i < entries.len()
        invariant
            i <= entries@.len(),
            forall|j: int| 0 <= j < i ==> itools_member_path_ok(#[trigger] entries@[j].path@),
        decreases entries.len() - i,
    {
        if !itools_member_path_ok_exec(entries[i].path.as_str()) {
            return false;
        }
        i = i + 1;
    }
    true
}

fn initramfs_tools_inventory_common(entries: &[ArchiveEntry]) -> (r: Result<u64, InstallError>)
    ensures
        r is Ok <==> itools_common_ok(entries@),
        r matches Ok(t) ==> t == archive_bytes(entries@),
        r matches Err(e) ==> e is InvalidPlan,
{
    if entries.len() == 0 || entries.len() > MAX_ARCHIVE_ENTRIES {
        return Err(invalid("initramfs-tools inventory is empty or exceeds the entry bound"));
    }
    if !itools_members_ok(entries) || !archive_paths_distinct_exec(entries) {
        return Err(invalid("initramfs-tools inventory has an unsafe or duplicate member"));
    }
    match archive_total(entries, MAX_INSPECTED_ARCHIVE_BYTES) {
        Some(t) => Ok(t),
        None => Err(invalid("initramfs-tools inventory exceeds the byte bound")),
    }
}

/// The member at `p` is a nonempty mode-0755 regular file.
pub open spec fn nonempty_executable(es: Seq<ArchiveEntry>, p: Seq<char>) -> bool {
    exists|i: int|
        0 <= i < es.len() && es[i].path@ == p && es[i].kind == ArchiveEntryKind::File && es[i].mode
            == 0o755u32 && es[i].bytes@.len() > 0
}

/// The member at `p` is a nonempty regular file.
pub open spec fn nonempty_file(es: Seq<ArchiveEntry>, p: Seq<char>) -> bool {
    exists|i: int|
        0 <= i < es.len() && es[i].path@ == p && es[i].kind == ArchiveEntryKind::File
            && es[i].bytes@.len() > 0
}

fn nonempty_executable_exec(es: &[ArchiveEntry], p: &str) -> (r: bool)
    requires
        archive_paths_distinct(es@),
    ensures
        r == nonempty_executable(es@, p@),
{
    match find_entry(es, p) {
        Some(i) => es[i].kind == ArchiveEntryKind::File && es[i].mode == 0o755u32 && es[i].bytes.len()
            > 0,
        None => false,
    }
}

fn nonempty_file_exec(es: &[ArchiveEntry], p: &str) -> (r: bool)
    requires
        archive_paths_distinct(es@),
    ensures
        r == nonempty_file(es@, p@),
{
    match find_entry(es, p) {
        Some(i) => es[i].kind == ArchiveEntryKind::File && es[i].bytes.len() > 0,
        None => false,
    }
}

/// The text after the last `/` (all of `p` when it has none).
pub open spec fn last_segment(p: Seq<char>) -> Seq<char>
    decreases p.len(),
{
    if p.len() == 0 {
        p
    } else if p.last() == '/' {
        Seq::empty()
    } else {
        last_segment(p.drop_last()).push(p.last())
    }
}

pub fn last_segment_exec(p: &[char]) -> (r: Vec<char>)
    ensures
        r@ == last_segment(p@),
{
    let mut j: usize = p.len();
    assert(p@.take(j as int) =~= p@);
    assert(p@.skip(j as int) =~= Seq::<char>::empty());
    assert(last_segment(p@) + Seq::<char>::empty() =~= last_segment(p@));
    while j > 0 && p[j - 1] != '/'
        invariant
            j <= p@.len(),
            last_segment(p@) == last_segment(p@.take(j as int)) + p@.skip(j as int),
        decreases j,
    {
        assert(p@.take(j as int).drop_last() =~= p@.take(j as int - 1));
        assert(p@.skip(j as int - 1) =~= seq![p@[j as int - 1]] + p@.skip(j as int));
        assert(last_segment(p@.take(j as int)) =~= last_segment(p@.take(j as int - 1)).push(
            p@[j as int - 1],
        ));
        j = j - 1;
    }
    if j > 0 {
        assert(p@.take(j as int).last() == '/');
    }
    assert(last_segment(p@.take(j as int)) =~= Seq::<char>::empty());
    let r = crate::text::slice_range(p, j, p.len());
    assert(r@ =~= p@.skip(j as int));
    r
}

/// A member in the Bootart namespace of an initramfs-tools image.
pub open spec fn itools_bootart_namespace(p: Seq<char>) -> bool {
    let name = last_segment(p);
    ||| name == "bootart"@
    ||| has_prefix(name, "askpass.bootart"@)
    ||| has_prefix(p, "main/usr/lib/bootart/"@)
    ||| (has_prefix(p, "main/bin/"@) || has_prefix(p, "main/sbin/"@) || has_prefix(
        p,
        "main/usr/bin/"@,
    ) || has_prefix(p, "main/usr/sbin/"@)) && has_prefix(name, "bootart"@)
}

fn itools_bootart_namespace_exec(p: &str) -> (r: bool)
    ensures
        r == itools_bootart_namespace(p@),
{
    let v = chars_of(p);
    let name_chars = last_segment_exec(v.as_slice());
    let name = crate::text::string_from_chars(name_chars.as_slice());
    str_eq(name.as_str(), "bootart") || str_has_prefix(name.as_str(), "askpass.bootart")
        || str_has_prefix(p, "main/usr/lib/bootart/") || (str_has_prefix(p, "main/bin/")
        || str_has_prefix(p, "main/sbin/") || str_has_prefix(p, "main/usr/bin/") || str_has_prefix(
        p,
        "main/usr/sbin/",
    )) && str_has_prefix(name.as_str(), "bootart")
}

/// The runtime resources an initramfs-tools candidate carries: archive
/// path and resource.
pub open spec fn itools_resources() -> Seq<(Seq<char>, TemplateId)> {
    seq![
        ("main/scripts/init-top/bootart"@, TemplateId::InitramfsToolsEarlyHook),
        ("main/scripts/init-bottom/bootart"@, TemplateId::InitramfsToolsBottomHook),
        ("main/usr/lib/cryptsetup/askpass"@, TemplateId::InitramfsToolsAskpassWrapper),
    ]
}

pub open spec fn itools_resource_ok(es: Seq<ArchiveEntry>, path: Seq<char>, id: TemplateId) -> bool {
    let r = spec_template_resource(id);
    r.materialization matches TemplateMaterialization::File { mode, .. } && entry_is(
        es,
        path,
        ArchiveEntryKind::File,
        mode,
        encode_utf8(r.contents@),
    )
}

/// The Bootart-named members an initramfs-tools candidate may hold.
pub open spec fn itools_expected_member(p: Seq<char>) -> bool {
    ||| p == "main/usr/bin/bootart"@
    ||| p == "main/scripts/init-top/bootart"@
    ||| p == "main/scripts/init-bottom/bootart"@
    ||| p == "main/usr/lib/cryptsetup/askpass"@
    ||| p == "main/usr/lib/cryptsetup/askpass.bootart-console"@
}

pub open spec fn itools_bootart_members_ok(es: Seq<ArchiveEntry>) -> bool {
    forall|i: int|
        #![trigger es[i]]
        0 <= i < es.len() && itools_bootart_namespace(es[i].path@) ==> itools_expected_member(
            es[i].path@,
        ) && !crate::text::contains(es[i].path@, "bootart-init"@)
}

/// Everything a Bootart-carrying initramfs-tools candidate must satisfy.
pub open spec fn itools_inventory_ok(es: Seq<ArchiveEntry>, expected_bootart: Seq<u8>) -> bool {
    &&& static_elf_valid(expected_bootart)
    &&& itools_common_ok(es)
    &&& entry_is(es, "main/usr/bin/bootart"@, ArchiveEntryKind::File, 0o755u32, expected_bootart)
    &&& forall|k: int|
        0 <= k < itools_resources().len() ==> itools_resource_ok(
            es,
            (#[trigger] itools_resources()[k]).0,
            itools_resources()[k].1,
        )
    &&& nonempty_executable(es, "main/init"@)
    &&& nonempty_executable(es, "main/scripts/local-top/cryptroot"@)
    &&& nonempty_executable(es, "main/usr/lib/cryptsetup/askpass.bootart-console"@)
    &&& nonempty_file(es, "main/usr/lib/cryptsetup/functions"@)
    &&& itools_bootart_members_ok(es)
}

fn itools_expected_member_exec(p: &str) -> (r: bool)
    ensures
        r == itools_expected_member(p@),
{
    str_eq(p, "main/usr/bin/bootart") || str_eq(p, "main/scripts/init-top/bootart") || str_eq(
        p,
        "main/scripts/init-bottom/bootart",
    ) || str_eq(p, "main/usr/lib/cryptsetup/askpass") || str_eq(
        p,
        "main/usr/lib/cryptsetup/askpass.bootart-console",
    )
}

fn itools_bootart_members_ok_exec(entries: &[ArchiveEntry]) -> (r: bool)
    ensures
        r == itools_bootart_members_ok(entries@),
{
    let mut i: usize = 0;
    while i < entries.len()
        invariant
            i <= entries@.len(),
            forall|j: int|
                #![trigger entries@[j]]
                0 <= j < i && itools_bootart_namespace(entries@[j].path@) ==> itools_expected_member(
                    entries@[j].path@,
                ) && !crate::text::contains(entries@[j].path@, "bootart-init"@),
        decreases entries.len() - i,
    {
        let path = entries[i].path.as_str();
        if itools_bootart_namespace_exec(path) {
            if !itools_expected_member_exec(path) || crate::text::str_contains(path, "bootart-init") {
                return false;
            }
        }
        i = i + 1;
    }
    true
}

fn itools_resource_ok_exec(es: &[ArchiveEntry], path: &str, id: TemplateId) -> (r: bool)
    requires
        archive_paths_distinct(es@),
    ensures
        r == itools_resource_ok(es@, path@, id),
{
    let resource = template_resource(id);
    match resource.materialization {
        TemplateMaterialization::File { mode, .. } => {
            let contents = str_bytes(resource.contents);
            entry_is_exec(es, path, ArchiveEntryKind::File, mode, contents.as_slice())
        },
        TemplateMaterialization::OpenRcService { .. } => false,
        TemplateMaterialization::ManagedSnippet { .. } => false,
    }
}

/// Inspects a Bootart-carrying initramfs-tools candidate against the
/// running ELF.
pub fn inspect_initramfs_tools_inventory(entries: &[ArchiveEntry], expected_bootart: &[u8]) -> (r:
    Result<ArchiveInspection, InstallError>)
    ensures
        r is Ok <==> itools_inventory_ok(entries@, expected_bootart@),
        r matches Ok(i) ==> i.bootart_digest == spec_sha256(expected_bootart@)
            && i.inspected_entries == entries@.len() && i.inspected_bytes == archive_bytes(
            entries@,
        ),
        static_elf_valid(expected_bootart@) ==> (r matches Err(e) ==> e is InvalidPlan),
{
    validate_static_elf(expected_bootart)?;
    let total = initramfs_tools_inventory_common(entries)?;
    if !entry_is_exec(entries, "main/usr/bin/bootart", ArchiveEntryKind::File, 0o755u32, expected_bootart) {
        return Err(invalid("initramfs-tools inventory contains the wrong Bootart ELF"));
    }
    let resources = [
        ("main/scripts/init-top/bootart", TemplateId::InitramfsToolsEarlyHook),
        ("main/scripts/init-bottom/bootart", TemplateId::InitramfsToolsBottomHook),
        ("main/usr/lib/cryptsetup/askpass", TemplateId::InitramfsToolsAskpassWrapper),
    ];
    let mut k: usize = 0;
    while k < 3
        invariant
            k <= 3,
            archive_paths_distinct(entries@),
            forall|j: int| 0 <= j < 3 ==> (#[trigger] resources@[j]).0@ == itools_resources()[j].0 && resources@[j].1 == itools_resources()[j].1,
            forall|j: int|
                0 <= j < k ==> itools_resource_ok(
                    entries@,
                    (#[trigger] itools_resources()[j]).0,
                    itools_resources()[j].1,
                ),
        decreases 3 - k,
    {
        if !itools_resource_ok_exec(entries, resources[k].0, resources[k].1) {
            return Err(invalid("initramfs-tools runtime resource changed"));
        }
        k = k + 1;
    }
    if !nonempty_executable_exec(entries, "main/init") || !nonempty_executable_exec(
        entries,
        "main/scripts/local-top/cryptroot",
    ) || !nonempty_executable_exec(entries, "main/usr/lib/cryptsetup/askpass.bootart-console") {
        return Err(invalid("initramfs-tools inventory has unsafe executable metadata"));
    }
    if !nonempty_file_exec(entries, "main/usr/lib/cryptsetup/functions") {
        return Err(invalid("initramfs-tools cryptsetup functions are empty or not a file"));
    }
    if !itools_bootart_members_ok_exec(entries) {
        return Err(invalid("unexpected Bootart initramfs-tools member"));
    }
    Ok(
        ArchiveInspection {
            bootart_digest: sha256(expected_bootart),
            inspected_entries: entries.len(),
            inspected_bytes: total,
        },
    )
}

/// No member lies in the Bootart namespace.
pub open spec fn itools_bootart_free(es: Seq<ArchiveEntry>) -> bool {
    forall|i: int| 0 <= i < es.len() ==> !itools_bootart_namespace(#[trigger] es[i].path@)
}

/// Inspects a candidate that must carry no Bootart member.
pub fn inspect_bootart_free_initramfs_tools_inventory(entries: &[ArchiveEntry]) -> (r: Result<
    BootartFreeArchiveInspection,
    InstallError,
>)
    ensures
        r is Ok <==> itools_common_ok(entries@) && itools_bootart_free(entries@) && nonempty_executable(
            entries@,
            "main/init"@,
        ) && nonempty_executable(entries@, "main/scripts/local-top/cryptroot"@)
            && nonempty_executable(entries@, "main/usr/lib/cryptsetup/askpass"@) && nonempty_file(
            entries@,
            "main/usr/lib/cryptsetup/functions"@,
        ),
        r matches Ok(i) ==> i.inspected_entries == entries@.len() && i.inspected_bytes
            == archive_bytes(entries@),
        r matches Err(e) ==> e is InvalidPlan,
{
    let total = initramfs_tools_inventory_common(entries)?;
    let mut i: usize = 0;
    while i < entries.len()
        invariant
            i <= entries@.len(),
            forall|j: int| 0 <= j < i ==> !itools_bootart_namespace(#[trigger] entries@[j].path@),
        decreases entries.len() - i,
    {
        if itools_bootart_namespace_exec(entries[i].path.as_str()) {
            return Err(invalid("Bootart-free initramfs-tools inventory contains a Bootart member"));
        }
        i = i + 1;
    }
    if !nonempty_executable_exec(entries, "main/init") || !nonempty_executable_exec(
        entries,
        "main/scripts/local-top/cryptroot",
    ) || !nonempty_executable_exec(entries, "main/usr/lib/cryptsetup/askpass") {
        return Err(invalid("initramfs-tools inventory has unsafe executable metadata"));
    }
    if !nonempty_file_exec(entries, "main/usr/lib/cryptsetup/functions") {
        return Err(invalid("Bootart-free initramfs-tools functions are empty or not a file"));
    }
    Ok(BootartFreeArchiveInspection { inspected_entries: entries.len(), inspected_bytes: total })
}

} // verus!
