//! Activation links and managed snippets of an install plan: what each
//! selected adapter enables or edits, and the checks that bind every such
//! record to the embedded resource it comes from.

use crate::activation::{
    absolute_pieces, resolve_relative_activation_target, spec_is_normalized_absolute_file_path,
    spec_resolve_relative_activation_target, validate_absolute_activation_path,
};
use crate::adapter::{adapter_owns, adapter_resources, spec_adapter_resources, AdapterId};
use crate::digest::{sha256, spec_sha256, Sha256Digest};
use crate::embedded::{spec_template_resource, template_resource, TemplateId, TemplateMaterialization};
use crate::error::{invalid, InstallError};
use crate::newc::split_on;
use crate::safety::ExpectedPreviousState;
use crate::selection::AdapterSelection;
use crate::state::split_on_exec;
use crate::text::{
    chars_of, concat2, concat3, contains_char, has_prefix, has_suffix, lines, lines_exec,
    seq_has_prefix, seq_has_suffix, slice_range, split_ws, split_ws_exec, str_bytes,
    str_contains_char, str_eq, str_is_bounded_token, string_from_chars, all_in_class, owned, CharClass,
};
use crate::text_facts::lemma_split_on_nonempty;
use vstd::prelude::*;
use vstd::utf8::*;

verus! {

/// Filesystem namespace in which an activation link must eventually exist:
/// the separately generated image, or the alternate real root.
#[derive(Debug, Clone, Copy, PartialEq, Eq, Structural)]
pub enum ActivationScope {
    GeneratedInitramfs,
    RealRoot,
}

/// Why an activation link exists.
#[derive(Debug, Clone, Copy, PartialEq, Eq)]
pub enum ActivationRelation {
    SystemdWants,
    SystemdRequires,
    OpenRcRunlevel { runlevel: &'static str },
}

impl ActivationRelation {
    /// The OpenRC runlevel the link enables its service in, if any.
    pub fn runlevel(self) -> (r: Option<&'static str>)
        ensures
            r == (match self {
                ActivationRelation::OpenRcRunlevel { runlevel } => Some(runlevel),
                _ => None,
            }),
    {
        match self {
            ActivationRelation::OpenRcRunlevel { runlevel } => Some(runlevel),
            ActivationRelation::SystemdWants => None,
            ActivationRelation::SystemdRequires => None,
        }
    }
}

/// A read-only activation record: the link at `path`, whose payload is
/// exactly `relative_target`.
#[derive(Debug, Clone, PartialEq, Eq)]
pub struct ActivationOperation {
    adapter: AdapterId,
    scope: ActivationScope,
    relation: ActivationRelation,
    path: String,
    relative_target: String,
    owner_uid: u32,
    source: TemplateId,
    expected_previous: ExpectedPreviousState,
}

/// An activation record as plain values.
pub struct ActivationOperationView {
    pub adapter: AdapterId,
    pub scope: ActivationScope,
    pub relation: ActivationRelation,
    pub path: Seq<char>,
    pub relative_target: Seq<char>,
    pub owner_uid: u32,
    pub source: TemplateId,
    pub expected_previous: ExpectedPreviousState,
}

impl View for ActivationOperation {
    type V = ActivationOperationView;

    closed spec fn view(&self) -> ActivationOperationView {
        ActivationOperationView {
            adapter: self.adapter,
            scope: self.scope,
            relation: self.relation,
            path: self.path@,
            relative_target: self.relative_target@,
            owner_uid: self.owner_uid,
            source: self.source,
            expected_previous: self.expected_previous,
        }
    }
}

impl ActivationOperation {
    /// An activation record with the given fields.
    pub fn new(
        adapter: AdapterId,
        scope: ActivationScope,
        relation: ActivationRelation,
        path: String,
        relative_target: String,
        owner_uid: u32,
        source: TemplateId,
        expected_previous: ExpectedPreviousState,
    ) -> (r: ActivationOperation)
        ensures
            r@ == (ActivationOperationView {
                adapter,
                scope,
                relation,
                path: path@,
                relative_target: relative_target@,
                owner_uid,
                source,
                expected_previous,
            }),
    {
        ActivationOperation {
            adapter,
            scope,
            relation,
            path,
            relative_target,
            owner_uid,
            source,
            expected_previous,
        }
    }

    pub fn adapter(&self) -> (r: AdapterId)
        ensures
            r == self@.adapter,
    {
        self.adapter
    }

    pub fn scope(&self) -> (r: ActivationScope)
        ensures
            r == self@.scope,
    {
        self.scope
    }

    pub fn relation(&self) -> (r: ActivationRelation)
        ensures
            r == self@.relation,
    {
        self.relation
    }

    pub fn path(&self) -> (r: &str)
        ensures
            r@ == self@.path,
    {
        self.path.as_str()
    }

    pub fn relative_target(&self) -> (r: &str)
        ensures
            r@ == self@.relative_target,
    {
        self.relative_target.as_str()
    }

    pub fn owner_uid(&self) -> (r: u32)
        ensures
            r == self@.owner_uid,
    {
        self.owner_uid
    }

    pub fn source(&self) -> (r: TemplateId)
        ensures
            r == self@.source,
    {
        self.source
    }

    pub fn expected_previous(&self) -> (r: ExpectedPreviousState)
        ensures
            r == self@.expected_previous,
    {
        self.expected_previous
    }
}

/// Whether `selection` selected `adapter`.
pub open spec fn selects(selection: AdapterSelection, adapter: AdapterId) -> bool {
    adapter == selection.spec_initramfs() || adapter == selection.spec_real_root()
}

fn selection_contains(selection: AdapterSelection, adapter: AdapterId) -> (r: bool)
    ensures
        r == selects(selection, adapter),
{
    adapter == selection.initramfs() || adapter == selection.real_root()
}

fn chars_eq(a: &[char], b: &[char]) -> (r: bool)
    ensures
        r == (a@ == b@),
{
    proof {
        if a@ == b@ {
            assert(a@.subrange(0, b@.len() as int) =~= b@);
        }
    }
    if a.len() == b.len() && seq_has_prefix(a, b) {
        assert(a@ =~= b@);
        true
    } else {
        false
    }
}

// ---------------------------------------------------------------------------
// systemd activation links
// ---------------------------------------------------------------------------

/// The directory suffix and unit directive of a `Wants=` link.
pub const WANTS_SUFFIX: &'static str = ".wants";

pub const WANTED_BY: &'static str = "WantedBy";

/// The directory suffix and unit directive of a `Requires=` link.
pub const REQUIRES_SUFFIX: &'static str = ".requires";

pub const REQUIRED_BY: &'static str = "RequiredBy";

/// The name of the directory that holds the file at `path`, if the file is
/// not directly under the root.
pub open spec fn link_directory(path: Seq<char>) -> Option<Seq<char>> {
    let ps = absolute_pieces(path);
    if ps.len() >= 2 {
        Some(ps[ps.len() - 2])
    } else {
        None
    }
}

/// Whether `line` is a `directive=` line whose whitespace-separated values
/// include `target`.
pub open spec fn line_declares(line: Seq<char>, directive: Seq<char>, target: Seq<char>) -> bool {
    &&& has_prefix(line, directive.push('='))
    &&& split_ws(line.skip(directive.len() as int + 1), true).contains(target)
}

/// Whether some line of `unit` declares `target` under `directive`.
pub open spec fn unit_declares(unit: Seq<char>, directive: Seq<char>, target: Seq<char>) -> bool {
    exists|i: int|
        0 <= i < lines(unit).len() && line_declares(#[trigger] lines(unit)[i], directive, target)
}

/// A systemd link: its source is a whole unit file, the link sits in a
/// `<target><suffix>` directory with a nonempty target, and the unit declares
/// that target under `directive`.
pub open spec fn systemd_activation_ok(
    op: ActivationOperationView,
    unit: Seq<char>,
    suffix: Seq<char>,
    directive: Seq<char>,
) -> bool {
    &&& spec_template_resource(op.source).materialization is File
    &&& link_directory(op.path) matches Some(dir)
    &&& has_suffix(dir, suffix)
    &&& dir.len() > suffix.len()
    &&& unit_declares(unit, directive, dir.take(dir.len() - suffix.len()))
}

/// The components of the normalized absolute path `path`.
fn path_pieces(path: &str) -> (r: Vec<Vec<char>>)
    requires
        spec_is_normalized_absolute_file_path(path@),
    ensures
        r@.map_values(|x: Vec<char>| x@) == absolute_pieces(path@),
{
    let v = chars_of(path);
    let rest = slice_range(v.as_slice(), 1, v.len());
    assert(rest@ =~= path@.drop_first());
    split_on_exec(rest.as_slice(), '/')
}

/// Whether the whitespace-separated names of `value` include `target`.
fn lists_name(value: &[char], target: &[char]) -> (r: bool)
    ensures
        r == split_ws(value@, true).contains(target@),
{
    let names = split_ws_exec(value, true);
    let mut j: usize = 0;
    while j < names.len()
        invariant
            j <= names@.len(),
            names@.len() == split_ws(value@, true).len(),
            forall|k: int| 0 <= k < names@.len() ==> #[trigger] names@[k]@ == split_ws(value@, true)[k],
            forall|k: int| 0 <= k < j ==> split_ws(value@, true)[k] != target@,
        decreases names.len() - j,
    {
        assert(names@[j as int]@ == split_ws(value@, true)[j as int]);
        if chars_eq(names[j].as_slice(), target) {
            return true;
        }
        j = j + 1;
    }
    false
}

/// Whether some `directive=` line of `unit` lists `target`.
fn declares(unit: &str, directive: &str, target: &[char]) -> (r: bool)
    ensures
        r == unit_declares(unit@, directive@, target@),
{
    let u = chars_of(unit);
    let ls = lines_exec(u.as_slice());
    let mut prefix = chars_of(directive);
    prefix.push('=');
    let ghost pv = prefix@;
    assert(pv == directive@.push('='));
    let mut i: usize = 0;
    while i < ls.len()
        invariant
            i <= ls@.len(),
            ls@.len() == lines(unit@).len(),
            forall|k: int| 0 <= k < ls@.len() ==> #[trigger] ls@[k]@ == lines(unit@)[k],
            prefix@ == directive@.push('='),
            forall|k: int|
                0 <= k < i ==> !line_declares(#[trigger] lines(unit@)[k], directive@, target@),
        decreases ls.len() - i,
    {
        let line = &ls[i];
        assert(line@ == lines(unit@)[i as int]);
        if seq_has_prefix(line.as_slice(), prefix.as_slice()) {
            let value = slice_range(line.as_slice(), prefix.len(), line.len());
            assert(value@ =~= line@.skip(directive@.len() as int + 1));
            if lists_name(value.as_slice(), target) {
                assert(line_declares(lines(unit@)[i as int], directive@, target@));
                return true;
            }
        }
        i = i + 1;
    }
    false
}

/// Checks a systemd activation link against the unit it enables.
pub fn validate_systemd_activation(
    operation: &ActivationOperation,
    unit: &str,
    directory_suffix: &str,
    install_directive: &str,
) -> (r: Result<(), InstallError>)
    requires
        spec_is_normalized_absolute_file_path(operation@.path),
    ensures
        r is Ok <==> systemd_activation_ok(
            operation@,
            unit@,
            directory_suffix@,
            install_directive@,
        ),
        r matches Err(e) ==> e is InvalidPlan,
{
    match template_resource(operation.source).materialization {
        TemplateMaterialization::File { .. } => {},
        _ => {
            return Err(invalid("systemd activation targets a non-file template"));
        },
    }
    let pieces = path_pieces(operation.path.as_str());
    assert(pieces@.len() == absolute_pieces(operation@.path).len());
    if pieces.len() < 2 {
        return Err(invalid("systemd activation has no target directory"));
    }
    let dir = &pieces[pieces.len() - 2];
    assert(dir@ == absolute_pieces(operation@.path)[pieces@.len() - 2]);
    let suffix = chars_of(directory_suffix);
    if !seq_has_suffix(dir.as_slice(), suffix.as_slice()) || dir.len() <= suffix.len() {
        return Err(invalid("systemd activation is not in a target directory of its kind"));
    }
    let target = slice_range(dir.as_slice(), 0, dir.len() - suffix.len());
    assert(target@ =~= dir@.take(dir@.len() - suffix@.len()));
    if !declares(unit, install_directive, target.as_slice()) {
        return Err(invalid("systemd activation is not declared by its unit"));
    }
    Ok(())
}


// ---------------------------------------------------------------------------
// OpenRC activation links
// ---------------------------------------------------------------------------

/// Where OpenRC keeps its runlevel directories.
pub const RUNLEVELS_DIR: &'static str = "/etc/runlevels/";

/// The last component of `path`: what follows its last `/`.
pub open spec fn file_name(path: Seq<char>) -> Seq<char> {
    split_on(path, '/').last()
}

/// A runlevel that names one directory below the runlevel root.
pub open spec fn runlevel_ok(r: Seq<char>) -> bool {
    r.len() > 0 && r != seq!['.'] && r != seq!['.', '.'] && !contains_char(r, '/')
}

/// An OpenRC link: its source is an OpenRC service enabled in exactly this
/// runlevel of the real root, and the link is
/// `/etc/runlevels/<runlevel>/<service>`.
pub open spec fn openrc_activation_ok(
    op: ActivationOperationView,
    m: TemplateMaterialization,
    runlevel: &'static str,
) -> bool {
    match m {
        TemplateMaterialization::OpenRcService { path, runlevel: embedded, .. } => {
            &&& op.scope == ActivationScope::RealRoot
            &&& runlevel@ == embedded@
            &&& runlevel_ok(runlevel@)
            &&& op.path == RUNLEVELS_DIR@ + runlevel@ + seq!['/'] + file_name(path@)
        },
        _ => false,
    }
}

fn is_runlevel_name(r: &str) -> (b: bool)
    ensures
        b == runlevel_ok(r@),
{
    let v = chars_of(r);
    if v.len() == 0 || str_contains_char(r, '/') {
        return false;
    }
    if v.len() == 1 && v[0] == '.' {
        assert(v@ =~= seq!['.']);
        return false;
    }
    if v.len() == 2 && v[0] == '.' && v[1] == '.' {
        assert(v@ =~= seq!['.', '.']);
        return false;
    }
    proof {
        if v@ == seq!['.'] {
            assert(v@[0] == '.');
        }
        if v@ == seq!['.', '.'] {
            assert(v@[0] == '.' && v@[1] == '.');
        }
    }
    true
}

/// The last component of `path`.
fn file_name_of(path: &str) -> (r: String)
    ensures
        r@ == file_name(path@),
{
    let v = chars_of(path);
    let parts = split_on_exec(v.as_slice(), '/');
    proof {
        lemma_split_on_nonempty(path@, '/');
        assert(parts@.len() == split_on(path@, '/').len());
        assert(parts@[parts@.len() - 1]@ == split_on(path@, '/').last());
    }
    string_from_chars(parts[parts.len() - 1].as_slice())
}

/// Checks an OpenRC activation link against the service it enables.
pub fn validate_openrc_activation(
    operation: &ActivationOperation,
    m: TemplateMaterialization,
    runlevel: &'static str,
) -> (r: Result<(), InstallError>)
    ensures
        r is Ok <==> openrc_activation_ok(operation@, m, runlevel),
        r matches Err(e) ==> e is InvalidPlan,
{
    let (path, embedded) = match m {
        TemplateMaterialization::OpenRcService { path, runlevel: embedded, .. } => (path, embedded),
        _ => {
            return Err(invalid("activation claims an OpenRC runlevel for a non-OpenRC source"));
        },
    };
    if operation.scope != ActivationScope::RealRoot || !str_eq(runlevel, embedded) {
        return Err(invalid("activation differs from embedded OpenRC runlevel metadata"));
    }
    if !is_runlevel_name(runlevel) {
        return Err(invalid("activation has an invalid OpenRC runlevel"));
    }
    let service = file_name_of(path);
    let dir = concat3(RUNLEVELS_DIR, runlevel, "/");
    let expected = concat2(dir.as_str(), service.as_str());
    proof {
        reveal_strlit("/");
    }
    assert(expected@ =~= RUNLEVELS_DIR@ + runlevel@ + seq!['/'] + file_name(path@));
    if !str_eq(operation.path.as_str(), expected.as_str()) {
        return Err(invalid("OpenRC activation is not at its runlevel link path"));
    }
    Ok(())
}

// ---------------------------------------------------------------------------
// Activation records
// ---------------------------------------------------------------------------

/// The file a whole-file resource is materialized at; none for a snippet.
pub open spec fn source_file_path(m: TemplateMaterialization) -> Option<&'static str> {
    match m {
        TemplateMaterialization::File { path, .. } => Some(path),
        TemplateMaterialization::OpenRcService { path, .. } => Some(path),
        TemplateMaterialization::ManagedSnippet { .. } => None,
    }
}

/// A well-formed activation record of `selection`: owned by a selected
/// adapter and its resource, root-owned with a previous state its scope
/// allows, at a normalized path, resolving exactly to the resource's file,
/// and matching the resource's own enablement metadata.
pub open spec fn activation_valid(selection: AdapterSelection, op: ActivationOperationView) -> bool {
    let res = spec_template_resource(op.source);
    let resolved = spec_resolve_relative_activation_target(op.path, op.relative_target);
    &&& selects(selection, op.adapter)
    &&& spec_adapter_resources(op.adapter).contains(op.source)
    &&& op.owner_uid == 0
    &&& (op.scope == ActivationScope::GeneratedInitramfs ==> op.expected_previous
        == ExpectedPreviousState::Uninspected)
    &&& spec_is_normalized_absolute_file_path(op.path)
    &&& resolved is Some
    &&& source_file_path(res.materialization) is Some
    &&& resolved->0 == source_file_path(res.materialization)->0@
    &&& match op.relation {
        ActivationRelation::SystemdWants => systemd_activation_ok(
            op,
            res.contents@,
            WANTS_SUFFIX@,
            WANTED_BY@,
        ),
        ActivationRelation::SystemdRequires => systemd_activation_ok(
            op,
            res.contents@,
            REQUIRES_SUFFIX@,
            REQUIRED_BY@,
        ),
        ActivationRelation::OpenRcRunlevel { runlevel } => openrc_activation_ok(
            op,
            res.materialization,
            runlevel,
        ),
    }
}

/// Checks one activation record of a plan for `selection`.
pub fn validate_activation_operation(
    selection: AdapterSelection,
    operation: &ActivationOperation,
) -> (r: Result<(), InstallError>)
    ensures
        r is Ok <==> activation_valid(selection, operation@),
        r matches Err(e) ==> e is InvalidPlan,
{
    if !selection_contains(selection, operation.adapter) {
        return Err(invalid("activation is owned by an unselected adapter"));
    }
    if !adapter_owns(operation.adapter, operation.source) {
        return Err(invalid("activation source is not owned by its adapter"));
    }
    let previous_is_valid = match operation.scope {
        ActivationScope::GeneratedInitramfs => operation.expected_previous
            == ExpectedPreviousState::Uninspected,
        ActivationScope::RealRoot => true,
    };
    if operation.owner_uid != 0 || !previous_is_valid {
        return Err(
            invalid("activation has an invalid owner or previous state for its filesystem scope"),
        );
    }
    match validate_absolute_activation_path(operation.path.as_str()) {
        Ok(()) => {},
        Err(e) => {
            return Err(e);
        },
    }
    let resolved = match resolve_relative_activation_target(
        operation.path.as_str(),
        operation.relative_target.as_str(),
    ) {
        Ok(s) => s,
        Err(e) => {
            return Err(e);
        },
    };
    let resource = template_resource(operation.source);
    let source_path = match resource.materialization {
        TemplateMaterialization::File { path, .. } => path,
        TemplateMaterialization::OpenRcService { path, .. } => path,
        TemplateMaterialization::ManagedSnippet { .. } => {
            return Err(invalid("a managed snippet cannot be an activation-link target"));
        },
    };
    if !str_eq(resolved.as_str(), source_path) {
        return Err(invalid("activation does not resolve to its source file"));
    }
    match operation.relation {
        ActivationRelation::SystemdWants => validate_systemd_activation(
            operation,
            resource.contents,
            WANTS_SUFFIX,
            WANTED_BY,
        ),
        ActivationRelation::SystemdRequires => validate_systemd_activation(
            operation,
            resource.contents,
            REQUIRES_SUFFIX,
            REQUIRED_BY,
        ),
        ActivationRelation::OpenRcRunlevel { runlevel } => validate_openrc_activation(
            operation,
            resource.materialization,
            runlevel,
        ),
    }
}


// ---------------------------------------------------------------------------
// Managed snippets
// ---------------------------------------------------------------------------

/// A preview-only edit of an adapter-owned insertion point in a shared file.
/// The target is never a whole-file payload: its contents must be inspected
/// and patched before the edit could run.
#[derive(Debug, Clone, PartialEq, Eq)]
pub struct ManagedSnippetOperation {
    adapter: AdapterId,
    target: String,
    insertion_point: String,
    digest: Sha256Digest,
    source: TemplateId,
    expected_previous: ExpectedPreviousState,
}

/// A managed-snippet record as plain values.
pub struct ManagedSnippetOperationView {
    pub adapter: AdapterId,
    pub target: Seq<char>,
    pub insertion_point: Seq<char>,
    pub digest: Sha256Digest,
    pub source: TemplateId,
    pub expected_previous: ExpectedPreviousState,
}

impl View for ManagedSnippetOperation {
    type V = ManagedSnippetOperationView;

    closed spec fn view(&self) -> ManagedSnippetOperationView {
        ManagedSnippetOperationView {
            adapter: self.adapter,
            target: self.target@,
            insertion_point: self.insertion_point@,
            digest: self.digest,
            source: self.source,
            expected_previous: self.expected_previous,
        }
    }
}

impl ManagedSnippetOperation {
    /// A managed-snippet record with the given fields.
    pub fn new(
        adapter: AdapterId,
        target: String,
        insertion_point: String,
        digest: Sha256Digest,
        source: TemplateId,
        expected_previous: ExpectedPreviousState,
    ) -> (r: ManagedSnippetOperation)
        ensures
            r@ == (ManagedSnippetOperationView {
                adapter,
                target: target@,
                insertion_point: insertion_point@,
                digest,
                source,
                expected_previous,
            }),
    {
        ManagedSnippetOperation { adapter, target, insertion_point, digest, source, expected_previous }
    }

    pub fn adapter(&self) -> (r: AdapterId)
        ensures
            r == self@.adapter,
    {
        self.adapter
    }

    pub fn target(&self) -> (r: &str)
        ensures
            r@ == self@.target,
    {
        self.target.as_str()
    }

    pub fn insertion_point(&self) -> (r: &str)
        ensures
            r@ == self@.insertion_point,
    {
        self.insertion_point.as_str()
    }

    pub fn digest(&self) -> (r: Sha256Digest)
        ensures
            r == self@.digest,
    {
        self.digest
    }

    pub fn source(&self) -> (r: TemplateId)
        ensures
            r == self@.source,
    {
        self.source
    }

    pub fn expected_previous(&self) -> (r: ExpectedPreviousState)
        ensures
            r == self@.expected_previous,
    {
        self.expected_previous
    }
}

/// The digest of an embedded resource's contents.
pub open spec fn resource_digest(id: TemplateId) -> Sha256Digest {
    spec_sha256(encode_utf8(spec_template_resource(id).contents@))
}

fn resource_digest_exec(id: TemplateId) -> (d: Sha256Digest)
    ensures
        d == resource_digest(id),
{
    let bytes = str_bytes(template_resource(id).contents);
    sha256(bytes.as_slice())
}

/// A well-formed managed-snippet record of `selection`: owned by a selected
/// adapter and its resource, not yet inspected, equal to the resource's
/// target, insertion point and digest, at a normalized target path, with an
/// insertion point of ASCII alphanumerics, `-`, `_` and `.`.
pub open spec fn snippet_valid(selection: AdapterSelection, op: ManagedSnippetOperationView) -> bool {
    let res = spec_template_resource(op.source);
    &&& selects(selection, op.adapter)
    &&& spec_adapter_resources(op.adapter).contains(op.source)
    &&& op.expected_previous == ExpectedPreviousState::Uninspected
    &&& res.materialization matches TemplateMaterialization::ManagedSnippet {
        target,
        insertion_point,
    }
    &&& op.target == target@
    &&& op.insertion_point == insertion_point@
    &&& op.digest == resource_digest(op.source)
    &&& spec_is_normalized_absolute_file_path(op.target)
    &&& op.insertion_point.len() > 0
    &&& all_in_class(op.insertion_point, CharClass::InsertionPoint)
}

/// Checks one managed-snippet record of a plan for `selection`.
pub fn validate_managed_snippet_operation(
    selection: AdapterSelection,
    operation: &ManagedSnippetOperation,
) -> (r: Result<(), InstallError>)
    ensures
        r is Ok <==> snippet_valid(selection, operation@),
        r matches Err(e) ==> e is InvalidPlan,
{
    if !selection_contains(selection, operation.adapter) || !adapter_owns(
        operation.adapter,
        operation.source,
    ) {
        return Err(invalid("managed snippet is not owned by a selected adapter"));
    }
    if operation.expected_previous != ExpectedPreviousState::Uninspected {
        return Err(invalid("managed snippet claims an inspected previous state"));
    }
    let resource = template_resource(operation.source);
    let (target, insertion_point) = match resource.materialization {
        TemplateMaterialization::ManagedSnippet { target, insertion_point } => (
            target,
            insertion_point,
        ),
        _ => {
            return Err(invalid("managed snippet source is not managed-snippet metadata"));
        },
    };
    if !str_eq(operation.target.as_str(), target) || !str_eq(
        operation.insertion_point.as_str(),
        insertion_point,
    ) || operation.digest != resource_digest_exec(operation.source) {
        return Err(invalid("managed snippet differs from embedded metadata"));
    }
    if !crate::activation::is_normalized_absolute_file_path(operation.target.as_str()) {
        return Err(invalid("managed snippet target is not a normalized absolute file path"));
    }
    let point = chars_of(operation.insertion_point.as_str());
    if point.len() == 0 || !crate::text::all_chars_in_class(
        point.as_slice(),
        CharClass::InsertionPoint,
    ) {
        return Err(invalid("managed snippet has an unsafe insertion-point name"));
    }
    Ok(())
}


// ---------------------------------------------------------------------------
// The records a selection plans
// ---------------------------------------------------------------------------

/// The snippet record `adapter` plans for its resource `id`, if `id` is a
/// managed snippet.
pub open spec fn snippet_of(adapter: AdapterId, id: TemplateId) -> Option<ManagedSnippetOperationView> {
    match spec_template_resource(id).materialization {
        TemplateMaterialization::ManagedSnippet { target, insertion_point } => Some(
            ManagedSnippetOperationView {
                adapter,
                target: target@,
                insertion_point: insertion_point@,
                digest: resource_digest(id),
                source: id,
                expected_previous: ExpectedPreviousState::Uninspected,
            },
        ),
        _ => None,
    }
}

/// The snippet records `adapter` plans for the resources `ids`, in order.
pub open spec fn snippets_of(adapter: AdapterId, ids: Seq<TemplateId>) -> Seq<
    ManagedSnippetOperationView,
>
    decreases ids.len(),
{
    if ids.len() == 0 {
        seq![]
    } else {
        snippets_of(adapter, ids.drop_last()) + match snippet_of(adapter, ids.last()) {
            Some(v) => seq![v],
            None => seq![],
        }
    }
}

/// The snippet records of `selection`: the initramfs adapter's, then the
/// real-root adapter's, each in resource order.  For the embedded resources
/// this is also the order by target and insertion point.
pub open spec fn spec_snippet_operations(selection: AdapterSelection) -> Seq<
    ManagedSnippetOperationView,
> {
    snippets_of(selection.spec_initramfs(), spec_adapter_resources(selection.spec_initramfs()))
        + snippets_of(selection.spec_real_root(), spec_adapter_resources(selection.spec_real_root()))
}

pub open spec fn snippet_views(v: Seq<ManagedSnippetOperation>) -> Seq<ManagedSnippetOperationView> {
    v.map_values(|o: ManagedSnippetOperation| o@)
}

fn push_adapter_snippets(out: &mut Vec<ManagedSnippetOperation>, adapter: AdapterId)
    ensures
        snippet_views(final(out)@) == snippet_views(old(out)@) + snippets_of(
            adapter,
            spec_adapter_resources(adapter),
        ),
{
    let ids = adapter_resources(adapter);
    let ghost start = snippet_views(out@);
    let mut i: usize = 0;
    while i < ids.len()
        invariant
            i <= ids@.len(),
            ids@ == spec_adapter_resources(adapter),
            snippet_views(out@) == start + snippets_of(adapter, ids@.take(i as int)),
        decreases ids.len() - i,
    {
        let id = ids[i];
        let resource = template_resource(id);
        assert(ids@.take(i as int + 1).drop_last() =~= ids@.take(i as int));
        assert(ids@.take(i as int + 1).last() == id);
        let ghost before = out@;
        match resource.materialization {
            TemplateMaterialization::ManagedSnippet { target, insertion_point } => {
                let op = ManagedSnippetOperation {
                    adapter,
                    target: owned(target),
                    insertion_point: owned(insertion_point),
                    digest: resource_digest_exec(id),
                    source: id,
                    expected_previous: ExpectedPreviousState::Uninspected,
                };
                out.push(op);
                assert(snippet_views(out@) =~= snippet_views(before).push(op@));
            },
            _ => {},
        }
        assert(snippet_views(out@) =~= start + snippets_of(adapter, ids@.take(i as int + 1)));
        i = i + 1;
    }
    assert(ids@.take(ids@.len() as int) =~= ids@);
}

/// The managed-snippet records a plan for `selection` carries.
pub fn managed_snippet_operations_for_selection(selection: AdapterSelection) -> (r: Vec<
    ManagedSnippetOperation,
>)
    ensures
        snippet_views(r@) == spec_snippet_operations(selection),
{
    let mut out: Vec<ManagedSnippetOperation> = Vec::new();
    assert(snippet_views(out@) =~= Seq::<ManagedSnippetOperationView>::empty());
    push_adapter_snippets(&mut out, selection.initramfs());
    push_adapter_snippets(&mut out, selection.real_root());
    out
}


/// How an activation spec enables its source.
#[derive(Debug, Clone, Copy, PartialEq, Eq, Structural)]
pub enum ActivationSpecKind {
    SystemdWants,
    OpenRcRunlevel,
}

/// One row of the exact adapter-owned activation inventory.  Nothing is
/// inferred from a supervisor family: an OpenRC runlevel comes from the
/// source's embedded metadata and is then checked against the link path.
#[derive(Debug, Clone, Copy, PartialEq, Eq)]
pub struct ActivationSpec {
    pub adapter: AdapterId,
    pub scope: ActivationScope,
    pub kind: ActivationSpecKind,
    pub source: TemplateId,
    pub path: &'static str,
    pub relative_target: &'static str,
}

/// The activation inventory, ordered by scope, then path.  The quit unit of
/// the systemd real root is the only link that sends `bootart quit`.
pub open spec fn spec_activation_specs() -> Seq<ActivationSpec> {
    seq![
        ActivationSpec {
            adapter: AdapterId::DracutSystemd,
            scope: ActivationScope::GeneratedInitramfs,
            kind: ActivationSpecKind::SystemdWants,
            source: TemplateId::SystemdSwitchRootUnit,
            path: "/usr/lib/systemd/system/initrd-switch-root.target.wants/bootart-switch-root.service",
            relative_target: "../bootart-switch-root.service",
        },
        ActivationSpec {
            adapter: AdapterId::DracutSystemd,
            scope: ActivationScope::GeneratedInitramfs,
            kind: ActivationSpecKind::SystemdWants,
            source: TemplateId::SystemdShowUnit,
            path: "/usr/lib/systemd/system/initrd.target.wants/bootart-show.service",
            relative_target: "../bootart-show.service",
        },
        ActivationSpec {
            adapter: AdapterId::DracutSystemd,
            scope: ActivationScope::GeneratedInitramfs,
            kind: ActivationSpecKind::SystemdWants,
            source: TemplateId::SystemdStartUnit,
            path: "/usr/lib/systemd/system/initrd.target.wants/bootart-start.service",
            relative_target: "../bootart-start.service",
        },
        ActivationSpec {
            adapter: AdapterId::OpenRcRealRoot,
            scope: ActivationScope::RealRoot,
            kind: ActivationSpecKind::OpenRcRunlevel,
            source: TemplateId::OpenRcSupervisorScript,
            path: "/etc/runlevels/boot/bootart",
            relative_target: "../../init.d/bootart",
        },
        ActivationSpec {
            adapter: AdapterId::OpenRcRealRoot,
            scope: ActivationScope::RealRoot,
            kind: ActivationSpecKind::OpenRcRunlevel,
            source: TemplateId::OpenRcQuitScript,
            path: "/etc/runlevels/default/bootart-quit",
            relative_target: "../../init.d/bootart-quit",
        },
        ActivationSpec {
            adapter: AdapterId::SystemdRealRoot,
            scope: ActivationScope::RealRoot,
            kind: ActivationSpecKind::SystemdWants,
            source: TemplateId::SystemdQuitUnit,
            path: "/etc/systemd/system/multi-user.target.wants/bootart-quit.service",
            relative_target: "../../../../usr/lib/systemd/system/bootart-quit.service",
        },
    ]
}

/// The activation inventory.
pub fn activation_specs() -> (v: Vec<ActivationSpec>)
    ensures
        v@ == spec_activation_specs(),
{
    let v = vec![
        ActivationSpec {
            adapter: AdapterId::DracutSystemd,
            scope: ActivationScope::GeneratedInitramfs,
            kind: ActivationSpecKind::SystemdWants,
            source: TemplateId::SystemdSwitchRootUnit,
            path: "/usr/lib/systemd/system/initrd-switch-root.target.wants/bootart-switch-root.service",
            relative_target: "../bootart-switch-root.service",
        },
        ActivationSpec {
            adapter: AdapterId::DracutSystemd,
            scope: ActivationScope::GeneratedInitramfs,
            kind: ActivationSpecKind::SystemdWants,
            source: TemplateId::SystemdShowUnit,
            path: "/usr/lib/systemd/system/initrd.target.wants/bootart-show.service",
            relative_target: "../bootart-show.service",
        },
        ActivationSpec {
            adapter: AdapterId::DracutSystemd,
            scope: ActivationScope::GeneratedInitramfs,
            kind: ActivationSpecKind::SystemdWants,
            source: TemplateId::SystemdStartUnit,
            path: "/usr/lib/systemd/system/initrd.target.wants/bootart-start.service",
            relative_target: "../bootart-start.service",
        },
        ActivationSpec {
            adapter: AdapterId::OpenRcRealRoot,
            scope: ActivationScope::RealRoot,
            kind: ActivationSpecKind::OpenRcRunlevel,
            source: TemplateId::OpenRcSupervisorScript,
            path: "/etc/runlevels/boot/bootart",
            relative_target: "../../init.d/bootart",
        },
        ActivationSpec {
            adapter: AdapterId::OpenRcRealRoot,
            scope: ActivationScope::RealRoot,
            kind: ActivationSpecKind::OpenRcRunlevel,
            source: TemplateId::OpenRcQuitScript,
            path: "/etc/runlevels/default/bootart-quit",
            relative_target: "../../init.d/bootart-quit",
        },
        ActivationSpec {
            adapter: AdapterId::SystemdRealRoot,
            scope: ActivationScope::RealRoot,
            kind: ActivationSpecKind::SystemdWants,
            source: TemplateId::SystemdQuitUnit,
            path: "/etc/systemd/system/multi-user.target.wants/bootart-quit.service",
            relative_target: "../../../../usr/lib/systemd/system/bootart-quit.service",
        },
    ];
    assert(v@ =~= spec_activation_specs());
    v
}

/// The relation a spec's link has; none for an OpenRC spec whose source is
/// not an OpenRC service.
pub open spec fn spec_relation_of(spec: ActivationSpec) -> Option<ActivationRelation> {
    match spec.kind {
        ActivationSpecKind::SystemdWants => Some(ActivationRelation::SystemdWants),
        ActivationSpecKind::OpenRcRunlevel => match spec_template_resource(
            spec.source,
        ).materialization {
            TemplateMaterialization::OpenRcService { runlevel, .. } => Some(
                ActivationRelation::OpenRcRunlevel { runlevel },
            ),
            _ => None,
        },
    }
}

/// The record a spec plans, given its relation.
pub open spec fn activation_of(spec: ActivationSpec, relation: ActivationRelation) -> ActivationOperationView {
    ActivationOperationView {
        adapter: spec.adapter,
        scope: spec.scope,
        relation,
        path: spec.path@,
        relative_target: spec.relative_target@,
        owner_uid: 0,
        source: spec.source,
        expected_previous: ExpectedPreviousState::Uninspected,
    }
}

/// The records the specs of selected adapters plan, in spec order; none if
/// a selected OpenRC spec's source is not an OpenRC service.
pub open spec fn activations_of(selection: AdapterSelection, specs: Seq<ActivationSpec>) -> Option<
    Seq<ActivationOperationView>,
>
    decreases specs.len(),
{
    if specs.len() == 0 {
        Some(seq![])
    } else {
        let s = specs.last();
        match activations_of(selection, specs.drop_last()) {
            None => None,
            Some(prev) => if !selects(selection, s.adapter) {
                Some(prev)
            } else {
                match spec_relation_of(s) {
                    Some(rel) => Some(prev.push(activation_of(s, rel))),
                    None => None,
                }
            },
        }
    }
}

/// The activation records of `selection`, ordered by scope, then path.
pub open spec fn spec_activation_operations(selection: AdapterSelection) -> Option<
    Seq<ActivationOperationView>,
> {
    activations_of(selection, spec_activation_specs())
}

pub open spec fn activation_views(v: Seq<ActivationOperation>) -> Seq<ActivationOperationView> {
    v.map_values(|o: ActivationOperation| o@)
}

fn relation_of(spec: ActivationSpec) -> (r: Option<ActivationRelation>)
    ensures
        r == spec_relation_of(spec),
{
    match spec.kind {
        ActivationSpecKind::SystemdWants => Some(ActivationRelation::SystemdWants),
        ActivationSpecKind::OpenRcRunlevel => match template_resource(spec.source).materialization {
            TemplateMaterialization::OpenRcService { runlevel, .. } => Some(
                ActivationRelation::OpenRcRunlevel { runlevel },
            ),
            _ => None,
        },
    }
}

/// The activation records a plan for `selection` carries.
pub fn activation_operations_for_selection(selection: AdapterSelection) -> (r: Result<
    Vec<ActivationOperation>,
    InstallError,
>)
    ensures
        r is Ok <==> spec_activation_operations(selection) is Some,
        r matches Ok(v) ==> Some(activation_views(v@)) == spec_activation_operations(selection),
        r matches Err(e) ==> e is InvalidPlan,
{
    let specs = activation_specs();
    let mut out: Vec<ActivationOperation> = Vec::new();
    let mut i: usize = 0;
    assert(specs@.take(0) =~= Seq::<ActivationSpec>::empty());
    assert(activation_views(out@) =~= Seq::<ActivationOperationView>::empty());
    while i < specs.len()
        invariant
            i <= specs@.len(),
            specs@ == spec_activation_specs(),
            activations_of(selection, specs@.take(i as int)) == Some(activation_views(out@)),
        decreases specs.len() - i,
    {
        let spec = specs[i];
        assert(specs@.take(i as int + 1).drop_last() =~= specs@.take(i as int));
        assert(specs@.take(i as int + 1).last() == spec);
        if selection_contains(selection, spec.adapter) {
            let relation = match relation_of(spec) {
                Some(rel) => rel,
                None => {
                    proof {
                        lemma_activations_fail(selection, specs@, i as int + 1);
                    }
                    return Err(invalid("OpenRC activation source is not an OpenRC service"));
                },
            };
            let ghost before = out@;
            let op = ActivationOperation::new(
                spec.adapter,
                spec.scope,
                relation,
                owned(spec.path),
                owned(spec.relative_target),
                0,
                spec.source,
                ExpectedPreviousState::Uninspected,
            );
            out.push(op);
            assert(activation_views(out@) =~= activation_views(before).push(op@));
        }
        i = i + 1;
    }
    assert(specs@.take(specs@.len() as int) =~= specs@);
    Ok(out)
}

/// Once a prefix of the specs plans nothing, the whole inventory plans
/// nothing.
proof fn lemma_activations_fail(selection: AdapterSelection, specs: Seq<ActivationSpec>, n: int)
    requires
        0 <= n <= specs.len(),
        activations_of(selection, specs.take(n)) is None,
    ensures
        activations_of(selection, specs) is None,
    decreases specs.len() - n,
{
    if n < specs.len() {
        assert(specs.take(n + 1).drop_last() =~= specs.take(n));
        lemma_activations_fail(selection, specs, n + 1);
    } else {
        assert(specs.take(n) =~= specs);
    }
}

} // verus!
