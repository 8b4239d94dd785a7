//! What an install or uninstall transaction writes, decided from the plan
//! and from what the caller read: the ordered actions of an installation,
//! the journal entries that record each destination's pre-image, the
//! manifest committed at the end, the report of an uninstallation, and
//! the preflight of a fresh installation.  The caller performs the reads
//! and writes; the step machines of [`crate::transaction`] say in which
//! order.

use crate::digest::{sha256, spec_sha256, Sha256Digest};
use crate::error::{invalid, InstallError};
use crate::install_plan::{InstallPlan, InstallPlanView};
use crate::manifest::{path_lt, path_lt_exec, Manifest, ManifestEntry, ManifestEntryView, ManifestInventoryState};
use crate::operations::{ActivationOperationView, ActivationScope, ManagedSnippetOperationView};
use crate::plan::{op_views, PlanOperationView};
use crate::state::{Preimage, PreimageView};
use crate::text::{owned, str_bytes, str_eq, string_views};
use crate::journal::{EntryProgress, JournalEntry, JournalEntryView};
use crate::root::NodeKind;
use crate::status::{InstalledFileStatus, InstalledFileStatusView};
use vstd::prelude::*;
use vstd::utf8::*;

verus! {

/// One destination an installation writes.
#[derive(Debug, Clone, PartialEq, Eq)]
pub enum InstallAction {
    /// A whole-file payload.
    File { path: String, mode: u32, digest: Sha256Digest, content: Vec<u8> },
    /// A shared file with the selected adapters' snippets inserted.
    PatchedFile { path: String, mode: u32, digest: Sha256Digest, content: Vec<u8> },
    /// A real-root activation link.
    Symlink { path: String, target: String },
}

/// An action as plain values.
pub enum InstallActionView {
    File { path: Seq<char>, mode: u32, digest: Sha256Digest, content: Seq<u8> },
    PatchedFile { path: Seq<char>, mode: u32, digest: Sha256Digest, content: Seq<u8> },
    Symlink { path: Seq<char>, target: Seq<char> },
}

impl View for InstallAction {
    type V = InstallActionView;

    open spec fn view(&self) -> InstallActionView {
        match self {
            InstallAction::File { path, mode, digest, content } => InstallActionView::File {
                path: path@,
                mode: *mode,
                digest: *digest,
                content: content@,
            },
            InstallAction::PatchedFile { path, mode, digest, content } => InstallActionView::PatchedFile {
                path: path@,
                mode: *mode,
                digest: *digest,
                content: content@,
            },
            InstallAction::Symlink { path, target } => InstallActionView::Symlink {
                path: path@,
                target: target@,
            },
        }
    }
}

impl InstallAction {
    /// The destination the action writes.
    pub fn path(&self) -> (r: &str)
        ensures
            r@ == action_path(self@),
    {
        match self {
            InstallAction::File { path, .. } => path.as_str(),
            InstallAction::PatchedFile { path, .. } => path.as_str(),
            InstallAction::Symlink { path, .. } => path.as_str(),
        }
    }
}

pub open spec fn action_path(a: InstallActionView) -> Seq<char> {
    match a {
        InstallActionView::File { path, .. } => path,
        InstallActionView::PatchedFile { path, .. } => path,
        InstallActionView::Symlink { path, .. } => path,
    }
}

pub open spec fn action_views(v: Seq<InstallAction>) -> Seq<InstallActionView> {
    v.map_values(|a: InstallAction| a@)
}

/// What the caller read of one managed shared file: its bytes and mode.
#[derive(Debug, Clone, PartialEq, Eq)]
pub struct SnippetSource {
    pub target: String,
    pub bytes: Vec<u8>,
    pub mode: u32,
}

pub struct SnippetSourceView {
    pub target: Seq<char>,
    pub bytes: Seq<u8>,
    pub mode: u32,
}

impl View for SnippetSource {
    type V = SnippetSourceView;

    open spec fn view(&self) -> SnippetSourceView {
        SnippetSourceView { target: self.target@, bytes: self.bytes@, mode: self.mode }
    }
}

pub open spec fn source_views(v: Seq<SnippetSource>) -> Seq<SnippetSourceView> {
    v.map_values(|s: SnippetSource| s@)
}

// ---------------------------------------------------------------------------
// Ordering by destination
// ---------------------------------------------------------------------------

/// `a` placed after every action whose path is not after its own: the step
/// of a stable insertion sort by path.
pub open spec fn insert_by_path(s: Seq<InstallActionView>, a: InstallActionView) -> Seq<InstallActionView>
    decreases s.len(),
{
    if s.len() == 0 {
        seq![a]
    } else if path_lt(action_path(a), action_path(s[0])) {
        seq![a] + s
    } else {
        seq![s[0]] + insert_by_path(s.drop_first(), a)
    }
}

/// The actions stably sorted by path: equal paths keep their order.
pub open spec fn sort_by_path(v: Seq<InstallActionView>) -> Seq<InstallActionView>
    decreases v.len(),
{
    if v.len() == 0 {
        seq![]
    } else {
        insert_by_path(sort_by_path(v.drop_last()), v.last())
    }
}

proof fn lemma_insert_by_path_at(s: Seq<InstallActionView>, a: InstallActionView, i: int)
    requires
        0 <= i <= s.len(),
        forall|j: int| 0 <= j < i ==> !path_lt(action_path(a), action_path(#[trigger] s[j])),
        i < s.len() ==> path_lt(action_path(a), action_path(s[i])),
    ensures
        insert_by_path(s, a) == s.insert(i, a),
    decreases i,
{
    if s.len() == 0 {
        assert(s.insert(0, a) =~= seq![a]);
    } else if i == 0 {
        assert(seq![a] + s =~= s.insert(0, a));
    } else {
        let t = s.drop_first();
        assert forall|j: int| 0 <= j < i - 1 implies !path_lt(action_path(a), action_path(#[trigger] t[j])) by {
            assert(t[j] == s[j + 1]);
        }
        if i < s.len() {
            assert(t[i - 1] == s[i]);
        }
        lemma_insert_by_path_at(t, a, i - 1);
        assert(seq![s[0]] + t.insert(i - 1, a) =~= s.insert(i, a));
    }
}

fn insert_action_by_path(v: &mut Vec<InstallAction>, a: InstallAction)
    ensures
        action_views(final(v)@) == insert_by_path(action_views(old(v)@), a@),
{
    let ghost s = action_views(v@);
    let mut i: usize = 0;
    while i < v.len() && !path_lt_exec(a.path(), v[i].path())
        invariant
            i <= v@.len(),
            s == action_views(v@),
            forall|j: int| 0 <= j < i ==> !path_lt(action_path(a@), action_path(#[trigger] s[j])),
        decreases v.len() - i,
    {
        assert(s[i as int] == v@[i as int]@);
        i = i + 1;
    }
    proof {
        if i < v@.len() {
            assert(s[i as int] == v@[i as int]@);
        }
        lemma_insert_by_path_at(s, a@, i as int);
    }
    let ghost av = a@;
    v.insert(i, a);
    assert(action_views(v@) =~= s.insert(i as int, av));
}

/// Sorts `v` stably by destination path.
fn sort_actions(v: Vec<InstallAction>) -> (r: Vec<InstallAction>)
    ensures
        action_views(r@) == sort_by_path(action_views(v@)),
{
    let ghost vv = action_views(v@);
    let mut out: Vec<InstallAction> = Vec::new();
    let rest = v;
    let n = rest.len();
    let mut i: usize = 0;
    assert(vv.take(0) =~= Seq::<InstallActionView>::empty());
    while i < n
        invariant
            i <= n == rest@.len(),
            vv == action_views(rest@),
            action_views(out@) == sort_by_path(vv.take(i as int)),
        decreases n - i,
    {
        let a = rest[i].clone_action();
        proof {
            assert(vv.take(i as int + 1).drop_last() =~= vv.take(i as int));
            assert(vv.take(i as int + 1).last() == rest@[i as int]@);
        }
        insert_action_by_path(&mut out, a);
        i = i + 1;
    }
    assert(vv.take(n as int) =~= vv);
    out
}

fn bytes_copy(b: &[u8]) -> (r: Vec<u8>)
    ensures
        r@ == b@,
{
    let mut out: Vec<u8> = Vec::new();
    let mut i: usize = 0;
    while i < b.len()
        invariant
            i <= b@.len(),
            out@ == b@.take(i as int),
        decreases b.len() - i,
    {
        out.push(b[i]);
        assert(b@.take(i as int + 1) =~= b@.take(i as int).push(b@[i as int]));
        i = i + 1;
    }
    assert(b@.take(b@.len() as int) =~= b@);
    out
}

impl InstallAction {
    /// A copy of the action.
    pub fn clone_action(&self) -> (r: InstallAction)
        ensures
            r@ == self@,
    {
        match self {
            InstallAction::File { path, mode, digest, content } => InstallAction::File {
                path: owned(path.as_str()),
                mode: *mode,
                digest: *digest,
                content: bytes_copy(content.as_slice()),
            },
            InstallAction::PatchedFile { path, mode, digest, content } => InstallAction::PatchedFile {
                path: owned(path.as_str()),
                mode: *mode,
                digest: *digest,
                content: bytes_copy(content.as_slice()),
            },
            InstallAction::Symlink { path, target } => InstallAction::Symlink {
                path: owned(path.as_str()),
                target: owned(target.as_str()),
            },
        }
    }
}

// ---------------------------------------------------------------------------
// The actions of an installation
// ---------------------------------------------------------------------------

/// One whole-file action per payload, in plan order.
pub open spec fn file_actions(ops: Seq<PlanOperationView>) -> Seq<InstallActionView> {
    ops.map_values(
        |o: PlanOperationView|
            InstallActionView::File { path: o.path, mode: o.mode, digest: o.digest, content: o.content },
    )
}

/// One link per real-root activation, in plan order.
pub open spec fn link_actions(acts: Seq<ActivationOperationView>) -> Seq<InstallActionView>
    decreases acts.len(),
{
    if acts.len() == 0 {
        seq![]
    } else if acts.last().scope == ActivationScope::RealRoot {
        link_actions(acts.drop_last()).push(
            InstallActionView::Symlink { path: acts.last().path, target: acts.last().relative_target },
        )
    } else {
        link_actions(acts.drop_last())
    }
}

/// The shared files the snippets edit, each once, in path order.
pub open spec fn managed_targets(snips: Seq<ManagedSnippetOperationView>) -> Seq<Seq<char>> {
    crate::ordering::sort_from(
        Seq::empty(),
        snips.map_values(|o: ManagedSnippetOperationView| o.target),
        crate::install_plan::path_order(),
    )
}

/// How many snippets of the mkinitfs adapter edit `target`: each is one
/// application of the init patch.
pub open spec fn mkinitfs_patches(snips: Seq<ManagedSnippetOperationView>, target: Seq<char>) -> nat
    decreases snips.len(),
{
    if snips.len() == 0 {
        0
    } else {
        mkinitfs_patches(snips.drop_last(), target) + if snips.last().target == target
            && snips.last().adapter == crate::adapter::AdapterId::MkinitfsBusybox {
            1nat
        } else {
            0nat
        }
    }
}

/// The init patch applied `k` times, if every application succeeds.
pub open spec fn patch_times(text: Seq<char>, k: nat) -> Option<Seq<char>>
    decreases k,
{
    if k == 0 {
        Some(text)
    } else {
        match patch_times(text, (k - 1) as nat) {
            Some(t) => if crate::mkinitfs_init::init_patchable(t) {
                Some(crate::mkinitfs_init::patched_init(t))
            } else {
                None
            },
            None => None,
        }
    }
}

/// The text a managed file holds after its snippets: its bytes as UTF-8
/// text, patched once per mkinitfs snippet.
pub open spec fn patched_source(src: SnippetSourceView, k: nat) -> Option<Seq<char>> {
    if valid_utf8(src.bytes) {
        patch_times(decode_utf8(src.bytes), k)
    } else {
        None
    }
}

/// The caller read exactly the managed files, in path order.
pub open spec fn sources_match(snips: Seq<ManagedSnippetOperationView>, sources: Seq<SnippetSourceView>) -> bool {
    &&& sources.len() == managed_targets(snips).len()
    &&& forall|i: int| 0 <= i < sources.len() ==> (#[trigger] sources[i]).target == managed_targets(snips)[i]
}

/// The inputs on which the actions can be built: the right files were read
/// and each is text its snippets apply to.
pub open spec fn spec_actions_ok(p: InstallPlanView, sources: Seq<SnippetSourceView>) -> bool {
    &&& sources_match(p.snippets, sources)
    &&& forall|i: int|
        0 <= i < sources.len() ==> patched_source(
            #[trigger] sources[i],
            mkinitfs_patches(p.snippets, sources[i].target),
        ) is Some
}

pub open spec fn patched_action(src: SnippetSourceView, k: nat) -> InstallActionView {
    let bytes = encode_utf8(patched_source(src, k)->Some_0);
    InstallActionView::PatchedFile { path: src.target, mode: src.mode, digest: spec_sha256(bytes), content: bytes }
}

/// One patched-file action per managed file, keeping its mode.
pub open spec fn patched_actions(p: InstallPlanView, sources: Seq<SnippetSourceView>) -> Seq<InstallActionView> {
    sources.map_values(|s: SnippetSourceView| patched_action(s, mkinitfs_patches(p.snippets, s.target)))
}

/// The actions of an installation of `p`: the payload files, the patched
/// shared files and the real-root links, stably sorted by path.
pub open spec fn spec_install_actions(p: InstallPlanView, sources: Seq<SnippetSourceView>) -> Seq<InstallActionView> {
    sort_by_path(file_actions(p.operations) + patched_actions(p, sources) + link_actions(p.activations))
}

fn managed_target_list(snippets: &Vec<crate::operations::ManagedSnippetOperation>) -> (r: Vec<String>)
    ensures
        string_views(r@) == managed_targets(crate::operations::snippet_views(snippets@)),
{
    let ghost sv = crate::operations::snippet_views(snippets@);
    let ghost ts = sv.map_values(|o: ManagedSnippetOperationView| o.target);
    let mut out: Vec<String> = Vec::new();
    let mut i: usize = 0;
    assert(string_views(out@).to_set() =~= ts.take(0).to_set());
    while i < snippets.len()
        invariant
            i <= snippets@.len(),
            sv == crate::operations::snippet_views(snippets@),
            ts == sv.map_values(|o: ManagedSnippetOperationView| o.target),
            crate::ordering::strictly_sorted(string_views(out@)),
            string_views(out@).to_set() == ts.take(i as int).to_set(),
        decreases snippets.len() - i,
    {
        let t = owned(snippets[i].target());
        proof {
            assert(ts[i as int] == snippets@[i as int]@.target);
            assert(ts.take(i as int + 1) =~= ts.take(i as int).push(ts[i as int]));
            ts.take(i as int).lemma_push_to_set_commute(ts[i as int]);
        }
        crate::directories::insert_path(&mut out, t);
        i = i + 1;
    }
    proof {
        assert(ts.take(ts.len() as int) =~= ts);
        crate::install_plan::lemma_path_order_total();
        crate::ordering::lemma_is_sort_from(string_views(out@), ts, crate::install_plan::path_order());
    }
    out
}

fn count_mkinitfs_patches(snippets: &Vec<crate::operations::ManagedSnippetOperation>, target: &str) -> (n: usize)
    ensures
        n == mkinitfs_patches(crate::operations::snippet_views(snippets@), target@),
{
    let ghost sv = crate::operations::snippet_views(snippets@);
    let mut n: usize = 0;
    let mut i: usize = 0;
    assert(sv.take(0) =~= Seq::<ManagedSnippetOperationView>::empty());
    while i < snippets.len()
        invariant
            i <= snippets@.len(),
            sv == crate::operations::snippet_views(snippets@),
            n == mkinitfs_patches(sv.take(i as int), target@),
            n <= i,
        decreases snippets.len() - i,
    {
        assert(sv.take(i as int + 1).drop_last() =~= sv.take(i as int));
        assert(sv.take(i as int + 1).last() == snippets@[i as int]@);
        if str_eq(snippets[i].target(), target) && snippets[i].adapter() == crate::adapter::AdapterId::MkinitfsBusybox {
            n = n + 1;
        }
        i = i + 1;
    }
    assert(sv.take(sv.len() as int) =~= sv);
    n
}

/// The patched file for one source, or why it is not text its snippets
/// apply to.
fn patch_source(src: &SnippetSource, k: usize) -> (r: Result<InstallAction, String>)
    ensures
        r is Ok <==> patched_source(src@, k as nat) is Some,
        r matches Ok(a) ==> a@ == patched_action(src@, k as nat),
{
    let text = match crate::text::utf8_to_str(src.bytes.as_slice()) {
        Some(t) => t,
        None => {
            return Err(crate::text::concat3("managed snippet target ", src.target.as_str(), " is not UTF-8 text"));
        },
    };
    let mut current = owned(text);
    let mut j: usize = 0;
    while j < k
        invariant
            j <= k,
            valid_utf8(src.bytes@),
            text@ == decode_utf8(src.bytes@),
            patch_times(text@, j as nat) == Some(current@),
        decreases k - j,
    {
        match crate::mkinitfs_init::patch_initramfs_init(current.as_str()) {
            Ok(p) => {
                current = p;
            },
            Err(error) => {
                proof {
                    assert(!crate::mkinitfs_init::init_patchable(current@));
                    assert(((j + 1) as nat - 1) as nat == j as nat);
                    assert(patch_times(text@, (j + 1) as nat) is None);
                    lemma_patch_times_none_after(text@, (j + 1) as nat, k as nat);
                }
                let mut message = crate::text::concat3("managed snippet target ", src.target.as_str(), " is incompatible: ");
                message.append(error);
                return Err(message);
            },
        }
        j = j + 1;
    }
    let bytes = str_bytes(current.as_str());
    let digest = sha256(bytes.as_slice());
    Ok(InstallAction::PatchedFile { path: owned(src.target.as_str()), mode: src.mode, digest, content: bytes })
}

proof fn lemma_patch_times_none_after(text: Seq<char>, j: nat, k: nat)
    requires
        j <= k,
        patch_times(text, j) is None,
    ensures
        patch_times(text, k) is None,
    decreases k - j,
{
    if j < k {
        lemma_patch_times_none_after(text, j + 1, k);
    }
}

/// The actions of an installation of `plan`, given the managed shared files
/// the caller read (`snippet_sources`, one per managed target in path
/// order): every payload as a whole file, every managed file with its
/// snippets applied (keeping its mode), every real-root activation as a
/// link, stably sorted by destination path. Refused when the sources are
/// not the managed files, or one is not text its snippets apply to.
pub fn install_actions(plan: &InstallPlan, snippet_sources: &Vec<SnippetSource>) -> (r: Result<
    Vec<InstallAction>,
    InstallError,
>)
    ensures
        r is Ok <==> spec_actions_ok(plan@, source_views(snippet_sources@)),
        r matches Ok(a) ==> action_views(a@) == spec_install_actions(plan@, source_views(snippet_sources@)),
        r matches Err(e) ==> e is InvalidPlan,
{
    let ghost p = plan@;
    let ghost sv = source_views(snippet_sources@);
    let snippets = plan.managed_snippet_operations();
    let targets = managed_target_list(snippets);
    if targets.len() != snippet_sources.len() {
        return Err(invalid("managed snippet sources do not match the plan's managed targets"));
    }
    let mut i: usize = 0;
    while i < targets.len()
        invariant
            i <= targets@.len() == snippet_sources@.len(),
            p == plan@,
            sv == source_views(snippet_sources@),
            string_views(targets@) == managed_targets(p.snippets),
            forall|j: int| 0 <= j < i ==> (#[trigger] sv[j]).target == managed_targets(p.snippets)[j],
        decreases targets.len() - i,
    {
        if !str_eq(targets[i].as_str(), snippet_sources[i].target.as_str()) {
            assert(string_views(targets@)[i as int] == targets@[i as int]@);
            assert(sv[i as int] == snippet_sources@[i as int]@);
            assert(sv[i as int].target != managed_targets(p.snippets)[i as int]);
            assert(!sources_match(p.snippets, sv));
            return Err(invalid("managed snippet sources do not match the plan's managed targets"));
        }
        assert(string_views(targets@)[i as int] == targets@[i as int]@);
        i = i + 1;
    }
    assert(sources_match(p.snippets, sv));
    let ops = plan.operations();
    let mut actions: Vec<InstallAction> = Vec::new();
    let mut i: usize = 0;
    while i < ops.len()
        invariant
            i <= ops@.len(),
            op_views(ops@) == p.operations,
            action_views(actions@) == file_actions(p.operations.take(i as int)),
        decreases ops.len() - i,
    {
        let op = &ops[i];
        let ghost before = action_views(actions@);
        let a = InstallAction::File {
            path: owned(op.path()),
            mode: op.mode(),
            digest: op.digest(),
            content: bytes_copy(op.content()),
        };
        actions.push(a);
        proof {
            assert(p.operations[i as int] == op@);
            assert(action_views(actions@) =~= before.push(a@));
            assert(file_actions(p.operations.take(i as int + 1)) =~= file_actions(p.operations.take(i as int)).push(
                a@,
            ));
        }
        i = i + 1;
    }
    assert(p.operations.take(p.operations.len() as int) =~= p.operations);
    let ghost files = action_views(actions@);
    let mut i: usize = 0;
    while i < snippet_sources.len()
        invariant
            i <= snippet_sources@.len(),
            p == plan@,
            sources_match(p.snippets, sv),
            sv == source_views(snippet_sources@),
            snippet_views_of(snippets) == p.snippets,
            files == file_actions(p.operations),
            forall|j: int|
                0 <= j < i ==> patched_source(#[trigger] sv[j], mkinitfs_patches(p.snippets, sv[j].target)) is Some,
            action_views(actions@) == files + patched_actions(p, sv.take(i as int)),
        decreases snippet_sources.len() - i,
    {
        let src = &snippet_sources[i];
        let k = count_mkinitfs_patches(snippets, src.target.as_str());
        let ghost before = action_views(actions@);
        match patch_source(src, k) {
            Ok(a) => {
                let ghost av = a@;
                actions.push(a);
                proof {
                    assert(sv[i as int] == src@);
                    assert(action_views(actions@) =~= before.push(av));
                    assert(patched_actions(p, sv.take(i as int + 1)) =~= patched_actions(p, sv.take(i as int)).push(
                        av,
                    ));
                    assert(action_views(actions@) =~= files + patched_actions(p, sv.take(i as int + 1)));
                }
            },
            Err(message) => {
                assert(sv[i as int] == src@);
                assert(patched_source(sv[i as int], mkinitfs_patches(p.snippets, sv[i as int].target)) is None);
                return Err(InstallError::InvalidPlan(message));
            },
        }
        i = i + 1;
    }
    assert(sv.take(sv.len() as int) =~= sv);
    let ghost with_patched = action_views(actions@);
    let links = plan.activation_operations();
    let mut i: usize = 0;
    assert(p.activations.take(0) =~= Seq::<ActivationOperationView>::empty());
    assert(with_patched + link_actions(p.activations.take(0)) =~= with_patched);
    while i < links.len()
        invariant
            i <= links@.len(),
            crate::operations::activation_views(links@) == p.activations,
            action_views(actions@) == with_patched + link_actions(p.activations.take(i as int)),
        decreases links.len() - i,
    {
        let l = &links[i];
        let ghost before = action_views(actions@);
        proof {
            assert(p.activations[i as int] == l@);
            assert(p.activations.take(i as int + 1).drop_last() =~= p.activations.take(i as int));
            assert(p.activations.take(i as int + 1).last() == l@);
        }
        if l.scope() == ActivationScope::RealRoot {
            let a = InstallAction::Symlink { path: owned(l.path()), target: owned(l.relative_target()) };
            let ghost av = a@;
            actions.push(a);
            assert(action_views(actions@) =~= before.push(av));
            assert(action_views(actions@) =~= with_patched + link_actions(p.activations.take(i as int + 1)));
        }
        i = i + 1;
    }
    assert(p.activations.take(p.activations.len() as int) =~= p.activations);
    Ok(sort_actions(actions))
}

pub open spec fn snippet_views_of(v: &Vec<crate::operations::ManagedSnippetOperation>) -> Seq<ManagedSnippetOperationView> {
    crate::operations::snippet_views(v@)
}

// ---------------------------------------------------------------------------
// Pre-images and the journal
// ---------------------------------------------------------------------------

/// What a destination held when the transaction read it.
#[derive(Debug, Clone, PartialEq, Eq)]
pub enum CapturedPreimage {
    Absent { path: String },
    File { path: String, mode: u32, bytes: Vec<u8> },
    Symlink { path: String, target: String },
}

pub enum CapturedPreimageView {
    Absent { path: Seq<char> },
    File { path: Seq<char>, mode: u32, bytes: Seq<u8> },
    Symlink { path: Seq<char>, target: Seq<char> },
}

impl View for CapturedPreimage {
    type V = CapturedPreimageView;

    open spec fn view(&self) -> CapturedPreimageView {
        match self {
            CapturedPreimage::Absent { path } => CapturedPreimageView::Absent { path: path@ },
            CapturedPreimage::File { path, mode, bytes } => CapturedPreimageView::File {
                path: path@,
                mode: *mode,
                bytes: bytes@,
            },
            CapturedPreimage::Symlink { path, target } => CapturedPreimageView::Symlink {
                path: path@,
                target: target@,
            },
        }
    }
}

pub open spec fn captured_views(v: Seq<CapturedPreimage>) -> Seq<CapturedPreimageView> {
    v.map_values(|c: CapturedPreimage| c@)
}

pub open spec fn captured_path(c: CapturedPreimageView) -> Seq<char> {
    match c {
        CapturedPreimageView::Absent { path } => path,
        CapturedPreimageView::File { path, .. } => path,
        CapturedPreimageView::Symlink { path, .. } => path,
    }
}

/// Where the `index`-th backup of `transaction` is kept, below the state
/// directory.
pub open spec fn backup_reference(transaction: Seq<char>, index: nat) -> Seq<char> {
    "transactions/"@ + transaction + "/backup-"@ + crate::directories::pad6(index)
}

/// The journal entry recording `c`, the `index`-th captured destination: an
/// absent destination or a link as it was, a file by its mode and digest
/// with the backup it is kept in; nothing applied yet.
pub open spec fn journal_entry_of(transaction: Seq<char>, c: CapturedPreimageView, index: nat) -> JournalEntryView {
    JournalEntryView {
        path: captured_path(c),
        preimage: match c {
            CapturedPreimageView::Absent { .. } => PreimageView::Absent,
            CapturedPreimageView::Symlink { target, .. } => PreimageView::Symlink { target },
            CapturedPreimageView::File { mode, bytes, .. } => PreimageView::File {
                mode,
                digest: spec_sha256(bytes),
                backup: backup_reference(transaction, index),
            },
        },
        progress: EntryProgress::Planned,
    }
}

pub open spec fn journal_views(v: Seq<JournalEntry>) -> Seq<JournalEntryView> {
    v.map_values(|e: JournalEntry| e@)
}

/// The journal entries for `captured`, numbered from `first_index`.
pub fn journal_entries(transaction: &str, captured: &Vec<CapturedPreimage>, first_index: u64) -> (r: Vec<
    JournalEntry,
>)
    requires
        first_index + captured@.len() <= u64::MAX,
    ensures
        r@.len() == captured@.len(),
        forall|k: int|
            0 <= k < r@.len() ==> (#[trigger] r@[k])@ == journal_entry_of(
                transaction@,
                captured@[k]@,
                (first_index + k) as nat,
            ),
{
    let mut out: Vec<JournalEntry> = Vec::new();
    let mut k: usize = 0;
    while k < captured.len()
        invariant
            k <= captured@.len(),
            first_index + captured@.len() <= u64::MAX,
            out@.len() == k,
            forall|j: int|
                0 <= j < k ==> (#[trigger] out@[j])@ == journal_entry_of(
                    transaction@,
                    captured@[j]@,
                    (first_index + j) as nat,
                ),
        decreases captured.len() - k,
    {
        let (path, preimage) = match &captured[k] {
            CapturedPreimage::Absent { path } => (owned(path.as_str()), Preimage::Absent),
            CapturedPreimage::Symlink { path, target } => (
                owned(path.as_str()),
                Preimage::Symlink { target: owned(target.as_str()) },
            ),
            CapturedPreimage::File { path, mode, bytes } => {
                let digits = crate::directories::pad6_exec(first_index + k as u64);
                let mut backup = crate::text::concat3("transactions/", transaction, "/backup-");
                backup.append(digits.as_str());
                (owned(path.as_str()), Preimage::File { mode: *mode, digest: sha256(bytes.as_slice()), backup })
            },
        };
        out.push(JournalEntry { path, preimage, progress: EntryProgress::Planned });
        k = k + 1;
    }
    out
}

/// What a capture of the destinations decides: the index of the first
/// destination that cannot be replaced (a whole-file payload over a
/// non-file, a managed file that is not a regular file), or else the
/// whole-file destinations that already hold a regular file, in order.
pub open spec fn spec_destination_check(actions: Seq<InstallActionView>, observed: Seq<Option<NodeKind>>) -> Result<
    Seq<Seq<char>>,
    nat,
>
    decreases actions.len(),
{
    if actions.len() == 0 || observed.len() < actions.len() {
        Ok(seq![])
    } else {
        let n = (actions.len() - 1) as int;
        match spec_destination_check(actions.drop_last(), observed.take(n)) {
            Err(i) => Err(i),
            Ok(c) => match actions.last() {
                InstallActionView::File { path, .. } => match observed[n] {
                    None => Ok(c),
                    Some(NodeKind::File) => Ok(c.push(path)),
                    Some(_) => Err(n as nat),
                },
                InstallActionView::PatchedFile { .. } => if observed[n] == Some(NodeKind::File) {
                    Ok(c)
                } else {
                    Err(n as nat)
                },
                InstallActionView::Symlink { .. } => Ok(c),
            },
        }
    }
}

/// Decides the capture of `actions` whose destinations were observed as
/// `observed` (`None` where nothing is there).
pub fn destination_check(actions: &Vec<InstallAction>, observed: &Vec<Option<NodeKind>>) -> (r: Result<
    Vec<String>,
    usize,
>)
    requires
        observed@.len() == actions@.len(),
    ensures
        match r {
            Ok(c) => spec_destination_check(action_views(actions@), observed@) == Ok::<Seq<Seq<char>>, nat>(
                string_views(c@),
            ),
            Err(i) => spec_destination_check(action_views(actions@), observed@) == Err::<Seq<Seq<char>>, nat>(
                i as nat,
            ),
        },
{
    let ghost av = action_views(actions@);
    let mut collisions: Vec<String> = Vec::new();
    let mut i: usize = 0;
    assert(av.take(0) =~= Seq::<InstallActionView>::empty());
    assert(string_views(collisions@) =~= Seq::<Seq<char>>::empty());
    assert(spec_destination_check(av.take(0), observed@.take(0)) == Ok::<Seq<Seq<char>>, nat>(seq![]));
    while i < actions.len()
        invariant
            i <= actions@.len() == observed@.len(),
            av == action_views(actions@),
            spec_destination_check(av.take(i as int), observed@.take(i as int)) == Ok::<Seq<Seq<char>>, nat>(
                string_views(collisions@),
            ),
        decreases actions.len() - i,
    {
        proof {
            assert(av.take(i as int + 1).drop_last() =~= av.take(i as int));
            assert(av.take(i as int + 1).last() == actions@[i as int]@);
            assert(observed@.take(i as int + 1).take(i as int) =~= observed@.take(i as int));
            assert(observed@.take(i as int + 1)[i as int] == observed@[i as int]);
        }
        let ghost before = collisions@;
        match &actions[i] {
            InstallAction::File { path, .. } => match observed[i] {
                None => {},
                Some(NodeKind::File) => {
                    collisions.push(owned(path.as_str()));
                    assert(string_views(collisions@) =~= string_views(before).push(path@));
                },
                Some(_) => {
                    proof {
                        lemma_destination_check_prefix(av, observed@, (i + 1) as int);
                    }
                    return Err(i);
                },
            },
            InstallAction::PatchedFile { .. } => {
                if observed[i] != Some(NodeKind::File) {
                    proof {
                        lemma_destination_check_prefix(av, observed@, (i + 1) as int);
                    }
                    return Err(i);
                }
            },
            InstallAction::Symlink { .. } => {},
        }
        i = i + 1;
    }
    assert(av.take(av.len() as int) =~= av);
    assert(observed@.take(av.len() as int) =~= observed@);
    Ok(collisions)
}

/// A refusal found in a prefix stands for the whole.
proof fn lemma_destination_check_prefix(a: Seq<InstallActionView>, o: Seq<Option<NodeKind>>, n: int)
    requires
        0 <= n <= a.len() == o.len(),
        spec_destination_check(a.take(n), o.take(n)) is Err,
    ensures
        spec_destination_check(a, o) == spec_destination_check(a.take(n), o.take(n)),
    decreases a.len() - n,
{
    if n < a.len() {
        let m = a.len() - 1;
        lemma_destination_check_prefix_step(a, o, n);
        lemma_destination_check_prefix(a, o, n + 1);
    } else {
        assert(a.take(n) =~= a);
        assert(o.take(n) =~= o);
    }
}

proof fn lemma_destination_check_prefix_step(a: Seq<InstallActionView>, o: Seq<Option<NodeKind>>, n: int)
    requires
        0 <= n < a.len() == o.len(),
        spec_destination_check(a.take(n), o.take(n)) is Err,
    ensures
        spec_destination_check(a.take(n + 1), o.take(n + 1)) == spec_destination_check(a.take(n), o.take(n)),
{
    assert(a.take(n + 1).drop_last() =~= a.take(n));
    assert(o.take(n + 1).take(n) =~= o.take(n));
}

// ---------------------------------------------------------------------------
// The manifest of an installation
// ---------------------------------------------------------------------------

/// The manifest entry recording action `a` over the pre-image `p`.
pub open spec fn manifest_entry_of(a: InstallActionView, p: PreimageView) -> ManifestEntryView {
    match a {
        InstallActionView::File { path, mode, digest, .. } => ManifestEntryView::File {
            path,
            installed_mode: mode,
            installed_digest: digest,
            original: p,
        },
        InstallActionView::PatchedFile { path, mode, digest, .. } => ManifestEntryView::PatchedFile {
            path,
            installed_mode: mode,
            installed_digest: digest,
            original: p,
        },
        InstallActionView::Symlink { path, target } => ManifestEntryView::Symlink {
            path,
            installed_target: target,
            original: p,
        },
    }
}

/// The complete manifest an installation of `p` commits: this plan and
/// resource version, the selected adapters, one entry per action with the
/// pre-image its journal entry recorded (as far as both lists go), and the
/// directories the transaction created.
pub open spec fn spec_install_manifest(
    transaction: Seq<char>,
    p: InstallPlanView,
    actions: Seq<InstallActionView>,
    entries: Seq<JournalEntryView>,
    created_dirs: Seq<Seq<char>>,
    state_created_dirs: Seq<Seq<char>>,
) -> crate::manifest::ManifestView {
    let n = if actions.len() <= entries.len() {
        actions.len()
    } else {
        entries.len()
    };
    crate::manifest::ManifestView {
        transaction,
        plan_version: crate::status::PLAN_VERSION,
        resource_set_version: crate::embedded::RESOURCE_SET_VERSION,
        inventory_state: ManifestInventoryState::Complete,
        adapters: seq![p.selection.spec_initramfs(), p.selection.spec_real_root()],
        entries: Seq::new(n, |k: int| manifest_entry_of(actions[k], entries[k].preimage)),
        created_dirs,
        state_created_dirs,
    }
}

/// A copy of a pre-image.
pub fn preimage_copy(p: &Preimage) -> (r: Preimage)
    ensures
        r@ == p@,
{
    match p {
        Preimage::Absent => Preimage::Absent,
        Preimage::File { mode, digest, backup } => Preimage::File {
            mode: *mode,
            digest: *digest,
            backup: owned(backup.as_str()),
        },
        Preimage::Symlink { target } => Preimage::Symlink { target: owned(target.as_str()) },
    }
}

fn strings_copy(v: &Vec<String>) -> (r: Vec<String>)
    ensures
        string_views(r@) == string_views(v@),
{
    let mut out: Vec<String> = Vec::new();
    let mut i: usize = 0;
    while i < v.len()
        invariant
            i <= v@.len(),
            string_views(out@) == string_views(v@).take(i as int),
        decreases v.len() - i,
    {
        let ghost before = out@;
        let t = owned(v[i].as_str());
        out.push(t);
        assert(string_views(out@) =~= string_views(before).push(t@));
        assert(string_views(v@).take(i as int + 1) =~= string_views(v@).take(i as int).push(v@[i as int]@));
        i = i + 1;
    }
    assert(string_views(v@).take(v@.len() as int) =~= string_views(v@));
    out
}

/// The manifest committed by an installation of `plan` whose actions and
/// journal entries are `actions` and `entries`.
pub fn install_manifest(
    transaction: &str,
    plan: &InstallPlan,
    actions: &Vec<InstallAction>,
    entries: &Vec<JournalEntry>,
    created_dirs: &Vec<String>,
    state_created_dirs: &Vec<String>,
) -> (m: Manifest)
    ensures
        m@ == spec_install_manifest(
            transaction@,
            plan@,
            action_views(actions@),
            journal_views(entries@),
            string_views(created_dirs@),
            string_views(state_created_dirs@),
        ),
{
    let ghost av = action_views(actions@);
    let ghost ev = journal_views(entries@);
    let n = if actions.len() <= entries.len() {
        actions.len()
    } else {
        entries.len()
    };
    let mut out: Vec<ManifestEntry> = Vec::new();
    let mut k: usize = 0;
    while k < n
        invariant
            k <= n <= actions@.len(),
            n <= entries@.len(),
            av == action_views(actions@),
            ev == journal_views(entries@),
            out@.len() == k,
            forall|j: int| 0 <= j < k ==> (#[trigger] out@[j])@ == manifest_entry_of(av[j], ev[j].preimage),
        decreases n - k,
    {
        let original = preimage_copy(&entries[k].preimage);
        let e = match &actions[k] {
            InstallAction::File { path, mode, digest, .. } => ManifestEntry::File {
                path: owned(path.as_str()),
                installed_mode: *mode,
                installed_digest: *digest,
                original,
            },
            InstallAction::PatchedFile { path, mode, digest, .. } => ManifestEntry::PatchedFile {
                path: owned(path.as_str()),
                installed_mode: *mode,
                installed_digest: *digest,
                original,
            },
            InstallAction::Symlink { path, target } => ManifestEntry::Symlink {
                path: owned(path.as_str()),
                installed_target: owned(target.as_str()),
                original,
            },
        };
        out.push(e);
        k = k + 1;
    }
    let selection = plan.selection();
    let m = Manifest {
        transaction: owned(transaction),
        plan_version: crate::status::PLAN_VERSION,
        resource_set_version: crate::embedded::RESOURCE_SET_VERSION,
        inventory_state: ManifestInventoryState::Complete,
        adapters: vec![selection.initramfs(), selection.real_root()],
        entries: out,
        created_dirs: strings_copy(created_dirs),
        state_created_dirs: strings_copy(state_created_dirs),
    };
    assert(m@.entries =~= Seq::new(n as nat, |k: int| manifest_entry_of(av[k], ev[k].preimage)));
    assert(m@.adapters =~= seq![plan@.selection.spec_initramfs(), plan@.selection.spec_real_root()]);
    m
}

// ---------------------------------------------------------------------------
// The report of an uninstallation
// ---------------------------------------------------------------------------

/// What an uninstallation did: paths removed (nothing was there before the
/// installation), paths restored to their pre-installation content, paths
/// preserved because they were modified locally, and created directories
/// kept because they were not empty.
#[derive(Debug, Clone, PartialEq, Eq)]
pub struct UninstallReport {
    pub removed: Vec<String>,
    pub restored: Vec<String>,
    pub preserved_modified: Vec<String>,
    pub preserved_directories: Vec<String>,
}

pub struct UninstallReportView {
    pub removed: Seq<Seq<char>>,
    pub restored: Seq<Seq<char>>,
    pub preserved_modified: Seq<Seq<char>>,
    pub preserved_directories: Seq<Seq<char>>,
}

impl View for UninstallReport {
    type V = UninstallReportView;

    open spec fn view(&self) -> UninstallReportView {
        UninstallReportView {
            removed: string_views(self.removed@),
            restored: string_views(self.restored@),
            preserved_modified: string_views(self.preserved_modified@),
            preserved_directories: string_views(self.preserved_directories@),
        }
    }
}

/// Some status of `path` says it is still exactly as installed.
pub open spec fn exact_path(fs: Seq<InstalledFileStatusView>, path: Seq<char>) -> bool
    decreases fs.len(),
{
    fs.len() > 0 && ((fs.last().path == path && fs.last().state is Exact) || exact_path(fs.drop_last(), path))
}

/// The manifest entries still exactly as installed whose pre-image is
/// (`absent`) or is not (`!absent`) an absent path, in manifest order.
pub open spec fn exact_entry_paths(
    es: Seq<ManifestEntryView>,
    fs: Seq<InstalledFileStatusView>,
    absent: bool,
) -> Seq<Seq<char>>
    decreases es.len(),
{
    if es.len() == 0 {
        seq![]
    } else {
        let e = es.last();
        if exact_path(fs, e.path()) && (e.original() is Absent) == absent {
            exact_entry_paths(es.drop_last(), fs, absent).push(e.path())
        } else {
            exact_entry_paths(es.drop_last(), fs, absent)
        }
    }
}

fn exact_path_exec(files: &Vec<InstalledFileStatus>, path: &str) -> (r: bool)
    ensures
        r == exact_path(crate::transaction::status_views(files@), path@),
{
    let ghost fv = crate::transaction::status_views(files@);
    let mut r = false;
    let mut i: usize = 0;
    assert(fv.take(0) =~= Seq::<InstalledFileStatusView>::empty());
    while i < files.len()
        invariant
            i <= files@.len(),
            fv == crate::transaction::status_views(files@),
            r == exact_path(fv.take(i as int), path@),
        decreases files.len() - i,
    {
        assert(fv.take(i as int + 1).drop_last() =~= fv.take(i as int));
        assert(fv.take(i as int + 1).last() == files@[i as int]@);
        let hit = str_eq(files[i].path.as_str(), path) && matches!(files[i].state, crate::status::FileStatusState::Exact);
        r = hit || r;
        i = i + 1;
    }
    assert(fv.take(fv.len() as int) =~= fv);
    r
}

/// The report of an uninstallation whose manifest held `entries` and whose
/// status of them was `files`: the paths still exactly as installed split
/// by their recorded pre-image into removed (absent before) and restored
/// (the others), in manifest order; the modified paths preserved, in status
/// order; and the preserved directories as given.
pub fn uninstall_report(
    entries: &Vec<ManifestEntry>,
    files: &Vec<InstalledFileStatus>,
    preserved_directories: &Vec<String>,
) -> (r: UninstallReport)
    ensures
        r@.removed == exact_entry_paths(
            crate::manifest::manifest_entry_views(entries@),
            crate::transaction::status_views(files@),
            true,
        ),
        r@.restored == exact_entry_paths(
            crate::manifest::manifest_entry_views(entries@),
            crate::transaction::status_views(files@),
            false,
        ),
        r@.preserved_modified == crate::transaction::modified_paths(crate::transaction::status_views(files@)),
        r@.preserved_directories == string_views(preserved_directories@),
{
    let ghost ev = crate::manifest::manifest_entry_views(entries@);
    let ghost fv = crate::transaction::status_views(files@);
    let mut removed: Vec<String> = Vec::new();
    let mut restored: Vec<String> = Vec::new();
    let mut i: usize = 0;
    assert(ev.take(0) =~= Seq::<ManifestEntryView>::empty());
    while i < entries.len()
        invariant
            i <= entries@.len(),
            ev == crate::manifest::manifest_entry_views(entries@),
            fv == crate::transaction::status_views(files@),
            string_views(removed@) == exact_entry_paths(ev.take(i as int), fv, true),
            string_views(restored@) == exact_entry_paths(ev.take(i as int), fv, false),
        decreases entries.len() - i,
    {
        let e = &entries[i];
        proof {
            assert(ev.take(i as int + 1).drop_last() =~= ev.take(i as int));
            assert(ev.take(i as int + 1).last() == e@);
        }
        let ghost r0 = removed@;
        let ghost r1 = restored@;
        if exact_path_exec(files, e.path()) {
            let absent = matches!(e.original(), Preimage::Absent);
            if absent {
                removed.push(owned(e.path()));
                assert(string_views(removed@) =~= string_views(r0).push(e@.path()));
            } else {
                restored.push(owned(e.path()));
                assert(string_views(restored@) =~= string_views(r1).push(e@.path()));
            }
        }
        i = i + 1;
    }
    assert(ev.take(ev.len() as int) =~= ev);
    let (_, modified) = crate::transaction::uninstall_partition(files);
    UninstallReport {
        removed,
        restored,
        preserved_modified: modified,
        preserved_directories: strings_copy(preserved_directories),
    }
}

/// The entries not exactly as installed any more, in manifest order: the
/// ones an uninstallation leaves in place.
pub open spec fn preserved_entries(es: Seq<ManifestEntryView>, fs: Seq<InstalledFileStatusView>) -> Seq<
    ManifestEntryView,
>
    decreases es.len(),
{
    if es.len() == 0 {
        seq![]
    } else if exact_path(fs, es.last().path()) {
        preserved_entries(es.drop_last(), fs)
    } else {
        preserved_entries(es.drop_last(), fs).push(es.last())
    }
}

/// What an uninstallation leaves as the manifest: nothing when every owned
/// path was exactly as installed, else a partial ledger of the preserved
/// entries under the new transaction.
pub open spec fn spec_remaining_manifest(
    m: crate::manifest::ManifestView,
    fs: Seq<InstalledFileStatusView>,
    transaction: Seq<char>,
    state_created_dirs: Seq<Seq<char>>,
) -> Option<crate::manifest::ManifestView> {
    if crate::transaction::modified_paths(fs).len() == 0 {
        None
    } else {
        Some(
            crate::manifest::ManifestView {
                transaction,
                plan_version: m.plan_version,
                resource_set_version: m.resource_set_version,
                inventory_state: ManifestInventoryState::Partial,
                adapters: m.adapters,
                entries: preserved_entries(m.entries, fs),
                created_dirs: m.created_dirs,
                state_created_dirs,
            },
        )
    }
}

/// A copy of a manifest entry.
pub fn manifest_entry_copy(e: &ManifestEntry) -> (r: ManifestEntry)
    ensures
        r@ == e@,
{
    match e {
        ManifestEntry::File { path, installed_mode, installed_digest, original } => ManifestEntry::File {
            path: owned(path.as_str()),
            installed_mode: *installed_mode,
            installed_digest: *installed_digest,
            original: preimage_copy(original),
        },
        ManifestEntry::PatchedFile { path, installed_mode, installed_digest, original } =>
            ManifestEntry::PatchedFile {
            path: owned(path.as_str()),
            installed_mode: *installed_mode,
            installed_digest: *installed_digest,
            original: preimage_copy(original),
        },
        ManifestEntry::Symlink { path, installed_target, original } => ManifestEntry::Symlink {
            path: owned(path.as_str()),
            installed_target: owned(installed_target.as_str()),
            original: preimage_copy(original),
        },
    }
}

/// The manifest an uninstallation of `manifest` leaves, given the status of
/// its entries.
pub fn remaining_manifest(
    manifest: &Manifest,
    files: &Vec<InstalledFileStatus>,
    transaction: &str,
    state_created_dirs: &Vec<String>,
) -> (r: Option<Manifest>)
    ensures
        match r {
            Some(m) => spec_remaining_manifest(
                manifest@,
                crate::transaction::status_views(files@),
                transaction@,
                string_views(state_created_dirs@),
            ) == Some(m@),
            None => spec_remaining_manifest(
                manifest@,
                crate::transaction::status_views(files@),
                transaction@,
                string_views(state_created_dirs@),
            ) is None,
        },
{
    let ghost fv = crate::transaction::status_views(files@);
    let ghost ev = manifest@.entries;
    let (_, modified) = crate::transaction::uninstall_partition(files);
    if modified.len() == 0 {
        return None;
    }
    let mut kept: Vec<ManifestEntry> = Vec::new();
    let mut i: usize = 0;
    assert(ev.take(0) =~= Seq::<ManifestEntryView>::empty());
    while i < manifest.entries.len()
        invariant
            i <= manifest.entries@.len(),
            ev == crate::manifest::manifest_entry_views(manifest.entries@),
            fv == crate::transaction::status_views(files@),
            crate::manifest::manifest_entry_views(kept@) == preserved_entries(ev.take(i as int), fv),
        decreases manifest.entries.len() - i,
    {
        let e = &manifest.entries[i];
        proof {
            assert(ev.take(i as int + 1).drop_last() =~= ev.take(i as int));
            assert(ev.take(i as int + 1).last() == e@);
        }
        if !exact_path_exec(files, e.path()) {
            let ghost before = kept@;
            let c = manifest_entry_copy(e);
            kept.push(c);
            assert(crate::manifest::manifest_entry_views(kept@) =~= crate::manifest::manifest_entry_views(before).push(
                e@,
            ));
        }
        i = i + 1;
    }
    assert(ev.take(ev.len() as int) =~= ev);
    let mut adapters: Vec<crate::adapter::AdapterId> = Vec::new();
    let mut j: usize = 0;
    while j < manifest.adapters.len()
        invariant
            j <= manifest.adapters@.len(),
            adapters@ == manifest.adapters@.take(j as int),
        decreases manifest.adapters.len() - j,
    {
        adapters.push(manifest.adapters[j]);
        assert(manifest.adapters@.take(j as int + 1) =~= manifest.adapters@.take(j as int).push(
            manifest.adapters@[j as int],
        ));
        j = j + 1;
    }
    assert(manifest.adapters@.take(manifest.adapters@.len() as int) =~= manifest.adapters@);
    let m = Manifest {
        transaction: owned(transaction),
        plan_version: manifest.plan_version,
        resource_set_version: manifest.resource_set_version,
        inventory_state: ManifestInventoryState::Partial,
        adapters,
        entries: kept,
        created_dirs: strings_copy(&manifest.created_dirs),
        state_created_dirs: strings_copy(state_created_dirs),
    };
    Some(m)
}

// ---------------------------------------------------------------------------
// Fresh-install preflight
// ---------------------------------------------------------------------------

/// Why a fresh installation cannot start.
#[derive(Debug, Clone, PartialEq, Eq)]
pub enum FreshRefusal {
    /// The destination of this payload is neither absent nor a regular file.
    UnsafePayload { index: usize },
    /// These destinations are already taken, in path order, each once.
    Collisions(Vec<String>),
}

/// A payload destination holding something other than a regular file.
pub open spec fn unsafe_payload(k: Option<NodeKind>) -> bool {
    k is Some && k != Some(NodeKind::File)
}

/// The paths a fresh installation would collide with: payload destinations
/// that hold a regular file, real-root link destinations that hold
/// anything, and the legacy helper where it is present.
pub open spec fn fresh_collisions(
    ops: Seq<PlanOperationView>,
    kinds: Seq<Option<NodeKind>>,
    links: Seq<ActivationOperationView>,
    present: Seq<bool>,
    legacy: bool,
) -> Set<Seq<char>> {
    Set::new(
        |p: Seq<char>|
            (exists|i: int| 0 <= i < ops.len() && #[trigger] ops[i].path == p && kinds[i] == Some(NodeKind::File))
            || (exists|j: int|
                0 <= j < links.len() && #[trigger] links[j].path == p && links[j].scope
                    == ActivationScope::RealRoot && present[j])
            || (legacy && p == crate::safety::LEGACY_PID1_HELPER_PATH@),
    )
}

/// Decides the preflight of a fresh installation of `plan` from what its
/// destinations hold: `payload_kinds` per payload (`None` where absent),
/// `link_present` per activation link, and whether the legacy helper is
/// present.  The first payload over a non-file is refused; otherwise the
/// collisions are reported in path order, each once.
pub fn fresh_destination_check(
    plan: &InstallPlan,
    payload_kinds: &Vec<Option<NodeKind>>,
    link_present: &Vec<bool>,
    legacy_present: bool,
) -> (r: Result<(), FreshRefusal>)
    requires
        payload_kinds@.len() == plan@.operations.len(),
        link_present@.len() == plan@.activations.len(),
    ensures
        (exists|i: int| 0 <= i < payload_kinds@.len() && unsafe_payload(#[trigger] payload_kinds@[i]))
            ==> (r matches Err(FreshRefusal::UnsafePayload { index }) && index < payload_kinds@.len()
            && unsafe_payload(payload_kinds@[index as int]) && forall|k: int|
            0 <= k < index ==> !unsafe_payload(#[trigger] payload_kinds@[k])),
        (forall|i: int| 0 <= i < payload_kinds@.len() ==> !unsafe_payload(#[trigger] payload_kinds@[i]))
            ==> {
            let c = fresh_collisions(
                plan@.operations,
                payload_kinds@,
                plan@.activations,
                link_present@,
                legacy_present,
            );
            match r {
                Ok(()) => c.is_empty(),
                Err(FreshRefusal::Collisions(v)) => crate::ordering::strictly_sorted(string_views(v@))
                    && string_views(v@).to_set() == c && v@.len() > 0,
                Err(FreshRefusal::UnsafePayload { .. }) => false,
            }
        },
{
    let ops = plan.operations();
    let links = plan.activation_operations();
    let ghost ov = plan@.operations;
    let ghost lv = plan@.activations;
    let ghost kv = payload_kinds@;
    let ghost pv = link_present@;
    let mut v: Vec<String> = Vec::new();
    assert(string_views(v@).to_set() =~= Set::<Seq<char>>::empty());
    let mut i: usize = 0;
    while i < ops.len()
        invariant
            i <= ops@.len(),
            ov == plan@.operations,
            op_views(ops@) == ov,
            kv == payload_kinds@,
            kv.len() == ov.len(),
            forall|k: int| 0 <= k < i ==> !unsafe_payload(#[trigger] kv[k]),
            crate::ordering::strictly_sorted(string_views(v@)),
            string_views(v@).to_set() == fresh_collisions(ov.take(i as int), kv, seq![], seq![], false),
        decreases ops.len() - i,
    {
        assert(ov[i as int] == ops@[i as int]@);
        let ghost before = string_views(v@).to_set();
        match payload_kinds[i] {
            None => {},
            Some(NodeKind::File) => {
                crate::directories::insert_path(&mut v, owned(ops[i].path()));
            },
            Some(_) => {
                return Err(FreshRefusal::UnsafePayload { index: i });
            },
        }
        proof {
            let a = fresh_collisions(ov.take(i as int), kv, seq![], seq![], false);
            let b = fresh_collisions(ov.take(i as int + 1), kv, seq![], seq![], false);
            assert forall|x: Seq<char>| #[trigger] b.contains(x) <==> string_views(v@).to_set().contains(x) by {
                if b.contains(x) {
                    let w = choose|w: int| 0 <= w < ov.take(i as int + 1).len() && #[trigger] ov.take(i as int + 1)[w].path == x && kv[w] == Some(NodeKind::File);
                    if w < i {
                        assert(ov.take(i as int)[w] == ov.take(i as int + 1)[w]);
                        assert(a.contains(x));
                    }
                }
                if a.contains(x) {
                    let w = choose|w: int| 0 <= w < ov.take(i as int).len() && #[trigger] ov.take(i as int)[w].path == x && kv[w] == Some(NodeKind::File);
                    assert(ov.take(i as int + 1)[w] == ov.take(i as int)[w]);
                }
                if kv[i as int] == Some(NodeKind::File) && x == ov[i as int].path {
                    assert(ov.take(i as int + 1)[i as int] == ov[i as int]);
                }
            }
            assert(string_views(v@).to_set() =~= b);
        }
        i = i + 1;
    }
    assert(ov.take(ov.len() as int) =~= ov);
    let mut j: usize = 0;
    while j < links.len()
        invariant
            j <= links@.len(),
            lv == plan@.activations,
            crate::operations::activation_views(links@) == lv,
            pv == link_present@,
            pv.len() == lv.len(),
            crate::ordering::strictly_sorted(string_views(v@)),
            string_views(v@).to_set() == fresh_collisions(ov, kv, lv.take(j as int), pv, false),
        decreases links.len() - j,
    {
        assert(lv[j as int] == links@[j as int]@);
        if links[j].scope() == ActivationScope::RealRoot && link_present[j] {
            crate::directories::insert_path(&mut v, owned(links[j].path()));
        }
        proof {
            let a = fresh_collisions(ov, kv, lv.take(j as int), pv, false);
            let b = fresh_collisions(ov, kv, lv.take(j as int + 1), pv, false);
            assert forall|x: Seq<char>| #[trigger] b.contains(x) <==> string_views(v@).to_set().contains(x) by {
                if b.contains(x) {
                    if exists|w: int| 0 <= w < lv.take(j as int + 1).len() && #[trigger] lv.take(j as int + 1)[w].path == x && lv.take(j as int + 1)[w].scope == ActivationScope::RealRoot && pv[w] {
                        let w = choose|w: int| 0 <= w < lv.take(j as int + 1).len() && #[trigger] lv.take(j as int + 1)[w].path == x && lv.take(j as int + 1)[w].scope == ActivationScope::RealRoot && pv[w];
                        if w < j {
                            assert(lv.take(j as int)[w] == lv.take(j as int + 1)[w]);
                            assert(a.contains(x));
                        }
                    } else {
                        assert(a.contains(x));
                    }
                }
                if a.contains(x) {
                    if exists|w: int| 0 <= w < lv.take(j as int).len() && #[trigger] lv.take(j as int)[w].path == x && lv.take(j as int)[w].scope == ActivationScope::RealRoot && pv[w] {
                        let w = choose|w: int| 0 <= w < lv.take(j as int).len() && #[trigger] lv.take(j as int)[w].path == x && lv.take(j as int)[w].scope == ActivationScope::RealRoot && pv[w];
                        assert(lv.take(j as int + 1)[w] == lv.take(j as int)[w]);
                    }
                }
                if lv[j as int].scope == ActivationScope::RealRoot && pv[j as int] && x == lv[j as int].path {
                    assert(lv.take(j as int + 1)[j as int] == lv[j as int]);
                }
            }
            assert(string_views(v@).to_set() =~= b);
        }
        j = j + 1;
    }
    assert(lv.take(lv.len() as int) =~= lv);
    if legacy_present {
        crate::directories::insert_path(&mut v, owned(crate::safety::LEGACY_PID1_HELPER_PATH));
    }
    proof {
        let a = fresh_collisions(ov, kv, lv, pv, false);
        let b = fresh_collisions(ov, kv, lv, pv, legacy_present);
        assert(string_views(v@).to_set() =~= b) by {
            assert forall|x: Seq<char>| #[trigger] b.contains(x) <==> string_views(v@).to_set().contains(x) by {
                if b.contains(x) && !(legacy_present && x == crate::safety::LEGACY_PID1_HELPER_PATH@) {
                    assert(a.contains(x));
                }
                if a.contains(x) {
                    assert(b.contains(x));
                }
            }
        }
    }
    if v.len() == 0 {
        assert(string_views(v@).to_set() =~= Set::<Seq<char>>::empty());
        Ok(())
    } else {
        assert(string_views(v@).contains(string_views(v@)[0]));
        Err(FreshRefusal::Collisions(v))
    }
}

} // verus!
