//! The read-only install plan: whole-file payloads, managed snippets,
//! activation links and safety records of one adapter selection, built from
//! embedded constants and the caller's bootart ELF alone, and the checks
//! that hold every part of a plan to that construction.

use crate::adapter::{adapter_resources, spec_adapter_resources, AdapterId};
use crate::digest::{sha256, spec_sha256, Sha256Digest};
use crate::elf::{static_elf_valid, validate_static_elf, BOOTART_BINARY_PATH, MAX_INSTALL_FILE_BYTES};
use crate::embedded::{spec_template_resource, template_resource, TemplateId, TemplateMaterialization};
use crate::error::{invalid, InstallError};
use crate::manifest::{path_lt, path_lt_exec};
use crate::operations::resource_digest;
use crate::ordering::{
    lemma_insert_sorted, lemma_path_lt_irreflexive, lemma_path_lt_total, lemma_path_lt_transitive,
    strictly_sorted,
};
use crate::safety::ExpectedPreviousState;
use crate::selection::AdapterSelection;
use crate::text::{distinct_seqs, owned, str_bytes, str_eq};
use vstd::prelude::*;
use vstd::utf8::*;

verus! {

broadcast use vstd::seq_lib::group_to_multiset_ensures;

/// Upper bound on the payload bytes of one transaction.
pub const MAX_TRANSACTION_BYTES: u64 = 134217728;

/// Where a payload's bytes come from.
#[derive(Debug, Clone, Copy, PartialEq, Eq, Structural)]
pub enum PlanSource {
    BootartElf,
    EmbeddedTemplate(TemplateId),
}

/// One whole-file payload of a plan.
#[derive(Debug, Clone, PartialEq, Eq)]
pub struct PlanOperation {
    path: String,
    mode: u32,
    owner_uid: u32,
    digest: Sha256Digest,
    source: PlanSource,
    expected_previous: ExpectedPreviousState,
    content: Vec<u8>,
}

/// A payload as plain values.
pub struct PlanOperationView {
    pub path: Seq<char>,
    pub mode: u32,
    pub owner_uid: u32,
    pub digest: Sha256Digest,
    pub source: PlanSource,
    pub expected_previous: ExpectedPreviousState,
    pub content: Seq<u8>,
}

impl View for PlanOperation {
    type V = PlanOperationView;

    closed spec fn view(&self) -> PlanOperationView {
        PlanOperationView {
            path: self.path@,
            mode: self.mode,
            owner_uid: self.owner_uid,
            digest: self.digest,
            source: self.source,
            expected_previous: self.expected_previous,
            content: self.content@,
        }
    }
}

impl PlanOperation {
    /// A payload with the given fields.
    pub fn new(
        path: String,
        mode: u32,
        owner_uid: u32,
        digest: Sha256Digest,
        source: PlanSource,
        expected_previous: ExpectedPreviousState,
        content: Vec<u8>,
    ) -> (r: PlanOperation)
        ensures
            r@ == (PlanOperationView {
                path: path@,
                mode,
                owner_uid,
                digest,
                source,
                expected_previous,
                content: content@,
            }),
    {
        PlanOperation { path, mode, owner_uid, digest, source, expected_previous, content }
    }

    pub fn path(&self) -> (r: &str)
        ensures
            r@ == self@.path,
    {
        self.path.as_str()
    }

    pub fn mode(&self) -> (r: u32)
        ensures
            r == self@.mode,
    {
        self.mode
    }

    pub fn owner_uid(&self) -> (r: u32)
        ensures
            r == self@.owner_uid,
    {
        self.owner_uid
    }

    pub fn digest(&self) -> (r: Sha256Digest)
        ensures
            r == self@.digest,
    {
        self.digest
    }

    pub fn source(&self) -> (r: PlanSource)
        ensures
            r == self@.source,
    {
        self.source
    }

    pub fn expected_previous(&self) -> (r: ExpectedPreviousState)
        ensures
            r == self@.expected_previous,
    {
        self.expected_previous
    }

    /// The bytes the payload installs.
    pub fn content(&self) -> (r: &[u8])
        ensures
            r@ == self@.content,
    {
        self.content.as_slice()
    }
}

pub open spec fn op_views(v: Seq<PlanOperation>) -> Seq<PlanOperationView> {
    v.map_values(|o: PlanOperation| o@)
}

pub open spec fn op_paths(v: Seq<PlanOperationView>) -> Seq<Seq<char>> {
    v.map_values(|o: PlanOperationView| o.path)
}

// ---------------------------------------------------------------------------
// Building the payloads
// ---------------------------------------------------------------------------

/// The payload that installs the caller's bootart ELF.
pub open spec fn bootart_operation(elf: Seq<u8>) -> PlanOperationView {
    PlanOperationView {
        path: BOOTART_BINARY_PATH@,
        mode: 0o755,
        owner_uid: 0,
        digest: spec_sha256(elf),
        source: PlanSource::BootartElf,
        expected_previous: ExpectedPreviousState::Uninspected,
        content: elf,
    }
}

/// The payload of a whole-file resource; none for a managed snippet.
pub open spec fn template_operation(id: TemplateId) -> Option<PlanOperationView> {
    let res = spec_template_resource(id);
    let file = match res.materialization {
        TemplateMaterialization::File { path, mode } => Some((path, mode)),
        TemplateMaterialization::OpenRcService { path, mode, .. } => Some((path, mode)),
        TemplateMaterialization::ManagedSnippet { .. } => None,
    };
    match file {
        Some((path, mode)) => Some(
            PlanOperationView {
                path: path@,
                mode,
                owner_uid: 0,
                digest: resource_digest(id),
                source: PlanSource::EmbeddedTemplate(id),
                expected_previous: ExpectedPreviousState::Uninspected,
                content: encode_utf8(res.contents@),
            },
        ),
        None => None,
    }
}

/// The payloads of the resources `ids`, in order.
pub open spec fn template_operations(ids: Seq<TemplateId>) -> Seq<PlanOperationView>
    decreases ids.len(),
{
    if ids.len() == 0 {
        seq![]
    } else {
        template_operations(ids.drop_last()) + match template_operation(ids.last()) {
            Some(v) => seq![v],
            None => seq![],
        }
    }
}

/// The payloads of `selection` with the ELF `elf`, before ordering: the
/// binary, then the initramfs adapter's files, then the real-root adapter's.
pub open spec fn spec_payloads(selection: AdapterSelection, elf: Seq<u8>) -> Seq<PlanOperationView> {
    seq![bootart_operation(elf)] + template_operations(
        spec_adapter_resources(selection.spec_initramfs()),
    ) + template_operations(spec_adapter_resources(selection.spec_real_root()))
}

/// Total content bytes of `ops`.
pub open spec fn payload_bytes(ops: Seq<PlanOperationView>) -> int
    decreases ops.len(),
{
    if ops.len() == 0 {
        0
    } else {
        payload_bytes(ops.drop_last()) + ops.last().content.len()
    }
}

proof fn lemma_not_contained_after_lt(keys: Seq<Seq<char>>, key: Seq<char>, k: int)
    requires
        strictly_sorted(keys),
        0 <= k <= keys.len(),
        forall|j: int| 0 <= j < k ==> path_lt(#[trigger] keys[j], key),
        k < keys.len() ==> path_lt(key, keys[k]),
    ensures
        !keys.contains(key),
{
    if keys.contains(key) {
        let j = choose|j: int| 0 <= j < keys.len() && keys[j] == key;
        lemma_path_lt_irreflexive(key);
        if j > k {
            assert(path_lt(keys[k], keys[j]));
            lemma_path_lt_transitive(key, keys[k], keys[j]);
        }
    }
}

/// Inserts `op` into the path-ordered `ops`; refuses a path already there.
fn insert_by_path(ops: &mut Vec<PlanOperation>, op: PlanOperation) -> (inserted: bool)
    requires
        strictly_sorted(op_paths(op_views(old(ops)@))),
    ensures
        strictly_sorted(op_paths(op_views(final(ops)@))),
        inserted <==> !op_paths(op_views(old(ops)@)).contains(op@.path),
        inserted ==> op_views(final(ops)@).to_multiset() == op_views(old(ops)@).to_multiset().insert(
            op@,
        ),
        !inserted ==> final(ops)@ == old(ops)@,
{
    let ghost keys = op_paths(op_views(ops@));
    let mut k: usize = 0;
    while k < ops.len() && path_lt_exec(ops[k].path.as_str(), op.path.as_str())
        invariant
            k <= ops@.len(),
            keys == op_paths(op_views(ops@)),
            strictly_sorted(keys),
            forall|j: int| 0 <= j < k ==> path_lt(#[trigger] keys[j], op@.path),
        decreases ops.len() - k,
    {
        assert(keys[k as int] == ops@[k as int]@.path);
        k = k + 1;
    }
    if k < ops.len() {
        assert(keys[k as int] == ops@[k as int]@.path);
        if str_eq(ops[k].path.as_str(), op.path.as_str()) {
            assert(keys.contains(op@.path));
            return false;
        }
        proof {
            lemma_path_lt_total(keys[k as int], op@.path);
        }
    }
    proof {
        lemma_not_contained_after_lt(keys, op@.path, k as int);
        lemma_insert_sorted(keys, op@.path, k as int);
    }
    let ghost before = ops@;
    let ghost v = op@;
    ops.insert(k, op);
    proof {
        assert(op_views(ops@) =~= op_views(before).insert(k as int, v));
        assert(op_paths(op_views(ops@)) =~= keys.insert(k as int, v.path));
        vstd::seq_lib::to_multiset_insert(op_views(before), k as int, v);
    }
    true
}

/// The payload of the whole-file resource `id`, if it is one.
pub(crate) fn template_payload(id: TemplateId) -> (r: Option<PlanOperation>)
    ensures
        match r {
            Some(op) => template_operation(id) == Some(op@),
            None => template_operation(id) is None,
        },
{
    let res = template_resource(id);
    let (path, mode) = match res.materialization {
        TemplateMaterialization::File { path, mode } => (path, mode),
        TemplateMaterialization::OpenRcService { path, mode, .. } => (path, mode),
        TemplateMaterialization::ManagedSnippet { .. } => {
            return None;
        },
    };
    let content = str_bytes(res.contents);
    let digest = sha256(content.as_slice());
    Some(
        PlanOperation {
            path: owned(path),
            mode,
            owner_uid: 0,
            digest,
            source: PlanSource::EmbeddedTemplate(id),
            expected_previous: ExpectedPreviousState::Uninspected,
            content,
        },
    )
}

/// Adds the whole-file payloads of `adapter` in path order; `false` on a
/// path that is already planned, with the payloads then unspecified.
fn add_adapter_payloads(ops: &mut Vec<PlanOperation>, adapter: AdapterId, Ghost(planned): Ghost<
    Seq<PlanOperationView>,
>) -> (ok: bool)
    requires
        strictly_sorted(op_paths(op_views(old(ops)@))),
        op_views(old(ops)@).to_multiset() == planned.to_multiset(),
        distinct_seqs(op_paths(planned)),
    ensures
        ok <==> distinct_seqs(op_paths(planned + template_operations(spec_adapter_resources(adapter)))),
        ok ==> strictly_sorted(op_paths(op_views(final(ops)@))),
        ok ==> op_views(final(ops)@).to_multiset() == (planned + template_operations(
            spec_adapter_resources(adapter),
        )).to_multiset(),
{
    let ids = adapter_resources(adapter);
    let mut i: usize = 0;
    while i < ids.len()
        invariant
            i <= ids@.len(),
            ids@ == spec_adapter_resources(adapter),
            strictly_sorted(op_paths(op_views(ops@))),
            op_views(ops@).to_multiset() == (planned + template_operations(
                ids@.take(i as int),
            )).to_multiset(),
            distinct_seqs(op_paths(planned + template_operations(ids@.take(i as int)))),
        decreases ids.len() - i,
    {
        let ghost prev = planned + template_operations(ids@.take(i as int));
        assert(ids@.take(i as int + 1).drop_last() =~= ids@.take(i as int));
        assert(ids@.take(i as int + 1).last() == ids@[i as int]);
        match template_payload(ids[i]) {
            Some(op) => {
                let ghost v = op@;
                assert(planned + template_operations(ids@.take(i as int + 1)) =~= prev.push(v));
                proof {
                    lemma_paths_contained(op_views(ops@), prev, v.path);
                }
                if !insert_by_path(ops, op) {
                    proof {
                        lemma_not_distinct_push(prev, v);
                        lemma_not_distinct_extends(
                            prev.push(v),
                            planned,
                            ids@,
                            i as int + 1,
                        );
                    }
                    return false;
                }
                proof {
                    lemma_distinct_push(prev, v);
                }
            },
            None => {
                assert(planned + template_operations(ids@.take(i as int + 1)) =~= prev);
            },
        }
        i = i + 1;
    }
    assert(ids@.take(ids@.len() as int) =~= ids@);
    true
}

/// Two sequences with one multiset hold the same paths.
proof fn lemma_paths_contained(a: Seq<PlanOperationView>, b: Seq<PlanOperationView>, p: Seq<char>)
    requires
        a.to_multiset() == b.to_multiset(),
    ensures
        op_paths(a).contains(p) <==> op_paths(b).contains(p),
{
    if op_paths(a).contains(p) {
        let j = choose|j: int| 0 <= j < op_paths(a).len() && op_paths(a)[j] == p;
        assert(a.to_multiset().count(a[j]) > 0);
        assert(b.contains(a[j]));
        let k = choose|k: int| 0 <= k < b.len() && b[k] == a[j];
        assert(op_paths(b)[k] == p);
    }
    if op_paths(b).contains(p) {
        let j = choose|j: int| 0 <= j < op_paths(b).len() && op_paths(b)[j] == p;
        assert(b.to_multiset().count(b[j]) > 0);
        assert(a.contains(b[j]));
        let k = choose|k: int| 0 <= k < a.len() && a[k] == b[j];
        assert(op_paths(a)[k] == p);
    }
}

proof fn lemma_distinct_push(s: Seq<PlanOperationView>, v: PlanOperationView)
    requires
        distinct_seqs(op_paths(s)),
        !op_paths(s).contains(v.path),
    ensures
        distinct_seqs(op_paths(s.push(v))),
{
    let q = op_paths(s.push(v));
    assert(q =~= op_paths(s).push(v.path));
    assert forall|i: int, j: int| 0 <= i < j < q.len() implies q[i] != q[j] by {
        if j == q.len() - 1 {
            assert(q[i] == op_paths(s)[i]);
        }
    }
}

proof fn lemma_not_distinct_push(s: Seq<PlanOperationView>, v: PlanOperationView)
    requires
        op_paths(s).contains(v.path),
    ensures
        !distinct_seqs(op_paths(s.push(v))),
{
    let j = choose|j: int| 0 <= j < op_paths(s).len() && op_paths(s)[j] == v.path;
    let q = op_paths(s.push(v));
    assert(q[j] == q[q.len() - 1]);
}

/// A repeated path stays repeated as more payloads follow.
proof fn lemma_not_distinct_extends(
    s: Seq<PlanOperationView>,
    planned: Seq<PlanOperationView>,
    ids: Seq<TemplateId>,
    n: int,
)
    requires
        0 <= n <= ids.len(),
        s == planned + template_operations(ids.take(n)),
        !distinct_seqs(op_paths(s)),
    ensures
        !distinct_seqs(op_paths(planned + template_operations(ids))),
    decreases ids.len() - n,
{
    if n == ids.len() {
        assert(ids.take(n) =~= ids);
    } else {
        assert(ids.take(n + 1).drop_last() =~= ids.take(n));
        let t = planned + template_operations(ids.take(n + 1));
        assert(t =~= s + match template_operation(ids.take(n + 1).last()) {
            Some(v) => seq![v],
            None => seq![],
        });
        let (i, j) = choose|i: int, j: int|
            0 <= i < j < op_paths(s).len() && op_paths(s)[i] == op_paths(s)[j];
        assert(op_paths(t)[i] == op_paths(s)[i] && op_paths(t)[j] == op_paths(s)[j]);
        lemma_not_distinct_extends(t, planned, ids, n + 1);
    }
}


proof fn lemma_payload_bytes_append(a: Seq<PlanOperationView>, b: Seq<PlanOperationView>)
    ensures
        payload_bytes(a + b) == payload_bytes(a) + payload_bytes(b),
    decreases b.len(),
{
    if b.len() == 0 {
        assert(a + b =~= a);
    } else {
        lemma_payload_bytes_append(a, b.drop_last());
        assert((a + b).drop_last() =~= a + b.drop_last());
    }
}

proof fn lemma_payload_bytes_nonneg(a: Seq<PlanOperationView>)
    ensures
        payload_bytes(a) >= 0,
    decreases a.len(),
{
    if a.len() > 0 {
        lemma_payload_bytes_nonneg(a.drop_last());
    }
}

proof fn lemma_template_operations_append(a: Seq<TemplateId>, b: Seq<TemplateId>)
    ensures
        template_operations(a + b) == template_operations(a) + template_operations(b),
    decreases b.len(),
{
    if b.len() == 0 {
        assert(a + b =~= a);
        assert(template_operations(b) =~= Seq::<PlanOperationView>::empty());
    } else {
        lemma_template_operations_append(a, b.drop_last());
        assert((a + b).drop_last() =~= a + b.drop_last());
    }
}

/// `total` plus the content bytes of `adapter`'s whole-file payloads, or
/// `None` if that exceeds `u64`.
fn add_template_bytes(total: u64, adapter: AdapterId) -> (r: Option<u64>)
    ensures
        match r {
            Some(t) => t == total + payload_bytes(
                template_operations(spec_adapter_resources(adapter)),
            ),
            None => total + payload_bytes(template_operations(spec_adapter_resources(adapter)))
                > u64::MAX,
        },
{
    let ids = adapter_resources(adapter);
    let mut sum: u64 = total;
    let mut i: usize = 0;
    while i < ids.len()
        invariant
            i <= ids@.len(),
            ids@ == spec_adapter_resources(adapter),
            sum == total + payload_bytes(template_operations(ids@.take(i as int))),
        decreases ids.len() - i,
    {
        assert(ids@.take(i as int + 1).drop_last() =~= ids@.take(i as int));
        assert(ids@.take(i as int + 1).last() == ids@[i as int]);
        let ghost prev = template_operations(ids@.take(i as int));
        match template_payload(ids[i]) {
            Some(op) => {
                let ghost v = op@;
                assert(template_operations(ids@.take(i as int + 1)) =~= prev.push(v));
                assert(prev.push(v).drop_last() =~= prev);
                let n = op.content.len() as u64;
                match sum.checked_add(n) {
                    Some(t) => {
                        sum = t;
                    },
                    None => {
                        proof {
                            lemma_template_operations_append(
                                ids@.take(i as int + 1),
                                ids@.skip(i as int + 1),
                            );
                            assert(ids@.take(i as int + 1) + ids@.skip(i as int + 1) =~= ids@);
                            lemma_payload_bytes_append(
                                template_operations(ids@.take(i as int + 1)),
                                template_operations(ids@.skip(i as int + 1)),
                            );
                            lemma_payload_bytes_nonneg(template_operations(ids@.skip(i as int + 1)));
                        }
                        return None;
                    },
                }
            },
            None => {
                assert(template_operations(ids@.take(i as int + 1)) =~= prev);
            },
        }
        i = i + 1;
    }
    assert(ids@.take(ids@.len() as int) =~= ids@);
    Some(sum)
}

proof fn lemma_not_distinct_prefix(a: Seq<PlanOperationView>, b: Seq<PlanOperationView>)
    requires
        !distinct_seqs(op_paths(a)),
    ensures
        !distinct_seqs(op_paths(a + b)),
{
    let (i, j) = choose|i: int, j: int|
        0 <= i < j < op_paths(a).len() && op_paths(a)[i] == op_paths(a)[j];
    assert(op_paths(a + b)[i] == op_paths(a)[i] && op_paths(a + b)[j] == op_paths(a)[j]);
}

/// Whether `selection` with the ELF `elf` plans payloads: their paths are
/// distinct and their contents fit one transaction.
pub open spec fn payloads_ok(selection: AdapterSelection, elf: Seq<u8>) -> bool {
    &&& distinct_seqs(op_paths(spec_payloads(selection, elf)))
    &&& payload_bytes(spec_payloads(selection, elf)) <= MAX_TRANSACTION_BYTES
}

/// The whole-file payloads of a plan for `selection` under `root`, in path
/// order: the static bootart ELF `elf` and every whole-file resource of the
/// selected adapters.  Refuses an ELF that is not a static bootart for the
/// product, a destination planned twice, and contents beyond one
/// transaction.
pub fn build_payload_operations(root: &str, selection: AdapterSelection, elf: &[u8]) -> (r: Result<
    Vec<PlanOperation>,
    InstallError,
>)
    ensures
        elf@.len() > MAX_INSTALL_FILE_BYTES ==> (r matches Err(InstallError::FileTooLarge {
            path,
            size,
            limit,
        }) && path@ == BOOTART_BINARY_PATH@ && size == elf@.len() && limit == MAX_INSTALL_FILE_BYTES),
        elf@.len() <= MAX_INSTALL_FILE_BYTES && !static_elf_valid(elf@) ==> (r matches Err(e)
            && e is InvalidBootartElf),
        static_elf_valid(elf@) ==> (r is Ok <==> payloads_ok(selection, elf@)),
        static_elf_valid(elf@) && !distinct_seqs(op_paths(spec_payloads(selection, elf@))) ==> (r matches Err(e)
            && e is InvalidPlan),
        static_elf_valid(elf@) && distinct_seqs(op_paths(spec_payloads(selection, elf@))) && payload_bytes(
            spec_payloads(selection, elf@),
        ) > u64::MAX ==> (r matches Err(e) && e is InvalidPlan),
        static_elf_valid(elf@) && distinct_seqs(op_paths(spec_payloads(selection, elf@))) && MAX_TRANSACTION_BYTES
            < payload_bytes(spec_payloads(selection, elf@)) <= u64::MAX ==> (r matches Err(
            InstallError::FileTooLarge { path, size, limit },
        ) && path@ == root@ && size == payload_bytes(spec_payloads(selection, elf@)) && limit
            == MAX_TRANSACTION_BYTES),
        r matches Ok(v) ==> strictly_sorted(op_paths(op_views(v@))) && op_views(v@).to_multiset()
            == spec_payloads(selection, elf@).to_multiset(),
{
    match validate_static_elf(elf) {
        Ok(()) => {},
        Err(e) => {
            return Err(e);
        },
    }
    let binary = PlanOperation {
        path: owned(BOOTART_BINARY_PATH),
        mode: 0o755,
        owner_uid: 0,
        digest: sha256(elf),
        source: PlanSource::BootartElf,
        expected_previous: ExpectedPreviousState::Uninspected,
        content: vstd::slice::slice_to_vec(elf),
    };
    let mut ops: Vec<PlanOperation> = Vec::new();
    ops.push(binary);
    let ghost planned = seq![bootart_operation(elf@)];
    let ghost t1 = template_operations(spec_adapter_resources(selection.spec_initramfs()));
    let ghost t2 = template_operations(spec_adapter_resources(selection.spec_real_root()));
    assert(op_views(ops@) =~= planned);
    assert(op_paths(planned) =~= seq![BOOTART_BINARY_PATH@]);
    if !add_adapter_payloads(&mut ops, selection.initramfs(), Ghost(planned)) {
        proof {
            lemma_not_distinct_prefix(planned + t1, t2);
        }
        return Err(invalid("duplicate payload destination"));
    }
    if !add_adapter_payloads(&mut ops, selection.real_root(), Ghost(planned + t1)) {
        return Err(invalid("duplicate payload destination"));
    }
    assert(spec_payloads(selection, elf@) == planned + t1 + t2);
    proof {
        lemma_payload_bytes_append(planned + t1, t2);
        lemma_payload_bytes_append(planned, t1);
        assert(planned.drop_last() =~= Seq::<PlanOperationView>::empty());
        assert(payload_bytes(planned.drop_last()) == 0);
        assert(payload_bytes(planned) == elf@.len());
        lemma_payload_bytes_nonneg(t2);
        assert(payload_bytes(spec_payloads(selection, elf@)) == elf@.len() + payload_bytes(t1)
            + payload_bytes(t2));
    }
    let total = match add_template_bytes(elf.len() as u64, selection.initramfs()) {
        Some(t) => match add_template_bytes(t, selection.real_root()) {
            Some(t) => t,
            None => {
                return Err(invalid("payload byte count overflowed"));
            },
        },
        None => {
            return Err(invalid("payload byte count overflowed"));
        },
    };
    if total > MAX_TRANSACTION_BYTES {
        return Err(
            InstallError::FileTooLarge {
                path: owned(root),
                size: total,
                limit: MAX_TRANSACTION_BYTES,
            },
        );
    }
    Ok(ops)
}

} // verus!
