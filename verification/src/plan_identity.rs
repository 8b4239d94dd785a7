//! The deterministic identity of an install plan: SHA-256 over its
//! selected adapters and every planned file, edit, link and safety record,
//! each text field prefixed with its length so no two plans share bytes.

use crate::adapter::{adapter, spec_adapter_name};
use crate::digest::{spec_sha256, Sha256Digest};
use crate::embedded::{spec_template_name, template_name, RESOURCE_SET_VERSION};
use crate::install_plan::{InstallPlan, InstallPlanView};
use crate::operations::{
    activation_views, snippet_views, ActivationOperation, ActivationOperationView, ActivationRelation,
    ActivationScope, ManagedSnippetOperation, ManagedSnippetOperationView,
};
use crate::plan::{op_views, PlanOperation, PlanOperationView, PlanSource};
use crate::render::{previous_name, spec_render_safety_record_json};
use crate::safety::SafetyRecord;
use crate::selection::{pair_index, spec_pair_gate, AdapterSelectionReason};
use crate::status::PLAN_VERSION;
use crate::text::str_bytes;
use vstd::prelude::*;
use vstd::utf8::encode_utf8;

verus! {

/// `n` as two big-endian bytes.
pub open spec fn u16_be(n: u16) -> Seq<u8> {
    seq![(n / 256) as u8, (n % 256) as u8]
}

/// `n` as four big-endian bytes.
pub open spec fn u32_be(n: u32) -> Seq<u8> {
    seq![(n / 0x1000000) as u8, ((n / 0x10000) % 256) as u8, ((n / 256) % 256) as u8, (n % 256) as u8]
}

/// `n` as eight big-endian bytes.
pub open spec fn u64_be(n: u64) -> Seq<u8> {
    seq![
        (n / 0x100000000000000) as u8,
        ((n / 0x1000000000000) % 256) as u8,
        ((n / 0x10000000000) % 256) as u8,
        ((n / 0x100000000) % 256) as u8,
        ((n / 0x1000000) % 256) as u8,
        ((n / 0x10000) % 256) as u8,
        ((n / 256) % 256) as u8,
        (n % 256) as u8,
    ]
}

/// A field: its length as eight big-endian bytes, then its bytes.
pub open spec fn field(b: Seq<u8>) -> Seq<u8> {
    u64_be(b.len() as u64) + b
}

/// A text field: the UTF-8 of `s` as a field.
pub open spec fn text_field(s: Seq<char>) -> Seq<u8> {
    field(encode_utf8(s))
}

/// The digest's 32 bytes.
pub open spec fn digest_bytes(d: Sha256Digest) -> Seq<u8> {
    u64_be(d.w0) + u64_be(d.w1) + u64_be(d.w2) + u64_be(d.w3)
}

pub open spec fn reason_name(r: AdapterSelectionReason) -> Seq<char> {
    match r {
        AdapterSelectionReason::ExplicitRequest => "explicit_request"@,
        AdapterSelectionReason::UniqueDiscovery => "unique_discovery"@,
    }
}

pub open spec fn source_name(s: PlanSource) -> Seq<char> {
    match s {
        PlanSource::BootartElf => "bootart.elf"@,
        PlanSource::EmbeddedTemplate(id) => spec_template_name(id)@,
    }
}

pub open spec fn activation_scope_name(s: ActivationScope) -> Seq<char> {
    match s {
        ActivationScope::GeneratedInitramfs => "generated_initramfs"@,
        ActivationScope::RealRoot => "real_root"@,
    }
}

pub open spec fn relation_name(r: ActivationRelation) -> Seq<char> {
    match r {
        ActivationRelation::SystemdWants => "systemd_wants"@,
        ActivationRelation::SystemdRequires => "systemd_requires"@,
        ActivationRelation::OpenRcRunlevel { .. } => "openrc_runlevel"@,
    }
}

/// The runlevel of an OpenRC link; empty for the others.
pub open spec fn runlevel_text(r: ActivationRelation) -> Seq<char> {
    match r {
        ActivationRelation::OpenRcRunlevel { runlevel } => runlevel@,
        _ => Seq::empty(),
    }
}

pub open spec fn op_identity(o: PlanOperationView) -> Seq<u8> {
    text_field("write_file"@) + text_field(o.path) + u32_be(o.mode) + u32_be(o.owner_uid) + digest_bytes(o.digest)
        + text_field(source_name(o.source)) + text_field(previous_name(o.expected_previous))
}

pub open spec fn snippet_identity(o: ManagedSnippetOperationView) -> Seq<u8> {
    text_field("insert_managed_snippet"@) + text_field(o.target) + text_field(o.insertion_point) + digest_bytes(
        o.digest,
    ) + text_field(spec_adapter_name(o.adapter)@) + text_field(spec_template_name(o.source)@) + text_field(
        previous_name(o.expected_previous),
    )
}

pub open spec fn activation_identity(o: ActivationOperationView) -> Seq<u8> {
    text_field("create_symlink"@) + text_field(activation_scope_name(o.scope)) + text_field(o.path) + text_field(
        o.relative_target,
    ) + u32_be(o.owner_uid) + text_field(relation_name(o.relation)) + text_field(runlevel_text(o.relation))
        + text_field(spec_adapter_name(o.adapter)@) + text_field(spec_template_name(o.source)@) + text_field(
        previous_name(o.expected_previous),
    )
}

pub open spec fn ops_identity(v: Seq<PlanOperationView>) -> Seq<u8>
    decreases v.len(),
{
    if v.len() == 0 {
        seq![]
    } else {
        ops_identity(v.drop_last()) + op_identity(v.last())
    }
}

pub open spec fn snippets_identity(v: Seq<ManagedSnippetOperationView>) -> Seq<u8>
    decreases v.len(),
{
    if v.len() == 0 {
        seq![]
    } else {
        snippets_identity(v.drop_last()) + snippet_identity(v.last())
    }
}

pub open spec fn activations_identity(v: Seq<ActivationOperationView>) -> Seq<u8>
    decreases v.len(),
{
    if v.len() == 0 {
        seq![]
    } else {
        activations_identity(v.drop_last()) + activation_identity(v.last())
    }
}

pub open spec fn records_identity(v: Seq<SafetyRecord>) -> Seq<u8>
    decreases v.len(),
{
    if v.len() == 0 {
        seq![]
    } else {
        records_identity(v.drop_last()) + text_field(spec_render_safety_record_json(v.last()))
    }
}

/// The bytes a plan's identity hashes: a label, the plan and resource-set
/// versions, the root, each selected adapter with why it was selected, the
/// pair's VM gates, then the count and fields of the file writes, the
/// snippet edits, the links and the rendered safety records.
#[verifier::opaque]
pub open spec fn plan_identity_bytes(p: InstallPlanView) -> Seq<u8> {
    let i = pair_index(p.selection.spec_initramfs(), p.selection.spec_real_root());
    text_field("bootart.install-plan.identity"@) + u16_be(PLAN_VERSION) + u16_be(RESOURCE_SET_VERSION) + text_field(
        p.root,
    ) + text_field(spec_adapter_name(p.selection.spec_initramfs())@) + text_field(
        reason_name(p.selection.spec_initramfs_reason()),
    ) + text_field(spec_adapter_name(p.selection.spec_real_root())@) + text_field(
        reason_name(p.selection.spec_real_root_reason()),
    ) + text_field(spec_pair_gate(i, 0)@) + text_field(spec_pair_gate(i, 1)@) + text_field(spec_pair_gate(i, 2)@)
        + u64_be(p.operations.len() as u64) + ops_identity(p.operations) + u64_be(p.snippets.len() as u64)
        + snippets_identity(p.snippets) + u64_be(p.activations.len() as u64) + activations_identity(p.activations)
        + u64_be(p.safety_records.len() as u64) + records_identity(p.safety_records)
}

/// Eight big-endian bytes determine the number.
proof fn lemma_u64_be_injective(a: u64, b: u64)
    requires
        u64_be(a) == u64_be(b),
    ensures
        a == b,
{
    assert(u64_be(a)[0] == u64_be(b)[0]);
    assert(u64_be(a)[1] == u64_be(b)[1]);
    assert(u64_be(a)[2] == u64_be(b)[2]);
    assert(u64_be(a)[3] == u64_be(b)[3]);
    assert(u64_be(a)[4] == u64_be(b)[4]);
    assert(u64_be(a)[5] == u64_be(b)[5]);
    assert(u64_be(a)[6] == u64_be(b)[6]);
    assert(u64_be(a)[7] == u64_be(b)[7]);
    assert(a / 0x100000000000000u64 == b / 0x100000000000000u64);
    assert((a / 0x1000000000000u64) % 256u64 == (b / 0x1000000000000u64) % 256u64);
    assert((a / 0x10000000000u64) % 256u64 == (b / 0x10000000000u64) % 256u64);
    assert((a / 0x100000000u64) % 256u64 == (b / 0x100000000u64) % 256u64);
    assert((a / 0x1000000u64) % 256u64 == (b / 0x1000000u64) % 256u64);
    assert((a / 0x10000u64) % 256u64 == (b / 0x10000u64) % 256u64);
    assert((a / 256u64) % 256u64 == (b / 256u64) % 256u64);
    assert(a % 256u64 == b % 256u64);
    assert(a == b) by (bit_vector)
        requires
            a / 0x100000000000000u64 == b / 0x100000000000000u64,
            (a / 0x1000000000000u64) % 256u64 == (b / 0x1000000000000u64) % 256u64,
            (a / 0x10000000000u64) % 256u64 == (b / 0x10000000000u64) % 256u64,
            (a / 0x100000000u64) % 256u64 == (b / 0x100000000u64) % 256u64,
            (a / 0x1000000u64) % 256u64 == (b / 0x1000000u64) % 256u64,
            (a / 0x10000u64) % 256u64 == (b / 0x10000u64) % 256u64,
            (a / 256u64) % 256u64 == (b / 256u64) % 256u64,
            a % 256u64 == b % 256u64,
    ;
}

/// A length-prefixed field is read back unambiguously from the front of a
/// byte string: equal fields are followed by equal rest.
pub proof fn lemma_field_prefix(a: Seq<u8>, b: Seq<u8>, x: Seq<u8>, y: Seq<u8>)
    requires
        a.len() <= u64::MAX,
        b.len() <= u64::MAX,
        field(a) + x == field(b) + y,
    ensures
        a == b,
        x == y,
{
    let fa = field(a) + x;
    let fb = field(b) + y;
    assert(fa.subrange(0, 8) =~= u64_be(a.len() as u64));
    assert(fb.subrange(0, 8) =~= u64_be(b.len() as u64));
    lemma_u64_be_injective(a.len() as u64, b.len() as u64);
    assert(a.len() == b.len());
    assert(fa.subrange(8, 8 + a.len() as int) =~= a);
    assert(fb.subrange(8, 8 + b.len() as int) =~= b);
    assert(fa.skip(8 + a.len() as int) =~= x);
    assert(fb.skip(8 + b.len() as int) =~= y);
}

/// Appending keeps a prefix.
proof fn lemma_prefix_kept(pre: Seq<u8>, s: Seq<u8>, z: Seq<u8>)
    requires
        pre.len() <= s.len(),
        s.take(pre.len() as int) == pre,
    ensures
        pre.len() <= (s + z).len(),
        (s + z).take(pre.len() as int) == pre,
{
    assert((s + z).take(pre.len() as int) =~= s.take(pre.len() as int));
}

/// The identity bytes start with the fixed head, then the root's field.
proof fn lemma_root_field_position(p: InstallPlanView)
    ensures
        ({
            let h = (text_field("bootart.install-plan.identity"@) + u16_be(PLAN_VERSION) + u16_be(
                RESOURCE_SET_VERSION,
            )).len() as int;
            let t = text_field(p.root);
            &&& plan_identity_bytes(p).len() >= h + t.len()
            &&& plan_identity_bytes(p).subrange(h, h + t.len()) == t
        }),
{
    let head = text_field("bootart.install-plan.identity"@) + u16_be(PLAN_VERSION) + u16_be(
        RESOURCE_SET_VERSION,
    );
    let t = text_field(p.root);
    let i = pair_index(p.selection.spec_initramfs(), p.selection.spec_real_root());
    let s0 = head + t;
    assert(s0.take(s0.len() as int) =~= s0);
    let s1 = s0 + text_field(spec_adapter_name(p.selection.spec_initramfs())@);
    lemma_prefix_kept(s0, s0, text_field(spec_adapter_name(p.selection.spec_initramfs())@));
    let s2 = s1 + text_field(reason_name(p.selection.spec_initramfs_reason()));
    lemma_prefix_kept(s0, s1, text_field(reason_name(p.selection.spec_initramfs_reason())));
    let s3 = s2 + text_field(spec_adapter_name(p.selection.spec_real_root())@);
    lemma_prefix_kept(s0, s2, text_field(spec_adapter_name(p.selection.spec_real_root())@));
    let s4 = s3 + text_field(reason_name(p.selection.spec_real_root_reason()));
    lemma_prefix_kept(s0, s3, text_field(reason_name(p.selection.spec_real_root_reason())));
    let s5 = s4 + text_field(spec_pair_gate(i, 0)@);
    lemma_prefix_kept(s0, s4, text_field(spec_pair_gate(i, 0)@));
    let s6 = s5 + text_field(spec_pair_gate(i, 1)@);
    lemma_prefix_kept(s0, s5, text_field(spec_pair_gate(i, 1)@));
    let s7 = s6 + text_field(spec_pair_gate(i, 2)@);
    lemma_prefix_kept(s0, s6, text_field(spec_pair_gate(i, 2)@));
    let s8 = s7 + u64_be(p.operations.len() as u64);
    lemma_prefix_kept(s0, s7, u64_be(p.operations.len() as u64));
    let s9 = s8 + ops_identity(p.operations);
    lemma_prefix_kept(s0, s8, ops_identity(p.operations));
    let s10 = s9 + u64_be(p.snippets.len() as u64);
    lemma_prefix_kept(s0, s9, u64_be(p.snippets.len() as u64));
    let s11 = s10 + snippets_identity(p.snippets);
    lemma_prefix_kept(s0, s10, snippets_identity(p.snippets));
    let s12 = s11 + u64_be(p.activations.len() as u64);
    lemma_prefix_kept(s0, s11, u64_be(p.activations.len() as u64));
    let s13 = s12 + activations_identity(p.activations);
    lemma_prefix_kept(s0, s12, activations_identity(p.activations));
    let s14 = s13 + u64_be(p.safety_records.len() as u64);
    lemma_prefix_kept(s0, s13, u64_be(p.safety_records.len() as u64));
    let s15 = s14 + records_identity(p.safety_records);
    lemma_prefix_kept(s0, s14, records_identity(p.safety_records));
    assert(plan_identity_bytes(p) == s15) by {
        reveal(plan_identity_bytes);
    }
    let bp = plan_identity_bytes(p);
    assert(bp.subrange(head.len() as int, s0.len() as int) =~= s0.skip(head.len() as int));
    assert(s0.skip(head.len() as int) =~= t);
}

/// The identity is deterministic: equal plans have equal identities.
pub proof fn lemma_equal_plans_have_equal_identities(p: InstallPlanView, q: InstallPlanView)
    requires
        p == q,
    ensures
        spec_sha256(plan_identity_bytes(p)) == spec_sha256(plan_identity_bytes(q)),
{
}

/// The bytes a plan's identity hashes determine its root: plans whose roots
/// differ hash different bytes.
pub proof fn lemma_identity_bytes_determine_the_root(p: InstallPlanView, q: InstallPlanView)
    requires
        encode_utf8(p.root).len() <= u64::MAX,
        encode_utf8(q.root).len() <= u64::MAX,
        plan_identity_bytes(p) == plan_identity_bytes(q),
    ensures
        p.root == q.root,
{
    let head = text_field("bootart.install-plan.identity"@) + u16_be(PLAN_VERSION) + u16_be(
        RESOURCE_SET_VERSION,
    );
    let h = head.len() as int;
    let bp = plan_identity_bytes(p);
    let tp = text_field(p.root);
    let tq = text_field(q.root);
    lemma_root_field_position(p);
    lemma_root_field_position(q);
    let x = bp.skip(h + tp.len());
    let y = bp.skip(h + tq.len());
    assert(bp.skip(h) =~= tp + x);
    assert(bp.skip(h) =~= tq + y);
    lemma_field_prefix(encode_utf8(p.root), encode_utf8(q.root), x, y);
    vstd::utf8::encode_utf8_decode_utf8(p.root);
    vstd::utf8::encode_utf8_decode_utf8(q.root);
}

fn push_u16(out: &mut Vec<u8>, n: u16)
    ensures
        final(out)@ == old(out)@ + u16_be(n),
{
    out.push((n / 256) as u8);
    out.push((n % 256) as u8);
    assert(final(out)@ =~= old(out)@ + u16_be(n));
}

fn push_u32(out: &mut Vec<u8>, n: u32)
    ensures
        final(out)@ == old(out)@ + u32_be(n),
{
    out.push((n / 0x1000000) as u8);
    out.push(((n / 0x10000) % 256) as u8);
    out.push(((n / 256) % 256) as u8);
    out.push((n % 256) as u8);
    assert(final(out)@ =~= old(out)@ + u32_be(n));
}

fn push_u64(out: &mut Vec<u8>, n: u64)
    ensures
        final(out)@ == old(out)@ + u64_be(n),
{
    out.push((n / 0x100000000000000) as u8);
    out.push(((n / 0x1000000000000) % 256) as u8);
    out.push(((n / 0x10000000000) % 256) as u8);
    out.push(((n / 0x100000000) % 256) as u8);
    out.push(((n / 0x1000000) % 256) as u8);
    out.push(((n / 0x10000) % 256) as u8);
    out.push(((n / 256) % 256) as u8);
    out.push((n % 256) as u8);
    assert(final(out)@ =~= old(out)@ + u64_be(n));
}

fn push_bytes(out: &mut Vec<u8>, b: &[u8])
    ensures
        final(out)@ == old(out)@ + b@,
{
    let ghost start = out@;
    let mut i: usize = 0;
    while i < b.len()
        invariant
            i <= b@.len(),
            out@ == start + b@.take(i as int),
        decreases b.len() - i,
    {
        out.push(b[i]);
        assert(b@.take(i as int + 1) =~= b@.take(i as int).push(b@[i as int]));
        i = i + 1;
    }
    assert(b@.take(b@.len() as int) =~= b@);
}

fn push_text(out: &mut Vec<u8>, s: &str)
    ensures
        final(out)@ == old(out)@ + text_field(s@),
{
    let b = str_bytes(s);
    let ghost start = out@;
    push_u64(out, b.len() as u64);
    push_bytes(out, b.as_slice());
    assert(out@ =~= start + text_field(s@));
}

fn push_digest(out: &mut Vec<u8>, d: Sha256Digest)
    ensures
        final(out)@ == old(out)@ + digest_bytes(d),
{
    let ghost start = out@;
    push_u64(out, d.w0);
    push_u64(out, d.w1);
    push_u64(out, d.w2);
    push_u64(out, d.w3);
    assert(out@ =~= start + digest_bytes(d));
}

pub(crate) fn reason_stable_name(r: AdapterSelectionReason) -> (s: &'static str)
    ensures
        s@ == reason_name(r),
{
    match r {
        AdapterSelectionReason::ExplicitRequest => "explicit_request",
        AdapterSelectionReason::UniqueDiscovery => "unique_discovery",
    }
}

pub(crate) fn source_stable_name(s: PlanSource) -> (r: &'static str)
    ensures
        r@ == source_name(s),
{
    match s {
        PlanSource::BootartElf => "bootart.elf",
        PlanSource::EmbeddedTemplate(id) => template_name(id),
    }
}

pub(crate) fn activation_scope_stable_name(s: ActivationScope) -> (r: &'static str)
    ensures
        r@ == activation_scope_name(s),
{
    match s {
        ActivationScope::GeneratedInitramfs => "generated_initramfs",
        ActivationScope::RealRoot => "real_root",
    }
}

pub(crate) fn relation_stable_name(r: ActivationRelation) -> (s: &'static str)
    ensures
        s@ == relation_name(r),
{
    match r {
        ActivationRelation::SystemdWants => "systemd_wants",
        ActivationRelation::SystemdRequires => "systemd_requires",
        ActivationRelation::OpenRcRunlevel { .. } => "openrc_runlevel",
    }
}

pub(crate) fn runlevel_or_empty(r: ActivationRelation) -> (s: &'static str)
    ensures
        s@ == runlevel_text(r),
{
    match r {
        ActivationRelation::OpenRcRunlevel { runlevel } => runlevel,
        _ => {
            proof {
                reveal_strlit("");
            }
            ""
        },
    }
}

fn operation_bytes(o: &PlanOperation) -> (v: Vec<u8>)
    ensures
        v@ == op_identity(o@),
{
    let mut v: Vec<u8> = Vec::new();
    push_text(&mut v, "write_file");
    assert(v@ =~= text_field("write_file"@));
    push_text(&mut v, o.path());
    push_u32(&mut v, o.mode());
    push_u32(&mut v, o.owner_uid());
    push_digest(&mut v, o.digest());
    push_text(&mut v, source_stable_name(o.source()));
    push_text(&mut v, o.expected_previous().stable_name());
    v
}

fn snippet_bytes(o: &ManagedSnippetOperation) -> (v: Vec<u8>)
    ensures
        v@ == snippet_identity(o@),
{
    let mut v: Vec<u8> = Vec::new();
    push_text(&mut v, "insert_managed_snippet");
    assert(v@ =~= text_field("insert_managed_snippet"@));
    push_text(&mut v, o.target());
    push_text(&mut v, o.insertion_point());
    push_digest(&mut v, o.digest());
    push_text(&mut v, adapter(o.adapter()).name);
    push_text(&mut v, template_name(o.source()));
    push_text(&mut v, o.expected_previous().stable_name());
    v
}

fn activation_bytes(o: &ActivationOperation) -> (v: Vec<u8>)
    ensures
        v@ == activation_identity(o@),
{
    let mut v: Vec<u8> = Vec::new();
    push_text(&mut v, "create_symlink");
    assert(v@ =~= text_field("create_symlink"@));
    push_text(&mut v, activation_scope_stable_name(o.scope()));
    push_text(&mut v, o.path());
    push_text(&mut v, o.relative_target());
    push_u32(&mut v, o.owner_uid());
    push_text(&mut v, relation_stable_name(o.relation()));
    push_text(&mut v, runlevel_or_empty(o.relation()));
    push_text(&mut v, adapter(o.adapter()).name);
    push_text(&mut v, template_name(o.source()));
    push_text(&mut v, o.expected_previous().stable_name());
    v
}

fn push_operations(out: &mut Vec<u8>, ops: &Vec<PlanOperation>)
    ensures
        final(out)@ == old(out)@ + ops_identity(op_views(ops@)),
{
    let ghost start = out@;
    let ghost ov = op_views(ops@);
    let mut i: usize = 0;
    assert(ov.take(0) =~= Seq::<PlanOperationView>::empty());
    assert(start + ops_identity(ov.take(0)) =~= start);
    while i < ops.len()
        invariant
            i <= ops@.len(),
            ov == op_views(ops@),
            out@ == start + ops_identity(ov.take(i as int)),
        decreases ops.len() - i,
    {
        let item = operation_bytes(&ops[i]);
        push_bytes(out, item.as_slice());
        proof {
            assert(ov[i as int] == ops@[i as int]@);
            assert(ov.take(i as int + 1).drop_last() =~= ov.take(i as int));
            assert(ov.take(i as int + 1).last() == ops@[i as int]@);
            assert(out@ =~= start + ops_identity(ov.take(i as int + 1)));
        }
        i = i + 1;
    }
    assert(ov.take(ov.len() as int) =~= ov);
}

fn push_snippets(out: &mut Vec<u8>, ops: &Vec<ManagedSnippetOperation>)
    ensures
        final(out)@ == old(out)@ + snippets_identity(snippet_views(ops@)),
{
    let ghost start = out@;
    let ghost ov = snippet_views(ops@);
    let mut i: usize = 0;
    assert(ov.take(0) =~= Seq::<ManagedSnippetOperationView>::empty());
    assert(start + snippets_identity(ov.take(0)) =~= start);
    while i < ops.len()
        invariant
            i <= ops@.len(),
            ov == snippet_views(ops@),
            out@ == start + snippets_identity(ov.take(i as int)),
        decreases ops.len() - i,
    {
        let item = snippet_bytes(&ops[i]);
        push_bytes(out, item.as_slice());
        proof {
            assert(ov[i as int] == ops@[i as int]@);
            assert(ov.take(i as int + 1).drop_last() =~= ov.take(i as int));
            assert(ov.take(i as int + 1).last() == ops@[i as int]@);
            assert(out@ =~= start + snippets_identity(ov.take(i as int + 1)));
        }
        i = i + 1;
    }
    assert(ov.take(ov.len() as int) =~= ov);
}

fn push_activations(out: &mut Vec<u8>, ops: &Vec<ActivationOperation>)
    ensures
        final(out)@ == old(out)@ + activations_identity(activation_views(ops@)),
{
    let ghost start = out@;
    let ghost ov = activation_views(ops@);
    let mut i: usize = 0;
    assert(ov.take(0) =~= Seq::<ActivationOperationView>::empty());
    assert(start + activations_identity(ov.take(0)) =~= start);
    while i < ops.len()
        invariant
            i <= ops@.len(),
            ov == activation_views(ops@),
            out@ == start + activations_identity(ov.take(i as int)),
        decreases ops.len() - i,
    {
        let item = activation_bytes(&ops[i]);
        push_bytes(out, item.as_slice());
        proof {
            assert(ov[i as int] == ops@[i as int]@);
            assert(ov.take(i as int + 1).drop_last() =~= ov.take(i as int));
            assert(ov.take(i as int + 1).last() == ops@[i as int]@);
            assert(out@ =~= start + activations_identity(ov.take(i as int + 1)));
        }
        i = i + 1;
    }
    assert(ov.take(ov.len() as int) =~= ov);
}

fn push_records(out: &mut Vec<u8>, rs: &Vec<SafetyRecord>)
    ensures
        final(out)@ == old(out)@ + records_identity(rs@),
{
    let ghost start = out@;
    let mut i: usize = 0;
    assert(rs@.take(0) =~= Seq::<SafetyRecord>::empty());
    assert(start + records_identity(rs@.take(0)) =~= start);
    while i < rs.len()
        invariant
            i <= rs@.len(),
            out@ == start + records_identity(rs@.take(i as int)),
        decreases rs.len() - i,
    {
        let rendered = crate::render::render_safety_record_json(&rs[i]);
        push_text(out, rendered.as_str());
        proof {
            assert(rs@.take(i as int + 1).drop_last() =~= rs@.take(i as int));
            assert(rs@.take(i as int + 1).last() == rs@[i as int]);
            assert(out@ =~= start + records_identity(rs@.take(i as int + 1)));
        }
        i = i + 1;
    }
    assert(rs@.take(rs@.len() as int) =~= rs@);
}

impl InstallPlan {
    /// The plan's deterministic identity: SHA-256 over
    /// [`plan_identity_bytes`].
    pub fn identity(&self) -> (d: Sha256Digest)
        ensures
            d == spec_sha256(plan_identity_bytes(self@)),
    {
        let ghost p = self@;
        let selection = self.selection();
        let mut bytes: Vec<u8> = Vec::new();
        push_text(&mut bytes, "bootart.install-plan.identity");
        assert(bytes@ =~= text_field("bootart.install-plan.identity"@));
        push_u16(&mut bytes, PLAN_VERSION);
        push_u16(&mut bytes, RESOURCE_SET_VERSION);
        push_text(&mut bytes, self.root());
        push_text(&mut bytes, adapter(selection.initramfs()).name);
        push_text(&mut bytes, reason_stable_name(selection.initramfs_reason()));
        push_text(&mut bytes, adapter(selection.real_root()).name);
        push_text(&mut bytes, reason_stable_name(selection.real_root_reason()));
        let pair = selection.pair_metadata();
        push_text(&mut bytes, pair.proof_gates[0]);
        push_text(&mut bytes, pair.proof_gates[1]);
        push_text(&mut bytes, pair.proof_gates[2]);
        let ops = self.operations();
        push_u64(&mut bytes, ops.len() as u64);
        push_operations(&mut bytes, ops);
        let snippets = self.managed_snippet_operations();
        push_u64(&mut bytes, snippets.len() as u64);
        push_snippets(&mut bytes, snippets);
        let links = self.activation_operations();
        push_u64(&mut bytes, links.len() as u64);
        push_activations(&mut bytes, links);
        let records = self.safety_records();
        push_u64(&mut bytes, records.len() as u64);
        push_records(&mut bytes, records);
        proof {
            reveal(plan_identity_bytes);
        }
        assert(bytes@ == plan_identity_bytes(p));
        crate::digest::sha256(bytes.as_slice())
    }
}

} // verus!
