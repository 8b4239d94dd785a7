//! How an install plan is shown: deterministic JSON for machines and a
//! line-oriented preview for people. Both are pure functions of the plan.

use crate::adapter::{adapter, spec_adapter_name};
use crate::codec::{digest_hex, spec_digest_hex};
use crate::describe::{join_strings, join_with};
use crate::digest::spec_sha256;
use crate::embedded::{spec_template_name, template_name, RESOURCE_SET_VERSION};
use crate::install_plan::{InstallPlan, InstallPlanView};
use crate::operations::{
    activation_views, snippet_views, ActivationOperation, ActivationOperationView, ActivationRelation,
    ManagedSnippetOperation, ManagedSnippetOperationView,
};
use crate::plan::{op_views, PlanOperation, PlanOperationView};
use crate::plan_identity::{
    activation_scope_name, activation_scope_stable_name, plan_identity_bytes, reason_name, reason_stable_name,
    relation_name, relation_stable_name, source_name, source_stable_name,
};
use crate::render::{
    join_strs, json_escape, json_string_list, previous_name, render_safety_record_json, spec_json_escape,
    spec_render_safety_record_json,
};
use crate::safety::SafetyRecord;
use crate::status::PLAN_VERSION;
use crate::text::{concat_all, decimal, spec_decimal, str_views, string_views};
use vstd::prelude::*;

verus! {

/// The schema every machine-readable plan names.
pub const PLAN_SCHEMA: &'static str = "bootart.install-plan";

/// Why no plan is actionable yet.
pub open spec fn spec_plan_blockers() -> Seq<Seq<char>> {
    seq![
        "shared-file edit semantics and generated-initramfs destinations remain unresolved"@,
        "only per-filesystem known-byte lower bounds are checked; writability, inode capacity, allocation rounding, shared-file backups, and candidate-image capacity remain unresolved"@,
        "activation symlink execution is unsupported"@,
        "managed snippet execution is unsupported"@,
        "exact per-adapter generator path and arguments are unresolved"@,
        "candidate and known-good image paths, hashes, and boot entry are unresolved"@,
        "backup, inspection, and rollback safety records are preview-only"@,
        "exact encrypted-root and VM acceptance gates have not passed"@,
    ]
}

/// Why no plan is actionable yet, in their reviewed order.
pub fn plan_blockers() -> (v: Vec<&'static str>)
    ensures
        str_views(v@) == spec_plan_blockers(),
{
    let v = vec![
        "shared-file edit semantics and generated-initramfs destinations remain unresolved",
        "only per-filesystem known-byte lower bounds are checked; writability, inode capacity, allocation rounding, shared-file backups, and candidate-image capacity remain unresolved",
        "activation symlink execution is unsupported",
        "managed snippet execution is unsupported",
        "exact per-adapter generator path and arguments are unresolved",
        "candidate and known-good image paths, hashes, and boot entry are unresolved",
        "backup, inspection, and rollback safety records are preview-only",
        "exact encrypted-root and VM acceptance gates have not passed",
    ];
    assert(str_views(v@) =~= spec_plan_blockers());
    v
}

/// The blockers as a comma-separated list of JSON strings.
#[verifier::opaque]
pub open spec fn blockers_json_text() -> Seq<char> {
    json_string_list(spec_plan_blockers())
}

fn blockers_json() -> (s: String)
    ensures
        s@ == blockers_json_text(),
{
    let s = crate::render::json_string_list_exec(&strings_of_strs(&plan_blockers()));
    proof {
        reveal(blockers_json_text);
    }
    s
}

pub open spec fn op_json(o: PlanOperationView) -> Seq<char> {
    concat_all(
        seq![
            "{\"kind\":\"write_file\",\"path\":\""@,
            spec_json_escape(o.path),
            "\",\"mode\":"@,
            spec_decimal(o.mode as nat),
            ",\"owner_uid\":"@,
            spec_decimal(o.owner_uid as nat),
            ",\"sha256\":\""@,
            spec_digest_hex(o.digest),
            "\",\"source\":\""@,
            spec_json_escape(source_name(o.source)),
            "\",\"previous\":\""@,
            previous_name(o.expected_previous),
            "\"}"@,
        ],
    )
}

pub open spec fn snippet_json(o: ManagedSnippetOperationView) -> Seq<char> {
    concat_all(
        seq![
            "{\"kind\":\"insert_managed_snippet\",\"target\":\""@,
            spec_json_escape(o.target),
            "\",\"insertion_point\":\""@,
            spec_json_escape(o.insertion_point),
            "\",\"sha256\":\""@,
            spec_digest_hex(o.digest),
            "\",\"adapter\":\""@,
            spec_json_escape(spec_adapter_name(o.adapter)@),
            "\",\"source\":\""@,
            spec_json_escape(spec_template_name(o.source)@),
            "\",\"previous\":\""@,
            previous_name(o.expected_previous),
            "\",\"execution\":\"supported\"}"@,
        ],
    )
}

/// `,"runlevel":"…"` for an OpenRC link; nothing for the others.
pub open spec fn runlevel_json(r: ActivationRelation) -> Seq<char> {
    match r {
        ActivationRelation::OpenRcRunlevel { runlevel } => ",\"runlevel\":\""@ + spec_json_escape(runlevel@)
            + "\""@,
        _ => Seq::empty(),
    }
}

pub open spec fn activation_json(o: ActivationOperationView) -> Seq<char> {
    concat_all(
        seq![
            "{\"kind\":\"create_symlink\",\"scope\":\""@,
            activation_scope_name(o.scope),
            "\",\"path\":\""@,
            spec_json_escape(o.path),
            "\",\"target\":\""@,
            spec_json_escape(o.relative_target),
            "\",\"owner_uid\":"@,
            spec_decimal(o.owner_uid as nat),
            ",\"relation\":\""@,
            relation_name(o.relation),
            "\""@,
            runlevel_json(o.relation),
            ",\"adapter\":\""@,
            spec_json_escape(spec_adapter_name(o.adapter)@),
            "\",\"source\":\""@,
            spec_json_escape(spec_template_name(o.source)@),
            "\",\"previous\":\""@,
            previous_name(o.expected_previous),
            "\",\"execution\":\"supported\"}"@,
        ],
    )
}

/// Every operation of the plan as JSON: file writes, then snippet edits,
/// then links.
pub open spec fn operation_jsons(p: InstallPlanView) -> Seq<Seq<char>> {
    p.operations.map_values(|o: PlanOperationView| op_json(o)) + p.snippets.map_values(
        |o: ManagedSnippetOperationView| snippet_json(o),
    ) + p.activations.map_values(|o: ActivationOperationView| activation_json(o))
}

/// The plan as one JSON object: schema, versions, identity, the locked
/// preview state and its blockers, the root, the adapters with why each
/// was selected, the pair's gates, every operation and every safety record.
pub open spec fn plan_json_head(p: InstallPlanView) -> Seq<char> {
    concat_all(
        seq![
            "{\"schema\":\""@,
            PLAN_SCHEMA@,
            "\",\"version\":"@,
            spec_decimal(PLAN_VERSION as nat),
            ",\"resource_set_version\":"@,
            spec_decimal(RESOURCE_SET_VERSION as nat),
            ",\"plan_id\":\""@,
            spec_digest_hex(spec_sha256(plan_identity_bytes(p))),
            "\",\"actionable\":false,\"mutation\":\"locked\",\"blockers\":["@,
            blockers_json_text(),
            "],\"root\":\""@,
            spec_json_escape(p.root),
        ],
    )
}

pub open spec fn plan_json_tail(p: InstallPlanView) -> Seq<char> {
    concat_all(
        seq![
            "\",\"adapters\":["@,
            json_string_list(
                seq![
                    spec_adapter_name(p.selection.spec_initramfs())@,
                    spec_adapter_name(p.selection.spec_real_root())@,
                ],
            ),
            "],\"selection_reasons\":[\""@,
            reason_name(p.selection.spec_initramfs_reason()),
            "\",\""@,
            reason_name(p.selection.spec_real_root_reason()),
            "\"],\"proof_gates\":["@,
            json_string_list(
                seq![
                    crate::selection::spec_pair_gate(
                        crate::selection::pair_index(p.selection.spec_initramfs(), p.selection.spec_real_root()),
                        0,
                    )@,
                    crate::selection::spec_pair_gate(
                        crate::selection::pair_index(p.selection.spec_initramfs(), p.selection.spec_real_root()),
                        1,
                    )@,
                    crate::selection::spec_pair_gate(
                        crate::selection::pair_index(p.selection.spec_initramfs(), p.selection.spec_real_root()),
                        2,
                    )@,
                ],
            ),
            "],\"operations\":["@,
            join_with(operation_jsons(p), ","@),
            "],\"safety_records\":["@,
            join_with(p.safety_records.map_values(|r: SafetyRecord| spec_render_safety_record_json(r)), ","@),
            "]}"@,
        ],
    )
}

/// The plan as one JSON object: schema, versions, identity, the locked
/// preview state and its blockers, the root, the adapters with why each
/// was selected, the pair's gates, every operation and every safety record.
pub open spec fn spec_plan_json(p: InstallPlanView) -> Seq<char> {
    plan_json_head(p) + plan_json_tail(p)
}

/// `m` occurs in `s`.
pub open spec fn has_infix(s: Seq<char>, m: Seq<char>) -> bool {
    exists|a: Seq<char>, b: Seq<char>| s == a + m + b
}

/// A link's destination and target as its JSON object carries them: the
/// escaped path under `path`, then the escaped relative target under
/// `target`, then the owner.
pub open spec fn link_path_and_target_json(o: ActivationOperationView) -> Seq<char> {
    "\",\"path\":\""@ + spec_json_escape(o.path) + "\",\"target\":\""@ + spec_json_escape(
        o.relative_target,
    ) + "\",\"owner_uid\":"@
}

proof fn lemma_infix_witness(s: Seq<char>, a: Seq<char>, m: Seq<char>, b: Seq<char>)
    requires
        s == a + m + b,
    ensures
        has_infix(s, m),
{
}

/// A part of a joined list occurs in the joined text.
proof fn lemma_join_with_has_part(parts: Seq<Seq<char>>, sep: Seq<char>, k: int)
    requires
        0 <= k < parts.len(),
    ensures
        has_infix(join_with(parts, sep), parts[k]),
    decreases parts.len(),
{
    let j = join_with(parts, sep);
    if parts.len() == 1 {
        assert(j =~= Seq::<char>::empty() + parts[k] + Seq::<char>::empty());
        lemma_infix_witness(j, Seq::<char>::empty(), parts[k], Seq::<char>::empty());
    } else if k == parts.len() - 1 {
        let a = join_with(parts.drop_last(), sep) + sep;
        assert(j =~= a + parts[k] + Seq::<char>::empty());
        lemma_infix_witness(j, a, parts[k], Seq::<char>::empty());
    } else {
        lemma_join_with_has_part(parts.drop_last(), sep, k);
        let jd = join_with(parts.drop_last(), sep);
        let (a, b) = choose|a: Seq<char>, b: Seq<char>| jd == a + parts.drop_last()[k] + b;
        assert(parts.drop_last()[k] == parts[k]);
        assert(j =~= a + parts[k] + (b + sep + parts.last()));
        lemma_infix_witness(j, a, parts[k], b + sep + parts.last());
    }
}

/// Concatenating two lists of pieces concatenates their texts.
proof fn lemma_concat_all_append(x: Seq<Seq<char>>, y: Seq<Seq<char>>)
    ensures
        concat_all(x + y) == concat_all(x) + concat_all(y),
    decreases y.len(),
{
    if y.len() == 0 {
        assert(x + y =~= x);
        assert(concat_all(x) + concat_all(y) =~= concat_all(x));
    } else {
        lemma_concat_all_append(x, y.drop_last());
        assert((x + y).drop_last() =~= x + y.drop_last());
        assert((x + y).last() == y.last());
        assert(concat_all(x + y) =~= concat_all(x) + concat_all(y.drop_last()) + y.last());
    }
}

/// The JSON object of a link names it `create_symlink` and carries its
/// path and, under `target`, its relative target: never anything else in
/// their place.
pub proof fn lemma_link_json_carries_its_target(o: ActivationOperationView)
    ensures
        has_infix(activation_json(o), link_path_and_target_json(o)),
        activation_json(o).take(24) == "{\"kind\":\"create_symlink\""@,
{
    let parts = seq![
        "{\"kind\":\"create_symlink\",\"scope\":\""@,
        activation_scope_name(o.scope),
        "\",\"path\":\""@,
        spec_json_escape(o.path),
        "\",\"target\":\""@,
        spec_json_escape(o.relative_target),
        "\",\"owner_uid\":"@,
        spec_decimal(o.owner_uid as nat),
        ",\"relation\":\""@,
        relation_name(o.relation),
        "\""@,
        runlevel_json(o.relation),
        ",\"adapter\":\""@,
        spec_json_escape(spec_adapter_name(o.adapter)@),
        "\",\"source\":\""@,
        spec_json_escape(spec_template_name(o.source)@),
        "\",\"previous\":\""@,
        previous_name(o.expected_previous),
        "\",\"execution\":\"supported\"}"@,
    ];
    assert(activation_json(o) == concat_all(parts));
    let x = parts.take(2);
    let m = parts.subrange(2, 7);
    let y = parts.skip(7);
    assert(parts =~= x + m + y);
    lemma_concat_all_append(x + m, y);
    lemma_concat_all_append(x, m);
    assert(concat_all(m) == link_path_and_target_json(o)) by {
        reveal_with_fuel(concat_all, 6);
        assert(m =~= seq![
            "\",\"path\":\""@,
            spec_json_escape(o.path),
            "\",\"target\":\""@,
            spec_json_escape(o.relative_target),
            "\",\"owner_uid\":"@,
        ]);
        assert(concat_all(m) =~= link_path_and_target_json(o));
    }
    lemma_infix_witness(activation_json(o), concat_all(x), link_path_and_target_json(o), concat_all(y));
    assert(concat_all(x) == parts[0] + parts[1]) by {
        reveal_with_fuel(concat_all, 3);
        assert(x =~= seq![parts[0], parts[1]]);
        assert(concat_all(x) =~= parts[0] + parts[1]);
    }
    reveal_strlit("{\"kind\":\"create_symlink\",\"scope\":\"");
    reveal_strlit("{\"kind\":\"create_symlink\"");
    let tail = parts[1] + link_path_and_target_json(o) + concat_all(y);
    assert(activation_json(o) =~= parts[0] + tail);
    assert(activation_json(o).take(24) =~= parts[0].take(24));
    assert(parts[0].take(24) =~= "{\"kind\":\"create_symlink\""@);
}

/// An infix of an infix is an infix.
proof fn lemma_infix_trans(s: Seq<char>, t: Seq<char>, m: Seq<char>)
    requires
        has_infix(s, t),
        has_infix(t, m),
    ensures
        has_infix(s, m),
{
    let (a, b) = choose|a: Seq<char>, b: Seq<char>| s == a + t + b;
    let (c, d) = choose|c: Seq<char>, d: Seq<char>| t == c + m + d;
    assert(s =~= (a + c) + m + (d + b));
    lemma_infix_witness(s, a + c, m, d + b);
}

/// What a file write's JSON starts with: its kind, then its escaped path,
/// mode, owner and digest under their keys.
pub open spec fn write_file_json_head(o: PlanOperationView) -> Seq<char> {
    "{\"kind\":\"write_file\",\"path\":\""@ + spec_json_escape(o.path) + "\",\"mode\":"@ + spec_decimal(
        o.mode as nat,
    ) + ",\"owner_uid\":"@ + spec_decimal(o.owner_uid as nat) + ",\"sha256\":\""@ + spec_digest_hex(
        o.digest,
    ) + "\""@
}

/// What a snippet edit's JSON starts with: its kind, then its escaped
/// target, insertion point and digest under their keys.
pub open spec fn snippet_json_head(o: ManagedSnippetOperationView) -> Seq<char> {
    "{\"kind\":\"insert_managed_snippet\",\"target\":\""@ + spec_json_escape(o.target)
        + "\",\"insertion_point\":\""@ + spec_json_escape(o.insertion_point) + "\",\"sha256\":\""@
        + spec_digest_hex(o.digest) + "\""@
}

/// The JSON of a file write starts with its kind, path, mode, owner and
/// digest, each under its own key.
pub proof fn lemma_write_file_json_fields(o: PlanOperationView)
    ensures
        exists|rest: Seq<char>| op_json(o) == write_file_json_head(o) + rest,
{
    let parts = seq![
        "{\"kind\":\"write_file\",\"path\":\""@,
        spec_json_escape(o.path),
        "\",\"mode\":"@,
        spec_decimal(o.mode as nat),
        ",\"owner_uid\":"@,
        spec_decimal(o.owner_uid as nat),
        ",\"sha256\":\""@,
        spec_digest_hex(o.digest),
        "\",\"source\":\""@,
        spec_json_escape(source_name(o.source)),
        "\",\"previous\":\""@,
        previous_name(o.expected_previous),
        "\"}"@,
    ];
    assert(op_json(o) == concat_all(parts));
    let x = parts.take(8);
    let y = parts.skip(8);
    assert(parts =~= x + y);
    lemma_concat_all_append(x, y);
    assert(concat_all(x) =~= parts[0] + parts[1] + parts[2] + parts[3] + parts[4] + parts[5] + parts[6]
        + parts[7]) by {
        reveal_with_fuel(concat_all, 9);
        assert(x =~= seq![parts[0], parts[1], parts[2], parts[3], parts[4], parts[5], parts[6], parts[7]]);
    }
    reveal_strlit("\",\"source\":\"");
    reveal_strlit("\"");
    let ys = concat_all(y);
    assert(y.len() > 0);
    assert(ys =~= parts[8] + concat_all(y.skip(1))) by {
        assert(y =~= seq![parts[8]] + y.skip(1));
        lemma_concat_all_append(seq![parts[8]], y.skip(1));
        reveal_with_fuel(concat_all, 2);
        assert(concat_all(seq![parts[8]]) =~= parts[8]);
    }
    let rest = parts[8].skip(1) + concat_all(y.skip(1));
    assert(parts[8] =~= "\""@ + parts[8].skip(1));
    assert(op_json(o) =~= write_file_json_head(o) + rest);
}

/// The JSON of a snippet edit starts with its kind, target, insertion
/// point and digest, each under its own key.
pub proof fn lemma_snippet_json_fields(o: ManagedSnippetOperationView)
    ensures
        exists|rest: Seq<char>| snippet_json(o) == snippet_json_head(o) + rest,
{
    let parts = seq![
        "{\"kind\":\"insert_managed_snippet\",\"target\":\""@,
        spec_json_escape(o.target),
        "\",\"insertion_point\":\""@,
        spec_json_escape(o.insertion_point),
        "\",\"sha256\":\""@,
        spec_digest_hex(o.digest),
        "\",\"adapter\":\""@,
        spec_json_escape(spec_adapter_name(o.adapter)@),
        "\",\"source\":\""@,
        spec_json_escape(spec_template_name(o.source)@),
        "\",\"previous\":\""@,
        previous_name(o.expected_previous),
        "\",\"execution\":\"supported\"}"@,
    ];
    assert(snippet_json(o) == concat_all(parts));
    let x = parts.take(6);
    let y = parts.skip(6);
    assert(parts =~= x + y);
    lemma_concat_all_append(x, y);
    assert(concat_all(x) =~= parts[0] + parts[1] + parts[2] + parts[3] + parts[4] + parts[5]) by {
        reveal_with_fuel(concat_all, 7);
        assert(x =~= seq![parts[0], parts[1], parts[2], parts[3], parts[4], parts[5]]);
    }
    reveal_strlit("\",\"adapter\":\"");
    reveal_strlit("\"");
    assert(concat_all(y) =~= parts[6] + concat_all(y.skip(1))) by {
        assert(y =~= seq![parts[6]] + y.skip(1));
        lemma_concat_all_append(seq![parts[6]], y.skip(1));
        reveal_with_fuel(concat_all, 2);
        assert(concat_all(seq![parts[6]]) =~= parts[6]);
    }
    let rest = parts[6].skip(1) + concat_all(y.skip(1));
    assert(parts[6] =~= "\""@ + parts[6].skip(1));
    assert(snippet_json(o) =~= snippet_json_head(o) + rest);
}

/// The tail of the plan's JSON holds the joined operations.
proof fn lemma_plan_tail_holds_operations(p: InstallPlanView)
    ensures
        has_infix(plan_json_tail(p), join_with(operation_jsons(p), ","@)),
{
    let joined = join_with(operation_jsons(p), ","@);
    let i = crate::selection::pair_index(p.selection.spec_initramfs(), p.selection.spec_real_root());
    let tparts = seq![
        "\",\"adapters\":["@,
        json_string_list(
            seq![
                spec_adapter_name(p.selection.spec_initramfs())@,
                spec_adapter_name(p.selection.spec_real_root())@,
            ],
        ),
        "],\"selection_reasons\":[\""@,
        reason_name(p.selection.spec_initramfs_reason()),
        "\",\""@,
        reason_name(p.selection.spec_real_root_reason()),
        "\"],\"proof_gates\":["@,
        json_string_list(
            seq![
                crate::selection::spec_pair_gate(i, 0)@,
                crate::selection::spec_pair_gate(i, 1)@,
                crate::selection::spec_pair_gate(i, 2)@,
            ],
        ),
        "],\"operations\":["@,
        joined,
        "],\"safety_records\":["@,
        join_with(p.safety_records.map_values(|r: SafetyRecord| spec_render_safety_record_json(r)), ","@),
        "]}"@,
    ];
    assert(plan_json_tail(p) == concat_all(tparts));
    let tx = tparts.take(9);
    let tm = tparts.subrange(9, 10);
    let ty = tparts.skip(10);
    assert(tparts =~= tx + tm + ty);
    lemma_concat_all_append(tx + tm, ty);
    lemma_concat_all_append(tx, tm);
    assert(concat_all(tm) == joined) by {
        reveal_with_fuel(concat_all, 2);
        assert(tm =~= seq![joined]);
        assert(concat_all(tm) =~= joined);
    }
    let before = concat_all(tx);
    let after = concat_all(ty);
    assert(plan_json_tail(p) == before + joined + after);
    lemma_infix_witness(plan_json_tail(p), before, joined, after);
}

/// The machine JSON of a plan holds the JSON of each of its operations:
/// every file write, every snippet edit and every link.
pub proof fn lemma_plan_json_holds_every_operation(p: InstallPlanView, t: int)
    requires
        0 <= t < operation_jsons(p).len(),
    ensures
        has_infix(spec_plan_json(p), operation_jsons(p)[t]),
{
    let ops = operation_jsons(p);
    let joined = join_with(ops, ","@);
    lemma_join_with_has_part(ops, ","@, t);
    lemma_plan_tail_holds_operations(p);
    let (before, after) = choose|x: Seq<char>, y: Seq<char>| plan_json_tail(p) == x + joined + y;
    assert(spec_plan_json(p) =~= (plan_json_head(p) + before) + joined + after);
    lemma_infix_witness(spec_plan_json(p), plan_json_head(p) + before, joined, after);
    lemma_infix_trans(spec_plan_json(p), joined, ops[t]);
}

/// The machine JSON of a plan carries the kind, path, mode, owner and
/// digest of each file write, and the target, insertion point and digest of
/// each snippet edit.
pub proof fn lemma_plan_json_carries_every_write_and_edit(p: InstallPlanView, t: int)
    ensures
        0 <= t < p.operations.len() ==> has_infix(spec_plan_json(p), write_file_json_head(p.operations[t])),
        0 <= t < p.snippets.len() ==> has_infix(spec_plan_json(p), snippet_json_head(p.snippets[t])),
{
    let ops = operation_jsons(p);
    if 0 <= t < p.operations.len() {
        let o = p.operations[t];
        assert(ops[t] == op_json(o));
        lemma_plan_json_holds_every_operation(p, t);
        lemma_write_file_json_fields(o);
        let rest = choose|rest: Seq<char>| op_json(o) == write_file_json_head(o) + rest;
        assert(op_json(o) =~= Seq::<char>::empty() + write_file_json_head(o) + rest);
        lemma_infix_witness(op_json(o), Seq::<char>::empty(), write_file_json_head(o), rest);
        lemma_infix_trans(spec_plan_json(p), op_json(o), write_file_json_head(o));
    }
    if 0 <= t < p.snippets.len() {
        let o = p.snippets[t];
        let n = p.operations.len();
        assert(ops[n + t] == snippet_json(o));
        lemma_plan_json_holds_every_operation(p, n + t);
        lemma_snippet_json_fields(o);
        let rest = choose|rest: Seq<char>| snippet_json(o) == snippet_json_head(o) + rest;
        assert(snippet_json(o) =~= Seq::<char>::empty() + snippet_json_head(o) + rest);
        lemma_infix_witness(snippet_json(o), Seq::<char>::empty(), snippet_json_head(o), rest);
        lemma_infix_trans(spec_plan_json(p), snippet_json(o), snippet_json_head(o));
    }
}

/// The machine JSON of a plan carries, for every link of the plan, its
/// path and, under `target`, its relative target.
pub proof fn lemma_plan_json_carries_every_link_target(p: InstallPlanView, k: int)
    requires
        0 <= k < p.activations.len(),
    ensures
        has_infix(spec_plan_json(p), link_path_and_target_json(p.activations[k])),
{
    let o = p.activations[k];
    let ops = operation_jsons(p);
    let n = p.operations.len() + p.snippets.len();
    assert(ops[n + k] == activation_json(o));
    lemma_join_with_has_part(ops, ","@, n + k);
    let joined = join_with(ops, ","@);
    let piece = ops[n + k];
    let (a2, b2) = choose|a: Seq<char>, b: Seq<char>| joined == a + piece + b;
    lemma_link_json_carries_its_target(o);
    let (a1, b1) = choose|a: Seq<char>, b: Seq<char>|
        activation_json(o) == a + link_path_and_target_json(o) + b;
    lemma_plan_tail_holds_operations(p);
    let (before, after) = choose|x: Seq<char>, y: Seq<char>| plan_json_tail(p) == x + joined + y;

    let m = link_path_and_target_json(o);
    assert(spec_plan_json(p) =~= (plan_json_head(p) + before + a2 + a1) + m + (b1 + b2 + after));
    lemma_infix_witness(spec_plan_json(p), plan_json_head(p) + before + a2 + a1, m, b1 + b2 + after);
}

fn op_json_exec(o: &PlanOperation) -> (r: String)
    ensures
        r@ == op_json(o@),
{
    let path = json_escape(o.path());
    let mode = decimal(o.mode() as u64);
    let owner = decimal(o.owner_uid() as u64);
    let hex = digest_hex(o.digest());
    let source = json_escape(source_stable_name(o.source()));
    let parts = vec![
        "{\"kind\":\"write_file\",\"path\":\"",
        path.as_str(),
        "\",\"mode\":",
        mode.as_str(),
        ",\"owner_uid\":",
        owner.as_str(),
        ",\"sha256\":\"",
        hex.as_str(),
        "\",\"source\":\"",
        source.as_str(),
        "\",\"previous\":\"",
        o.expected_previous().stable_name(),
        "\"}",
    ];
    assert(str_views(parts@) =~= seq![
        "{\"kind\":\"write_file\",\"path\":\""@,
        spec_json_escape(o@.path),
        "\",\"mode\":"@,
        spec_decimal(o@.mode as nat),
        ",\"owner_uid\":"@,
        spec_decimal(o@.owner_uid as nat),
        ",\"sha256\":\""@,
        spec_digest_hex(o@.digest),
        "\",\"source\":\""@,
        spec_json_escape(source_name(o@.source)),
        "\",\"previous\":\""@,
        previous_name(o@.expected_previous),
        "\"}"@,
    ]);
    join_strs(parts)
}

fn snippet_json_exec(o: &ManagedSnippetOperation) -> (r: String)
    ensures
        r@ == snippet_json(o@),
{
    let target = json_escape(o.target());
    let point = json_escape(o.insertion_point());
    let hex = digest_hex(o.digest());
    let name = json_escape(adapter(o.adapter()).name);
    let source = json_escape(template_name(o.source()));
    let parts = vec![
        "{\"kind\":\"insert_managed_snippet\",\"target\":\"",
        target.as_str(),
        "\",\"insertion_point\":\"",
        point.as_str(),
        "\",\"sha256\":\"",
        hex.as_str(),
        "\",\"adapter\":\"",
        name.as_str(),
        "\",\"source\":\"",
        source.as_str(),
        "\",\"previous\":\"",
        o.expected_previous().stable_name(),
        "\",\"execution\":\"supported\"}",
    ];
    assert(str_views(parts@) =~= seq![
        "{\"kind\":\"insert_managed_snippet\",\"target\":\""@,
        spec_json_escape(o@.target),
        "\",\"insertion_point\":\""@,
        spec_json_escape(o@.insertion_point),
        "\",\"sha256\":\""@,
        spec_digest_hex(o@.digest),
        "\",\"adapter\":\""@,
        spec_json_escape(spec_adapter_name(o@.adapter)@),
        "\",\"source\":\""@,
        spec_json_escape(spec_template_name(o@.source)@),
        "\",\"previous\":\""@,
        previous_name(o@.expected_previous),
        "\",\"execution\":\"supported\"}"@,
    ]);
    join_strs(parts)
}

fn runlevel_json_exec(r: ActivationRelation) -> (s: String)
    ensures
        s@ == runlevel_json(r),
{
    match r {
        ActivationRelation::OpenRcRunlevel { runlevel } => {
            let e = json_escape(runlevel);
            crate::text::concat3(",\"runlevel\":\"", e.as_str(), "\"")
        },
        _ => String::new(),
    }
}

fn activation_json_exec(o: &ActivationOperation) -> (r: String)
    ensures
        r@ == activation_json(o@),
{
    let path = json_escape(o.path());
    let target = json_escape(o.relative_target());
    let owner = decimal(o.owner_uid() as u64);
    let runlevel = runlevel_json_exec(o.relation());
    let name = json_escape(adapter(o.adapter()).name);
    let source = json_escape(template_name(o.source()));
    let parts = vec![
        "{\"kind\":\"create_symlink\",\"scope\":\"",
        activation_scope_stable_name(o.scope()),
        "\",\"path\":\"",
        path.as_str(),
        "\",\"target\":\"",
        target.as_str(),
        "\",\"owner_uid\":",
        owner.as_str(),
        ",\"relation\":\"",
        relation_stable_name(o.relation()),
        "\"",
        runlevel.as_str(),
        ",\"adapter\":\"",
        name.as_str(),
        "\",\"source\":\"",
        source.as_str(),
        "\",\"previous\":\"",
        o.expected_previous().stable_name(),
        "\",\"execution\":\"supported\"}",
    ];
    assert(str_views(parts@) =~= seq![
        "{\"kind\":\"create_symlink\",\"scope\":\""@,
        activation_scope_name(o@.scope),
        "\",\"path\":\""@,
        spec_json_escape(o@.path),
        "\",\"target\":\""@,
        spec_json_escape(o@.relative_target),
        "\",\"owner_uid\":"@,
        spec_decimal(o@.owner_uid as nat),
        ",\"relation\":\""@,
        relation_name(o@.relation),
        "\""@,
        runlevel_json(o@.relation),
        ",\"adapter\":\""@,
        spec_json_escape(spec_adapter_name(o@.adapter)@),
        "\",\"source\":\""@,
        spec_json_escape(spec_template_name(o@.source)@),
        "\",\"previous\":\""@,
        previous_name(o@.expected_previous),
        "\",\"execution\":\"supported\"}"@,
    ]);
    join_strs(parts)
}

fn operation_json_list(plan: &InstallPlan) -> (r: Vec<String>)
    ensures
        string_views(r@) == operation_jsons(plan@),
{
    let ghost p = plan@;
    let mut out: Vec<String> = Vec::new();
    let ops = plan.operations();
    let mut i: usize = 0;
    while i < ops.len()
        invariant
            i <= ops@.len(),
            op_views(ops@) == p.operations,
            string_views(out@) == p.operations.take(i as int).map_values(|o: PlanOperationView| op_json(o)),
        decreases ops.len() - i,
    {
        let s = op_json_exec(&ops[i]);
        let ghost before = out@;
        out.push(s);
        proof {
            assert(p.operations[i as int] == ops@[i as int]@);
            assert(string_views(out@) =~= string_views(before).push(s@));
            assert(p.operations.take(i as int + 1).map_values(|o: PlanOperationView| op_json(o)) =~= p.operations.take(
                i as int,
            ).map_values(|o: PlanOperationView| op_json(o)).push(op_json(p.operations[i as int])));
        }
        i = i + 1;
    }
    let ghost n1 = out@.len();
    assert(p.operations.take(p.operations.len() as int) =~= p.operations);
    let snippets = plan.managed_snippet_operations();
    let mut i: usize = 0;
    while i < snippets.len()
        invariant
            i <= snippets@.len(),
            snippet_views(snippets@) == p.snippets,
            string_views(out@) == p.operations.map_values(|o: PlanOperationView| op_json(o)) + p.snippets.take(
                i as int,
            ).map_values(|o: ManagedSnippetOperationView| snippet_json(o)),
        decreases snippets.len() - i,
    {
        let s = snippet_json_exec(&snippets[i]);
        let ghost before = out@;
        out.push(s);
        proof {
            assert(p.snippets[i as int] == snippets@[i as int]@);
            assert(string_views(out@) =~= string_views(before).push(s@));
            assert(p.snippets.take(i as int + 1).map_values(|o: ManagedSnippetOperationView| snippet_json(o))
                =~= p.snippets.take(i as int).map_values(|o: ManagedSnippetOperationView| snippet_json(o)).push(
                snippet_json(p.snippets[i as int]),
            ));
        }
        i = i + 1;
    }
    assert(p.snippets.take(p.snippets.len() as int) =~= p.snippets);
    let links = plan.activation_operations();
    let mut i: usize = 0;
    while i < links.len()
        invariant
            i <= links@.len(),
            activation_views(links@) == p.activations,
            string_views(out@) == p.operations.map_values(|o: PlanOperationView| op_json(o)) + p.snippets.map_values(
                |o: ManagedSnippetOperationView| snippet_json(o),
            ) + p.activations.take(i as int).map_values(|o: ActivationOperationView| activation_json(o)),
        decreases links.len() - i,
    {
        let s = activation_json_exec(&links[i]);
        let ghost before = out@;
        out.push(s);
        proof {
            assert(p.activations[i as int] == links@[i as int]@);
            assert(string_views(out@) =~= string_views(before).push(s@));
            assert(p.activations.take(i as int + 1).map_values(|o: ActivationOperationView| activation_json(o))
                =~= p.activations.take(i as int).map_values(|o: ActivationOperationView| activation_json(o)).push(
                activation_json(p.activations[i as int]),
            ));
        }
        i = i + 1;
    }
    assert(p.activations.take(p.activations.len() as int) =~= p.activations);
    out
}

fn record_json_list(records: &Vec<SafetyRecord>) -> (r: Vec<String>)
    ensures
        string_views(r@) == records@.map_values(|r: SafetyRecord| spec_render_safety_record_json(r)),
{
    let mut out: Vec<String> = Vec::new();
    let mut i: usize = 0;
    while i < records.len()
        invariant
            i <= records@.len(),
            string_views(out@) == records@.take(i as int).map_values(
                |r: SafetyRecord| spec_render_safety_record_json(r),
            ),
        decreases records.len() - i,
    {
        let s = render_safety_record_json(&records[i]);
        let ghost before = out@;
        out.push(s);
        proof {
            assert(string_views(out@) =~= string_views(before).push(s@));
            assert(records@.take(i as int + 1).map_values(|r: SafetyRecord| spec_render_safety_record_json(r))
                =~= records@.take(i as int).map_values(|r: SafetyRecord| spec_render_safety_record_json(r)).push(
                spec_render_safety_record_json(records@[i as int]),
            ));
        }
        i = i + 1;
    }
    assert(records@.take(records@.len() as int) =~= records@);
    out
}

fn strings_of_strs(v: &Vec<&str>) -> (r: Vec<String>)
    ensures
        string_views(r@) == str_views(v@),
{
    let mut out: Vec<String> = Vec::new();
    let mut i: usize = 0;
    while i < v.len()
        invariant
            i <= v@.len(),
            string_views(out@) == str_views(v@).take(i as int),
        decreases v.len() - i,
    {
        let ghost before = out@;
        let t = crate::text::owned(v[i]);
        out.push(t);
        assert(str_views(v@)[i as int] == v@[i as int]@);
        assert(string_views(out@) =~= string_views(before).push(t@));
        assert(str_views(v@).take(i as int + 1) =~= str_views(v@).take(i as int).push(v@[i as int]@));
        i = i + 1;
    }
    assert(str_views(v@).take(v@.len() as int) =~= str_views(v@));
    out
}

impl InstallPlan {
    pub fn schema_version(&self) -> (r: u16)
        ensures
            r == PLAN_VERSION,
    {
        PLAN_VERSION
    }

    pub fn resource_set_version(&self) -> (r: u16)
        ensures
            r == RESOURCE_SET_VERSION,
    {
        RESOURCE_SET_VERSION
    }

    /// Why the plan is not actionable.
    pub fn blockers(&self) -> (v: Vec<&'static str>)
        ensures
            str_views(v@) == spec_plan_blockers(),
    {
        plan_blockers()
    }

    /// The plan as deterministic JSON, with no serialization dependency.
    pub fn render_machine_json(&self) -> (s: String)
        ensures
            s@ == spec_plan_json(self@),
    {
        let head = json_head(self);
        let tail = json_tail(self);
        crate::text::concat2(head.as_str(), tail.as_str())
    }
}

fn json_head(plan: &InstallPlan) -> (s: String)
    ensures
        s@ == plan_json_head(plan@),
{
    let ghost p = plan@;
    let version = decimal(PLAN_VERSION as u64);
    let resources = decimal(RESOURCE_SET_VERSION as u64);
    let digest = plan.identity();
    let ghost hex = spec_digest_hex(spec_sha256(plan_identity_bytes(p)));
    let id = digest_hex(digest);
    assert(id@ == hex);
    let blockers = blockers_json();
    let root = json_escape(plan.root());
    let parts = vec![
        "{\"schema\":\"",
        PLAN_SCHEMA,
        "\",\"version\":",
        version.as_str(),
        ",\"resource_set_version\":",
        resources.as_str(),
        ",\"plan_id\":\"",
        id.as_str(),
        "\",\"actionable\":false,\"mutation\":\"locked\",\"blockers\":[",
        blockers.as_str(),
        "],\"root\":\"",
        root.as_str(),
    ];
    assert(str_views(parts@) =~= seq![
        "{\"schema\":\""@,
        PLAN_SCHEMA@,
        "\",\"version\":"@,
        spec_decimal(PLAN_VERSION as nat),
        ",\"resource_set_version\":"@,
        spec_decimal(RESOURCE_SET_VERSION as nat),
        ",\"plan_id\":\""@,
        hex,
        "\",\"actionable\":false,\"mutation\":\"locked\",\"blockers\":["@,
        blockers_json_text(),
        "],\"root\":\""@,
        spec_json_escape(p.root),
    ]);
    join_strs(parts)
}

#[verifier::rlimit(40)]
fn json_tail(plan: &InstallPlan) -> (s: String)
    ensures
        s@ == plan_json_tail(plan@),
{
    let ghost p = plan@;
    let selection = plan.selection();
    let names = vec![
        crate::text::owned(adapter(selection.initramfs()).name),
        crate::text::owned(adapter(selection.real_root()).name),
    ];
    assert(string_views(names@) =~= seq![
        spec_adapter_name(p.selection.spec_initramfs())@,
        spec_adapter_name(p.selection.spec_real_root())@,
    ]);
    let adapters = crate::render::json_string_list_exec(&names);
    let pair = selection.pair_metadata();
    let gates = vec![
        crate::text::owned(pair.proof_gates[0]),
        crate::text::owned(pair.proof_gates[1]),
        crate::text::owned(pair.proof_gates[2]),
    ];
    let ghost i = crate::selection::pair_index(p.selection.spec_initramfs(), p.selection.spec_real_root());
    assert(string_views(gates@) =~= seq![
        crate::selection::spec_pair_gate(i, 0)@,
        crate::selection::spec_pair_gate(i, 1)@,
        crate::selection::spec_pair_gate(i, 2)@,
    ]);
    let gate_list = crate::render::json_string_list_exec(&gates);
    let operations = join_strings(&operation_json_list(plan), ",");
    let records = join_strings(&record_json_list(plan.safety_records()), ",");
    let parts = vec![
        "\",\"adapters\":[",
        adapters.as_str(),
        "],\"selection_reasons\":[\"",
        reason_stable_name(selection.initramfs_reason()),
        "\",\"",
        reason_stable_name(selection.real_root_reason()),
        "\"],\"proof_gates\":[",
        gate_list.as_str(),
        "],\"operations\":[",
        operations.as_str(),
        "],\"safety_records\":[",
        records.as_str(),
        "]}",
    ];
    assert(str_views(parts@) =~= seq![
        "\",\"adapters\":["@,
        json_string_list(
            seq![
                spec_adapter_name(p.selection.spec_initramfs())@,
                spec_adapter_name(p.selection.spec_real_root())@,
            ],
        ),
        "],\"selection_reasons\":[\""@,
        reason_name(p.selection.spec_initramfs_reason()),
        "\",\""@,
        reason_name(p.selection.spec_real_root_reason()),
        "\"],\"proof_gates\":["@,
        json_string_list(
            seq![
                crate::selection::spec_pair_gate(i, 0)@,
                crate::selection::spec_pair_gate(i, 1)@,
                crate::selection::spec_pair_gate(i, 2)@,
            ],
        ),
        "],\"operations\":["@,
        join_with(operation_jsons(p), ","@),
        "],\"safety_records\":["@,
        join_with(p.safety_records.map_values(|r: SafetyRecord| spec_render_safety_record_json(r)), ","@),
        "]}"@,
    ]);
    join_strs(parts)
}

// ---------------------------------------------------------------------------
// The preview for people
// ---------------------------------------------------------------------------

/// Each item on a line of its own, as `  - item`.
pub open spec fn bullet_lines(v: Seq<Seq<char>>) -> Seq<char>
    decreases v.len(),
{
    if v.len() == 0 {
        seq![]
    } else {
        bullet_lines(v.drop_last()) + "  - "@ + v.last() + "\n"@
    }
}

pub open spec fn op_line(o: PlanOperationView, n: nat) -> Seq<char> {
    concat_all(
        seq![
            "  "@,
            crate::text::spec_index3(n),
            " write "@,
            o.path,
            " mode="@,
            crate::text::spec_octal4(o.mode as nat),
            " owner="@,
            spec_decimal(o.owner_uid as nat),
            " sha256="@,
            spec_digest_hex(o.digest),
            " source="@,
            source_name(o.source),
            " previous="@,
            previous_name(o.expected_previous),
            "\n"@,
        ],
    )
}

pub open spec fn snippet_line(o: ManagedSnippetOperationView, n: nat) -> Seq<char> {
    concat_all(
        seq![
            "  "@,
            crate::text::spec_index3(n),
            " managed-snippet "@,
            o.target,
            " at="@,
            o.insertion_point,
            " sha256="@,
            spec_digest_hex(o.digest),
            " adapter="@,
            spec_adapter_name(o.adapter)@,
            " source="@,
            spec_template_name(o.source)@,
            " previous="@,
            previous_name(o.expected_previous),
            " execution=supported\n"@,
        ],
    )
}

/// ` runlevel=…` for an OpenRC link; nothing for the others.
pub open spec fn runlevel_human(r: ActivationRelation) -> Seq<char> {
    match r {
        ActivationRelation::OpenRcRunlevel { runlevel } => " runlevel="@ + runlevel@,
        _ => Seq::empty(),
    }
}

pub open spec fn activation_line(o: ActivationOperationView, n: nat) -> Seq<char> {
    concat_all(
        seq![
            "  "@,
            crate::text::spec_index3(n),
            " symlink "@,
            o.path,
            " -> "@,
            o.relative_target,
            " scope="@,
            activation_scope_name(o.scope),
            " owner="@,
            spec_decimal(o.owner_uid as nat),
            " relation="@,
            relation_name(o.relation),
            runlevel_human(o.relation),
            " adapter="@,
            spec_adapter_name(o.adapter)@,
            " source="@,
            spec_template_name(o.source)@,
            " previous="@,
            previous_name(o.expected_previous),
            " execution=supported\n"@,
        ],
    )
}

/// The file writes, numbered from `first`.
pub open spec fn op_lines(v: Seq<PlanOperationView>, first: nat) -> Seq<char>
    decreases v.len(),
{
    if v.len() == 0 {
        seq![]
    } else {
        op_lines(v.drop_last(), first) + op_line(v.last(), (first + v.len() - 1) as nat)
    }
}

pub open spec fn snippet_lines(v: Seq<ManagedSnippetOperationView>, first: nat) -> Seq<char>
    decreases v.len(),
{
    if v.len() == 0 {
        seq![]
    } else {
        snippet_lines(v.drop_last(), first) + snippet_line(v.last(), (first + v.len() - 1) as nat)
    }
}

pub open spec fn activation_lines(v: Seq<ActivationOperationView>, first: nat) -> Seq<char>
    decreases v.len(),
{
    if v.len() == 0 {
        seq![]
    } else {
        activation_lines(v.drop_last(), first) + activation_line(v.last(), (first + v.len() - 1) as nat)
    }
}

pub open spec fn adapter_lines(p: InstallPlanView) -> Seq<char> {
    concat_all(
        seq![
            "  - "@,
            spec_adapter_name(p.selection.spec_initramfs())@,
            " reason="@,
            reason_name(p.selection.spec_initramfs_reason()),
            "\n  - "@,
            spec_adapter_name(p.selection.spec_real_root())@,
            " reason="@,
            reason_name(p.selection.spec_real_root_reason()),
            "\n"@,
        ],
    )
}

pub open spec fn pair_gates(p: InstallPlanView) -> Seq<Seq<char>> {
    let i = crate::selection::pair_index(p.selection.spec_initramfs(), p.selection.spec_real_root());
    seq![
        crate::selection::spec_pair_gate(i, 0)@,
        crate::selection::spec_pair_gate(i, 1)@,
        crate::selection::spec_pair_gate(i, 2)@,
    ]
}

pub open spec fn human_head(p: InstallPlanView) -> Seq<char> {
    concat_all(
        seq![
            "bootart install preview v"@,
            spec_decimal(PLAN_VERSION as nat),
            "\nstatus: PREVIEW ONLY\nmutation: LOCKED\nresource-set: "@,
            spec_decimal(RESOURCE_SET_VERSION as nat),
            "\nplan-id: "@,
            spec_digest_hex(spec_sha256(plan_identity_bytes(p))),
            "\nroot: "@,
            p.root,
            "\nblockers:\n"@,
        ],
    ) + bullet_lines(spec_plan_blockers()) + "adapters:\n"@ + adapter_lines(p) + "exact-pair-proof-gates:\n"@
        + bullet_lines(pair_gates(p))
}

pub open spec fn human_body(p: InstallPlanView) -> Seq<char> {
    "operations:\n"@ + op_lines(p.operations, 1) + snippet_lines(p.snippets, p.operations.len() + 1)
        + activation_lines(p.activations, p.operations.len() + p.snippets.len() + 1) + "safety-records:\n"@
        + bullet_lines(p.safety_records.map_values(|r: SafetyRecord| crate::render::spec_render_safety_record_human(r)))
}

/// The preview for people: a header with the versions, identity, root and
/// blockers; the adapters with why each was selected; the pair's gates;
/// every operation numbered from one; then every safety record.
pub open spec fn spec_plan_human(p: InstallPlanView) -> Seq<char> {
    human_head(p) + human_body(p)
}

fn append_text(out: &mut String, s: &str)
    ensures
        final(out)@ == old(out)@ + s@,
{
    out.append(s);
}

fn bullets(v: &Vec<String>) -> (s: String)
    ensures
        s@ == bullet_lines(string_views(v@)),
{
    let ghost sv = string_views(v@);
    let mut out = String::new();
    let mut i: usize = 0;
    assert(sv.take(0) =~= Seq::<Seq<char>>::empty());
    while i < v.len()
        invariant
            i <= v@.len(),
            sv == string_views(v@),
            out@ == bullet_lines(sv.take(i as int)),
        decreases v.len() - i,
    {
        append_text(&mut out, "  - ");
        append_text(&mut out, v[i].as_str());
        append_text(&mut out, "\n");
        proof {
            assert(sv.take(i as int + 1).drop_last() =~= sv.take(i as int));
            assert(sv.take(i as int + 1).last() == v@[i as int]@);
        }
        i = i + 1;
    }
    assert(sv.take(sv.len() as int) =~= sv);
    out
}

fn runlevel_human_exec(r: ActivationRelation) -> (s: String)
    ensures
        s@ == runlevel_human(r),
{
    match r {
        ActivationRelation::OpenRcRunlevel { runlevel } => crate::text::concat2(" runlevel=", runlevel),
        _ => String::new(),
    }
}

fn op_line_exec(o: &PlanOperation, n: u128) -> (s: String)
    ensures
        s@ == op_line(o@, n as nat),
{
    let index = crate::text::index3(n);
    let mode = crate::text::octal4(o.mode());
    let owner = decimal(o.owner_uid() as u64);
    let hex = digest_hex(o.digest());
    let parts = vec![
        "  ",
        index.as_str(),
        " write ",
        o.path(),
        " mode=",
        mode.as_str(),
        " owner=",
        owner.as_str(),
        " sha256=",
        hex.as_str(),
        " source=",
        source_stable_name(o.source()),
        " previous=",
        o.expected_previous().stable_name(),
        "\n",
    ];
    assert(str_views(parts@) =~= seq![
        "  "@,
        crate::text::spec_index3(n as nat),
        " write "@,
        o@.path,
        " mode="@,
        crate::text::spec_octal4(o@.mode as nat),
        " owner="@,
        spec_decimal(o@.owner_uid as nat),
        " sha256="@,
        spec_digest_hex(o@.digest),
        " source="@,
        source_name(o@.source),
        " previous="@,
        previous_name(o@.expected_previous),
        "\n"@,
    ]);
    join_strs(parts)
}

fn snippet_line_exec(o: &ManagedSnippetOperation, n: u128) -> (s: String)
    ensures
        s@ == snippet_line(o@, n as nat),
{
    let index = crate::text::index3(n);
    let hex = digest_hex(o.digest());
    let parts = vec![
        "  ",
        index.as_str(),
        " managed-snippet ",
        o.target(),
        " at=",
        o.insertion_point(),
        " sha256=",
        hex.as_str(),
        " adapter=",
        adapter(o.adapter()).name,
        " source=",
        template_name(o.source()),
        " previous=",
        o.expected_previous().stable_name(),
        " execution=supported\n",
    ];
    assert(str_views(parts@) =~= seq![
        "  "@,
        crate::text::spec_index3(n as nat),
        " managed-snippet "@,
        o@.target,
        " at="@,
        o@.insertion_point,
        " sha256="@,
        spec_digest_hex(o@.digest),
        " adapter="@,
        spec_adapter_name(o@.adapter)@,
        " source="@,
        spec_template_name(o@.source)@,
        " previous="@,
        previous_name(o@.expected_previous),
        " execution=supported\n"@,
    ]);
    join_strs(parts)
}

fn activation_line_exec(o: &ActivationOperation, n: u128) -> (s: String)
    ensures
        s@ == activation_line(o@, n as nat),
{
    let index = crate::text::index3(n);
    let owner = decimal(o.owner_uid() as u64);
    let runlevel = runlevel_human_exec(o.relation());
    let parts = vec![
        "  ",
        index.as_str(),
        " symlink ",
        o.path(),
        " -> ",
        o.relative_target(),
        " scope=",
        activation_scope_stable_name(o.scope()),
        " owner=",
        owner.as_str(),
        " relation=",
        relation_stable_name(o.relation()),
        runlevel.as_str(),
        " adapter=",
        adapter(o.adapter()).name,
        " source=",
        template_name(o.source()),
        " previous=",
        o.expected_previous().stable_name(),
        " execution=supported\n",
    ];
    assert(str_views(parts@) =~= seq![
        "  "@,
        crate::text::spec_index3(n as nat),
        " symlink "@,
        o@.path,
        " -> "@,
        o@.relative_target,
        " scope="@,
        activation_scope_name(o@.scope),
        " owner="@,
        spec_decimal(o@.owner_uid as nat),
        " relation="@,
        relation_name(o@.relation),
        runlevel_human(o@.relation),
        " adapter="@,
        spec_adapter_name(o@.adapter)@,
        " source="@,
        spec_template_name(o@.source)@,
        " previous="@,
        previous_name(o@.expected_previous),
        " execution=supported\n"@,
    ]);
    join_strs(parts)
}

fn human_head_exec(plan: &InstallPlan) -> (s: String)
    ensures
        s@ == human_head(plan@),
{
    let ghost p = plan@;
    let selection = plan.selection();
    let version = decimal(PLAN_VERSION as u64);
    let resources = decimal(RESOURCE_SET_VERSION as u64);
    let digest = plan.identity();
    let ghost hex = spec_digest_hex(spec_sha256(plan_identity_bytes(p)));
    let id = digest_hex(digest);
    let parts = vec![
        "bootart install preview v",
        version.as_str(),
        "\nstatus: PREVIEW ONLY\nmutation: LOCKED\nresource-set: ",
        resources.as_str(),
        "\nplan-id: ",
        id.as_str(),
        "\nroot: ",
        plan.root(),
        "\nblockers:\n",
    ];
    assert(str_views(parts@) =~= seq![
        "bootart install preview v"@,
        spec_decimal(PLAN_VERSION as nat),
        "\nstatus: PREVIEW ONLY\nmutation: LOCKED\nresource-set: "@,
        spec_decimal(RESOURCE_SET_VERSION as nat),
        "\nplan-id: "@,
        hex,
        "\nroot: "@,
        p.root,
        "\nblockers:\n"@,
    ]);
    let mut out = join_strs(parts);
    let blockers = bullets(&strings_of_strs(&plan_blockers()));
    append_text(&mut out, blockers.as_str());
    append_text(&mut out, "adapters:\n");
    let names = vec![
        "  - ",
        adapter(selection.initramfs()).name,
        " reason=",
        reason_stable_name(selection.initramfs_reason()),
        "\n  - ",
        adapter(selection.real_root()).name,
        " reason=",
        reason_stable_name(selection.real_root_reason()),
        "\n",
    ];
    assert(str_views(names@) =~= seq![
        "  - "@,
        spec_adapter_name(p.selection.spec_initramfs())@,
        " reason="@,
        reason_name(p.selection.spec_initramfs_reason()),
        "\n  - "@,
        spec_adapter_name(p.selection.spec_real_root())@,
        " reason="@,
        reason_name(p.selection.spec_real_root_reason()),
        "\n"@,
    ]);
    let adapters = join_strs(names);
    append_text(&mut out, adapters.as_str());
    append_text(&mut out, "exact-pair-proof-gates:\n");
    let pair = selection.pair_metadata();
    let gates = vec![
        crate::text::owned(pair.proof_gates[0]),
        crate::text::owned(pair.proof_gates[1]),
        crate::text::owned(pair.proof_gates[2]),
    ];
    assert(string_views(gates@) =~= pair_gates(p));
    let gate_lines = bullets(&gates);
    append_text(&mut out, gate_lines.as_str());
    out
}

fn human_body_exec(plan: &InstallPlan) -> (s: String)
    ensures
        s@ == human_body(plan@),
{
    let ghost p = plan@;
    let mut out = String::new();
    append_text(&mut out, "operations:\n");
    assert(out@ =~= "operations:\n"@);
    let ops = plan.operations();
    let ghost base = out@;
    let mut i: usize = 0;
    assert(p.operations.take(0) =~= Seq::<PlanOperationView>::empty());
    assert(base + op_lines(p.operations.take(0), 1) =~= base);
    while i < ops.len()
        invariant
            i <= ops@.len(),
            op_views(ops@) == p.operations,
            out@ == base + op_lines(p.operations.take(i as int), 1),
        decreases ops.len() - i,
    {
        let line = op_line_exec(&ops[i], i as u128 + 1);
        append_text(&mut out, line.as_str());
        proof {
            assert(p.operations[i as int] == ops@[i as int]@);
            assert(p.operations.take(i as int + 1).drop_last() =~= p.operations.take(i as int));
            assert(p.operations.take(i as int + 1).last() == ops@[i as int]@);
            assert(out@ =~= base + op_lines(p.operations.take(i as int + 1), 1));
        }
        i = i + 1;
    }
    assert(p.operations.take(p.operations.len() as int) =~= p.operations);
    let snippets = plan.managed_snippet_operations();
    let ghost base2 = out@;
    let first = ops.len() as u128 + 1;
    let mut i: usize = 0;
    assert(p.snippets.take(0) =~= Seq::<ManagedSnippetOperationView>::empty());
    assert(base2 + snippet_lines(p.snippets.take(0), first as nat) =~= base2);
    while i < snippets.len()
        invariant
            i <= snippets@.len(),
            snippet_views(snippets@) == p.snippets,
            first == p.operations.len() + 1,
            first <= u64::MAX + 1,
            out@ == base2 + snippet_lines(p.snippets.take(i as int), first as nat),
        decreases snippets.len() - i,
    {
        let line = snippet_line_exec(&snippets[i], first + i as u128);
        append_text(&mut out, line.as_str());
        proof {
            assert(p.snippets[i as int] == snippets@[i as int]@);
            assert(p.snippets.take(i as int + 1).drop_last() =~= p.snippets.take(i as int));
            assert(p.snippets.take(i as int + 1).last() == snippets@[i as int]@);
            assert(out@ =~= base2 + snippet_lines(p.snippets.take(i as int + 1), first as nat));
        }
        i = i + 1;
    }
    assert(p.snippets.take(p.snippets.len() as int) =~= p.snippets);
    let links = plan.activation_operations();
    let ghost base3 = out@;
    let first3 = first + snippets.len() as u128;
    let mut i: usize = 0;
    assert(p.activations.take(0) =~= Seq::<ActivationOperationView>::empty());
    assert(base3 + activation_lines(p.activations.take(0), first3 as nat) =~= base3);
    while i < links.len()
        invariant
            i <= links@.len(),
            activation_views(links@) == p.activations,
            first3 == p.operations.len() + p.snippets.len() + 1,
            first3 <= 2 * (u64::MAX as int) + 1,
            out@ == base3 + activation_lines(p.activations.take(i as int), first3 as nat),
        decreases links.len() - i,
    {
        let line = activation_line_exec(&links[i], first3 + i as u128);
        append_text(&mut out, line.as_str());
        proof {
            assert(p.activations[i as int] == links@[i as int]@);
            assert(p.activations.take(i as int + 1).drop_last() =~= p.activations.take(i as int));
            assert(p.activations.take(i as int + 1).last() == links@[i as int]@);
            assert(out@ =~= base3 + activation_lines(p.activations.take(i as int + 1), first3 as nat));
        }
        i = i + 1;
    }
    assert(p.activations.take(p.activations.len() as int) =~= p.activations);
    append_text(&mut out, "safety-records:\n");
    let records = plan.safety_records();
    let mut human: Vec<String> = Vec::new();
    let mut k: usize = 0;
    while k < records.len()
        invariant
            k <= records@.len(),
            records@ == p.safety_records,
            string_views(human@) == p.safety_records.take(k as int).map_values(
                |r: SafetyRecord| crate::render::spec_render_safety_record_human(r),
            ),
        decreases records.len() - k,
    {
        let line = crate::render::render_safety_record_human(&records[k]);
        let ghost before = human@;
        human.push(line);
        proof {
            assert(string_views(human@) =~= string_views(before).push(line@));
            assert(p.safety_records.take(k as int + 1).map_values(
                |r: SafetyRecord| crate::render::spec_render_safety_record_human(r),
            ) =~= p.safety_records.take(k as int).map_values(
                |r: SafetyRecord| crate::render::spec_render_safety_record_human(r),
            ).push(crate::render::spec_render_safety_record_human(p.safety_records[k as int])));
        }
        k = k + 1;
    }
    assert(p.safety_records.take(p.safety_records.len() as int) =~= p.safety_records);
    let record_lines = bullets(&human);
    append_text(&mut out, record_lines.as_str());
    out
}

impl InstallPlan {
    /// The preview for people.
    pub fn render_human(&self) -> (s: String)
        ensures
            s@ == spec_plan_human(self@),
    {
        let head = human_head_exec(self);
        let body = human_body_exec(self);
        crate::text::concat2(head.as_str(), body.as_str())
    }
}

} // verus!
