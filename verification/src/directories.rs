//! The directories a plan may need: every ancestor of a payload, of an
//! activation link, and of the installer's state, each once, ordered by
//! filesystem scope and then path.

use crate::activation::{absolute_pieces, spec_is_normalized_absolute_file_path, strict_piece};
use crate::manifest::{path_lt, path_lt_exec};
use crate::ordering::{lemma_path_lt_irreflexive, lemma_path_lt_total, lemma_path_lt_transitive};
use crate::root::{root_prefixes, root_walk};
use crate::ordering::{lemma_insert_sorted, strictly_sorted};
use crate::safety::{PlannedHashState, BackupSubjectKind, DirectoryScope, ExpectedPreviousState, SafetyRecord, TRANSACTION_ID_PLACEHOLDER};
use crate::operations::{ActivationOperation, ActivationScope, ManagedSnippetOperation};
use crate::plan::PlanOperation;
use crate::text::{concat2, decimal, has_prefix, owned, spec_decimal, str_eq, str_has_prefix, string_views};
use vstd::prelude::*;

verus! {

/// The installer's state directory.
pub const STATE_DIR: &'static str = "/var/lib/bootart/install";

/// Where transactions keep their backups.
pub const TRANSACTIONS_DIR: &'static str = "/var/lib/bootart/install/transactions";

/// The directory of one transaction, before its identifier is known.
pub const TRANSACTION_DIR_TEMPLATE: &'static str = "/var/lib/bootart/install/transactions/{transaction-id}";

/// Why a real-root directory's creation state is not known yet.
pub const DESTINATION_INSPECTION_BLOCKER: &'static str = "shared-file preimages and required-directory creation state are not represented yet";

/// Why a directory of the generated image is not known yet.
pub const GENERATED_DIRECTORY_BLOCKER: &'static str = "candidate initramfs directory existence is unresolved until a candidate path and generator contract exist";

/// The root that owns the installer's private state.
pub const PRIVATE_STATE_ROOT: &'static str = "/var/lib/bootart";

pub open spec fn scope_rank(s: DirectoryScope) -> int {
    match s {
        DirectoryScope::RealRoot => 0,
        DirectoryScope::GeneratedInitramfs => 1,
    }
}

/// Directories order by scope, the real root first, then by path.
pub open spec fn key_lt(a: (DirectoryScope, Seq<char>), b: (DirectoryScope, Seq<char>)) -> bool {
    scope_rank(a.0) < scope_rank(b.0) || (a.0 == b.0 && path_lt(a.1, b.1))
}

pub open spec fn keys_sorted(ks: Seq<(DirectoryScope, Seq<char>)>) -> bool {
    forall|i: int, j: int| 0 <= i < j < ks.len() ==> key_lt(#[trigger] ks[i], #[trigger] ks[j])
}

pub open spec fn key_views(v: Seq<(DirectoryScope, String)>) -> Seq<(DirectoryScope, Seq<char>)> {
    v.map_values(|k: (DirectoryScope, String)| (k.0, k.1@))
}

proof fn lemma_key_lt_irreflexive(a: (DirectoryScope, Seq<char>))
    ensures
        !key_lt(a, a),
{
    lemma_path_lt_irreflexive(a.1);
}

proof fn lemma_key_lt_total(a: (DirectoryScope, Seq<char>), b: (DirectoryScope, Seq<char>))
    requires
        a != b,
    ensures
        key_lt(a, b) || key_lt(b, a),
{
    if a.0 == b.0 {
        lemma_path_lt_total(a.1, b.1);
    } else {
        assert(scope_rank(a.0) != scope_rank(b.0));
    }
}

proof fn lemma_key_lt_transitive(
    a: (DirectoryScope, Seq<char>),
    b: (DirectoryScope, Seq<char>),
    c: (DirectoryScope, Seq<char>),
)
    requires
        key_lt(a, b),
        key_lt(b, c),
    ensures
        key_lt(a, c),
{
    if a.0 == b.0 && b.0 == c.0 {
        lemma_path_lt_transitive(a.1, b.1, c.1);
    }
}

fn scope_rank_exec(s: DirectoryScope) -> (r: u8)
    ensures
        r == scope_rank(s),
{
    match s {
        DirectoryScope::RealRoot => 0,
        DirectoryScope::GeneratedInitramfs => 1,
    }
}

fn key_lt_exec(a: &(DirectoryScope, String), b: &(DirectoryScope, String)) -> (r: bool)
    ensures
        r == key_lt((a.0, a.1@), (b.0, b.1@)),
{
    let ra = scope_rank_exec(a.0);
    let rb = scope_rank_exec(b.0);
    ra < rb || (a.0 == b.0 && path_lt_exec(a.1.as_str(), b.1.as_str()))
}

/// Adds `k` to the ordered directory set `v`.
fn insert_key(v: &mut Vec<(DirectoryScope, String)>, k: (DirectoryScope, String))
    requires
        keys_sorted(key_views(old(v)@)),
    ensures
        keys_sorted(key_views(final(v)@)),
        key_views(final(v)@).to_set() == key_views(old(v)@).to_set().insert((k.0, k.1@)),
{
    let ghost ks = key_views(v@);
    let ghost kv = (k.0, k.1@);
    let mut i: usize = 0;
    while i < v.len() && key_lt_exec(&v[i], &k)
        invariant
            i <= v@.len(),
            ks == key_views(v@),
            keys_sorted(ks),
            kv == (k.0, k.1@),
            forall|j: int| 0 <= j < i ==> key_lt(#[trigger] ks[j], kv),
        decreases v.len() - i,
    {
        assert(ks[i as int] == (v@[i as int].0, v@[i as int].1@));
        i = i + 1;
    }
    if i < v.len() {
        assert(ks[i as int] == (v@[i as int].0, v@[i as int].1@));
        if v[i].0 == k.0 && str_eq(v[i].1.as_str(), k.1.as_str()) {
            assert(ks[i as int] == kv);
            assert(ks.to_set() =~= ks.to_set().insert(kv)) by {
                assert(ks.contains(kv));
            }
            return;
        }
        proof {
            lemma_key_lt_total(ks[i as int], kv);
        }
    }
    let ghost before = v@;
    v.insert(i, k);
    proof {
        let r = key_views(v@);
        assert(r =~= ks.insert(i as int, kv));
        assert forall|a: int, b: int| 0 <= a < b < r.len() implies key_lt(#[trigger] r[a], #[trigger] r[b]) by {
            if b < i {
                assert(r[a] == ks[a] && r[b] == ks[b]);
            } else if b == i {
                assert(r[a] == ks[a]);
            } else if a == i {
                assert(r[b] == ks[b - 1]);
                if b - 1 > i {
                    assert(key_lt(ks[i as int], ks[b - 1]));
                    lemma_key_lt_transitive(kv, ks[i as int], ks[b - 1]);
                }
            } else if a < i {
                assert(r[a] == ks[a] && r[b] == ks[b - 1]);
            } else {
                assert(r[a] == ks[a - 1] && r[b] == ks[b - 1]);
            }
        }
        assert forall|x| r.to_set().contains(x) <==> ks.to_set().insert(kv).contains(x) by {
            if r.contains(x) {
                let w = choose|w: int| 0 <= w < r.len() && r[w] == x;
                if w < i {
                    assert(ks[w] == x);
                } else if w > i {
                    assert(ks[w - 1] == x);
                }
            }
            if ks.contains(x) {
                let w = choose|w: int| 0 <= w < ks.len() && ks[w] == x;
                if w < i {
                    assert(r[w] == x);
                } else {
                    assert(r[w + 1] == x);
                }
            }
            if x == kv {
                assert(r[i as int] == kv);
            }
        }
        assert(r.to_set() =~= ks.to_set().insert(kv));
    }
}


/// The directories above the absolute `path`, outermost first, and `path`
/// itself when `include_leaf`.
pub open spec fn ancestors(path: Seq<char>, include_leaf: bool) -> Seq<Seq<char>> {
    let ps = absolute_pieces(path);
    if include_leaf {
        root_walk(ps).0
    } else {
        root_walk(ps.drop_last()).0
    }
}

proof fn lemma_walk_strict(ps: Seq<Seq<char>>)
    requires
        forall|k: int| 0 <= k < ps.len() ==> strict_piece(#[trigger] ps[k]),
    ensures
        !root_walk(ps).1,
        root_walk(ps).0.len() == ps.len(),
    decreases ps.len(),
{
    if ps.len() > 0 {
        assert forall|k: int| 0 <= k < ps.drop_last().len() implies strict_piece(
            #[trigger] ps.drop_last()[k],
        ) by {
            assert(ps.drop_last()[k] == ps[k]);
        }
        lemma_walk_strict(ps.drop_last());
        assert(strict_piece(ps[ps.len() - 1]));
    }
}

/// The ancestors of a normalized absolute path.
fn ancestors_exec(path: &str, include_leaf: bool) -> (r: Vec<String>)
    requires
        path@.len() > 0,
        !include_leaf ==> spec_is_normalized_absolute_file_path(path@),
    ensures
        string_views(r@) == ancestors(path@, include_leaf),
{
    let (mut prefixes, _) = root_prefixes(path);
    let ghost ps = absolute_pieces(path@);
    assert(crate::root::root_pieces(path@) == ps);
    if !include_leaf {
        proof {
            lemma_walk_strict(ps);
            crate::text_facts::lemma_split_on_nonempty(path@.drop_first(), '/');
            assert forall|k: int| 0 <= k < ps.drop_last().len() implies strict_piece(
                #[trigger] ps.drop_last()[k],
            ) by {
                assert(ps.drop_last()[k] == ps[k]);
            }
            lemma_walk_strict(ps.drop_last());
            assert(strict_piece(ps[ps.len() - 1]));
            assert(ps.drop_last().push(ps.last()) =~= ps);
        }
        let ghost before = prefixes@;
        prefixes.pop();
        assert(string_views(prefixes@) =~= string_views(before).drop_last());
    }
    prefixes
}

pub open spec fn scoped(scope: DirectoryScope, ps: Seq<Seq<char>>) -> Seq<(DirectoryScope, Seq<char>)> {
    ps.map_values(|p: Seq<char>| (scope, p))
}

/// The scope of the directories above an activation link.
pub open spec fn activation_dir_scope(s: ActivationScope) -> DirectoryScope {
    match s {
        ActivationScope::GeneratedInitramfs => DirectoryScope::GeneratedInitramfs,
        ActivationScope::RealRoot => DirectoryScope::RealRoot,
    }
}

/// Every directory above the payloads `paths`, then above the links `links`,
/// in the order they are met.
pub open spec fn link_dir_keys(links: Seq<(DirectoryScope, Seq<char>)>) -> Seq<(DirectoryScope, Seq<char>)>
    decreases links.len(),
{
    if links.len() == 0 {
        seq![]
    } else {
        link_dir_keys(links.drop_last()) + scoped(links.last().0, ancestors(links.last().1, false))
    }
}

/// The installer's state directories, each with its ancestors.
pub open spec fn state_dir_keys() -> Seq<(DirectoryScope, Seq<char>)> {
    scoped(DirectoryScope::RealRoot, ancestors(STATE_DIR@, true)) + scoped(
        DirectoryScope::RealRoot,
        ancestors(TRANSACTIONS_DIR@, true),
    ) + scoped(DirectoryScope::RealRoot, ancestors(TRANSACTION_DIR_TEMPLATE@, true))
}

fn add_ancestors(
    v: &mut Vec<(DirectoryScope, String)>,
    scope: DirectoryScope,
    path: &str,
    include_leaf: bool,
)
    requires
        keys_sorted(key_views(old(v)@)),
        path@.len() > 0,
        !include_leaf ==> spec_is_normalized_absolute_file_path(path@),
    ensures
        keys_sorted(key_views(final(v)@)),
        key_views(final(v)@).to_set() == key_views(old(v)@).to_set() + scoped(
            scope,
            ancestors(path@, include_leaf),
        ).to_set(),
{
    let a = ancestors_exec(path, include_leaf);
    let ghost av = ancestors(path@, include_leaf);
    let ghost start = key_views(v@).to_set();
    let mut i: usize = 0;
    assert(scoped(scope, av.take(0)).to_set() =~= Set::<(DirectoryScope, Seq<char>)>::empty());
    assert(start + Set::<(DirectoryScope, Seq<char>)>::empty() =~= start);
    while i < a.len()
        invariant
            i <= a@.len(),
            string_views(a@) == av,
            keys_sorted(key_views(v@)),
            key_views(v@).to_set() == start + scoped(scope, av.take(i as int)).to_set(),
        decreases a.len() - i,
    {
        let ghost prev = key_views(v@).to_set();
        assert(av[i as int] == a@[i as int]@);
        insert_key(v, (scope, a[i].clone()));
        proof {
            assert(scoped(scope, av.take(i as int + 1)) =~= scoped(scope, av.take(i as int)) + seq![
                (scope, av[i as int]),
            ]);
            Seq::<(DirectoryScope, Seq<char>)>::lemma_to_set_insert_commutes(
                scoped(scope, av.take(i as int)),
                (scope, av[i as int]),
            );
            assert(key_views(v@).to_set() =~= start + scoped(scope, av.take(i as int + 1)).to_set());
        }
        i = i + 1;
    }
    assert(av.take(a@.len() as int) =~= av);
}


pub open spec fn payload_links(ops: Seq<crate::plan::PlanOperationView>) -> Seq<(DirectoryScope, Seq<char>)> {
    ops.map_values(|o: crate::plan::PlanOperationView| (DirectoryScope::RealRoot, o.path))
}

pub open spec fn activation_links(acts: Seq<crate::operations::ActivationOperationView>) -> Seq<
    (DirectoryScope, Seq<char>),
> {
    acts.map_values(
        |a: crate::operations::ActivationOperationView| (activation_dir_scope(a.scope), a.path),
    )
}

/// Every directory a plan with these payloads and links may need, in the
/// order met: above each payload, above each link, then the state
/// directories with their ancestors.
pub open spec fn required_dir_keys(
    ops: Seq<crate::plan::PlanOperationView>,
    acts: Seq<crate::operations::ActivationOperationView>,
) -> Seq<(DirectoryScope, Seq<char>)> {
    link_dir_keys(payload_links(ops) + activation_links(acts)) + state_dir_keys()
}

/// The directory a record requires.
pub open spec fn record_key(r: SafetyRecord) -> (DirectoryScope, Seq<char>) {
    match r {
        SafetyRecord::RequiredDirectory { scope, path, .. } => (scope, path@),
        _ => (DirectoryScope::RealRoot, Seq::empty()),
    }
}

/// A required-directory record for `k`: root-owned, not yet inspected,
/// private (`0700`) below the installer's state root in the real root and
/// `0755` otherwise, blocked by what its scope leaves unknown.
pub open spec fn required_dir_record_ok(r: SafetyRecord) -> bool {
    match r {
        SafetyRecord::RequiredDirectory { scope, path, mode, owner_uid, previous, blocker } => {
            &&& owner_uid == 0
            &&& previous == ExpectedPreviousState::Uninspected
            &&& mode == if scope == DirectoryScope::RealRoot && has_prefix(path@, PRIVATE_STATE_ROOT@) {
                0o700u32
            } else {
                0o755u32
            }
            &&& blocker == if scope == DirectoryScope::RealRoot {
                DESTINATION_INSPECTION_BLOCKER
            } else {
                GENERATED_DIRECTORY_BLOCKER
            }
        },
        _ => false,
    }
}

fn link_dirs(
    v: &mut Vec<(DirectoryScope, String)>,
    links: &Vec<(DirectoryScope, String)>,
)
    requires
        keys_sorted(key_views(old(v)@)),
        forall|i: int|
            0 <= i < links@.len() ==> spec_is_normalized_absolute_file_path(#[trigger] links@[i].1@),
    ensures
        keys_sorted(key_views(final(v)@)),
        key_views(final(v)@).to_set() == key_views(old(v)@).to_set() + link_dir_keys(
            key_views(links@),
        ).to_set(),
{
    let ghost lv = key_views(links@);
    let ghost start = key_views(v@).to_set();
    let mut i: usize = 0;
    assert(lv.take(0) =~= Seq::<(DirectoryScope, Seq<char>)>::empty());
    assert(link_dir_keys(lv.take(0)).to_set() =~= Set::<(DirectoryScope, Seq<char>)>::empty());
    assert(start + Set::<(DirectoryScope, Seq<char>)>::empty() =~= start);
    while i < links.len()
        invariant
            i <= links@.len(),
            lv == key_views(links@),
            forall|j: int|
                0 <= j < links@.len() ==> spec_is_normalized_absolute_file_path(#[trigger] links@[j].1@),
            keys_sorted(key_views(v@)),
            key_views(v@).to_set() == start + link_dir_keys(lv.take(i as int)).to_set(),
        decreases links.len() - i,
    {
        assert(lv.take(i as int + 1).drop_last() =~= lv.take(i as int));
        assert(lv.take(i as int + 1).last() == lv[i as int]);
        assert(lv[i as int] == (links@[i as int].0, links@[i as int].1@));
        add_ancestors(v, links[i].0, links[i].1.as_str(), false);
        proof {
            let a = link_dir_keys(lv.take(i as int));
            let b = scoped(lv[i as int].0, ancestors(lv[i as int].1, false));
            lemma_concat_to_set(a, b);
            assert(key_views(v@).to_set() =~= start + link_dir_keys(lv.take(i as int + 1)).to_set());
        }
        i = i + 1;
    }
    assert(lv.take(links@.len() as int) =~= lv);
}


proof fn lemma_concat_to_set(a: Seq<(DirectoryScope, Seq<char>)>, b: Seq<(DirectoryScope, Seq<char>)>)
    ensures
        (a + b).to_set() == a.to_set() + b.to_set(),
{
    assert forall|x| (a + b).to_set().contains(x) <==> (a.to_set() + b.to_set()).contains(x) by {
        if (a + b).contains(x) {
            let w = choose|w: int| 0 <= w < (a + b).len() && (a + b)[w] == x;
            if w < a.len() {
                assert(a[w] == x);
            } else {
                assert(b[w - a.len()] == x);
            }
        }
        if a.contains(x) {
            let w = choose|w: int| 0 <= w < a.len() && a[w] == x;
            assert((a + b)[w] == x);
        }
        if b.contains(x) {
            let w = choose|w: int| 0 <= w < b.len() && b[w] == x;
            assert((a + b)[a.len() + w] == x);
        }
    }
    assert((a + b).to_set() =~= a.to_set() + b.to_set());
}

fn directory_record(k: &(DirectoryScope, String)) -> (r: SafetyRecord)
    ensures
        required_dir_record_ok(r),
        record_key(r) == (k.0, k.1@),
{
    let private = k.0 == DirectoryScope::RealRoot && str_has_prefix(k.1.as_str(), PRIVATE_STATE_ROOT);
    let mode: u32 = if private {
        0o700
    } else {
        0o755
    };
    let blocker = match k.0 {
        DirectoryScope::RealRoot => DESTINATION_INSPECTION_BLOCKER,
        DirectoryScope::GeneratedInitramfs => GENERATED_DIRECTORY_BLOCKER,
    };
    SafetyRecord::RequiredDirectory {
        scope: k.0,
        path: k.1.clone(),
        mode,
        owner_uid: 0,
        previous: ExpectedPreviousState::Uninspected,
        blocker,
    }
}

pub open spec fn record_keys(rs: Seq<SafetyRecord>) -> Seq<(DirectoryScope, Seq<char>)> {
    rs.map_values(|r: SafetyRecord| record_key(r))
}

/// The required-directory records of a plan with these payloads and links:
/// each directory of [`required_dir_keys`] once, ordered by scope and path.
pub fn required_directory_records(
    operations: &Vec<PlanOperation>,
    activations: &Vec<ActivationOperation>,
) -> (r: Vec<SafetyRecord>)
    requires
        forall|i: int|
            0 <= i < operations@.len() ==> spec_is_normalized_absolute_file_path(
                #[trigger] operations@[i]@.path,
            ),
        forall|i: int|
            0 <= i < activations@.len() ==> spec_is_normalized_absolute_file_path(
                #[trigger] activations@[i]@.path,
            ),
    ensures
        forall|i: int| 0 <= i < r@.len() ==> required_dir_record_ok(#[trigger] r@[i]),
        keys_sorted(record_keys(r@)),
        record_keys(r@).to_set() == required_dir_keys(
            crate::plan::op_views(operations@),
            crate::operations::activation_views(activations@),
        ).to_set(),
{
    let ghost ov = crate::plan::op_views(operations@);
    let ghost av = crate::operations::activation_views(activations@);
    let mut links: Vec<(DirectoryScope, String)> = Vec::new();
    let mut i: usize = 0;
    while i < operations.len()
        invariant
            i <= operations@.len(),
            ov == crate::plan::op_views(operations@),
            key_views(links@) == payload_links(ov.take(i as int)),
            forall|j: int|
                0 <= j < links@.len() ==> spec_is_normalized_absolute_file_path(#[trigger] links@[j].1@),
            forall|j: int|
                0 <= j < operations@.len() ==> spec_is_normalized_absolute_file_path(
                    #[trigger] operations@[j]@.path,
                ),
        decreases operations.len() - i,
    {
        let ghost before = key_views(links@);
        let p = crate::text::owned(operations[i].path());
        links.push((DirectoryScope::RealRoot, p));
        assert(key_views(links@) =~= payload_links(ov.take(i as int + 1))) by {
            assert(key_views(links@) =~= before.push((DirectoryScope::RealRoot, ov[i as int].path)));
        }
        i = i + 1;
    }
    assert(ov.take(operations@.len() as int) =~= ov);
    let ghost mid = key_views(links@);
    let mut j: usize = 0;
    while j < activations.len()
        invariant
            j <= activations@.len(),
            av == crate::operations::activation_views(activations@),
            key_views(links@) == mid + activation_links(av.take(j as int)),
            forall|k: int|
                0 <= k < links@.len() ==> spec_is_normalized_absolute_file_path(#[trigger] links@[k].1@),
            forall|k: int|
                0 <= k < activations@.len() ==> spec_is_normalized_absolute_file_path(
                    #[trigger] activations@[k]@.path,
                ),
        decreases activations.len() - j,
    {
        let ghost before = key_views(links@);
        let scope = match activations[j].scope() {
            ActivationScope::GeneratedInitramfs => DirectoryScope::GeneratedInitramfs,
            ActivationScope::RealRoot => DirectoryScope::RealRoot,
        };
        let p = crate::text::owned(activations[j].path());
        links.push((scope, p));
        assert(key_views(links@) =~= mid + activation_links(av.take(j as int + 1))) by {
            assert(key_views(links@) =~= before.push((scope, av[j as int].path)));
        }
        j = j + 1;
    }
    assert(av.take(activations@.len() as int) =~= av);
    let mut keys: Vec<(DirectoryScope, String)> = Vec::new();
    assert(key_views(keys@).to_set() =~= Set::<(DirectoryScope, Seq<char>)>::empty());
    link_dirs(&mut keys, &links);
    proof {
        reveal_strlit("/var/lib/bootart/install");
        reveal_strlit("/var/lib/bootart/install/transactions");
        reveal_strlit("/var/lib/bootart/install/transactions/{transaction-id}");
    }
    let ghost k1 = key_views(keys@).to_set();
    add_ancestors(&mut keys, DirectoryScope::RealRoot, STATE_DIR, true);
    add_ancestors(&mut keys, DirectoryScope::RealRoot, TRANSACTIONS_DIR, true);
    add_ancestors(&mut keys, DirectoryScope::RealRoot, TRANSACTION_DIR_TEMPLATE, true);
    proof {
        let la = link_dir_keys(payload_links(ov) + activation_links(av));
        let s1 = scoped(DirectoryScope::RealRoot, ancestors(STATE_DIR@, true));
        let s2 = scoped(DirectoryScope::RealRoot, ancestors(TRANSACTIONS_DIR@, true));
        let s3 = scoped(DirectoryScope::RealRoot, ancestors(TRANSACTION_DIR_TEMPLATE@, true));
        lemma_concat_to_set(s1, s2);
        lemma_concat_to_set(s1 + s2, s3);
        lemma_concat_to_set(la, s1 + s2 + s3);
        assert(Set::<(DirectoryScope, Seq<char>)>::empty() + la.to_set() =~= la.to_set());
        assert(key_views(keys@).to_set() =~= required_dir_keys(ov, av).to_set());
    }
    let mut out: Vec<SafetyRecord> = Vec::new();
    let mut m: usize = 0;
    while m < keys.len()
        invariant
            m <= keys@.len(),
            record_keys(out@) == key_views(keys@).take(m as int),
            forall|x: int| 0 <= x < out@.len() ==> required_dir_record_ok(#[trigger] out@[x]),
        decreases keys.len() - m,
    {
        let ghost before = out@;
        let rec = directory_record(&keys[m]);
        out.push(rec);
        assert(record_keys(out@) =~= key_views(keys@).take(m as int + 1)) by {
            assert(record_keys(out@) =~= record_keys(before).push(record_key(rec)));
        }
        m = m + 1;
    }
    assert(key_views(keys@).take(keys@.len() as int) =~= key_views(keys@));
    out
}


// ---------------------------------------------------------------------------
// Planned backups
// ---------------------------------------------------------------------------

/// One path whose pre-change state a transaction backs up.
#[derive(Debug, Clone, PartialEq, Eq)]
pub struct BackupSpec {
    pub subject: BackupSubjectKind,
    pub target: String,
    pub backup_path_template: String,
}

/// `n` in decimal, left-padded with zeros to six digits.
pub open spec fn pad6(n: nat) -> Seq<char> {
    let d = spec_decimal(n);
    if d.len() < 6 {
        Seq::new((6 - d.len()) as nat, |i: int| '0') + d
    } else {
        d
    }
}

pub(crate) fn pad6_exec(n: u64) -> (r: String)
    ensures
        r@ == pad6(n as nat),
{
    let d = decimal(n);
    let mut zeros: Vec<char> = Vec::new();
    let dl = d.unicode_len();
    if dl < 6 {
        while zeros.len() < 6 - dl
            invariant
                dl < 6,
                dl == d@.len(),
                zeros@.len() <= 6 - dl,
                forall|i: int| 0 <= i < zeros@.len() ==> zeros@[i] == '0',
            decreases 6 - dl - zeros.len(),
        {
            zeros.push('0');
        }
        let z = crate::text::string_from_chars(zeros.as_slice());
        assert(z@ =~= Seq::new((6 - d@.len()) as nat, |i: int| '0'));
        concat2(z.as_str(), d.as_str())
    } else {
        d
    }
}

/// The backup file of the `index`-th backed-up path.
pub open spec fn backup_path(index: nat) -> Seq<char> {
    TRANSACTIONS_DIR@ + "/"@ + TRANSACTION_ID_PLACEHOLDER@ + "/backup-"@ + pad6(index)
}

/// The real-root activation links among `acts`, in order.
pub open spec fn real_root_links(acts: Seq<crate::operations::ActivationOperationView>) -> Seq<Seq<char>>
    decreases acts.len(),
{
    if acts.len() == 0 {
        seq![]
    } else if acts.last().scope == ActivationScope::RealRoot {
        real_root_links(acts.drop_last()).push(acts.last().path)
    } else {
        real_root_links(acts.drop_last())
    }
}

/// Every path a transaction backs up: payloads, snippet targets and
/// real-root links.
pub open spec fn backup_targets(
    ops: Seq<crate::plan::PlanOperationView>,
    snips: Seq<crate::operations::ManagedSnippetOperationView>,
    acts: Seq<crate::operations::ActivationOperationView>,
) -> Seq<Seq<char>> {
    ops.map_values(|o: crate::plan::PlanOperationView| o.path) + snips.map_values(
        |o: crate::operations::ManagedSnippetOperationView| o.target,
    ) + real_root_links(acts)
}

/// What a backed-up path is: a real-root link, else a snippet target, else
/// a whole-file payload (the last kind recorded for it wins).
pub open spec fn backup_subject(
    t: Seq<char>,
    snips: Seq<crate::operations::ManagedSnippetOperationView>,
    acts: Seq<crate::operations::ActivationOperationView>,
) -> BackupSubjectKind {
    if real_root_links(acts).contains(t) {
        BackupSubjectKind::ActivationLink
    } else if snips.map_values(|o: crate::operations::ManagedSnippetOperationView| o.target).contains(t) {
        BackupSubjectKind::ManagedSnippetTarget
    } else {
        BackupSubjectKind::FilePayload
    }
}

/// Adds `p` to the ordered path set `v`.
pub(crate) fn insert_path(v: &mut Vec<String>, p: String)
    requires
        strictly_sorted(string_views(old(v)@)),
    ensures
        strictly_sorted(string_views(final(v)@)),
        string_views(final(v)@).to_set() == string_views(old(v)@).to_set().insert(p@),
{
    let ghost ks = string_views(v@);
    let mut i: usize = 0;
    while i < v.len() && path_lt_exec(v[i].as_str(), p.as_str())
        invariant
            i <= v@.len(),
            ks == string_views(v@),
            strictly_sorted(ks),
            forall|j: int| 0 <= j < i ==> path_lt(#[trigger] ks[j], p@),
        decreases v.len() - i,
    {
        assert(ks[i as int] == v@[i as int]@);
        i = i + 1;
    }
    if i < v.len() {
        assert(ks[i as int] == v@[i as int]@);
        if str_eq(v[i].as_str(), p.as_str()) {
            assert(ks.to_set() =~= ks.to_set().insert(p@)) by {
                assert(ks.contains(p@));
            }
            return;
        }
        proof {
            lemma_path_lt_total(ks[i as int], p@);
        }
    }
    let ghost pv = p@;
    proof {
        lemma_insert_sorted(ks, pv, i as int);
    }
    v.insert(i, p);
    proof {
        let r = string_views(v@);
        assert(r =~= ks.insert(i as int, pv));
        assert forall|x| r.to_set().contains(x) <==> ks.to_set().insert(pv).contains(x) by {
            if r.contains(x) {
                let w = choose|w: int| 0 <= w < r.len() && r[w] == x;
                if w < i {
                    assert(ks[w] == x);
                } else if w > i {
                    assert(ks[w - 1] == x);
                }
            }
            if ks.contains(x) {
                let w = choose|w: int| 0 <= w < ks.len() && ks[w] == x;
                if w < i {
                    assert(r[w] == x);
                } else {
                    assert(r[w + 1] == x);
                }
            }
            if x == pv {
                assert(r[i as int] == pv);
            }
        }
        assert(r.to_set() =~= ks.to_set().insert(pv));
    }
}

fn insert_all(v: &mut Vec<String>, ps: &Vec<String>)
    requires
        strictly_sorted(string_views(old(v)@)),
    ensures
        strictly_sorted(string_views(final(v)@)),
        string_views(final(v)@).to_set() == string_views(old(v)@).to_set() + string_views(ps@).to_set(),
{
    let ghost start = string_views(v@).to_set();
    let ghost pv = string_views(ps@);
    let mut i: usize = 0;
    assert(pv.take(0).to_set() =~= Set::<Seq<char>>::empty());
    assert(start + Set::<Seq<char>>::empty() =~= start);
    while i < ps.len()
        invariant
            i <= ps@.len(),
            pv == string_views(ps@),
            strictly_sorted(string_views(v@)),
            string_views(v@).to_set() == start + pv.take(i as int).to_set(),
        decreases ps.len() - i,
    {
        insert_path(v, ps[i].clone());
        assert(pv.take(i as int + 1) =~= pv.take(i as int) + seq![pv[i as int]]);
        proof {
            Seq::<Seq<char>>::lemma_to_set_insert_commutes(pv.take(i as int), pv[i as int]);
        }
        assert(string_views(v@).to_set() =~= start + pv.take(i as int + 1).to_set());
        i = i + 1;
    }
    assert(pv.take(ps@.len() as int) =~= pv);
}


fn real_root_link_strings(acts: &Vec<ActivationOperation>) -> (r: Vec<String>)
    ensures
        string_views(r@) == real_root_links(crate::operations::activation_views(acts@)),
{
    let ghost av = crate::operations::activation_views(acts@);
    let mut out: Vec<String> = Vec::new();
    let mut i: usize = 0;
    while i < acts.len()
        invariant
            i <= acts@.len(),
            av == crate::operations::activation_views(acts@),
            string_views(out@) == real_root_links(av.take(i as int)),
        decreases acts.len() - i,
    {
        assert(av.take(i as int + 1).drop_last() =~= av.take(i as int));
        assert(av.take(i as int + 1).last() == acts@[i as int]@);
        if acts[i].scope() == ActivationScope::RealRoot {
            let ghost before = out@;
            out.push(owned(acts[i].path()));
            assert(string_views(out@) =~= string_views(before).push(acts@[i as int]@.path));
        }
        i = i + 1;
    }
    assert(av.take(acts@.len() as int) =~= av);
    out
}

fn snippet_target_strings(snips: &Vec<ManagedSnippetOperation>) -> (r: Vec<String>)
    ensures
        string_views(r@) == crate::operations::snippet_views(snips@).map_values(
            |o: crate::operations::ManagedSnippetOperationView| o.target,
        ),
{
    let ghost sv = crate::operations::snippet_views(snips@).map_values(
        |o: crate::operations::ManagedSnippetOperationView| o.target,
    );
    let mut out: Vec<String> = Vec::new();
    let mut i: usize = 0;
    while i < snips.len()
        invariant
            i <= snips@.len(),
            sv == crate::operations::snippet_views(snips@).map_values(
                |o: crate::operations::ManagedSnippetOperationView| o.target,
            ),
            string_views(out@) == sv.take(i as int),
        decreases snips.len() - i,
    {
        let ghost before = out@;
        out.push(owned(snips[i].target()));
        assert(string_views(out@) =~= sv.take(i as int + 1)) by {
            assert(string_views(out@) =~= string_views(before).push(snips@[i as int]@.target));
        }
        i = i + 1;
    }
    assert(sv.take(snips@.len() as int) =~= sv);
    out
}

fn operation_path_strings(ops: &Vec<PlanOperation>) -> (r: Vec<String>)
    ensures
        string_views(r@) == crate::plan::op_views(ops@).map_values(
            |o: crate::plan::PlanOperationView| o.path,
        ),
{
    let ghost sv = crate::plan::op_views(ops@).map_values(|o: crate::plan::PlanOperationView| o.path);
    let mut out: Vec<String> = Vec::new();
    let mut i: usize = 0;
    while i < ops.len()
        invariant
            i <= ops@.len(),
            sv == crate::plan::op_views(ops@).map_values(|o: crate::plan::PlanOperationView| o.path),
            string_views(out@) == sv.take(i as int),
        decreases ops.len() - i,
    {
        let ghost before = out@;
        out.push(owned(ops[i].path()));
        assert(string_views(out@) =~= sv.take(i as int + 1)) by {
            assert(string_views(out@) =~= string_views(before).push(ops@[i as int]@.path));
        }
        i = i + 1;
    }
    assert(sv.take(ops@.len() as int) =~= sv);
    out
}

fn strings_contain_str(v: &Vec<String>, t: &str) -> (r: bool)
    ensures
        r == string_views(v@).contains(t@),
{
    let mut i: usize = 0;
    while i < v.len()
        invariant
            i <= v@.len(),
            forall|j: int| 0 <= j < i ==> string_views(v@)[j] != t@,
        decreases v.len() - i,
    {
        if str_eq(v[i].as_str(), t) {
            assert(string_views(v@)[i as int] == t@);
            return true;
        }
        i = i + 1;
    }
    false
}

/// The paths a transaction backs up, each once in path order, with what
/// each one is and where its backup goes: `backup-000000`, `backup-000001`,
/// ... in the transaction's directory.
pub fn planned_backup_specs(
    operations: &Vec<PlanOperation>,
    snippets: &Vec<ManagedSnippetOperation>,
    activations: &Vec<ActivationOperation>,
) -> (r: Vec<BackupSpec>)
    ensures
        strictly_sorted(r@.map_values(|b: BackupSpec| b.target@)),
        r@.map_values(|b: BackupSpec| b.target@).to_set() == backup_targets(
            crate::plan::op_views(operations@),
            crate::operations::snippet_views(snippets@),
            crate::operations::activation_views(activations@),
        ).to_set(),
        forall|i: int|
            0 <= i < r@.len() ==> (#[trigger] r@[i]).subject == backup_subject(
                r@[i].target@,
                crate::operations::snippet_views(snippets@),
                crate::operations::activation_views(activations@),
            ) && r@[i].backup_path_template@ == backup_path(i as nat),
{
    let a = operation_path_strings(operations);
    let b = snippet_target_strings(snippets);
    let c = real_root_link_strings(activations);
    let mut sorted: Vec<String> = Vec::new();
    assert(string_views(sorted@).to_set() =~= Set::<Seq<char>>::empty());
    insert_all(&mut sorted, &a);
    insert_all(&mut sorted, &b);
    insert_all(&mut sorted, &c);
    proof {
        let x = string_views(a@);
        let y = string_views(b@);
        let z = string_views(c@);
        assert forall|q| (x + y + z).to_set().contains(q) <==> (Set::<Seq<char>>::empty() + x.to_set()
            + y.to_set() + z.to_set()).contains(q) by {
            if (x + y + z).contains(q) {
                let w = choose|w: int| 0 <= w < (x + y + z).len() && (x + y + z)[w] == q;
                if w < x.len() {
                    assert(x[w] == q);
                } else if w < x.len() + y.len() {
                    assert(y[w - x.len()] == q);
                } else {
                    assert(z[w - x.len() - y.len()] == q);
                }
            }
            if x.contains(q) {
                let w = choose|w: int| 0 <= w < x.len() && x[w] == q;
                assert((x + y + z)[w] == q);
            }
            if y.contains(q) {
                let w = choose|w: int| 0 <= w < y.len() && y[w] == q;
                assert((x + y + z)[x.len() + w] == q);
            }
            if z.contains(q) {
                let w = choose|w: int| 0 <= w < z.len() && z[w] == q;
                assert((x + y + z)[x.len() + y.len() + w] == q);
            }
        }
        assert(string_views(sorted@).to_set() =~= (x + y + z).to_set());
    }
    let mut out: Vec<BackupSpec> = Vec::new();
    let mut k: usize = 0;
    while k < sorted.len()
        invariant
            k <= sorted@.len(),
            out@.map_values(|bs: BackupSpec| bs.target@) == string_views(sorted@).take(k as int),
            string_views(b@) == crate::operations::snippet_views(snippets@).map_values(
                |o: crate::operations::ManagedSnippetOperationView| o.target,
            ),
            string_views(c@) == real_root_links(crate::operations::activation_views(activations@)),
            forall|i: int|
                0 <= i < out@.len() ==> (#[trigger] out@[i]).subject == backup_subject(
                    out@[i].target@,
                    crate::operations::snippet_views(snippets@),
                    crate::operations::activation_views(activations@),
                ) && out@[i].backup_path_template@ == backup_path(i as nat),
        decreases sorted.len() - k,
    {
        let t = sorted[k].as_str();
        let subject = if strings_contain_str(&c, t) {
            BackupSubjectKind::ActivationLink
        } else if strings_contain_str(&b, t) {
            BackupSubjectKind::ManagedSnippetTarget
        } else {
            BackupSubjectKind::FilePayload
        };
        let digits = pad6_exec(k as u64);
        let parts = vec![TRANSACTIONS_DIR, "/", TRANSACTION_ID_PLACEHOLDER, "/backup-", digits.as_str()];
        assert(crate::text::str_views(parts@) =~= seq![TRANSACTIONS_DIR@, "/"@, TRANSACTION_ID_PLACEHOLDER@, "/backup-"@, digits@]);
        let path = crate::render::join_strs(parts);
        proof {
            reveal_with_fuel(crate::text::concat_all, 6);
            assert(path@ =~= backup_path(k as nat));
        }
        let ghost before = out@;
        out.push(BackupSpec { subject, target: sorted[k].clone(), backup_path_template: path });
        assert(out@.map_values(|bs: BackupSpec| bs.target@) =~= string_views(sorted@).take(k as int + 1)) by {
            assert(out@.map_values(|bs: BackupSpec| bs.target@) =~= before.map_values(|bs: BackupSpec| bs.target@).push(sorted@[k as int]@));
        }
        k = k + 1;
    }
    assert(string_views(sorted@).take(sorted@.len() as int) =~= string_views(sorted@));
    out
}


/// The first payload at `t`, if any.
pub open spec fn first_payload_at(ops: Seq<crate::plan::PlanOperationView>, t: Seq<char>) -> Option<
    crate::plan::PlanOperationView,
>
    decreases ops.len(),
{
    if ops.len() == 0 {
        None
    } else if ops[0].path == t {
        Some(ops[0])
    } else {
        first_payload_at(ops.drop_first(), t)
    }
}

/// The first real-root link at `t`, if any.
pub open spec fn first_real_root_link_at(
    acts: Seq<crate::operations::ActivationOperationView>,
    t: Seq<char>,
) -> Option<crate::operations::ActivationOperationView>
    decreases acts.len(),
{
    if acts.len() == 0 {
        None
    } else if acts[0].scope == ActivationScope::RealRoot && acts[0].path == t {
        Some(acts[0])
    } else {
        first_real_root_link_at(acts.drop_first(), t)
    }
}

/// What a backup records of its path's state before the change: absent
/// where the payload or link recorded an absent previous state, otherwise
/// not inspected yet (snippet targets always).
pub open spec fn spec_pre_change_hash(
    subject: BackupSubjectKind,
    target: Seq<char>,
    ops: Seq<crate::plan::PlanOperationView>,
    acts: Seq<crate::operations::ActivationOperationView>,
) -> PlannedHashState {
    let previous = match subject {
        BackupSubjectKind::FilePayload => match first_payload_at(ops, target) {
            Some(o) => Some(o.expected_previous),
            None => None,
        },
        BackupSubjectKind::ActivationLink => match first_real_root_link_at(acts, target) {
            Some(a) => Some(a.expected_previous),
            None => None,
        },
        BackupSubjectKind::ManagedSnippetTarget => None,
    };
    if previous == Some(ExpectedPreviousState::Absent) {
        PlannedHashState::Absent
    } else {
        PlannedHashState::Uninspected { blocker: DESTINATION_INSPECTION_BLOCKER }
    }
}

fn first_payload_previous(operations: &Vec<PlanOperation>, t: &str) -> (r: Option<ExpectedPreviousState>)
    ensures
        r == (match first_payload_at(crate::plan::op_views(operations@), t@) {
            Some(o) => Some(o.expected_previous),
            None => None,
        }),
{
    let ghost ov = crate::plan::op_views(operations@);
    let mut i: usize = 0;
    assert(ov.skip(0) =~= ov);
    while i < operations.len()
        invariant
            i <= operations@.len(),
            ov == crate::plan::op_views(operations@),
            first_payload_at(ov, t@) == first_payload_at(ov.skip(i as int), t@),
        decreases operations.len() - i,
    {
        assert(ov.skip(i as int)[0] == operations@[i as int]@);
        assert(ov.skip(i as int).drop_first() =~= ov.skip(i as int + 1));
        if str_eq(operations[i].path(), t) {
            return Some(operations[i].expected_previous());
        }
        i = i + 1;
    }
    assert(ov.skip(ov.len() as int) =~= Seq::<crate::plan::PlanOperationView>::empty());
    None
}

fn first_link_previous(activations: &Vec<ActivationOperation>, t: &str) -> (r: Option<ExpectedPreviousState>)
    ensures
        r == (match first_real_root_link_at(crate::operations::activation_views(activations@), t@) {
            Some(a) => Some(a.expected_previous),
            None => None,
        }),
{
    let ghost av = crate::operations::activation_views(activations@);
    let mut i: usize = 0;
    assert(av.skip(0) =~= av);
    while i < activations.len()
        invariant
            i <= activations@.len(),
            av == crate::operations::activation_views(activations@),
            first_real_root_link_at(av, t@) == first_real_root_link_at(av.skip(i as int), t@),
        decreases activations.len() - i,
    {
        assert(av.skip(i as int)[0] == activations@[i as int]@);
        assert(av.skip(i as int).drop_first() =~= av.skip(i as int + 1));
        if activations[i].scope() == ActivationScope::RealRoot && str_eq(activations[i].path(), t) {
            return Some(activations[i].expected_previous());
        }
        i = i + 1;
    }
    assert(av.skip(av.len() as int) =~= Seq::<crate::operations::ActivationOperationView>::empty());
    None
}

/// The pre-change hash state of one planned backup.
pub fn planned_backup_pre_change_hash(
    backup: &BackupSpec,
    operations: &Vec<PlanOperation>,
    activations: &Vec<ActivationOperation>,
) -> (r: PlannedHashState)
    ensures
        r == spec_pre_change_hash(
            backup.subject,
            backup.target@,
            crate::plan::op_views(operations@),
            crate::operations::activation_views(activations@),
        ),
{
    let previous = match backup.subject {
        BackupSubjectKind::FilePayload => first_payload_previous(operations, backup.target.as_str()),
        BackupSubjectKind::ActivationLink => first_link_previous(activations, backup.target.as_str()),
        BackupSubjectKind::ManagedSnippetTarget => None,
    };
    match previous {
        Some(ExpectedPreviousState::Absent) => PlannedHashState::Absent,
        _ => PlannedHashState::Uninspected { blocker: DESTINATION_INSPECTION_BLOCKER },
    }
}

} // verus!
