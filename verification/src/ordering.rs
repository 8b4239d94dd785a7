//! The character order of paths is a strict total order.

use crate::manifest::path_lt;
use vstd::prelude::*;

verus! {

/// No path sorts before itself.
pub proof fn lemma_path_lt_irreflexive(a: Seq<char>)
    ensures
        !path_lt(a, a),
    decreases a.len(),
{
    if a.len() > 0 {
        lemma_path_lt_irreflexive(a.drop_first());
    }
}

/// Of two different paths, one sorts before the other.
pub proof fn lemma_path_lt_total(a: Seq<char>, b: Seq<char>)
    requires
        a != b,
    ensures
        path_lt(a, b) || path_lt(b, a),
    decreases a.len(),
{
    if a.len() > 0 && b.len() > 0 && a[0] == b[0] {
        if a.drop_first() == b.drop_first() {
            assert(a =~= seq![a[0]] + a.drop_first());
            assert(b =~= seq![b[0]] + b.drop_first());
        }
        lemma_path_lt_total(a.drop_first(), b.drop_first());
    } else if a.len() == 0 && b.len() == 0 {
        assert(a =~= b);
    }
}

/// The order is transitive.
pub proof fn lemma_path_lt_transitive(a: Seq<char>, b: Seq<char>, c: Seq<char>)
    requires
        path_lt(a, b),
        path_lt(b, c),
    ensures
        path_lt(a, c),
    decreases a.len(),
{
    if a.len() > 0 && b.len() > 0 && c.len() > 0 && a[0] == b[0] && b[0] == c[0] {
        lemma_path_lt_transitive(a.drop_first(), b.drop_first(), c.drop_first());
    }
}

/// The order is asymmetric.
pub proof fn lemma_path_lt_asymmetric(a: Seq<char>, b: Seq<char>)
    requires
        path_lt(a, b),
    ensures
        !path_lt(b, a),
    decreases a.len(),
{
    if a.len() > 0 && b.len() > 0 && a[0] == b[0] {
        lemma_path_lt_asymmetric(a.drop_first(), b.drop_first());
    }
}

/// Strictly increasing under the path order.
pub open spec fn strictly_sorted(keys: Seq<Seq<char>>) -> bool {
    forall|i: int, j: int| 0 <= i < j < keys.len() ==> path_lt(#[trigger] keys[i], #[trigger] keys[j])
}

/// Where `key` goes in the strictly sorted `keys`: after every smaller key,
/// before every larger one.
pub proof fn lemma_insert_sorted(keys: Seq<Seq<char>>, key: Seq<char>, k: int)
    requires
        strictly_sorted(keys),
        0 <= k <= keys.len(),
        forall|j: int| 0 <= j < k ==> path_lt(#[trigger] keys[j], key),
        k < keys.len() ==> path_lt(key, keys[k]),
    ensures
        strictly_sorted(keys.insert(k, key)),
{
    let r = keys.insert(k, key);
    assert forall|i: int, j: int| 0 <= i < j < r.len() implies path_lt(#[trigger] r[i], #[trigger] r[j]) by {
        if j < k {
            assert(r[i] == keys[i] && r[j] == keys[j]);
        } else if j == k {
            assert(r[i] == keys[i]);
        } else if i == k {
            assert(r[j] == keys[j - 1]);
            if j - 1 > k {
                assert(path_lt(keys[k], keys[j - 1]));
                lemma_path_lt_transitive(key, keys[k], keys[j - 1]);
            }
        } else if i < k {
            assert(r[i] == keys[i] && r[j] == keys[j - 1]);
        } else {
            assert(r[i] == keys[i - 1] && r[j] == keys[j - 1]);
        }
    }
}


/// `lt` is a strict total order.
pub open spec fn strict_total<K>(lt: spec_fn(K, K) -> bool) -> bool {
    &&& forall|x: K| !#[trigger] lt(x, x)
    &&& forall|x: K, y: K, z: K| #[trigger] lt(x, y) && #[trigger] lt(y, z) ==> lt(x, z)
    &&& forall|x: K, y: K| x != y ==> #[trigger] lt(x, y) || #[trigger] lt(y, x)
}

pub open spec fn sorted_by<K>(s: Seq<K>, lt: spec_fn(K, K) -> bool) -> bool {
    forall|i: int, j: int| 0 <= i < j < s.len() ==> lt(#[trigger] s[i], #[trigger] s[j])
}

/// `k` put into its place in the sorted `s`, unless it is already there.
pub open spec fn sorted_insert<K>(s: Seq<K>, k: K, lt: spec_fn(K, K) -> bool) -> Seq<K>
    decreases s.len(),
{
    if s.len() == 0 {
        seq![k]
    } else if s[0] == k {
        s
    } else if lt(k, s[0]) {
        seq![k] + s
    } else {
        seq![s[0]] + sorted_insert(s.drop_first(), k, lt)
    }
}

/// `ks` inserted one after another into `acc`: a sorted set of them.
pub open spec fn sort_from<K>(acc: Seq<K>, ks: Seq<K>, lt: spec_fn(K, K) -> bool) -> Seq<K>
    decreases ks.len(),
{
    if ks.len() == 0 {
        acc
    } else {
        sorted_insert(sort_from(acc, ks.drop_last(), lt), ks.last(), lt)
    }
}

/// Inserting after the keys below `k` is the sorted insertion.
pub proof fn lemma_sorted_insert_at<K>(s: Seq<K>, k: K, lt: spec_fn(K, K) -> bool, i: int)
    requires
        strict_total(lt),
        sorted_by(s, lt),
        0 <= i <= s.len(),
        forall|j: int| 0 <= j < i ==> lt(#[trigger] s[j], k),
        i < s.len() ==> !lt(s[i], k),
    ensures
        sorted_insert(s, k, lt) == if i < s.len() && s[i] == k {
            s
        } else {
            s.insert(i, k)
        },
    decreases i,
{
    if s.len() == 0 {
        assert(s.insert(0, k) =~= seq![k]);
    } else if i == 0 {
        if s[0] != k {
            assert(lt(s[0], k) || lt(k, s[0]));
            assert(seq![k] + s =~= s.insert(0, k));
        }
    } else {
        assert(lt(s[0], k));
        assert(s[0] != k);
        if lt(k, s[0]) {
            assert(lt(k, k));
        }
        let t = s.drop_first();
        assert forall|a: int, b: int| 0 <= a < b < t.len() implies lt(#[trigger] t[a], #[trigger] t[b]) by {
            assert(t[a] == s[a + 1] && t[b] == s[b + 1]);
        }
        assert forall|j: int| 0 <= j < i - 1 implies lt(#[trigger] t[j], k) by {
            assert(t[j] == s[j + 1]);
        }
        lemma_sorted_insert_at(t, k, lt, i - 1);
        if i < s.len() && s[i] == k {
            assert(seq![s[0]] + t =~= s);
        } else {
            assert(seq![s[0]] + t.insert(i - 1, k) =~= s.insert(i, k));
        }
    }
}

/// Sorting a concatenation inserts the second part after the first.
pub proof fn lemma_sort_from_append<K>(acc: Seq<K>, a: Seq<K>, b: Seq<K>, lt: spec_fn(K, K) -> bool)
    ensures
        sort_from(acc, a + b, lt) == sort_from(sort_from(acc, a, lt), b, lt),
    decreases b.len(),
{
    if b.len() == 0 {
        assert(a + b =~= a);
    } else {
        lemma_sort_from_append(acc, a, b.drop_last(), lt);
        assert((a + b).drop_last() =~= a + b.drop_last());
        assert((a + b).last() == b.last());
    }
}

/// Sorted insertion keeps a sorted sequence sorted.
pub proof fn lemma_sorted_insert_sorted<K>(s: Seq<K>, k: K, lt: spec_fn(K, K) -> bool)
    requires
        strict_total(lt),
        sorted_by(s, lt),
    ensures
        sorted_by(sorted_insert(s, k, lt), lt),
    decreases s.len(),
{
    if s.len() > 0 && s[0] != k && !lt(k, s[0]) {
        let t = s.drop_first();
        assert forall|a: int, b: int| 0 <= a < b < t.len() implies lt(#[trigger] t[a], #[trigger] t[b]) by {
            assert(t[a] == s[a + 1] && t[b] == s[b + 1]);
        }
        lemma_sorted_insert_sorted(t, k, lt);
        lemma_sorted_insert_members(t, k, lt);
        let r = seq![s[0]] + sorted_insert(t, k, lt);
        assert(lt(s[0], k));
        assert forall|a: int, b: int| 0 <= a < b < r.len() implies lt(#[trigger] r[a], #[trigger] r[b]) by {
            if a == 0 {
                let x = r[b];
                assert(sorted_insert(t, k, lt).contains(x));
                if x != k {
                    assert(t.contains(x));
                    let w = choose|w: int| 0 <= w < t.len() && t[w] == x;
                    assert(s[w + 1] == x);
                }
            }
        }
    } else if s.len() > 0 && s[0] != k {
        let r = seq![k] + s;
        assert forall|a: int, b: int| 0 <= a < b < r.len() implies lt(#[trigger] r[a], #[trigger] r[b]) by {
            if a == 0 {
                if b > 1 {
                    assert(lt(s[0], s[b - 1]));
                }
            } else {
                assert(r[a] == s[a - 1] && r[b] == s[b - 1]);
            }
        }
    }
}

/// What sorted insertion holds.
pub proof fn lemma_sorted_insert_members<K>(s: Seq<K>, k: K, lt: spec_fn(K, K) -> bool)
    ensures
        forall|x: K| #[trigger] sorted_insert(s, k, lt).contains(x) <==> (s.contains(x) || x == k),
    decreases s.len(),
{
    if s.len() > 0 && s[0] != k && !lt(k, s[0]) {
        let t = s.drop_first();
        lemma_sorted_insert_members(t, k, lt);
        assert forall|x: K| #[trigger] sorted_insert(s, k, lt).contains(x) <==> (s.contains(x) || x == k) by {
            let r = sorted_insert(s, k, lt);
            assert(r == seq![s[0]] + sorted_insert(t, k, lt));
            if r.contains(x) {
                let w = choose|w: int| 0 <= w < r.len() && r[w] == x;
                if w > 0 {
                    assert(sorted_insert(t, k, lt)[w - 1] == x);
                    assert(sorted_insert(t, k, lt).contains(x));
                    if t.contains(x) {
                        let v = choose|v: int| 0 <= v < t.len() && t[v] == x;
                        assert(s[v + 1] == x);
                    }
                } else {
                    assert(s[0] == x);
                }
            }
            if s.contains(x) {
                let w = choose|w: int| 0 <= w < s.len() && s[w] == x;
                if w == 0 {
                    assert(r[0] == x);
                } else {
                    assert(t[w - 1] == x);
                    assert(sorted_insert(t, k, lt).contains(x));
                    let v = choose|v: int| 0 <= v < sorted_insert(t, k, lt).len() && sorted_insert(t, k, lt)[v] == x;
                    assert(r[v + 1] == x);
                }
            }
            if x == k {
                assert(sorted_insert(t, k, lt).contains(k));
                let v = choose|v: int| 0 <= v < sorted_insert(t, k, lt).len() && sorted_insert(t, k, lt)[v] == k;
                assert(r[v + 1] == k);
            }
        }
    } else if s.len() > 0 && s[0] != k {
        assert forall|x: K| #[trigger] sorted_insert(s, k, lt).contains(x) <==> (s.contains(x) || x == k) by {
            let r = seq![k] + s;
            if r.contains(x) {
                let w = choose|w: int| 0 <= w < r.len() && r[w] == x;
                if w > 0 {
                    assert(s[w - 1] == x);
                }
            }
            if s.contains(x) {
                let w = choose|w: int| 0 <= w < s.len() && s[w] == x;
                assert(r[w + 1] == x);
            }
            assert(r[0] == k);
        }
    } else if s.len() == 0 {
        assert forall|x: K| #[trigger] sorted_insert(s, k, lt).contains(x) <==> (s.contains(x) || x == k) by {
            assert(seq![k][0] == k);
        }
    } else {
        assert forall|x: K| #[trigger] sorted_insert(s, k, lt).contains(x) <==> (s.contains(x) || x == k) by {
            if x == k {
                assert(s[0] == k);
            }
        }
    }
}

/// Sorting into a sorted sequence keeps it sorted and holds exactly what
/// was there and what was added.
pub proof fn lemma_sort_from_sorted<K>(acc: Seq<K>, ks: Seq<K>, lt: spec_fn(K, K) -> bool)
    requires
        strict_total(lt),
        sorted_by(acc, lt),
    ensures
        sorted_by(sort_from(acc, ks, lt), lt),
        forall|x: K| #[trigger] sort_from(acc, ks, lt).contains(x) <==> (acc.contains(x) || ks.contains(x)),
    decreases ks.len(),
{
    if ks.len() > 0 {
        let prev = sort_from(acc, ks.drop_last(), lt);
        lemma_sort_from_sorted(acc, ks.drop_last(), lt);
        lemma_sorted_insert_sorted(prev, ks.last(), lt);
        lemma_sorted_insert_members(prev, ks.last(), lt);
        assert forall|x: K| #[trigger] sort_from(acc, ks, lt).contains(x) <==> (acc.contains(x) || ks.contains(x)) by {
            if ks.contains(x) && x != ks.last() {
                let w = choose|w: int| 0 <= w < ks.len() && ks[w] == x;
                assert(ks.drop_last()[w] == x);
            }
            if ks.drop_last().contains(x) {
                let w = choose|w: int| 0 <= w < ks.drop_last().len() && ks.drop_last()[w] == x;
                assert(ks[w] == x);
            }
            assert(ks[ks.len() - 1] == ks.last());
        }
    }
}

/// Two sequences sorted by one strict order that hold the same items are
/// the same sequence.
pub proof fn lemma_sorted_unique<K>(a: Seq<K>, b: Seq<K>, lt: spec_fn(K, K) -> bool)
    requires
        strict_total(lt),
        sorted_by(a, lt),
        sorted_by(b, lt),
        forall|x: K| a.contains(x) <==> b.contains(x),
    ensures
        a == b,
    decreases a.len(),
{
    if a.len() == 0 {
        if b.len() > 0 {
            assert(b.contains(b[0]));
        }
        assert(a =~= b);
    } else {
        assert(a.contains(a[0]));
        assert(b.len() > 0);
        assert(b.contains(b[0]));
        if a[0] != b[0] {
            let i = choose|i: int| 0 <= i < a.len() && a[i] == b[0];
            let j = choose|j: int| 0 <= j < b.len() && b[j] == a[0];
            assert(i > 0 && j > 0);
            assert(lt(a[0], a[i]));
            assert(lt(b[0], b[j]));
            assert(lt(a[0], a[0]));
        }
        let ta = a.drop_first();
        let tb = b.drop_first();
        assert forall|p: int, q: int| 0 <= p < q < ta.len() implies lt(#[trigger] ta[p], #[trigger] ta[q]) by {
            assert(ta[p] == a[p + 1] && ta[q] == a[q + 1]);
        }
        assert forall|p: int, q: int| 0 <= p < q < tb.len() implies lt(#[trigger] tb[p], #[trigger] tb[q]) by {
            assert(tb[p] == b[p + 1] && tb[q] == b[q + 1]);
        }
        assert forall|x: K| ta.contains(x) <==> tb.contains(x) by {
            if ta.contains(x) {
                let p = choose|p: int| 0 <= p < ta.len() && ta[p] == x;
                assert(a[p + 1] == x);
                assert(lt(a[0], x));
                assert(b.contains(x));
                let q = choose|q: int| 0 <= q < b.len() && b[q] == x;
                if q == 0 {
                    assert(lt(x, x));
                }
                assert(tb[q - 1] == x);
            }
            if tb.contains(x) {
                let p = choose|p: int| 0 <= p < tb.len() && tb[p] == x;
                assert(b[p + 1] == x);
                assert(lt(b[0], x));
                assert(a.contains(x));
                let q = choose|q: int| 0 <= q < a.len() && a[q] == x;
                if q == 0 {
                    assert(lt(x, x));
                }
                assert(ta[q - 1] == x);
            }
        }
        lemma_sorted_unique(ta, tb, lt);
        assert(a =~= seq![a[0]] + ta);
        assert(b =~= seq![b[0]] + tb);
    }
}

/// A sorted sequence that holds exactly the items of `ks` is their sorted set.
pub proof fn lemma_is_sort_from<K>(s: Seq<K>, ks: Seq<K>, lt: spec_fn(K, K) -> bool)
    requires
        strict_total(lt),
        sorted_by(s, lt),
        s.to_set() == ks.to_set(),
    ensures
        s == sort_from(Seq::empty(), ks, lt),
{
    let e = Seq::<K>::empty();
    lemma_sort_from_sorted(e, ks, lt);
    assert forall|x: K| s.contains(x) <==> sort_from(e, ks, lt).contains(x) by {
        assert(s.to_set().contains(x) == s.contains(x));
        assert(ks.to_set().contains(x) == ks.contains(x));
        assert(!e.contains(x));
    }
    lemma_sorted_unique(s, sort_from(e, ks, lt), lt);
}

} // verus!
