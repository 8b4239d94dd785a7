//! The reviewed lifecycle patch of mkinitfs' `initramfs-init`.
//!
//! The stock script is accepted only at the reviewed release.  The early call
//! goes right after the drivers that reach the modloop media are loaded; the
//! hand-off call goes right before the final `sync`.

use crate::embedded::{MKINITFS_EARLY_CALL_SNIPPET, MKINITFS_HANDOFF_CALL_SNIPPET};
use crate::text::{
    chars_of, concat2, count_matches, count_matches_exec, occurs_at, replace_all, replace_str,
};
use vstd::prelude::*;
use vstd::string::*;

verus! {

/// The reviewed stock release marker.
pub const REVIEWED_INIT_VERSION_LINE: &'static str = "\nVERSION=3.14.0-r0\n";

/// The early call follows this line.
pub const EARLY_ANCHOR: &'static str = "$MOCK modprobe -a loop squashfs simpledrm\n";

/// The hand-off call precedes this line.
pub const HANDOFF_ANCHOR: &'static str = "\t$MOCK sync\n";

/// The stock scripts the patch accepts.
pub open spec fn init_patchable(s: Seq<char>) -> bool {
    &&& count_matches(s, REVIEWED_INIT_VERSION_LINE@) == 1
    &&& count_matches(s, EARLY_ANCHOR@) == 1
    &&& count_matches(s, HANDOFF_ANCHOR@) == 1
    &&& count_matches(s, MKINITFS_EARLY_CALL_SNIPPET@) == 0
    &&& count_matches(s, MKINITFS_HANDOFF_CALL_SNIPPET@) == 0
}

/// The patched script.
pub open spec fn patched_init(s: Seq<char>) -> Seq<char> {
    replace_all(
        replace_all(s, EARLY_ANCHOR@, EARLY_ANCHOR@ + MKINITFS_EARLY_CALL_SNIPPET@),
        HANDOFF_ANCHOR@,
        MKINITFS_HANDOFF_CALL_SNIPPET@ + HANDOFF_ANCHOR@,
    )
}

/// Inserts the managed lifecycle calls into a reviewed stock script.
pub fn patch_initramfs_init(source: &str) -> (r: Result<String, &'static str>)
    ensures
        r is Ok <==> init_patchable(source@),
        r matches Ok(p) ==> p@ == patched_init(source@),
{
    proof {
        reveal_strlit("\nVERSION=3.14.0-r0\n");
        reveal_strlit("$MOCK modprobe -a loop squashfs simpledrm\n");
        reveal_strlit("\t$MOCK sync\n");
        reveal_strlit(
            "[ -x /usr/libexec/bootart/mkinitfs-runtime ] && /usr/libexec/bootart/mkinitfs-runtime start\n",
        );
        reveal_strlit(
            "[ -x /usr/libexec/bootart/mkinitfs-runtime ] && /usr/libexec/bootart/mkinitfs-runtime handoff\n",
        );
    }
    let s = chars_of(source);
    let version = chars_of(REVIEWED_INIT_VERSION_LINE);
    let early = chars_of(EARLY_ANCHOR);
    let handoff = chars_of(HANDOFF_ANCHOR);
    let early_call = chars_of(MKINITFS_EARLY_CALL_SNIPPET);
    let handoff_call = chars_of(MKINITFS_HANDOFF_CALL_SNIPPET);
    if count_matches_exec(s.as_slice(), version.as_slice()) != 1 {
        return Err("initramfs-init is not the reviewed release");
    }
    if count_matches_exec(s.as_slice(), early.as_slice()) != 1 || count_matches_exec(
        s.as_slice(),
        handoff.as_slice(),
    ) != 1 {
        return Err("initramfs-init lacks one exact lifecycle anchor");
    }
    if count_matches_exec(s.as_slice(), early_call.as_slice()) != 0 || count_matches_exec(
        s.as_slice(),
        handoff_call.as_slice(),
    ) != 0 {
        return Err("initramfs-init already carries a lifecycle call");
    }
    let with_early_call = concat2(EARLY_ANCHOR, MKINITFS_EARLY_CALL_SNIPPET);
    let with_handoff_call = concat2(MKINITFS_HANDOFF_CALL_SNIPPET, HANDOFF_ANCHOR);
    let a = replace_str(source, EARLY_ANCHOR, with_early_call.as_str());
    Ok(replace_str(a.as_str(), HANDOFF_ANCHOR, with_handoff_call.as_str()))
}

// ---------------------------------------------------------------------------
// The patch is applied once
// ---------------------------------------------------------------------------

proof fn lemma_occurs_drop_first(s: Seq<char>, p: Seq<char>, j: int)
    requires
        s.len() > 0,
    ensures
        occurs_at(s.drop_first(), p, j) <==> (0 <= j && occurs_at(s, p, j + 1)),
{
    if 0 <= j && j + p.len() <= s.len() - 1 {
        assert(s.drop_first().subrange(j, j + p.len()) =~= s.subrange(j + 1, j + 1 + p.len()));
    }
}

proof fn lemma_occurs_skip(s: Seq<char>, p: Seq<char>, n: int, j: int)
    requires
        0 <= n <= s.len(),
    ensures
        occurs_at(s.skip(n), p, j) <==> (0 <= j && occurs_at(s, p, j + n)),
{
    if 0 <= j && j + p.len() <= s.len() - n {
        assert(s.skip(n).subrange(j, j + p.len()) =~= s.subrange(j + n, j + n + p.len()));
    }
}

/// A counted pattern occurs somewhere.
proof fn lemma_counted_occurs(s: Seq<char>, p: Seq<char>) -> (i: int)
    requires
        p.len() > 0,
        count_matches(s, p) >= 1,
    ensures
        occurs_at(s, p, i),
    decreases s.len(),
{
    if s.subrange(0, p.len() as int) == p {
        0
    } else {
        let k = lemma_counted_occurs(s.drop_first(), p);
        lemma_occurs_drop_first(s, p, k);
        k + 1
    }
}

/// A pattern that occurs is counted.
proof fn lemma_occurs_counted(s: Seq<char>, p: Seq<char>, i: int)
    requires
        p.len() > 0,
        occurs_at(s, p, i),
    ensures
        count_matches(s, p) >= 1,
    decreases s.len(),
{
    if s.subrange(0, p.len() as int) != p {
        assert(i != 0);
        lemma_occurs_drop_first(s, p, i - 1);
        lemma_occurs_counted(s.drop_first(), p, i - 1);
    }
}

/// Replacing leaves the text before the first occurrence alone.
proof fn lemma_replace_prefix(s: Seq<char>, from: Seq<char>, to: Seq<char>, n: int)
    requires
        from.len() > 0,
        0 <= n <= s.len(),
        forall|j: int| 0 <= j < n ==> !occurs_at(s, from, j),
    ensures
        replace_all(s, from, to).len() >= n,
        replace_all(s, from, to).take(n) == s.take(n),
    decreases n,
{
    if n > 0 && s.len() >= from.len() {
        assert(!occurs_at(s, from, 0));
        assert(s.subrange(0, from.len() as int) != from);
        let d = s.drop_first();
        assert forall|j: int| 0 <= j < n - 1 implies !occurs_at(d, from, j) by {
            lemma_occurs_drop_first(s, from, j);
        }
        lemma_replace_prefix(d, from, to, n - 1);
        let r = replace_all(s, from, to);
        let t = replace_all(d, from, to);
        assert(r == seq![s[0]] + t);
        assert forall|x: int| 0 <= x < n implies r[x] == s[x] by {
            if x > 0 {
                assert(r[x] == t[x - 1]);
                assert(t.take(n - 1)[x - 1] == d.take(n - 1)[x - 1]);
            }
        }
        assert(r.take(n) =~= s.take(n));
    }
}

/// Replacing inserts the replacement where the pattern occurs.
proof fn lemma_replace_inserts(s: Seq<char>, from: Seq<char>, to: Seq<char>, i: int) -> (k: int)
    requires
        from.len() > 0,
        occurs_at(s, from, i),
    ensures
        occurs_at(replace_all(s, from, to), to, k),
    decreases s.len(),
{
    let r = replace_all(s, from, to);
    if s.subrange(0, from.len() as int) == from {
        assert(r.subrange(0, to.len() as int) =~= to);
        0
    } else {
        assert(i != 0);
        lemma_occurs_drop_first(s, from, i - 1);
        let k = lemma_replace_inserts(s.drop_first(), from, to, i - 1);
        let t = replace_all(s.drop_first(), from, to);
        assert(r == seq![s[0]] + t);
        assert(r.subrange(k + 1, k + 1 + to.len()) =~= t.subrange(k, k + to.len()));
        k + 1
    }
}

/// An occurrence that no occurrence of the pattern overlaps survives the
/// replacement.
proof fn lemma_replace_keeps(s: Seq<char>, from: Seq<char>, to: Seq<char>, q: Seq<char>, i: int) -> (k: int)
    requires
        from.len() > 0,
        q.len() > 0,
        occurs_at(s, q, i),
        forall|j: int| #[trigger] occurs_at(s, from, j) ==> j + from.len() <= i || i + q.len() <= j,
    ensures
        occurs_at(replace_all(s, from, to), q, k),
    decreases s.len(),
{
    let r = replace_all(s, from, to);
    if s.len() < from.len() {
        i
    } else if s.subrange(0, from.len() as int) == from {
        assert(occurs_at(s, from, 0));
        let rest = s.skip(from.len() as int);
        lemma_occurs_skip(s, q, from.len() as int, i - from.len());
        assert forall|j: int| #[trigger] occurs_at(rest, from, j) implies j + from.len() <= i
            - from.len() || i - from.len() + q.len() <= j by {
            lemma_occurs_skip(s, from, from.len() as int, j);
            assert(occurs_at(s, from, j + from.len()));
        }
        let k = lemma_replace_keeps(rest, from, to, q, i - from.len());
        let t = replace_all(rest, from, to);
        assert(r == to + t);
        assert(r.subrange(to.len() + k, to.len() + k + q.len()) =~= t.subrange(k, k + q.len()));
        to.len() + k
    } else if i == 0 {
        assert forall|j: int| 0 <= j < q.len() implies !occurs_at(s, from, j) by {
            if occurs_at(s, from, j) {
                assert(j + from.len() <= 0 || q.len() <= j);
            }
        }
        lemma_replace_prefix(s, from, to, q.len() as int);
        assert(r.subrange(0, q.len() as int) =~= r.take(q.len() as int));
        assert(s.subrange(0, q.len() as int) =~= s.take(q.len() as int));
        0
    } else {
        let d = s.drop_first();
        lemma_occurs_drop_first(s, q, i - 1);
        assert forall|j: int| #[trigger] occurs_at(d, from, j) implies j + from.len() <= i - 1 || i
            - 1 + q.len() <= j by {
            lemma_occurs_drop_first(s, from, j);
            assert(occurs_at(s, from, j + 1));
        }
        let k = lemma_replace_keeps(d, from, to, q, i - 1);
        let t = replace_all(d, from, to);
        assert(r == seq![s[0]] + t);
        assert(r.subrange(k + 1, k + 1 + q.len()) =~= t.subrange(k, k + q.len()));
        k + 1
    }
}

/// The early anchor and the hand-off anchor never overlap.
proof fn lemma_anchors_apart(s: Seq<char>, i: int, j: int)
    requires
        occurs_at(s, HANDOFF_ANCHOR@, i),
        occurs_at(s, EARLY_ANCHOR@, j),
    ensures
        j + EARLY_ANCHOR@.len() <= i || i + HANDOFF_ANCHOR@.len() <= j,
{
    reveal_strlit("$MOCK modprobe -a loop squashfs simpledrm\n");
    reveal_strlit("\t$MOCK sync\n");
    let e = EARLY_ANCHOR@;
    let h = HANDOFF_ANCHOR@;
    if !(j + e.len() <= i || i + h.len() <= j) {
        if i >= j {
            assert(s[i] == h[0]);
            assert(s.subrange(j, j + e.len())[i - j] == s[i]);
            assert(e[i - j] == '\t');
            assert(forall|m: int| 0 <= m < e.len() ==> e[m] != '\t');
        } else {
            assert(s.subrange(i, i + h.len())[j - i] == s[j]);
            assert(s.subrange(j, j + e.len())[0] == s[j]);
            assert(h[j - i] == '$');
            assert(j - i == 1);
            assert(s.subrange(i, i + h.len())[7] == s[i + 7]);
            assert(s.subrange(j, j + e.len())[6] == s[j + 6]);
            assert(h[7] != e[6]);
        }
    }
}

/// Patching a stock script leaves lifecycle calls in it, so the patch
/// refuses its own output: it is applied at most once.
pub proof fn lemma_patched_init_is_refused(s: Seq<char>)
    requires
        init_patchable(s),
    ensures
        !init_patchable(patched_init(s)),
{
    reveal_strlit("$MOCK modprobe -a loop squashfs simpledrm\n");
    reveal_strlit("\t$MOCK sync\n");
    reveal_strlit(
        "[ -x /usr/libexec/bootart/mkinitfs-runtime ] && /usr/libexec/bootart/mkinitfs-runtime handoff\n",
    );
    let e = EARLY_ANCHOR@;
    let h = HANDOFF_ANCHOR@;
    let hc = MKINITFS_HANDOFF_CALL_SNIPPET@;
    let i = lemma_counted_occurs(s, h);
    assert forall|j: int| #[trigger] occurs_at(s, e, j) implies j + e.len() <= i || i + h.len()
        <= j by {
        lemma_anchors_apart(s, i, j);
    }
    let t = replace_all(s, e, e + MKINITFS_EARLY_CALL_SNIPPET@);
    let k = lemma_replace_keeps(s, e, e + MKINITFS_EARLY_CALL_SNIPPET@, h, i);
    let p = patched_init(s);
    let m = lemma_replace_inserts(t, h, hc + h, k);
    assert(occurs_at(p, hc + h, m));
    assert(0 <= m && m + hc.len() + h.len() <= p.len());
    assert(p.subrange(m, m + (hc + h).len()) == hc + h);
    assert(p.subrange(m, m + hc.len()) =~= (hc + h).subrange(0, hc.len() as int));
    assert((hc + h).subrange(0, hc.len() as int) =~= hc);
    assert(occurs_at(p, hc, m));
    lemma_occurs_counted(p, hc, m);
}

} // verus!
