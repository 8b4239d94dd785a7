//! Facts about line splitting, trimming and whitespace splitting that the
//! configuration-rewriting laws rest on.

use crate::text::{concat_all, is_ascii_ws, is_ws, join_space, line_body, lines, split_inclusive_nl, split_nl_fold, split_ws, split_ws_fold, trim, trim_start};
use crate::newc::split_on;
use vstd::prelude::*;

verus! {

/// `p` is a piece of `split_inclusive('\n')`: nonempty, a newline at most at
/// its end, and a newline there unless it is the last piece.
pub open spec fn piece_ok(p: Seq<char>, last: bool) -> bool {
    &&& p.len() > 0
    &&& forall|j: int| 0 <= j < p.len() - 1 ==> p[j] != '\n'
    &&& !last ==> p.last() == '\n'
}

/// Every piece is well formed.
pub open spec fn pieces_ok(ps: Seq<Seq<char>>) -> bool {
    forall|k: int| 0 <= k < ps.len() ==> piece_ok(#[trigger] ps[k], k == ps.len() - 1)
}

pub open spec fn no_newline(s: Seq<char>) -> bool {
    forall|j: int| 0 <= j < s.len() ==> s[j] != '\n'
}

proof fn lemma_fold_shape(s: Seq<char>)
    ensures
        ({
            let (done, cur) = split_nl_fold(s);
            &&& forall|k: int| 0 <= k < done.len() ==> piece_ok(#[trigger] done[k], false)
            &&& no_newline(cur)
            &&& concat_all(done) + cur == s
        }),
    decreases s.len(),
{
    if s.len() > 0 {
        lemma_fold_shape(s.drop_last());
        let (d0, c0) = split_nl_fold(s.drop_last());
        assert(concat_all(d0) + c0 == s.drop_last());
        assert(s =~= s.drop_last().push(s.last()));
        assert(concat_all(d0) + c0.push(s.last()) =~= (concat_all(d0) + c0).push(s.last()));
        if s.last() == '\n' {
            let p = c0.push('\n');
            let d = d0.push(p);
            assert(d.drop_last() =~= d0);
            assert(concat_all(d) == concat_all(d0) + p);
            assert(concat_all(d) =~= s);
            assert forall|k: int| 0 <= k < d.len() implies piece_ok(#[trigger] d[k], false) by {
                if k < d0.len() {
                    assert(d[k] == d0[k]);
                } else {
                    assert(d[k] == p);
                    assert forall|j: int| 0 <= j < p.len() - 1 implies p[j] != '\n' by {
                        assert(p[j] == c0[j]);
                    }
                }
            }
        } else {
            let c = c0.push(s.last());
            assert(concat_all(d0) + c =~= s);
            assert forall|j: int| 0 <= j < c.len() implies c[j] != '\n' by {
                if j < c0.len() {
                    assert(c[j] == c0[j]);
                }
            }
        }
    }
}

/// The pieces of any text are well formed and concatenate back to it.
pub proof fn lemma_split_pieces(s: Seq<char>)
    ensures
        pieces_ok(split_inclusive_nl(s)),
        concat_all(split_inclusive_nl(s)) == s,
{
    lemma_fold_shape(s);
    let (done, cur) = split_nl_fold(s);
    let ps = split_inclusive_nl(s);
    if cur.len() == 0 {
        assert(concat_all(done) + cur =~= concat_all(done));
        assert forall|k: int| 0 <= k < ps.len() implies piece_ok(#[trigger] ps[k], k == ps.len() - 1) by {
            assert(piece_ok(done[k], false));
        }
    } else {
        assert(ps.drop_last() =~= done);
        assert forall|k: int| 0 <= k < ps.len() implies piece_ok(#[trigger] ps[k], k == ps.len() - 1) by {
            if k < done.len() {
                assert(ps[k] == done[k]);
                assert(piece_ok(done[k], false));
            } else {
                assert(ps[k] == cur);
            }
        }
    }
}

/// Appending text without a newline to text whose fold is finished only
/// grows the unfinished tail.
proof fn lemma_fold_append_plain(x: Seq<char>, y: Seq<char>)
    requires
        split_nl_fold(x).1.len() == 0,
        no_newline(y),
    ensures
        split_nl_fold(x + y) == (split_nl_fold(x).0, y),
    decreases y.len(),
{
    if y.len() == 0 {
        assert(x + y =~= x);
    } else {
        let y0 = y.drop_last();
        assert(no_newline(y0)) by {
            assert forall|j: int| 0 <= j < y0.len() implies y0[j] != '\n' by {
                assert(y0[j] == y[j]);
            }
        }
        lemma_fold_append_plain(x, y0);
        assert((x + y).drop_last() =~= x + y0);
        assert((x + y).last() == y.last());
        assert(y.last() == y[y.len() - 1]);
        assert(y0.push(y.last()) =~= y);
    }
}

/// Appending one well-formed piece to text whose fold is finished.
proof fn lemma_fold_append_piece(x: Seq<char>, p: Seq<char>, last: bool)
    requires
        split_nl_fold(x).1.len() == 0,
        piece_ok(p, last),
    ensures
        p.last() == '\n' ==> split_nl_fold(x + p) == (split_nl_fold(x).0.push(p), Seq::<char>::empty()),
        p.last() != '\n' ==> split_nl_fold(x + p) == (split_nl_fold(x).0, p),
{
    let p0 = p.drop_last();
    assert(no_newline(p0)) by {
        assert forall|j: int| 0 <= j < p0.len() implies p0[j] != '\n' by {
            assert(p0[j] == p[j]);
        }
    }
    if p.last() == '\n' {
        lemma_fold_append_plain(x, p0);
        assert((x + p).drop_last() =~= x + p0);
        assert((x + p).last() == p.last());
        assert(p0.push('\n') =~= p);
    } else {
        assert(no_newline(p)) by {
            assert forall|j: int| 0 <= j < p.len() implies p[j] != '\n' by {
                if j < p.len() - 1 {
                } else {
                    assert(p[j] == p.last());
                }
            }
        }
        lemma_fold_append_plain(x, p);
    }
}

proof fn lemma_fold_concat(ps: Seq<Seq<char>>)
    requires
        forall|k: int| 0 <= k < ps.len() ==> piece_ok(#[trigger] ps[k], false),
    ensures
        split_nl_fold(concat_all(ps)) == (ps, Seq::<char>::empty()),
    decreases ps.len(),
{
    if ps.len() > 0 {
        let q = ps.drop_last();
        assert forall|k: int| 0 <= k < q.len() implies piece_ok(#[trigger] q[k], false) by {
            assert(q[k] == ps[k]);
        }
        lemma_fold_concat(q);
        assert(piece_ok(ps[ps.len() - 1], false));
        lemma_fold_append_piece(concat_all(q), ps.last(), false);
        assert(q.push(ps.last()) =~= ps);
    } else {
        assert(split_nl_fold(Seq::<char>::empty()) == (Seq::<Seq<char>>::empty(), Seq::<char>::empty()));
        assert(ps =~= Seq::<Seq<char>>::empty());
    }
}

/// Well-formed pieces are split back out of their concatenation.
pub proof fn lemma_split_concat(ps: Seq<Seq<char>>)
    requires
        pieces_ok(ps),
    ensures
        split_inclusive_nl(concat_all(ps)) == ps,
{
    if ps.len() == 0 {
        assert(split_nl_fold(Seq::<char>::empty()) == (Seq::<Seq<char>>::empty(), Seq::<char>::empty()));
        assert(split_inclusive_nl(concat_all(ps)) =~= ps);
    } else {
        let q = ps.drop_last();
        assert forall|k: int| 0 <= k < q.len() implies piece_ok(#[trigger] q[k], false) by {
            assert(q[k] == ps[k]);
            assert(piece_ok(ps[k], k == ps.len() - 1));
        }
        lemma_fold_concat(q);
        assert(piece_ok(ps[ps.len() - 1], true));
        lemma_fold_append_piece(concat_all(q), ps.last(), true);
        assert(concat_all(ps) == concat_all(q) + ps.last());
        assert(q.push(ps.last()) =~= ps);
    }
}

/// Replacing one piece by another well-formed piece keeps the pieces well
/// formed.
pub proof fn lemma_pieces_update(ps: Seq<Seq<char>>, i: int, p: Seq<char>)
    requires
        pieces_ok(ps),
        0 <= i < ps.len(),
        piece_ok(p, i == ps.len() - 1),
    ensures
        pieces_ok(ps.update(i, p)),
{
    let q = ps.update(i, p);
    assert forall|k: int| 0 <= k < q.len() implies piece_ok(#[trigger] q[k], k == q.len() - 1) by {
        if k != i {
            assert(q[k] == ps[k]);
        }
    }
}

/// The lines of a text whose `i`-th piece was replaced.
pub proof fn lemma_lines_update(s: Seq<char>, i: int, p: Seq<char>)
    requires
        0 <= i < split_inclusive_nl(s).len(),
        piece_ok(p, i == split_inclusive_nl(s).len() - 1),
    ensures
        split_inclusive_nl(concat_all(split_inclusive_nl(s).update(i, p))) == split_inclusive_nl(
            s,
        ).update(i, p),
        lines(concat_all(split_inclusive_nl(s).update(i, p))) == lines(s).update(i, line_body(p)),
{
    let ps = split_inclusive_nl(s);
    lemma_split_pieces(s);
    lemma_pieces_update(ps, i, p);
    lemma_split_concat(ps.update(i, p));
    assert(lines(concat_all(ps.update(i, p))) =~= lines(s).update(i, line_body(p)));
}

// ---------------------------------------------------------------------------
// Trimming
// ---------------------------------------------------------------------------

/// `trim_start` drops a whitespace prefix.
pub proof fn lemma_trim_start_split(s: Seq<char>)
    ensures
        trim_start(s) == s.skip(s.len() - trim_start(s).len()),
        forall|j: int| 0 <= j < s.len() - trim_start(s).len() ==> is_ws(#[trigger] s[j]),
        trim_start(s).len() > 0 ==> !is_ws(trim_start(s)[0]),
        trim_start(s).len() <= s.len(),
    decreases s.len(),
{
    if s.len() > 0 && is_ws(s[0]) {
        lemma_trim_start_split(s.drop_first());
        let t = trim_start(s.drop_first());
        assert(s.drop_first().skip(s.drop_first().len() - t.len()) =~= s.skip(s.len() - t.len()));
        assert forall|j: int| 0 <= j < s.len() - t.len() implies is_ws(#[trigger] s[j]) by {
            if j > 0 {
                assert(s[j] == s.drop_first()[j - 1]);
            }
        }
    } else {
        assert(s.skip(0) =~= s);
    }
}

/// A whitespace prefix does not survive `trim_start`.
pub proof fn lemma_trim_start_ws_prefix(w: Seq<char>, x: Seq<char>)
    requires
        forall|j: int| 0 <= j < w.len() ==> is_ws(#[trigger] w[j]),
        x.len() > 0,
        !is_ws(x[0]),
    ensures
        trim_start(w + x) == x,
    decreases w.len(),
{
    if w.len() > 0 {
        assert((w + x).drop_first() =~= w.drop_first() + x);
        assert((w + x)[0] == w[0]);
        assert forall|j: int| 0 <= j < w.drop_first().len() implies is_ws(#[trigger] w.drop_first()[j]) by {
            assert(w.drop_first()[j] == w[j + 1]);
        }
        lemma_trim_start_ws_prefix(w.drop_first(), x);
    } else {
        assert(w + x =~= x);
    }
}

// ---------------------------------------------------------------------------
// Whitespace splitting of joined tokens
// ---------------------------------------------------------------------------

/// `c` separates tokens in the given splitting mode.
pub open spec fn is_sep(c: char, ascii: bool) -> bool {
    (ascii && is_ascii_ws(c)) || (!ascii && is_ws(c))
}

pub open spec fn no_sep(t: Seq<char>, ascii: bool) -> bool {
    forall|j: int| 0 <= j < t.len() ==> !is_sep(#[trigger] t[j], ascii)
}

proof fn lemma_ws_fold_append_token(z: Seq<char>, y: Seq<char>, ascii: bool)
    requires
        no_sep(y, ascii),
    ensures
        split_ws_fold(z + y, ascii) == (split_ws_fold(z, ascii).0, split_ws_fold(z, ascii).1 + y),
    decreases y.len(),
{
    if y.len() == 0 {
        assert(z + y =~= z);
        assert(split_ws_fold(z, ascii).1 + y =~= split_ws_fold(z, ascii).1);
    } else {
        let y0 = y.drop_last();
        assert(no_sep(y0, ascii)) by {
            assert forall|j: int| 0 <= j < y0.len() implies !is_sep(#[trigger] y0[j], ascii) by {
                assert(y0[j] == y[j]);
            }
        }
        lemma_ws_fold_append_token(z, y0, ascii);
        assert((z + y).drop_last() =~= z + y0);
        assert((z + y).last() == y[y.len() - 1]);
        assert(!is_sep(y[y.len() - 1], ascii));
        assert((split_ws_fold(z, ascii).1 + y0).push(y.last()) =~= split_ws_fold(z, ascii).1 + y);
    }
}

proof fn lemma_ws_fold_join(hs: Seq<Seq<char>>, ascii: bool)
    requires
        hs.len() > 0,
        forall|k: int| 0 <= k < hs.len() ==> (#[trigger] hs[k]).len() > 0 && no_sep(hs[k], ascii),
    ensures
        split_ws_fold(join_space(hs), ascii) == (hs.drop_last(), hs.last()),
    decreases hs.len(),
{
    if hs.len() == 1 {
        assert(join_space(hs) == hs[0]);
        assert(split_ws_fold(Seq::<char>::empty(), ascii) == (
            Seq::<Seq<char>>::empty(),
            Seq::<char>::empty(),
        ));
        lemma_ws_fold_append_token(Seq::<char>::empty(), hs[0], ascii);
        assert(Seq::<char>::empty() + hs[0] =~= hs[0]);
        assert(hs.drop_last() =~= Seq::<Seq<char>>::empty());
    } else {
        let q = hs.drop_last();
        assert forall|k: int| 0 <= k < q.len() implies (#[trigger] q[k]).len() > 0 && no_sep(
            q[k],
            ascii,
        ) by {
            assert(q[k] == hs[k]);
        }
        lemma_ws_fold_join(q, ascii);
        let z = join_space(q) + seq![' '];
        assert(z.drop_last() =~= join_space(q));
        assert(z.last() == ' ');
        assert(is_ws(' ') && is_ascii_ws(' '));
        assert(q.last() == q[q.len() - 1]);
        assert(split_ws_fold(z, ascii) == (q, Seq::<char>::empty())) by {
            assert(q.drop_last().push(q.last()) =~= q);
        }
        assert(hs.last() == hs[hs.len() - 1]);
        lemma_ws_fold_append_token(z, hs.last(), ascii);
        assert(join_space(hs) == z + hs.last());
        assert(Seq::<char>::empty() + hs.last() =~= hs.last());
    }
}

/// Splitting joined separator-free tokens gives the tokens back.
pub proof fn lemma_split_join(hs: Seq<Seq<char>>, ascii: bool)
    requires
        forall|k: int| 0 <= k < hs.len() ==> (#[trigger] hs[k]).len() > 0 && no_sep(hs[k], ascii),
    ensures
        split_ws(join_space(hs), ascii) == hs,
{
    if hs.len() == 0 {
        assert(split_ws_fold(Seq::<char>::empty(), ascii) == (
            Seq::<Seq<char>>::empty(),
            Seq::<char>::empty(),
        ));
        assert(split_ws(join_space(hs), ascii) =~= hs);
    } else {
        lemma_ws_fold_join(hs, ascii);
        assert(hs[hs.len() - 1].len() > 0);
        assert(hs.drop_last().push(hs.last()) =~= hs);
    }
}


// ---------------------------------------------------------------------------
// Joining with a separator
// ---------------------------------------------------------------------------

/// `parts` joined with `sep` (`[String]::join`).
pub open spec fn join_on(parts: Seq<Seq<char>>, sep: char) -> Seq<char>
    decreases parts.len(),
{
    if parts.len() == 0 {
        Seq::empty()
    } else if parts.len() == 1 {
        parts[0]
    } else {
        join_on(parts.drop_last(), sep) + seq![sep] + parts.last()
    }
}

pub open spec fn lacks(s: Seq<char>, c: char) -> bool {
    forall|j: int| 0 <= j < s.len() ==> #[trigger] s[j] != c
}

proof fn lemma_split_on_plain(z: Seq<char>, y: Seq<char>, sep: char)
    requires
        lacks(y, sep),
    ensures
        split_on(z + y, sep) == split_on(z, sep).update(
            split_on(z, sep).len() - 1,
            split_on(z, sep).last() + y,
        ),
    decreases y.len(),
{
    lemma_split_on_nonempty(z, sep);
    if y.len() == 0 {
        assert(z + y =~= z);
        assert(split_on(z, sep).last() + y =~= split_on(z, sep).last());
        assert(split_on(z, sep).update(split_on(z, sep).len() - 1, split_on(z, sep).last())
            =~= split_on(z, sep));
    } else {
        let y0 = y.drop_last();
        assert(lacks(y0, sep)) by {
            assert forall|j: int| 0 <= j < y0.len() implies #[trigger] y0[j] != sep by {
                assert(y0[j] == y[j]);
            }
        }
        lemma_split_on_plain(z, y0, sep);
        assert((z + y).drop_last() =~= z + y0);
        assert((z + y).last() == y[y.len() - 1]);
        let p = split_on(z, sep);
        let q = p.update(p.len() - 1, p.last() + y0);
        assert(q.last() == p.last() + y0);
        assert((p.last() + y0).push(y.last()) =~= p.last() + y);
        assert(q.update(q.len() - 1, q.last().push(y.last())) =~= p.update(p.len() - 1, p.last() + y));
    }
}

pub proof fn lemma_split_on_nonempty(s: Seq<char>, sep: char)
    ensures
        split_on(s, sep).len() >= 1,
    decreases s.len(),
{
    if s.len() > 0 {
        lemma_split_on_nonempty(s.drop_last(), sep);
    }
}

/// Splitting joined separator-free parts gives the parts back.
pub proof fn lemma_split_join_on(parts: Seq<Seq<char>>, sep: char)
    requires
        parts.len() > 0,
        forall|k: int| 0 <= k < parts.len() ==> lacks(#[trigger] parts[k], sep),
    ensures
        split_on(join_on(parts, sep), sep) == parts,
    decreases parts.len(),
{
    if parts.len() == 1 {
        lemma_split_on_plain(Seq::<char>::empty(), parts[0], sep);
        assert(Seq::<char>::empty() + parts[0] =~= parts[0]);
        assert(split_on(Seq::<char>::empty(), sep) == seq![Seq::<char>::empty()]);
        assert(Seq::<char>::empty() + parts[0] =~= parts[0]);
        assert(seq![Seq::<char>::empty()].update(0, Seq::<char>::empty() + parts[0]) =~= parts);
    } else {
        let q = parts.drop_last();
        assert forall|k: int| 0 <= k < q.len() implies lacks(#[trigger] q[k], sep) by {
            assert(q[k] == parts[k]);
        }
        lemma_split_join_on(q, sep);
        let z = join_on(q, sep) + seq![sep];
        assert(z.drop_last() =~= join_on(q, sep));
        assert(z.last() == sep);
        assert(split_on(z, sep) == q.push(Seq::<char>::empty()));
        assert(lacks(parts[parts.len() - 1], sep));
        lemma_split_on_plain(z, parts.last(), sep);
        assert(join_on(parts, sep) == z + parts.last());
        assert(Seq::<char>::empty() + parts.last() =~= parts.last());
        assert(q.push(Seq::<char>::empty()).update(q.len() as int, Seq::<char>::empty() + parts.last())
            =~= parts);
    }
}

/// Every character of the joined text is `sep` or satisfies `f`, if every
/// character of every part does.
pub proof fn lemma_join_on_chars(parts: Seq<Seq<char>>, sep: char, f: spec_fn(char) -> bool)
    requires
        f(sep),
        forall|k: int, j: int| 0 <= k < parts.len() && 0 <= j < parts[k].len() ==> f(#[trigger] parts[k][j]),
    ensures
        forall|j: int| 0 <= j < join_on(parts, sep).len() ==> f(#[trigger] join_on(parts, sep)[j]),
    decreases parts.len(),
{
    if parts.len() == 1 {
        assert forall|j: int| 0 <= j < join_on(parts, sep).len() implies f(#[trigger] join_on(parts, sep)[j]) by {
            assert(join_on(parts, sep)[j] == parts[0][j]);
        }
    } else if parts.len() > 1 {
        let q = parts.drop_last();
        assert forall|k: int, j: int| 0 <= k < q.len() && 0 <= j < q[k].len() implies f(#[trigger] q[k][j]) by {
            assert(q[k] == parts[k]);
        }
        lemma_join_on_chars(q, sep, f);
        let a = join_on(q, sep);
        let l = parts.last();
        assert(join_on(parts, sep) == a + seq![sep] + l);
        assert forall|j: int| 0 <= j < join_on(parts, sep).len() implies f(#[trigger] join_on(parts, sep)[j]) by {
            if j < a.len() {
                assert(join_on(parts, sep)[j] == a[j]);
            } else if j == a.len() {
                assert(join_on(parts, sep)[j] == sep);
            } else {
                assert(join_on(parts, sep)[j] == l[j - a.len() - 1]);
                assert(l == parts[parts.len() - 1]);
            }
        }
    }
}

} // verus!
