//! Laws of the mkinitfs `features` activation.

use crate::mkinitfs_openrc::{
    activate_features_ok, deactivate_features_ok, features_safe, spec_deactivate_features, features_value, is_record, lemma_trim_end_prefix,
    piece_body, piece_is_record, record_piece_count, records, rendered_piece, spec_activate_features,
    spec_parse_features, spec_render_features, spec_safe_flavor, text_ok, MAX_TEXT_BYTES,
};
use crate::text::{concat_all, contains_char, distinct_seqs, has_prefix, has_suffix, in_class, is_alnum, is_ws, join_space, line_body, lines, split_inclusive_nl, split_ws, trim, trim_end, trim_start, CharClass};
use crate::text_facts::{lemma_lines_update, lemma_split_join, lemma_split_pieces, lemma_trim_start_split, lemma_trim_start_ws_prefix, is_sep, no_sep, piece_ok};
use vstd::prelude::*;
use vstd::string::*;
use vstd::utf8::*;

verus! {

pub open spec fn all_ws(w: Seq<char>) -> bool {
    forall|j: int| 0 <= j < w.len() ==> is_ws(#[trigger] w[j])
}

proof fn lemma_trim_end_ws_suffix(x: Seq<char>, w: Seq<char>)
    requires
        all_ws(w),
    ensures
        trim_end(x + w) == trim_end(x),
    decreases w.len(),
{
    if w.len() > 0 {
        assert((x + w).drop_last() =~= x + w.drop_last());
        assert((x + w).last() == w[w.len() - 1]);
        assert(all_ws(w.drop_last())) by {
            assert forall|j: int| 0 <= j < w.drop_last().len() implies is_ws(#[trigger] w.drop_last()[j]) by {
                assert(w.drop_last()[j] == w[j]);
            }
        }
        lemma_trim_end_ws_suffix(x, w.drop_last());
    } else {
        assert(x + w =~= x);
    }
}

proof fn lemma_trim_start_concat(a: Seq<char>, b: Seq<char>)
    ensures
        trim_start(a).len() > 0 ==> trim_start(a + b) == trim_start(a) + b,
        trim_start(a).len() == 0 ==> trim_start(a + b) == trim_start(b),
    decreases a.len(),
{
    if a.len() == 0 {
        assert(a + b =~= b);
        assert(trim_start(a) =~= a);
    } else if is_ws(a[0]) {
        assert((a + b).drop_first() =~= a.drop_first() + b);
        assert((a + b)[0] == a[0]);
        lemma_trim_start_concat(a.drop_first(), b);
    } else {
        assert((a + b)[0] == a[0]);
    }
}

proof fn lemma_trim_start_all_ws(w: Seq<char>)
    requires
        all_ws(w),
    ensures
        trim_start(w).len() == 0,
    decreases w.len(),
{
    if w.len() > 0 {
        assert(all_ws(w.drop_first())) by {
            assert forall|j: int| 0 <= j < w.drop_first().len() implies is_ws(#[trigger] w.drop_first()[j]) by {
                assert(w.drop_first()[j] == w[j + 1]);
            }
        }
        lemma_trim_start_all_ws(w.drop_first());
    }
}

/// Trailing whitespace does not change a trim.
proof fn lemma_trim_ws_suffix(a: Seq<char>, w: Seq<char>)
    requires
        all_ws(w),
    ensures
        trim(a + w) == trim(a),
{
    lemma_trim_start_concat(a, w);
    if trim_start(a).len() > 0 {
        lemma_trim_end_ws_suffix(trim_start(a), w);
    } else {
        lemma_trim_start_all_ws(w);
    }
}

/// A piece's trimmed text does not depend on a trailing carriage return.
proof fn lemma_trim_line_piece(p: Seq<char>)
    ensures
        trim(line_body(p)) == trim(piece_body(p)),
{
    let b = piece_body(p);
    if b.len() > 0 && b.last() == '\r' {
        assert(line_body(p) == b.drop_last());
        assert(b =~= b.drop_last() + seq!['\r']);
        assert(all_ws(seq!['\r'])) by {
            assert(is_ws('\r'));
        }
        lemma_trim_ws_suffix(b.drop_last(), seq!['\r']);
    } else {
        assert(line_body(p) == b);
    }
}

proof fn lemma_trim_end_split(s: Seq<char>)
    ensures
        forall|j: int| trim_end(s).len() <= j < s.len() ==> is_ws(#[trigger] s[j]),
        trim_end(s).len() > 0 ==> !is_ws(trim_end(s).last()),
    decreases s.len(),
{
    lemma_trim_end_prefix(s);
    if s.len() > 0 && is_ws(s.last()) {
        lemma_trim_end_split(s.drop_last());
        assert forall|j: int| trim_end(s).len() <= j < s.len() implies is_ws(#[trigger] s[j]) by {
            if j < s.len() - 1 {
                assert(s[j] == s.drop_last()[j]);
            }
        }
    }
}

/// The one record piece of a text with exactly one.
proof fn lemma_single_record_piece(ps: Seq<Seq<char>>) -> (i: int)
    requires
        record_piece_count(ps) == 1,
    ensures
        0 <= i < ps.len(),
        piece_is_record(ps[i]),
        forall|j: int| 0 <= j < ps.len() && j != i ==> !piece_is_record(#[trigger] ps[j]),
    decreases ps.len(),
{
    let q = ps.drop_last();
    if piece_is_record(ps.last()) {
        assert(record_piece_count(q) == 0);
        lemma_no_record_piece(q);
        assert forall|j: int| 0 <= j < ps.len() && j != ps.len() - 1 implies !piece_is_record(#[trigger] ps[j]) by {
            assert(ps[j] == q[j]);
        }
        ps.len() - 1
    } else {
        let i = lemma_single_record_piece(q);
        assert forall|j: int| 0 <= j < ps.len() && j != i implies !piece_is_record(#[trigger] ps[j]) by {
            if j < q.len() {
                assert(ps[j] == q[j]);
            }
        }
        assert(ps[i] == q[i]);
        i
    }
}

proof fn lemma_no_record_piece(ps: Seq<Seq<char>>)
    requires
        record_piece_count(ps) == 0,
    ensures
        forall|j: int| 0 <= j < ps.len() ==> !piece_is_record(#[trigger] ps[j]),
    decreases ps.len(),
{
    if ps.len() > 0 {
        let q = ps.drop_last();
        lemma_no_record_piece(q);
        assert forall|j: int| 0 <= j < ps.len() implies !piece_is_record(#[trigger] ps[j]) by {
            if j < q.len() {
                assert(ps[j] == q[j]);
            }
        }
    }
}

/// The records of lines that hold exactly one record, at `i`.
proof fn lemma_records_single(ls: Seq<Seq<char>>, i: int)
    requires
        0 <= i < ls.len(),
        is_record(trim(ls[i])),
        forall|j: int| 0 <= j < ls.len() && j != i ==> !is_record(trim(#[trigger] ls[j])),
    ensures
        records(ls) == seq![trim(ls[i])],
    decreases ls.len(),
{
    let q = ls.drop_last();
    if i == ls.len() - 1 {
        lemma_records_none(q);
        assert(records(q) =~= Seq::<Seq<char>>::empty());
        assert(seq![].push(trim(ls.last())) =~= seq![trim(ls[i])]);
    } else {
        assert forall|j: int| 0 <= j < q.len() && j != i implies !is_record(trim(#[trigger] q[j])) by {
            assert(q[j] == ls[j]);
        }
        assert(q[i] == ls[i]);
        lemma_records_single(q, i);
        assert(!is_record(trim(ls[ls.len() - 1])));
    }
}

proof fn lemma_records_none(ls: Seq<Seq<char>>)
    requires
        forall|j: int| 0 <= j < ls.len() ==> !is_record(trim(#[trigger] ls[j])),
    ensures
        records(ls).len() == 0,
    decreases ls.len(),
{
    if ls.len() > 0 {
        let q = ls.drop_last();
        assert forall|j: int| 0 <= j < q.len() implies !is_record(trim(#[trigger] q[j])) by {
            assert(q[j] == ls[j]);
        }
        lemma_records_none(q);
        assert(!is_record(trim(ls[ls.len() - 1])));
    }
}

proof fn lemma_join_chars(parts: Seq<Seq<char>>, f: spec_fn(char) -> bool)
    requires
        f(' '),
        forall|k: int, j: int| 0 <= k < parts.len() && 0 <= j < parts[k].len() ==> f(#[trigger] parts[k][j]),
    ensures
        forall|j: int| 0 <= j < join_space(parts).len() ==> f(#[trigger] join_space(parts)[j]),
    decreases parts.len(),
{
    if parts.len() == 1 {
        assert forall|j: int| 0 <= j < join_space(parts).len() implies f(#[trigger] join_space(parts)[j]) by {
            assert(join_space(parts)[j] == parts[0][j]);
        }
    } else if parts.len() > 1 {
        let q = parts.drop_last();
        assert forall|k: int, j: int| 0 <= k < q.len() && 0 <= j < q[k].len() implies f(#[trigger] q[k][j]) by {
            assert(q[k] == parts[k]);
        }
        lemma_join_chars(q, f);
        let a = join_space(q);
        let l = parts.last();
        assert(join_space(parts) == a + seq![' '] + l);
        assert forall|j: int| 0 <= j < join_space(parts).len() implies f(#[trigger] join_space(parts)[j]) by {
            if j < a.len() {
                assert(join_space(parts)[j] == a[j]);
            } else if j == a.len() {
                assert(join_space(parts)[j] == ' ');
            } else {
                assert(join_space(parts)[j] == l[j - a.len() - 1]);
                assert(l == parts[parts.len() - 1]);
            }
        }
    }
}

proof fn lemma_concat_char(ps: Seq<Seq<char>>, c: char)
    ensures
        contains_char(concat_all(ps), c) <==> exists|k: int| 0 <= k < ps.len() && contains_char(#[trigger] ps[k], c),
    decreases ps.len(),
{
    if ps.len() > 0 {
        let q = ps.drop_last();
        lemma_concat_char(q, c);
        let a = concat_all(q);
        let l = ps.last();
        assert(concat_all(ps) == a + l);
        if contains_char(concat_all(ps), c) {
            let i = choose|i: int| 0 <= i < concat_all(ps).len() && concat_all(ps)[i] == c;
            if i < a.len() {
                assert(a[i] == c);
                assert(contains_char(a, c));
                let k = choose|k: int| 0 <= k < q.len() && contains_char(#[trigger] q[k], c);
                assert(ps[k] == q[k]);
            } else {
                assert(l[i - a.len()] == c);
                assert(contains_char(ps[ps.len() - 1], c));
            }
        }
        if exists|k: int| 0 <= k < ps.len() && contains_char(#[trigger] ps[k], c) {
            let k = choose|k: int| 0 <= k < ps.len() && contains_char(#[trigger] ps[k], c);
            let j = choose|j: int| 0 <= j < ps[k].len() && ps[k][j] == c;
            if k < q.len() {
                assert(q[k] == ps[k]);
                assert(contains_char(a, c));
                let i = choose|i: int| 0 <= i < a.len() && a[i] == c;
                assert(concat_all(ps)[i] == c);
            } else {
                assert(concat_all(ps)[a.len() + j] == c);
            }
        }
    }
}

/// Facts of a record piece rewritten with replacement `repl`.
proof fn lemma_rendered_piece(piece: Seq<char>, repl: Seq<char>, last: bool)
    requires
        piece_ok(piece, last),
        repl.len() > 0,
        !is_ws(repl[0]),
        !is_ws(repl.last()),
        forall|j: int| 0 <= j < repl.len() ==> #[trigger] repl[j] != '\n' && repl[j] != '\0',
    ensures
        piece_ok(rendered_piece(piece, repl), last),
        trim(line_body(rendered_piece(piece, repl))) == repl,
        contains_char(rendered_piece(piece, repl), '\0') ==> contains_char(piece, '\0'),
{
    let body = piece_body(piece);
    let lead = body.take(body.len() - trim_start(body).len());
    let trail = body.skip(trim_end(body).len() as int);
    let nl = if piece.len() > 0 && piece.last() == '\n' {
        seq!['\n']
    } else {
        Seq::<char>::empty()
    };
    let rp = rendered_piece(piece, repl);
    assert(rp == lead + repl + trail + nl);
    assert forall|j: int| 0 <= j < body.len() implies body[j] != '\n' && body[j] == piece[j] by {
        if j == piece.len() - 1 {
            assert(body.len() == piece.len());
            assert(piece.last() != '\n');
        }
    }
    lemma_trim_start_split(body);
    lemma_trim_end_split(body);
    lemma_trim_end_prefix(body);
    assert(all_ws(lead)) by {
        assert forall|j: int| 0 <= j < lead.len() implies is_ws(#[trigger] lead[j]) by {
            assert(lead[j] == body[j]);
        }
    }
    assert(all_ws(trail)) by {
        assert forall|j: int| 0 <= j < trail.len() implies is_ws(#[trigger] trail[j]) by {
            assert(trail[j] == body[trim_end(body).len() + j]);
        }
    }
    assert forall|j: int| 0 <= j < rp.len() - 1 implies rp[j] != '\n' by {
        if j < lead.len() {
            assert(rp[j] == lead[j]);
            assert(lead[j] == body[j]);
        } else if j < lead.len() + repl.len() {
            assert(rp[j] == repl[j - lead.len()]);
        } else if j < lead.len() + repl.len() + trail.len() {
            assert(rp[j] == trail[j - lead.len() - repl.len()]);
            assert(trail[j - lead.len() - repl.len()] == body[trim_end(body).len() + j - lead.len()
                - repl.len()]);
        }
    }
    assert(piece_body(rp) =~= lead + repl + trail) by {
        if piece.len() > 0 && piece.last() == '\n' {
            assert(rp.drop_last() =~= lead + repl + trail);
        }
    }
    lemma_trim_line_piece(rp);
    assert(lead + repl + trail =~= lead + (repl + trail));
    lemma_trim_start_ws_prefix(lead, repl + trail);
    lemma_trim_end_ws_suffix(repl, trail);
    if contains_char(rp, '\0') {
        let j = choose|j: int| 0 <= j < rp.len() && rp[j] == '\0';
        if j < lead.len() {
            assert(rp[j] == body[j]);
            assert(piece[j] == '\0');
        } else if j < lead.len() + repl.len() {
            assert(rp[j] == repl[j - lead.len()]);
        } else if j < lead.len() + repl.len() + trail.len() {
            assert(rp[j] == trail[j - lead.len() - repl.len()]);
            assert(is_ws(rp[j]));
        } else {
            assert(rp[j] == '\n');
        }
    }
}

/// The replacement assignment for `fs2` reads back as `fs2`.
proof fn lemma_replacement_reads_back(fs2: Seq<Seq<char>>)
    requires
        forall|m: int| 0 <= m < fs2.len() ==> spec_safe_flavor(#[trigger] fs2[m]),
    ensures
        features_value("features=\""@ + join_space(fs2) + "\""@) == Some(join_space(fs2)),
        split_ws(join_space(fs2), true) == fs2,
        forall|j: int|
            0 <= j < ("features=\""@ + join_space(fs2) + "\""@).len() ==> #[trigger] (
            "features=\""@ + join_space(fs2) + "\""@)[j] != '\n' && ("features=\""@ + join_space(fs2)
                + "\""@)[j] != '\0',
{
    reveal_strlit("features=\"");
    reveal_strlit("\"");
    let joined = join_space(fs2);
    let repl = "features=\""@ + joined + "\""@;
    assert forall|m: int| 0 <= m < fs2.len() implies (#[trigger] fs2[m]).len() > 0 && no_sep(fs2[m], true) by {
        assert(spec_safe_flavor(fs2[m]));
        assert forall|j: int| 0 <= j < fs2[m].len() implies !is_sep(#[trigger] fs2[m][j], true) by {
            assert(in_class(fs2[m][j], CharClass::Flavor));
        }
    }
    lemma_split_join(fs2, true);
    assert forall|k: int, j: int| 0 <= k < fs2.len() && 0 <= j < fs2[k].len() implies (|c: char| c == ' ' || (c != '\n' && c != '\0'))(#[trigger] fs2[k][j]) by {
        assert(spec_safe_flavor(fs2[k]));
        assert(in_class(fs2[k][j], CharClass::Flavor));
    }
    lemma_join_chars(fs2, |c: char| c == ' ' || (c != '\n' && c != '\0'));
    assert forall|j: int| 0 <= j < repl.len() implies #[trigger] repl[j] != '\n' && repl[j] != '\0' by {
        if j >= 10 && j < 10 + joined.len() {
            assert(repl[j] == joined[j - 10]);
            let f = |c: char| c == ' ' || (c != '\n' && c != '\0');
            assert(f(joined[j - 10]));
        }
    }
    assert(has_prefix(repl, "features=\""@)) by {
        assert(repl.subrange(0, 10) =~= "features=\""@);
    }
    assert(repl.skip(10) =~= joined + "\""@);
    assert(has_suffix(repl.skip(10), "\""@)) by {
        assert(repl.skip(10).subrange(repl.skip(10).len() - 1, repl.skip(10).len() as int) =~= "\""@);
    }
    assert(repl.skip(10).drop_last() =~= joined);
}

proof fn lemma_record_count_update(ps: Seq<Seq<char>>, i: int, p: Seq<char>)
    requires
        0 <= i < ps.len(),
        piece_is_record(ps[i]) == piece_is_record(p),
    ensures
        record_piece_count(ps.update(i, p)) == record_piece_count(ps),
    decreases ps.len(),
{
    let q = ps.update(i, p);
    if i == ps.len() - 1 {
        assert(q.drop_last() =~= ps.drop_last());
    } else {
        lemma_record_count_update(ps.drop_last(), i, p);
        assert(q.drop_last() =~= ps.drop_last().update(i, p));
        assert(q.last() == ps.last());
    }
}

/// Rewriting the single record of an accepted configuration to assign
/// `fs2` yields a configuration that still has one record and whose
/// features parse as `fs2`, if the text still fits.
proof fn lemma_render_parses_back(s: Seq<char>, fs2: Seq<Seq<char>>)
    requires
        spec_parse_features(s) is Some,
        record_piece_count(split_inclusive_nl(s)) == 1,
        features_safe(fs2),
        encode_utf8(spec_render_features(s, fs2)).len() <= MAX_TEXT_BYTES,
    ensures
        spec_parse_features(spec_render_features(s, fs2)) == Some(fs2),
        record_piece_count(split_inclusive_nl(spec_render_features(s, fs2))) == 1,
{
    reveal_strlit("features=\"");
    reveal_strlit("\"");
    let joined = join_space(fs2);
    let repl = "features=\""@ + joined + "\""@;
    let ps = split_inclusive_nl(s);
    lemma_split_pieces(s);
    let i = lemma_single_record_piece(ps);
    let piece = ps[i];
    lemma_replacement_reads_back(fs2);
    assert(piece_ok(piece, i == ps.len() - 1));
    lemma_rendered_piece(piece, repl, i == ps.len() - 1);
    let rp = rendered_piece(piece, repl);
    let mapped = ps.map_values(
        |p: Seq<char>|
            if piece_is_record(p) {
                rendered_piece(p, repl)
            } else {
                p
            },
    );
    assert(mapped =~= ps.update(i, rp));
    let t = concat_all(ps.update(i, rp));
    assert(t == spec_render_features(s, fs2));
    lemma_lines_update(s, i, rp);
    let lt = lines(t);
    assert(trim(lt[i]) == repl);
    assert(is_record(repl));
    assert forall|j: int| 0 <= j < lt.len() && j != i implies !is_record(trim(#[trigger] lt[j])) by {
        assert(lt[j] == lines(s)[j]);
        assert(lines(s)[j] == line_body(ps[j]));
        lemma_trim_line_piece(ps[j]);
        assert(!piece_is_record(ps[j]));
    }
    lemma_records_single(lt, i);
    assert(!contains_char(t, '\0')) by {
        lemma_concat_char(ps.update(i, rp), '\0');
        lemma_concat_char(ps, '\0');
        if contains_char(t, '\0') {
            let m = choose|m: int|
                0 <= m < ps.update(i, rp).len() && contains_char(#[trigger] ps.update(i, rp)[m], '\0');
            if m != i {
                assert(ps.update(i, rp)[m] == ps[m]);
            } else {
                assert(contains_char(ps[i], '\0'));
            }
            assert(contains_char(concat_all(ps), '\0'));
        }
    }
    assert(text_ok(t, MAX_TEXT_BYTES as nat));
    lemma_trim_line_piece(rp);
    assert(piece_is_record(rp));
    lemma_record_count_update(ps, i, rp);
}

proof fn lemma_bootart_safe()
    ensures
        spec_safe_flavor("bootart"@),
{
    reveal_strlit("bootart");
    assert forall|j: int| 0 <= j < "bootart"@.len() implies in_class(
        #[trigger] "bootart"@[j],
        CharClass::Flavor,
    ) by {
        assert(is_alnum("bootart"@[j]));
    }
}

/// Activating `bootart` in an accepted configuration yields a configuration
/// whose features parse as the old ones followed by `bootart`.  The
/// feature list must have room for one more and the text must still fit.
pub proof fn lemma_feature_activation_parses_back(s: Seq<char>)
    requires
        activate_features_ok(s),
        spec_parse_features(s)->0.len() < 64,
        encode_utf8(spec_activate_features(s)).len() <= MAX_TEXT_BYTES,
    ensures
        spec_parse_features(spec_activate_features(s)) == Some(
            spec_parse_features(s)->0.push("bootart"@),
        ),
{
    let fs = spec_parse_features(s)->0;
    let fs2 = fs.push("bootart"@);
    lemma_bootart_safe();
    assert forall|m: int| 0 <= m < fs2.len() implies spec_safe_flavor(#[trigger] fs2[m]) by {
        if m < fs.len() {
            assert(fs2[m] == fs[m]);
        }
    }
    assert(distinct_seqs(fs2)) by {
        assert forall|a: int, b: int| 0 <= a < b < fs2.len() implies fs2[a] != fs2[b] by {
            if b == fs.len() {
                assert(fs2[a] == fs[a]);
                assert(fs.contains(fs[a]));
            } else {
                assert(fs2[a] == fs[a] && fs2[b] == fs[b]);
            }
        }
    }
    lemma_render_parses_back(s, fs2);
}

/// Deactivating `bootart` in an accepted configuration yields a
/// configuration whose features parse as the old ones without `bootart`.
pub proof fn lemma_feature_deactivation_parses_back(s: Seq<char>)
    requires
        deactivate_features_ok(s),
        encode_utf8(spec_deactivate_features(s)).len() <= MAX_TEXT_BYTES,
    ensures
        spec_parse_features(spec_deactivate_features(s)) == Some(
            spec_parse_features(s)->0.remove(spec_parse_features(s)->0.index_of("bootart"@)),
        ),
{
    let fs = spec_parse_features(s)->0;
    let k = fs.index_of("bootart"@);
    let fs2 = fs.remove(k);
    assert(0 <= k < fs.len());
    assert forall|m: int| 0 <= m < fs2.len() implies spec_safe_flavor(#[trigger] fs2[m]) by {
        if m < k {
            assert(fs2[m] == fs[m]);
        } else {
            assert(fs2[m] == fs[m + 1]);
        }
    }
    assert(distinct_seqs(fs2)) by {
        assert forall|a: int, b: int| 0 <= a < b < fs2.len() implies fs2[a] != fs2[b] by {
            let a2 = if a < k { a } else { a + 1 };
            let b2 = if b < k { b } else { b + 1 };
            assert(fs2[a] == fs[a2] && fs2[b] == fs[b2]);
        }
    }
    lemma_render_parses_back(s, fs2);
}

/// Deactivating what activation added gives back the original feature list:
/// uninstalling undoes installing, feature by feature.  Both configurations
/// must fit the text limit, and the list must have room for `bootart`.
pub proof fn lemma_feature_deactivation_undoes_activation(s: Seq<char>)
    requires
        activate_features_ok(s),
        spec_parse_features(s)->0.len() < 64,
        encode_utf8(spec_activate_features(s)).len() <= MAX_TEXT_BYTES,
        encode_utf8(spec_deactivate_features(spec_activate_features(s))).len() <= MAX_TEXT_BYTES,
    ensures
        deactivate_features_ok(spec_activate_features(s)),
        spec_parse_features(spec_deactivate_features(spec_activate_features(s))) == spec_parse_features(
            s,
        ),
{
    let fs = spec_parse_features(s)->0;
    let fs2 = fs.push("bootart"@);
    let t = spec_activate_features(s);
    lemma_feature_activation_parses_back(s);
    lemma_bootart_safe();
    assert forall|m: int| 0 <= m < fs2.len() implies spec_safe_flavor(#[trigger] fs2[m]) by {
        if m < fs.len() {
            assert(fs2[m] == fs[m]);
        }
    }
    assert(distinct_seqs(fs2)) by {
        assert forall|a: int, b: int| 0 <= a < b < fs2.len() implies fs2[a] != fs2[b] by {
            if b == fs.len() {
                assert(fs2[a] == fs[a]);
                assert(fs.contains(fs[a]));
            } else {
                assert(fs2[a] == fs[a] && fs2[b] == fs[b]);
            }
        }
    }
    lemma_render_parses_back(s, fs2);
    assert(fs2[fs.len() as int] == "bootart"@);
    assert(fs2.contains("bootart"@));
    assert(deactivate_features_ok(t));
    assert(fs2.index_of("bootart"@) == fs.len()) by {
        assert forall|j: int| 0 <= j < fs2.len() && fs2[j] == "bootart"@ implies j == fs.len() by {
            if j < fs.len() {
                assert(fs2[j] == fs[j]);
                assert(fs.contains(fs[j]));
            }
        }
    }
    lemma_feature_deactivation_parses_back(t);
    assert(fs2.remove(fs.len() as int) =~= fs);
}

} // verus!
