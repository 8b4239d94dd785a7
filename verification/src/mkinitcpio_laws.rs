//! Laws of the mkinitcpio `HOOKS` activation.

use crate::mkinitcpio_systemd::{
    activated_hooks_line, bootart_placement_ok, config_hooks, config_source_ok, first_index,
    hooks_body, hooks_config_ok, hooks_line_at, hooks_line_index, hooks_ordered, hooks_safe,
    indent, is_hooks_line, lemma_first_index_found, spec_activated_config, MAX_CONFIG_BYTES,
};
use crate::text::{
    all_in_class, concat_all, contains_char, distinct_seqs, has_prefix, has_suffix, in_class,
    is_alnum, is_ws, join_space, line_body, lines, split_inclusive_nl, split_ws, split_ws_fold,
    trim, trim_end, trim_start, CharClass,
};
use crate::text_facts::{lemma_lines_update, lemma_split_join, lemma_split_pieces, lemma_trim_start_split, lemma_trim_start_ws_prefix, is_sep, no_sep, piece_ok};
use vstd::prelude::*;
use vstd::string::*;
use vstd::utf8::*;

verus! {

/// The text `activate_mkinitcpio_hooks` returns for an accepted
/// configuration.
pub open spec fn activation_text(s: Seq<char>) -> Seq<char> {
    if first_index(config_hooks(s), "bootart"@) >= 0 {
        s
    } else {
        spec_activated_config(s)
    }
}

proof fn lemma_first_index_is(hs: Seq<Seq<char>>, n: Seq<char>, k: int)
    requires
        0 <= k < hs.len(),
        hs[k] == n,
        forall|j: int| 0 <= j < k ==> hs[j] != n,
    ensures
        first_index(hs, n) == k,
{
    lemma_first_index_found(hs, n);
    let f = first_index(hs, n);
    if f < 0 {
        assert(hs[k] != n);
    } else if f < k {
        assert(hs[f] != n);
    } else if f > k {
        assert(hs[k] != n);
    }
}

proof fn lemma_first_index_absent(hs: Seq<Seq<char>>, n: Seq<char>)
    requires
        forall|j: int| 0 <= j < hs.len() ==> hs[j] != n,
    ensures
        first_index(hs, n) == -1,
{
    lemma_first_index_found(hs, n);
    let f = first_index(hs, n);
    if f >= 0 {
        assert(hs[f] == n);
    }
    assert(f >= -1) by {
        lemma_first_index_lower(hs, n);
    }
}

proof fn lemma_first_index_lower(hs: Seq<Seq<char>>, n: Seq<char>)
    ensures
        first_index(hs, n) >= -1,
    decreases hs.len(),
{
    if hs.len() > 0 {
        lemma_first_index_lower(hs.drop_last(), n);
    }
}

/// Where a name lands after `b` is inserted at `p`.
proof fn lemma_first_index_insert(hs: Seq<Seq<char>>, p: int, b: Seq<char>, n: Seq<char>)
    requires
        0 <= p <= hs.len(),
        forall|j: int| 0 <= j < hs.len() ==> hs[j] != b,
    ensures
        n == b ==> first_index(hs.insert(p, b), n) == p,
        n != b ==> first_index(hs.insert(p, b), n) == if first_index(hs, n) < 0 {
            -1
        } else if first_index(hs, n) < p {
            first_index(hs, n)
        } else {
            first_index(hs, n) + 1
        },
{
    let h2 = hs.insert(p, b);
    lemma_first_index_found(hs, n);
    let f = first_index(hs, n);
    if n == b {
        assert forall|j: int| 0 <= j < p implies h2[j] != n by {
            assert(h2[j] == hs[j]);
        }
        lemma_first_index_is(h2, n, p);
    } else if f < 0 {
        assert forall|j: int| 0 <= j < h2.len() implies h2[j] != n by {
            if j < p {
                assert(h2[j] == hs[j]);
            } else if j > p {
                assert(h2[j] == hs[j - 1]);
            }
        }
        lemma_first_index_absent(h2, n);
    } else if f < p {
        assert forall|j: int| 0 <= j < f implies h2[j] != n by {
            assert(h2[j] == hs[j]);
        }
        assert(h2[f] == hs[f]);
        lemma_first_index_is(h2, n, f);
    } else {
        assert forall|j: int| 0 <= j < f + 1 implies h2[j] != n by {
            if j < p {
                assert(h2[j] == hs[j]);
            } else if j > p {
                assert(h2[j] == hs[j - 1]);
            }
        }
        assert(h2[f + 1] == hs[f]);
        lemma_first_index_is(h2, n, f + 1);
    }
}

proof fn lemma_split_ws_tokens_nonempty(s: Seq<char>)
    ensures
        forall|k: int|
            0 <= k < split_ws(s, false).len() ==> (#[trigger] split_ws(s, false)[k]).len() > 0,
    decreases s.len(),
{
    lemma_ws_fold_nonempty(s);
    let (done, cur) = split_ws_fold(s, false);
    if cur.len() > 0 {
        assert forall|k: int| 0 <= k < split_ws(s, false).len() implies (#[trigger] split_ws(
            s,
            false,
        )[k]).len() > 0 by {
            if k < done.len() {
                assert(split_ws(s, false)[k] == done[k]);
            }
        }
    }
}

proof fn lemma_ws_fold_nonempty(s: Seq<char>)
    ensures
        forall|k: int|
            0 <= k < split_ws_fold(s, false).0.len() ==> (#[trigger] split_ws_fold(s, false).0[k]).len()
                > 0,
    decreases s.len(),
{
    if s.len() > 0 {
        lemma_ws_fold_nonempty(s.drop_last());
        let (d0, c0) = split_ws_fold(s.drop_last(), false);
        let (d, c) = split_ws_fold(s, false);
        assert forall|k: int| 0 <= k < d.len() implies (#[trigger] d[k]).len() > 0 by {
            if k < d0.len() {
                assert(d[k] == d0[k]);
            }
        }
    }
}

/// Every character of the joined text is a space or satisfies `f`, if every
/// character of every part does.
proof fn lemma_join_chars(parts: Seq<Seq<char>>, f: spec_fn(char) -> bool)
    requires
        f(' '),
        forall|k: int, j: int| 0 <= k < parts.len() && 0 <= j < parts[k].len() ==> f(#[trigger] parts[k][j]),
    ensures
        forall|j: int| 0 <= j < join_space(parts).len() ==> f(#[trigger] join_space(parts)[j]),
    decreases parts.len(),
{
    if parts.len() == 1 {
        assert forall|j: int| 0 <= j < join_space(parts).len() implies f(#[trigger] join_space(parts)[j]) by {
            assert(join_space(parts)[j] == parts[0][j]);
        }
    } else if parts.len() > 1 {
        let q = parts.drop_last();
        assert forall|k: int, j: int| 0 <= k < q.len() && 0 <= j < q[k].len() implies f(#[trigger] q[k][j]) by {
            assert(q[k] == parts[k]);
        }
        lemma_join_chars(q, f);
        let a = join_space(q);
        let l = parts.last();
        assert(join_space(parts) == a + seq![' '] + l);
        assert forall|j: int| 0 <= j < join_space(parts).len() implies f(#[trigger] join_space(parts)[j]) by {
            if j < a.len() {
                assert(join_space(parts)[j] == a[j]);
            } else if j == a.len() {
                assert(join_space(parts)[j] == ' ');
            } else {
                assert(join_space(parts)[j] == l[j - a.len() - 1]);
                assert(l == parts[parts.len() - 1]);
            }
        }
    }
}

proof fn lemma_concat_char(ps: Seq<Seq<char>>, c: char)
    ensures
        contains_char(concat_all(ps), c) <==> exists|k: int| 0 <= k < ps.len() && contains_char(#[trigger] ps[k], c),
    decreases ps.len(),
{
    if ps.len() > 0 {
        let q = ps.drop_last();
        lemma_concat_char(q, c);
        let a = concat_all(q);
        let l = ps.last();
        assert(concat_all(ps) == a + l);
        if contains_char(concat_all(ps), c) {
            let i = choose|i: int| 0 <= i < concat_all(ps).len() && concat_all(ps)[i] == c;
            if i < a.len() {
                assert(a[i] == c);
                assert(contains_char(a, c));
                let k = choose|k: int| 0 <= k < q.len() && contains_char(#[trigger] q[k], c);
                assert(ps[k] == q[k]);
            } else {
                assert(l[i - a.len()] == c);
                assert(contains_char(ps[ps.len() - 1], c));
            }
        }
        if exists|k: int| 0 <= k < ps.len() && contains_char(#[trigger] ps[k], c) {
            let k = choose|k: int| 0 <= k < ps.len() && contains_char(#[trigger] ps[k], c);
            let j = choose|j: int| 0 <= j < ps[k].len() && ps[k][j] == c;
            if k < q.len() {
                assert(q[k] == ps[k]);
                assert(contains_char(a, c));
                let i = choose|i: int| 0 <= i < a.len() && a[i] == c;
                assert(concat_all(ps)[i] == c);
            } else {
                assert(concat_all(ps)[a.len() + j] == c);
            }
        }
    }
}

/// Activation of an accepted configuration yields a configuration that is
/// accepted again and already carries `bootart` right after `encrypt`, so a
/// second activation returns it unchanged and reports the hook as active.
/// The activated text must still fit the configuration size bound.
#[verifier::rlimit(40)]
pub proof fn lemma_hook_activation_idempotent(s: Seq<char>)
    requires
        hooks_config_ok(s),
        encode_utf8(activation_text(s)).len() <= MAX_CONFIG_BYTES,
    ensures
        hooks_config_ok(activation_text(s)),
        first_index(config_hooks(activation_text(s)), "bootart"@) >= 0,
        first_index(config_hooks(activation_text(s)), "bootart"@) == first_index(
            config_hooks(activation_text(s)),
            "encrypt"@,
        ) + 1,
{
    reveal_strlit("bootart");
    reveal_strlit("encrypt");
    reveal_strlit("HOOKS=");
    reveal_strlit("HOOKS=(");
    reveal_strlit(")");
    reveal_strlit("systemd");
    reveal_strlit("sd-encrypt");
    reveal_strlit("base");
    reveal_strlit("udev");
    reveal_strlit("block");
    reveal_strlit("filesystems");
    reveal_strlit("fsck");
    let hs = config_hooks(s);
    if first_index(hs, "bootart"@) >= 0 {
        return;
    }
    let ps = split_inclusive_nl(s);
    let ls = lines(s);
    let i = hooks_line_index(s);
    assert(hooks_line_at(ls, i));
    let piece = ps[i];
    let body = line_body(piece);
    assert(ls[i] == body);
    lemma_split_pieces(s);
    assert(piece_ok(piece, i == ps.len() - 1));
    // The piece's leading whitespace ends before its text.
    lemma_trim_start_split(body);
    let k = body.len() - trim_start(body).len();
    assert(has_prefix(trim(body), "HOOKS="@));
    assert(trim_start(body).len() > 0) by {
        if trim_start(body).len() == 0 {
            assert(trim(body) =~= Seq::<char>::empty());
        }
    }
    assert(body.len() <= piece.len());
    assert(forall|j: int| 0 <= j < body.len() ==> body[j] == piece[j]);
    assert(!is_ws(piece[k])) by {
        assert(trim_start(body)[0] == body[k]);
    }
    assert forall|j: int| 0 <= j < piece.take(k).len() implies is_ws(#[trigger] piece.take(k)[j]) by {
        assert(piece.take(k)[j] == body[j]);
    }
    assert(piece.take(k) + piece.skip(k) =~= piece);
    lemma_trim_start_ws_prefix(piece.take(k), piece.skip(k));
    assert(indent(piece) =~= piece.take(k));
    // The rewritten piece.
    let e = first_index(hs, "encrypt"@);
    lemma_first_index_found(hs, "encrypt"@);
    lemma_first_index_found(hs, "bootart"@);
    let hs2 = hs.insert(e + 1, "bootart"@);
    let joined = join_space(hs2);
    let rest = "HOOKS=("@ + joined + ")"@;
    let nl = if piece.len() > 0 && piece.last() == '\n' {
        seq!['\n']
    } else {
        Seq::<char>::empty()
    };
    let new_line = activated_hooks_line(piece, hs);
    assert(new_line == indent(piece) + "HOOKS=("@ + joined + ")"@ + nl);
    assert(new_line =~= piece.take(k) + rest + nl);
    // Token facts.
    lemma_split_ws_tokens_nonempty(hooks_body(ls[i])->0);
    assert forall|m: int| 0 <= m < hs2.len() implies (#[trigger] hs2[m]).len() > 0 && no_sep(hs2[m], false)
        && hs2[m].len() <= 64 && all_in_class(hs2[m], CharClass::HookToken) by {
        if m == e + 1 {
            assert(hs2[m] == "bootart"@);
            assert forall|j: int| 0 <= j < hs2[m].len() implies in_class(#[trigger] hs2[m][j], CharClass::HookToken) by {
                assert(is_alnum(hs2[m][j]));
            }
        } else {
            let o = if m < e + 1 {
                m
            } else {
                m - 1
            };
            assert(hs2[m] == hs[o]);
            assert(hs[o].len() > 0);
            assert(all_in_class(hs[o], CharClass::HookToken));
        }
        assert forall|j: int| 0 <= j < hs2[m].len() implies !is_sep(#[trigger] hs2[m][j], false) by {
            assert(in_class(hs2[m][j], CharClass::HookToken));
        }
    }
    lemma_join_chars(hs2, |c: char| c == ' ' || (c != '\n' && c != '\0'));
    assert forall|j: int| 0 <= j < joined.len() implies joined[j] != '\n' && joined[j] != '\0' by {
        let f = |c: char| c == ' ' || (c != '\n' && c != '\0');
        assert(f(joined[j]));
    }
    // The rewritten piece is well formed.
    assert(piece_ok(new_line, i == ps.len() - 1)) by {
        assert forall|j: int| 0 <= j < new_line.len() - 1 implies new_line[j] != '\n' by {
            if j < k {
                assert(new_line[j] == piece[j]);
            } else if j < k + 7 {
                assert(new_line[j] == "HOOKS=("@[j - k]);
            } else if j < k + 7 + joined.len() {
                assert(new_line[j] == joined[j - k - 7]);
            } else if j == k + 7 + joined.len() {
                assert(new_line[j] == ')');
            }
        }
    }
    let t = concat_all(ps.update(i, new_line));
    assert(t == spec_activated_config(s));
    lemma_lines_update(s, i, new_line);
    let lt = lines(t);
    assert(lt == ls.update(i, line_body(new_line)));
    let b2 = piece.take(k) + rest;
    assert(line_body(new_line) == b2) by {
        if piece.len() > 0 && piece.last() == '\n' {
            assert(new_line.drop_last() =~= b2);
        } else {
            assert(new_line =~= b2);
        }
        assert(b2.last() == ')');
    }
    // The rewritten line is the one HOOKS assignment.
    lemma_trim_start_ws_prefix(piece.take(k), rest);
    assert(trim_start(b2) == rest);
    assert(trim_end(rest) == rest) by {
        assert(rest.last() == ')');
    }
    assert(trim(b2) == rest);
    assert(rest.subrange(0, 6) =~= "HOOKS="@);
    assert(is_hooks_line(b2));
    assert(rest.skip(7) =~= joined + ")"@);
    assert(has_prefix(rest, "HOOKS=("@)) by {
        assert(rest.subrange(0, 7) =~= "HOOKS=("@);
    }
    assert(has_suffix(rest.skip(7), ")"@)) by {
        assert(rest.skip(7).subrange(rest.skip(7).len() - 1, rest.skip(7).len() as int) =~= ")"@);
    }
    assert(hooks_body(b2) == Some(joined)) by {
        assert(rest.skip(7).drop_last() =~= joined);
    }
    assert(hooks_line_at(lt, i)) by {
        assert forall|j: int| 0 <= j < lt.len() && j != i implies !is_hooks_line(#[trigger] lt[j]) by {
            assert(lt[j] == ls[j]);
        }
    }
    assert forall|j: int| hooks_line_at(lt, j) implies j == i by {}
    assert(hooks_line_index(t) == i);
    lemma_split_join(hs2, false);
    assert(config_hooks(t) == hs2);
    // The inserted hooks keep every rule.
    assert forall|j: int| 0 <= j < hs.len() implies hs[j] != "bootart"@ by {}
    lemma_first_index_insert(hs, e + 1, "bootart"@, "bootart"@);
    lemma_first_index_insert(hs, e + 1, "bootart"@, "encrypt"@);
    lemma_first_index_insert(hs, e + 1, "bootart"@, "base"@);
    lemma_first_index_insert(hs, e + 1, "bootart"@, "udev"@);
    lemma_first_index_insert(hs, e + 1, "bootart"@, "block"@);
    lemma_first_index_insert(hs, e + 1, "bootart"@, "filesystems"@);
    lemma_first_index_insert(hs, e + 1, "bootart"@, "fsck"@);
    lemma_first_index_insert(hs, e + 1, "bootart"@, "systemd"@);
    lemma_first_index_insert(hs, e + 1, "bootart"@, "sd-encrypt"@);
    assert("bootart"@ != "encrypt"@) by {
        assert("bootart"@[0] != "encrypt"@[0]);
    }
    assert("bootart"@ != "base"@) by {
        assert("bootart"@.len() != "base"@.len());
    }
    assert("bootart"@ != "udev"@) by {
        assert("bootart"@.len() != "udev"@.len());
    }
    assert("bootart"@ != "block"@) by {
        assert("bootart"@.len() != "block"@.len());
    }
    assert("bootart"@ != "filesystems"@) by {
        assert("bootart"@.len() != "filesystems"@.len());
    }
    assert("bootart"@ != "fsck"@) by {
        assert("bootart"@.len() != "fsck"@.len());
    }
    assert("bootart"@ != "systemd"@) by {
        assert("bootart"@[0] != "systemd"@[0]);
    }
    assert("bootart"@ != "sd-encrypt"@) by {
        assert("bootart"@.len() != "sd-encrypt"@.len());
    }
    assert(distinct_seqs(hs2)) by {
        assert forall|a: int, b: int| 0 <= a < b < hs2.len() implies hs2[a] != hs2[b] by {
            let oa = if a < e + 1 {
                a
            } else {
                a - 1
            };
            let ob = if b < e + 1 {
                b
            } else {
                b - 1
            };
            if a != e + 1 && b != e + 1 {
                assert(hs2[a] == hs[oa]);
                assert(hs2[b] == hs[ob]);
                assert(oa < ob);
            } else if a == e + 1 {
                assert(hs2[b] == hs[ob]);
            } else {
                assert(hs2[a] == hs[oa]);
            }
        }
    }
    assert(hooks_safe(hs2));
    assert(hooks_ordered(hs2));
    assert(bootart_placement_ok(hs2));
    // The text itself stays acceptable.
    assert(t.len() > 0) by {
        if t.len() == 0 {
            assert(split_inclusive_nl(t) =~= Seq::<Seq<char>>::empty()) by {
                assert(t =~= Seq::<char>::empty());
            }
        }
    }
    assert(!contains_char(t, '\0')) by {
        lemma_concat_char(ps.update(i, new_line), '\0');
        lemma_concat_char(ps, '\0');
        if contains_char(t, '\0') {
            let m = choose|m: int|
                0 <= m < ps.update(i, new_line).len() && contains_char(#[trigger] ps.update(i, new_line)[m], '\0');
            if m != i {
                assert(ps.update(i, new_line)[m] == ps[m]);
                assert(contains_char(concat_all(ps), '\0'));
            } else {
                let j = choose|j: int| 0 <= j < new_line.len() && new_line[j] == '\0';
                if j < k {
                    assert(new_line[j] == piece[j]);
                    assert(contains_char(ps[i], '\0'));
                    assert(contains_char(concat_all(ps), '\0'));
                } else if j < k + 7 {
                    assert(new_line[j] == "HOOKS=("@[j - k]);
                } else if j < k + 7 + joined.len() {
                    assert(new_line[j] == joined[j - k - 7]);
                } else if j == k + 7 + joined.len() {
                    assert(new_line[j] == ')');
                } else {
                    assert(new_line[j] == '\n');
                }
            }
        }
    }
    assert(config_source_ok(t));
    assert(hooks_config_ok(t));
}

} // verus!
