//! Lexical rules for activation links: their destinations must be normalized
//! absolute file paths, and their relative targets must resolve canonically
//! inside the filesystem namespace of the link.

use crate::error::{invalid, InstallError};
use crate::newc::split_on;
use crate::state::split_on_exec;
use crate::text::{chars_of, string_from_chars};
use crate::text_facts::join_on;
use vstd::prelude::*;

verus! {

/// A normal component that is neither `.` nor `..`.
pub open spec fn strict_piece(p: Seq<char>) -> bool {
    p.len() > 0 && p != seq!['.'] && p != seq!['.', '.']
}

/// The components after the root of an absolute path.
pub open spec fn absolute_pieces(path: Seq<char>) -> Seq<Seq<char>> {
    split_on(path.drop_first(), '/')
}

/// An absolute path written exactly as its components: no empty, `.` or
/// `..` component and no trailing `/`, and not the root itself.
pub open spec fn spec_is_normalized_absolute_file_path(path: Seq<char>) -> bool {
    &&& path.len() > 0
    &&& path[0] == '/'
    &&& forall|k: int|
        0 <= k < absolute_pieces(path).len() ==> strict_piece(#[trigger] absolute_pieces(path)[k])
}

fn is_dot(p: &Vec<char>) -> (r: bool)
    ensures
        r == (p@ == seq!['.']),
{
    if p.len() == 1 && p[0] == '.' {
        assert(p@ =~= seq!['.']);
        true
    } else {
        false
    }
}

fn is_dotdot(p: &Vec<char>) -> (r: bool)
    ensures
        r == (p@ == seq!['.', '.']),
{
    if p.len() == 2 && p[0] == '.' && p[1] == '.' {
        assert(p@ =~= seq!['.', '.']);
        true
    } else {
        false
    }
}

fn is_strict_piece(p: &Vec<char>) -> (r: bool)
    ensures
        r == strict_piece(p@),
{
    p.len() > 0 && !is_dot(p) && !is_dotdot(p)
}

/// Whether `path` is a normalized absolute file path.
pub fn is_normalized_absolute_file_path(path: &str) -> (r: bool)
    ensures
        r == spec_is_normalized_absolute_file_path(path@),
{
    let v = chars_of(path);
    if v.len() == 0 || v[0] != '/' {
        return false;
    }
    let rest = crate::text::slice_range(v.as_slice(), 1, v.len());
    assert(rest@ =~= path@.drop_first());
    let pieces = split_on_exec(rest.as_slice(), '/');
    let ghost pv = absolute_pieces(path@);
    let mut k: usize = 0;
    while k < pieces.len()
        invariant
            k <= pieces@.len(),
            pieces@.map_values(|x: Vec<char>| x@) == pv,
            pv == absolute_pieces(path@),
            forall|j: int| 0 <= j < k ==> strict_piece(#[trigger] pv[j]),
        decreases pieces.len() - k,
    {
        assert(pv[k as int] == pieces@[k as int]@);
        if !is_strict_piece(&pieces[k]) {
            return false;
        }
        k = k + 1;
    }
    true
}

/// Refuses an activation destination that is not a normalized absolute file
/// path.
pub fn validate_absolute_activation_path(path: &str) -> (r: Result<(), InstallError>)
    ensures
        r is Ok <==> spec_is_normalized_absolute_file_path(path@),
        r matches Err(e) ==> e is InvalidPlan,
{
    if !is_normalized_absolute_file_path(path) {
        return Err(invalid("activation destination is not a normalized absolute file path"));
    }
    Ok(())
}

/// The directories that hold the link: its components without the last.
pub open spec fn link_dirs(link: Seq<char>) -> Seq<Seq<char>> {
    absolute_pieces(link).drop_last()
}

/// Walks the target's pieces from the link's directory: `..` climbs one
/// directory, but never above the root and never after a name; a name
/// descends; an empty or `.` piece is not canonical.  The result is the
/// directory reached and whether a name was seen.
pub open spec fn resolve_walk(dirs: Seq<Seq<char>>, pieces: Seq<Seq<char>>) -> Option<
    (Seq<Seq<char>>, bool),
>
    decreases pieces.len(),
{
    if pieces.len() == 0 {
        Some((dirs, false))
    } else {
        match resolve_walk(dirs, pieces.drop_last()) {
            None => None,
            Some((r, saw)) => {
                let p = pieces.last();
                if p == seq!['.', '.'] {
                    if saw || r.len() == 0 {
                        None
                    } else {
                        Some((r.drop_last(), saw))
                    }
                } else if p.len() == 0 || p == seq!['.'] {
                    None
                } else {
                    Some((r.push(p), true))
                }
            },
        }
    }
}

/// Where a link at `link` pointing to `target` lands, if the target is a
/// canonical relative path that stays inside the namespace and names
/// something.
pub open spec fn spec_resolve_relative_activation_target(link: Seq<char>, target: Seq<char>) -> Option<
    Seq<char>,
> {
    if target.len() == 0 || target[0] == '/' || target.last() == '/' {
        None
    } else {
        match resolve_walk(link_dirs(link), split_on(target, '/')) {
            Some((r, true)) => {
                let resolved = seq!['/'] + join_on(r, '/');
                if spec_is_normalized_absolute_file_path(resolved) {
                    Some(resolved)
                } else {
                    None
                }
            },
            _ => None,
        }
    }
}

fn copy_pieces(v: &Vec<Vec<char>>, n: usize) -> (r: Vec<Vec<char>>)
    requires
        n <= v@.len(),
    ensures
        r@.map_values(|x: Vec<char>| x@) == v@.map_values(|x: Vec<char>| x@).take(n as int),
{
    let mut r: Vec<Vec<char>> = Vec::new();
    let mut i: usize = 0;
    while i < n
        invariant
            i <= n <= v@.len(),
            r@.map_values(|x: Vec<char>| x@) == v@.map_values(|x: Vec<char>| x@).take(i as int),
        decreases n - i,
    {
        let ghost before = r@;
        let c = crate::text::slice_range(v[i].as_slice(), 0, v[i].len());
        assert(c@ =~= v@[i as int]@);
        r.push(c);
        assert(r@.map_values(|x: Vec<char>| x@) =~= before.map_values(|x: Vec<char>| x@).push(v@[i as int]@));
        assert(v@.map_values(|x: Vec<char>| x@).take(i + 1) =~= v@.map_values(|x: Vec<char>| x@).take(
            i as int,
        ).push(v@[i as int]@));
        i = i + 1;
    }
    r
}

/// `/` followed by the pieces joined with `/`.
fn absolute_join(parts: &Vec<Vec<char>>) -> (r: String)
    ensures
        r@ == seq!['/'] + join_on(parts@.map_values(|x: Vec<char>| x@), '/'),
{
    let ghost pv = parts@.map_values(|x: Vec<char>| x@);
    let mut out: Vec<char> = Vec::new();
    out.push('/');
    let mut i: usize = 0;
    assert(pv.take(0) =~= Seq::<Seq<char>>::empty());
    while i < parts.len()
        invariant
            i <= parts@.len(),
            pv == parts@.map_values(|x: Vec<char>| x@),
            out@ == seq!['/'] + join_on(pv.take(i as int), '/'),
        decreases parts.len() - i,
    {
        let ghost before = out@;
        if i > 0 {
            out.push('/');
        }
        crate::text::extend_range(&mut out, parts[i].as_slice(), 0, parts[i].len());
        proof {
            assert(parts@[i as int]@.subrange(0, parts@[i as int]@.len() as int) =~= pv[i as int]);
            assert(pv.take(i + 1).drop_last() =~= pv.take(i as int));
            if i == 0 {
                assert(join_on(pv.take(1), '/') == pv.take(1)[0]);
            } else {
                assert(join_on(pv.take(i + 1), '/') == join_on(pv.take(i as int), '/') + seq!['/']
                    + pv[i as int]);
            }
            assert(out@ =~= seq!['/'] + join_on(pv.take(i + 1), '/'));
        }
        i = i + 1;
    }
    assert(pv.take(parts@.len() as int) =~= pv);
    string_from_chars(out.as_slice())
}

/// Resolves an activation link's relative target against the link's
/// directory, refusing a target that is empty, absolute, ends in `/`, is not
/// written canonically, climbs above the root or after a name, or names
/// nothing.
pub fn resolve_relative_activation_target(link_path: &str, relative_target: &str) -> (r: Result<
    String,
    InstallError,
>)
    requires
        spec_is_normalized_absolute_file_path(link_path@),
    ensures
        r is Ok <==> spec_resolve_relative_activation_target(link_path@, relative_target@) is Some,
        r matches Ok(s) ==> Some(s@) == spec_resolve_relative_activation_target(
            link_path@,
            relative_target@,
        ),
        r matches Err(e) ==> e is InvalidPlan,
{
    let t = chars_of(relative_target);
    if t.len() == 0 || t[0] == '/' || t[t.len() - 1] == '/' {
        return Err(invalid("activation has a non-relative or empty target"));
    }
    let lv = chars_of(link_path);
    let rest = crate::text::slice_range(lv.as_slice(), 1, lv.len());
    assert(rest@ =~= link_path@.drop_first());
    let lpieces = split_on_exec(rest.as_slice(), '/');
    proof {
        crate::text_facts::lemma_split_on_nonempty(link_path@.drop_first(), '/');
    }
    let mut resolved = copy_pieces(&lpieces, lpieces.len() - 1);
    assert(lpieces@.map_values(|x: Vec<char>| x@).take(lpieces@.len() - 1) =~= link_dirs(link_path@));
    let pieces = split_on_exec(t.as_slice(), '/');
    let ghost pv = split_on(relative_target@, '/');
    let ghost dirs = link_dirs(link_path@);
    let mut saw_normal = false;
    let mut i: usize = 0;
    assert(pv.take(0) =~= Seq::<Seq<char>>::empty());
    while i < pieces.len()
        invariant
            i <= pieces@.len(),
            pieces@.map_values(|x: Vec<char>| x@) == pv,
            pv == split_on(relative_target@, '/'),
            dirs == link_dirs(link_path@),
            resolve_walk(dirs, pv.take(i as int)) == Some(
                (resolved@.map_values(|x: Vec<char>| x@), saw_normal),
            ),
        decreases pieces.len() - i,
    {
        let ghost before = resolved@.map_values(|x: Vec<char>| x@);
        proof {
            assert(pv.take(i + 1).drop_last() =~= pv.take(i as int));
            assert(pv.take(i + 1).last() == pieces@[i as int]@);
        }
        if is_dotdot(&pieces[i]) {
            if saw_normal || resolved.len() == 0 {
                proof {
                    assert(resolve_walk(dirs, pv.take(i + 1)) is None);
                    lemma_walk_none(dirs, pv, i + 1);
                }
                return Err(
                    invalid(
                        "activation target is non-canonical or escapes its filesystem namespace",
                    ),
                );
            }
            resolved.pop();
            assert(resolved@.map_values(|x: Vec<char>| x@) =~= before.drop_last());
        } else if pieces[i].len() == 0 || is_dot(&pieces[i]) {
            proof {
                lemma_walk_none(dirs, pv, i + 1);
            }
            return Err(invalid("activation target contains an invalid component"));
        } else {
            saw_normal = true;
            let c = crate::text::slice_range(pieces[i].as_slice(), 0, pieces[i].len());
            assert(c@ =~= pieces@[i as int]@);
            resolved.push(c);
            assert(resolved@.map_values(|x: Vec<char>| x@) =~= before.push(pieces@[i as int]@));
        }
        i = i + 1;
    }
    assert(pv.take(pieces@.len() as int) =~= pv);
    if !saw_normal {
        return Err(invalid("activation target is not canonical"));
    }
    let out = absolute_join(&resolved);
    match validate_absolute_activation_path(out.as_str()) {
        Ok(()) => Ok(out),
        Err(e) => Err(e),
    }
}

proof fn lemma_walk_none(dirs: Seq<Seq<char>>, pv: Seq<Seq<char>>, n: int)
    requires
        0 <= n <= pv.len(),
        resolve_walk(dirs, pv.take(n)) is None,
    ensures
        resolve_walk(dirs, pv) is None,
    decreases pv.len() - n,
{
    if n < pv.len() {
        assert(pv.take(n + 1).drop_last() =~= pv.take(n));
        lemma_walk_none(dirs, pv, n + 1);
    } else {
        assert(pv.take(n) =~= pv);
    }
}

} // verus!
