//! Lexical path rules shared by planners, validators, and archive inspectors.

use crate::text::{chars_of, contains_char, seq_contains_char};
use vstd::prelude::*;
use vstd::utf8::*;

verus! {

/// A `..` segment (a `ParentDir` component) starts at index `i`.
pub open spec fn dotdot_at(p: Seq<char>, i: int) -> bool {
    &&& 0 <= i && i + 2 <= p.len()
    &&& p[i] == '.' && p[i + 1] == '.'
    &&& i == 0 || p[i - 1] == '/'
    &&& i + 2 == p.len() || p[i + 2] == '/'
}

pub open spec fn no_parent_component(p: Seq<char>) -> bool {
    forall|i: int| !#[trigger] dotdot_at(p, i)
}

/// The relative path begins with a `CurDir` component.
pub open spec fn leading_curdir(p: Seq<char>) -> bool {
    p == seq!['.'] || (p.len() >= 2 && p[0] == '.' && p[1] == '/')
}

/// An absolute path of at most 4096 bytes whose components are all the root
/// or normal names.
pub open spec fn spec_safe_alternate_root(p: Seq<char>) -> bool {
    &&& p.len() > 0 && p[0] == '/'
    &&& encode_utf8(p).len() <= 4096
    &&& no_parent_component(p)
}

/// A nonempty relative archive member name of at most 4096 bytes, without
/// NUL, whose components are all normal names.
pub open spec fn spec_archive_path_is_safe(p: Seq<char>) -> bool {
    &&& p.len() > 0
    &&& encode_utf8(p).len() <= 4096
    &&& p[0] != '/'
    &&& !contains_char(p, '\0')
    &&& !leading_curdir(p)
    &&& no_parent_component(p)
}

/// Whether `p` contains a `..` component.
pub fn has_parent_component(p: &[char]) -> (r: bool)
    ensures
        r == !no_parent_component(p@),
{
    let mut i: usize = 0;
    while i < p.len()
        invariant
            i <= p.len(),
            forall|j: int| 0 <= j < i ==> !dotdot_at(p@, j),
        decreases p.len() - i,
    {
        if p.len() - i >= 2 && p[i] == '.' && p[i + 1] == '.' && (i == 0 || p[i - 1] == '/') && (i
            + 2 == p.len() || p[i + 2] == '/') {
            assert(dotdot_at(p@, i as int));
            return true;
        }
        i = i + 1;
    }
    assert forall|j: int| !#[trigger] dotdot_at(p@, j) by {
        if 0 <= j < i {
        }
    }
    false
}

/// Whether `p` is a safe alternate root.
pub fn safe_alternate_root(p: &str) -> (r: bool)
    ensures
        r == spec_safe_alternate_root(p@),
{
    let v = chars_of(p);
    if v.len() == 0 || v[0] != '/' {
        return false;
    }
    if p.as_bytes().len() > 4096 {
        return false;
    }
    !has_parent_component(v.as_slice())
}

/// Whether `p` is a safe relative archive member name.
pub fn archive_path_is_safe(p: &str) -> (r: bool)
    ensures
        r == spec_archive_path_is_safe(p@),
{
    let v = chars_of(p);
    if v.len() == 0 || p.as_bytes().len() > 4096 || v[0] == '/' || seq_contains_char(v.as_slice(), '\0') {
        return false;
    }
    if v.len() == 1 && v[0] == '.' {
        assert(v@ =~= seq!['.']);
        return false;
    }
    if v.len() >= 2 && v[0] == '.' && v[1] == '/' {
        return false;
    }
    assert(!leading_curdir(v@));
    !has_parent_component(v.as_slice())
}

} // verus!
