//! `{ref}/{path...}` splitting: where the ref ends when ref names may
//! themselves hold `/`.
use vstd::prelude::*;

use crate::error::{invalid_param_quoting, ApiError};
use crate::text::{
    chars_of, is_prefix, join_with, push_joined_range, slice_chars, split_char, split_chars,
    str_eq, string_of, strip_both, strip_bounds,
};

verus! {

/// Whether a path segment is unusable: empty, `.` or `..`.
pub open spec fn bad_segment(s: Seq<char>) -> bool {
    s.len() == 0 || s == seq!['.'] || s == seq!['.', '.']
}

/// The segments of a `{ref}/{path...}` wildcard: `/`-separated, after
/// surrounding `/`s are trimmed.
pub open spec fn wildcard_segments(rest: Seq<char>) -> Seq<Seq<char>> {
    split_char(strip_both(rest, '/'), '/')
}

/// How many leading segments form the ref: the most whose `/`-joined text
/// is a known ref name, else one (a commit sha, `HEAD`).
pub open spec fn ref_split(segs: Seq<Seq<char>>, refnames: Seq<Seq<char>>, end: int) -> int
    decreases end,
{
    if end <= 1 {
        1
    } else if refnames.contains(join_with(segs.subrange(0, end), '/')) {
        end
    } else {
        ref_split(segs, refnames, end - 1)
    }
}

/// `(ref, path)` of a wildcard given the known ref names, or `None` for a
/// wildcard with a bad segment.
pub open spec fn split_wildcard(rest: Seq<char>, refnames: Seq<Seq<char>>) -> Option<(Seq<char>, Seq<char>)> {
    let segs = wildcard_segments(rest);
    if exists|i: int| 0 <= i < segs.len() && bad_segment(#[trigger] segs[i]) {
        None
    } else {
        let k = ref_split(segs, refnames, segs.len() as int);
        Some((join_with(segs.subrange(0, k), '/'), join_with(segs.subrange(k, segs.len() as int), '/')))
    }
}

/// Whether `v` is a bad segment.
fn is_bad_segment(v: &Vec<char>) -> (r: bool)
    ensures
        r == bad_segment(v@),
{
    if v.len() == 0 {
        return true;
    }
    if v.len() == 1 && v[0] == '.' {
        assert(v@ == seq!['.']);
        return true;
    }
    if v.len() == 2 && v[0] == '.' && v[1] == '.' {
        assert(v@ == seq!['.', '.']);
        return true;
    }
    false
}

/// Whether `name` is among `names`.
fn contains_name(names: &[String], name: &[char]) -> (r: bool)
    ensures
        r == names.deep_view().contains(name@),
{
    let ghost dv = names.deep_view();
    let mut i: usize = 0;
    while i < names.len()
        invariant
            i <= names@.len(),
            dv == names.deep_view(),
            forall|j: int| 0 <= j < i ==> dv[j] != name@,
        decreases names@.len() - i,
    {
        let c = chars_of(names[i].as_str());
        assert(c@ == dv[i as int]);
        if crate::text::chars_eq(c.as_slice(), name) {
            return true;
        }
        i = i + 1;
    }
    false
}

/// Splits a `{ref}/{path...}` wildcard into the ref and the tree path
/// (empty for the root), given the short names of all branches and tags.
/// The longest leading run of segments naming a ref wins (unique, since git
/// forbids a ref `a` beside a ref `a/b`); without one the first segment is
/// the ref. An empty, `.` or `..` segment is `400 invalid_param`.
pub fn split_ref_path(rest: &str, refnames: &[String]) -> (r: Result<(String, String), ApiError>)
    ensures
        match split_wildcard(rest@, refnames.deep_view()) {
            Some((rf, p)) => r matches Ok((a, b)) && a@ == rf && b@ == p,
            None => r matches Err(ApiError::InvalidParam(d)) && d@ == "invalid path '"@ + strip_both(
                rest@,
                '/',
            ) + "'"@,
        },
{
    let v = chars_of(rest);
    let (a, b) = strip_bounds(v.as_slice(), '/');
    let trimmed = slice_chars(v.as_slice(), a, b);
    let segs = split_chars(trimmed.as_slice(), '/');
    let ghost sv = segs.deep_view();
    let mut i: usize = 0;
    while i < segs.len()
        invariant
            i <= segs@.len(),
            sv == segs.deep_view(),
            trimmed@ == strip_both(rest@, '/'),
            sv == split_char(trimmed@, '/'),
            forall|j: int| 0 <= j < i ==> !bad_segment(#[trigger] sv[j]),
        decreases segs@.len() - i,
    {
        assert(segs@[i as int]@ == sv[i as int]);
        if is_bad_segment(&segs[i]) {
            assert(bad_segment(sv[i as int]));
            let t = string_of(trimmed.as_slice());
            return Err(invalid_param_quoting("invalid path '", t.as_str(), "'"));
        }
        i = i + 1;
    }
    let ghost names = refnames.deep_view();
    let mut split: usize = 1;
    let mut end: usize = segs.len();
    proof {
        crate::text::lemma_split_nonempty(trimmed@, '/');
    }
    while end > 1
        invariant
            1 <= split <= segs@.len(),
            end <= segs@.len(),
            sv == segs.deep_view(),
            names == refnames.deep_view(),
            ref_split(sv, names, sv.len() as int) == if split > 1 {
                split as int
            } else {
                ref_split(sv, names, end as int)
            },
            split > 1 ==> end <= 1,
        decreases end,
    {
        let mut joined: Vec<char> = Vec::new();
        push_joined_range(&mut joined, &segs, 0, end, '/');
        if contains_name(refnames, joined.as_slice()) {
            split = end;
            end = 1;
        } else {
            end = end - 1;
        }
    }
    let mut refname: Vec<char> = Vec::new();
    push_joined_range(&mut refname, &segs, 0, split, '/');
    let mut path: Vec<char> = Vec::new();
    push_joined_range(&mut path, &segs, split, segs.len(), '/');
    Ok((string_of(refname.as_slice()), string_of(path.as_slice())))
}

/// The short name of a full ref name, for local branches and tags only.
pub open spec fn shorthand_of(name: Seq<char>) -> Option<Seq<char>> {
    if is_prefix("refs/heads/"@, name) {
        Some(name.skip(11))
    } else if is_prefix("refs/tags/"@, name) {
        Some(name.skip(10))
    } else {
        None
    }
}

/// The short name of a full ref name (see [`shorthand_of`]).
pub fn ref_shorthand(name: &str) -> (r: Option<String>)
    ensures
        match shorthand_of(name@) {
            Some(s) => r matches Some(t) && t@ == s,
            None => r is None,
        },
{
    let v = chars_of(name);
    let heads = chars_of("refs/heads/");
    let tags = chars_of("refs/tags/");
    proof {
        reveal_strlit("refs/heads/");
        reveal_strlit("refs/tags/");
    }
    if crate::text::starts_with_chars(v.as_slice(), heads.as_slice()) {
        Some(string_of(slice_chars(v.as_slice(), 11, v.len()).as_slice()))
    } else if crate::text::starts_with_chars(v.as_slice(), tags.as_slice()) {
        Some(string_of(slice_chars(v.as_slice(), 10, v.len()).as_slice()))
    } else {
        None
    }
}

} // verus!
