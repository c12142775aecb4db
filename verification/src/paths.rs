//! File names and extensions of `/`-separated paths, as `std::path::Path`
//! reads them on Unix.
use vstd::prelude::*;

use crate::text::{chars_of, path_segments, segments_of, slice_chars, string_of};

verus! {

/// The last component of `segs` that is not `.`, searching below `k`.
pub open spec fn last_named(segs: Seq<Seq<char>>, k: int) -> Option<Seq<char>>
    decreases k,
{
    if k <= 0 {
        None
    } else if segs[k - 1] == seq!['.'] {
        last_named(segs, k - 1)
    } else {
        Some(segs[k - 1])
    }
}

/// The file name of a path (`Path::file_name`): its last normal
/// component; none for a path ending in `..`, or with no component at all.
pub open spec fn file_name_of(path: Seq<char>) -> Option<Seq<char>> {
    let segs = path_segments(path);
    match last_named(segs, segs.len() as int) {
        Some(n) => if n == seq!['.', '.'] {
            None
        } else {
            Some(n)
        },
        None => None,
    }
}

/// Index of the last `.` in `s` below `k`, if any.
pub open spec fn last_dot(s: Seq<char>, k: int) -> Option<int>
    decreases k,
{
    if k <= 0 {
        None
    } else if s[k - 1] == '.' {
        Some(k - 1)
    } else {
        last_dot(s, k - 1)
    }
}

/// The extension of a path (`Path::extension`): what follows the last `.`
/// of its file name, unless that `.` starts the name.
pub open spec fn extension_of(path: Seq<char>) -> Option<Seq<char>> {
    match file_name_of(path) {
        Some(name) => match last_dot(name, name.len() as int) {
            Some(k) => if k == 0 {
                None
            } else {
                Some(name.subrange(k + 1, name.len() as int))
            },
            None => None,
        },
        None => None,
    }
}

/// The file name of a path (see [`file_name_of`]).
pub fn file_name(path: &str) -> (r: Option<String>)
    ensures
        match file_name_of(path@) {
            Some(n) => r matches Some(s) && s@ == n,
            None => r is None,
        },
{
    let v = chars_of(path);
    let segs = segments_of(v.as_slice());
    let ghost sv = segs.deep_view();
    let mut k = segs.len();
    while k > 0 && segs[k - 1].len() == 1 && segs[k - 1][0] == '.'
        invariant
            k <= segs@.len(),
            sv == segs.deep_view(),
            last_named(sv, sv.len() as int) == last_named(sv, k as int),
        decreases k,
    {
        assert(segs@[k - 1]@ == sv[k - 1]);
        assert(sv[k - 1] == seq!['.']);
        k = k - 1;
    }
    if k == 0 {
        return None;
    }
    let last = &segs[k - 1];
    assert(last@ == sv[k - 1]);
    if last.len() == 1 && last[0] == '.' {
        assert(last@ == seq!['.']);
    }
    assert(last_named(sv, k as int) == Some(last@));
    if last.len() == 2 && last[0] == '.' && last[1] == '.' {
        assert(last@ == seq!['.', '.']);
        return None;
    }
    Some(string_of(last.as_slice()))
}

/// The extension of a path (see [`extension_of`]).
pub fn extension(path: &str) -> (r: Option<String>)
    ensures
        match extension_of(path@) {
            Some(e) => r matches Some(s) && s@ == e,
            None => r is None,
        },
{
    match file_name(path) {
        Some(name) => {
            let v = chars_of(name.as_str());
            let mut k = v.len();
            while k > 0 && v[k - 1] != '.'
                invariant
                    k <= v@.len(),
                    last_dot(v@, v@.len() as int) == last_dot(v@, k as int),
                decreases k,
            {
                k = k - 1;
            }
            if k <= 1 {
                None
            } else {
                Some(string_of(slice_chars(v.as_slice(), k, v.len()).as_slice()))
            }
        },
        None => None,
    }
}

} // verus!
