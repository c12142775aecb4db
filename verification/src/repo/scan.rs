//! Repository discovery under the root: which directory entries are
//! repositories, and under which name.
use vstd::prelude::*;

use crate::text::{chars_of, ends_with_chars, is_suffix, slice_chars, string_of};

verus! {

/// The repository name of a directory entry named `file_name`: the name
/// without its `.git` suffix, when it has one and something precedes it.
pub open spec fn scanned_name(file_name: Seq<char>) -> Option<Seq<char>> {
    if is_suffix(".git"@, file_name) && file_name.len() > 4 {
        Some(file_name.subrange(0, file_name.len() - 4))
    } else {
        None
    }
}

/// The repository name of a directory entry, if it names one (see
/// [`scanned_name`]); `None` for a name that is not UTF-8.
pub fn repo_name_of_entry(file_name: Option<&str>) -> (r: Option<String>)
    ensures
        match file_name {
            Some(f) => match scanned_name(f@) {
                Some(n) => r matches Some(s) && s@ == n,
                None => r is None,
            },
            None => r is None,
        },
{
    match file_name {
        Some(f) => {
            let v = chars_of(f);
            let suffix = chars_of(".git");
            proof {
                reveal_strlit(".git");
            }
            if ends_with_chars(v.as_slice(), suffix.as_slice()) && v.len() > 4 {
                Some(string_of(slice_chars(v.as_slice(), 0, v.len() - 4).as_slice()))
            } else {
                None
            }
        },
        None => None,
    }
}

} // verus!
