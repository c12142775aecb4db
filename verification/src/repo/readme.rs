//! README discovery: which root-tree entries are tried, in which order, and
//! which of them is usable.
use vstd::prelude::*;

use crate::error::ApiError;
use crate::repo::blob::BLOB_CONTENT_LIMIT;
use crate::repo::tree::MODE_LINK;
use crate::text::{ascii_lower_seq, chars_of, chars_eq, lower_chars, owned, utf8_text};

verus! {

/// How a README renders.
#[derive(Debug, Clone, Copy, PartialEq, Eq, Structural)]
pub enum ReadmeFormat {
    Markdown,
    Rst,
    Plain,
}

/// The README found in a commit's root tree.
#[derive(Debug)]
pub struct ReadmeInfo {
    /// Actual file name as it appears in the tree (case may differ).
    pub path: String,
    /// Render format: `markdown`, `rst` or `plain`.
    pub format: &'static str,
    pub content: String,
}

/// Candidate file names in priority order.
pub open spec fn candidate_names() -> Seq<Seq<char>> {
    seq!["README.md"@, "README.rst"@, "README.txt"@, "README"@]
}

/// The render format of each candidate.
pub open spec fn candidate_formats() -> Seq<Seq<char>> {
    seq!["markdown"@, "rst"@, "plain"@, "plain"@]
}

/// Whether a tree entry may be the candidate `c`: its name equals the
/// candidate's ignoring ASCII case, and it is not a symlink.
pub open spec fn entry_matches(name: Option<Seq<char>>, mode: u32, c: int) -> bool {
    name matches Some(n) && ascii_lower_seq(n) == ascii_lower_seq(candidate_names()[c]) && mode
        != MODE_LINK
}

/// The `(entry, candidate)` pairs to try, in order: every candidate in
/// priority order, and for each the matching entries in tree order.
pub open spec fn readme_tries(names: Seq<Option<Seq<char>>>, modes: Seq<u32>, c: int, e: int) -> Seq<
    (int, int),
>
    decreases 4 - c, names.len() - e,
{
    if c >= 4 || c < 0 {
        Seq::empty()
    } else if e >= names.len() || e < 0 {
        readme_tries(names, modes, c + 1, 0)
    } else if entry_matches(names[e], modes[e], c) {
        seq![(e, c)] + readme_tries(names, modes, c, e + 1)
    } else {
        readme_tries(names, modes, c, e + 1)
    }
}

/// The candidate's file name.
fn candidate_name(c: usize) -> (r: &'static str)
    requires
        c < 4,
    ensures
        r@ == candidate_names()[c as int],
{
    if c == 0 {
        "README.md"
    } else if c == 1 {
        "README.rst"
    } else if c == 2 {
        "README.txt"
    } else {
        "README"
    }
}

/// The candidate's render format.
pub fn candidate_format(c: usize) -> (r: &'static str)
    requires
        c < 4,
    ensures
        r@ == candidate_formats()[c as int],
{
    if c == 0 {
        "markdown"
    } else if c == 1 {
        "rst"
    } else {
        "plain"
    }
}

/// The view of optional names.
pub open spec fn names_view(names: Seq<Option<String>>) -> Seq<Option<Seq<char>>> {
    names.map_values(|n: Option<String>| match n {
        Some(s) => Some(s@),
        None => None,
    })
}

/// The order in which root-tree entries are tried as the README, given
/// each entry's name (`None` for a non-UTF-8 name) and mode.
pub fn readme_plan(names: &Vec<Option<String>>, modes: &Vec<u32>) -> (r: Vec<(usize, usize)>)
    requires
        names@.len() == modes@.len(),
    ensures
        r@.map_values(|p: (usize, usize)| (p.0 as int, p.1 as int)) == readme_tries(
            names_view(names@),
            modes@,
            0,
            0,
        ),
{
    let ghost nv = names_view(names@);
    let mut out: Vec<(usize, usize)> = Vec::new();
    let mut c: usize = 0;
    while c < 4
        invariant
            c <= 4,
            names@.len() == modes@.len(),
            nv == names_view(names@),
            out@.map_values(|p: (usize, usize)| (p.0 as int, p.1 as int)) + readme_tries(
                nv,
                modes@,
                c as int,
                0,
            ) == readme_tries(nv, modes@, 0, 0),
        decreases 4 - c,
    {
        let lowered_candidate = lower_chars(chars_of(candidate_name(c)).as_slice());
        let mut e: usize = 0;
        while e < names.len()
            invariant
                c < 4,
                e <= names@.len(),
                names@.len() == modes@.len(),
                nv == names_view(names@),
                lowered_candidate@ == ascii_lower_seq(candidate_names()[c as int]),
                out@.map_values(|p: (usize, usize)| (p.0 as int, p.1 as int)) + readme_tries(
                    nv,
                    modes@,
                    c as int,
                    e as int,
                ) == readme_tries(nv, modes@, 0, 0),
            decreases names@.len() - e,
        {
            let ghost before = out@.map_values(|p: (usize, usize)| (p.0 as int, p.1 as int));
            let matched = match &names[e] {
                Some(n) => {
                    let ln = lower_chars(chars_of(n.as_str()).as_slice());
                    chars_eq(ln.as_slice(), lowered_candidate.as_slice()) && modes[e] != MODE_LINK
                },
                None => false,
            };
            assert(matched == entry_matches(nv[e as int], modes@[e as int], c as int));
            if matched {
                out.push((e, c));
                assert(out@.map_values(|p: (usize, usize)| (p.0 as int, p.1 as int)) =~= before.push(
                    (e as int, c as int),
                ));
                assert(before.push((e as int, c as int)) + readme_tries(nv, modes@, c as int, e + 1)
                    =~= before + (seq![(e as int, c as int)] + readme_tries(
                    nv,
                    modes@,
                    c as int,
                    e + 1,
                )));
            }
            e = e + 1;
        }
        c = c + 1;
    }
    assert(out@.map_values(|p: (usize, usize)| (p.0 as int, p.1 as int)) + Seq::<(int, int)>::empty()
        =~= out@.map_values(|p: (usize, usize)| (p.0 as int, p.1 as int)));
    out
}

/// A tried entry's text, if usable: it is a blob (`content` is `Some`), no
/// larger than the inline cap, and UTF-8.
pub fn readme_text(content: Option<&[u8]>) -> (r: Option<String>)
    ensures
        match content {
            Some(b) => if b@.len() <= BLOB_CONTENT_LIMIT && vstd::utf8::valid_utf8(b@) {
                r matches Some(s) && s@ == vstd::utf8::decode_utf8(b@)
            } else {
                r is None
            },
            None => r is None,
        },
{
    match content {
        Some(b) => if b.len() > BLOB_CONTENT_LIMIT {
            None
        } else {
            utf8_text(b)
        },
        None => None,
    }
}

/// The error when no candidate is usable.
pub fn no_readme() -> (r: ApiError)
    ensures
        r matches ApiError::PathNotFound(p) && p@ == "README"@,
{
    ApiError::PathNotFound(owned("README"))
}

} // verus!
