//! Maps request paths onto the prerendered page shells, and builds the
//! `<meta>`/`<link>` markup injected into them.
//!
//! The static build has one HTML file per route shape, not per repository,
//! so every `/{repo}/...` page is built once under a reserved placeholder
//! directory and request paths are mapped onto those files by shape alone:
//! the `{repo}` segment is matched but never used to build a path.
use vstd::prelude::*;

use vstd::string::StringSliceAdditionalSpecFns;

use crate::escape::{push_escaped, xml_escaped};
use crate::text::{
    chars_eq, chars_of, path_segments, push_all, push_str_chars, segments_of, string_of, strip_end,
    strip_end_len,
};

verus! {

/// The directory the `/{repo}` shells are built under.
pub const REPO_SHELL_PARAM: &'static str = "__repo__";

/// Site-wide `<head>` metadata injected into every shell. Both unset by
/// default, in which case nothing is injected.
#[derive(Clone, Default, Debug)]
pub struct SiteHead {
    pub title: Option<String>,
    pub description: Option<String>,
}

/// A shape served by the two-segment `/{repo}/{page}` shells.
pub open spec fn is_two_segment_page(p: Seq<char>) -> bool {
    p == "refs"@ || p == "log"@ || p == "search"@ || p == "stats"@ || p == "diff"@
}

/// A shape served by the exactly-three-segment `/{repo}/{page}/{id}` shells.
pub open spec fn is_id_page(p: Seq<char>) -> bool {
    p == "commit"@ || p == "object"@
}

/// A shape that needs at least one segment after `/{repo}/{page}`.
pub open spec fn is_path_page(p: Seq<char>) -> bool {
    p == "blob"@ || p == "blame"@ || p == "tag"@
}

/// The shell file (relative to the static build root) for a request whose
/// path has segments `segs`; `None` is the 404 shell.
pub open spec fn shell_file(segs: Seq<Seq<char>>) -> Option<Seq<char>> {
    if segs.len() == 0 {
        Some("index.html"@)
    } else if segs.len() == 1 {
        Some("__repo__/index.html"@)
    } else {
        let p = segs[1];
        if (segs.len() == 2 && is_two_segment_page(p)) || (segs.len() == 3 && is_id_page(p)) || p
            == "tree"@ || (segs.len() >= 3 && is_path_page(p)) {
            Some("__repo__/"@ + p + "/index.html"@)
        } else {
            None
        }
    }
}

/// Whether `v` holds exactly the characters of `lit`.
fn is_lit(v: &[char], lit: &str) -> (r: bool)
    ensures
        r == (v@ == lit@),
{
    let l = chars_of(lit);
    chars_eq(v, l.as_slice())
}

/// Resolves a request path to its shell file and the status to answer
/// with: 200 for a known route shape, 404 (and the 404 shell) otherwise.
pub fn shell_for(path: &str) -> (r: (String, u16))
    ensures
        match shell_file(path_segments(path@)) {
            Some(f) => r.0@ == f && r.1 == 200,
            None => r.0@ == "404.html"@ && r.1 == 404,
        },
{
    let v = chars_of(path);
    let segs = segments_of(v.as_slice());
    let ghost sv = segs.deep_view();
    assert(sv == path_segments(path@));
    let n = segs.len();
    assert(sv.len() == n);
    if n == 0 {
        return (string_of(chars_of("index.html").as_slice()), 200);
    }
    if n == 1 {
        return (string_of(chars_of("__repo__/index.html").as_slice()), 200);
    }
    let p = segs[1].as_slice();
    assert(p@ == sv[1]);
    let two = is_lit(p, "refs") || is_lit(p, "log") || is_lit(p, "search") || is_lit(p, "stats")
        || is_lit(p, "diff");
    let id = is_lit(p, "commit") || is_lit(p, "object");
    let tree = is_lit(p, "tree");
    let deep = is_lit(p, "blob") || is_lit(p, "blame") || is_lit(p, "tag");
    if (n == 2 && two) || (n == 3 && id) || tree || (n >= 3 && deep) {
        let mut out: Vec<char> = Vec::new();
        push_str_chars(&mut out, "__repo__/");
        push_all(&mut out, p);
        push_str_chars(&mut out, "/index.html");
        (string_of(out.as_slice()), 200)
    } else {
        (string_of(chars_of("404.html").as_slice()), 404)
    }
}

/// `relative` names a file under the repository shell directory.
pub open spec fn under_repo_shell(relative: Seq<char>) -> bool {
    relative == "__repo__"@ || crate::text::is_prefix("__repo__/"@, relative)
}

/// The raw (still percent-encoded) first segment of `path`, when `relative`
/// resolved to a shell under the repository shell directory.
pub fn repo_segment_for(path: &str, relative: &str) -> (r: Option<String>)
    ensures
        !under_repo_shell(relative@) ==> r is None,
        under_repo_shell(relative@) ==> (if path_segments(path@).len() == 0 {
            r is None
        } else {
            r matches Some(s) && s@ == path_segments(path@)[0]
        }),
{
    let rel = chars_of(relative);
    let dir = chars_of("__repo__");
    let dir_slash = chars_of("__repo__/");
    let under = chars_eq(rel.as_slice(), dir.as_slice()) || crate::text::starts_with_chars(
        rel.as_slice(),
        dir_slash.as_slice(),
    );
    if !under {
        return None;
    }
    let v = chars_of(path);
    let segs = segments_of(v.as_slice());
    let ghost sv = segs.deep_view();
    if segs.len() == 0 {
        None
    } else {
        assert(segs@[0]@ == sv[0]);
        Some(string_of(segs[0].as_slice()))
    }
}

/// Position of the first occurrence of `needle` in `hay`.
pub open spec fn bytes_occur_at(hay: Seq<u8>, needle: Seq<u8>, i: int) -> bool {
    0 <= i && i + needle.len() <= hay.len() && hay.subrange(i, i + needle.len()) == needle
}

/// The first position `needle` occurs at in `hay`, if any.
pub fn find_subslice(haystack: &[u8], needle: &[u8]) -> (r: Option<usize>)
    ensures
        match r {
            Some(i) => bytes_occur_at(haystack@, needle@, i as int) && forall|j: int|
                0 <= j < i ==> !bytes_occur_at(haystack@, needle@, j),
            None => forall|j: int| !bytes_occur_at(haystack@, needle@, j),
        },
{
    if needle.len() > haystack.len() {
        return None;
    }
    let last = haystack.len() - needle.len();
    let mut i: usize = 0;
    while i <= last
        invariant_except_break
            i <= last,
        invariant
            last == haystack@.len() - needle@.len(),
            forall|j: int| 0 <= j < i ==> !bytes_occur_at(haystack@, needle@, j),
        ensures
            forall|j: int| 0 <= j <= last ==> !bytes_occur_at(haystack@, needle@, j),
        decreases last - i,
    {
        let mut k: usize = 0;
        let mut same = true;
        while k < needle.len()
            invariant
                i <= last,
                last == haystack@.len() - needle@.len(),
                k <= needle@.len(),
                same == (forall|t: int| 0 <= t < k ==> haystack@[i + t] == needle@[t]),
            decreases needle@.len() - k,
        {
            assert(haystack@.len() == haystack.len());
            if haystack[i + k] != needle[k] {
                same = false;
            }
            k = k + 1;
        }
        if same {
            assert(haystack@.subrange(i as int, i + needle@.len()) =~= needle@);
            return Some(i);
        } else {
            assert(!bytes_occur_at(haystack@, needle@, i as int)) by {
                let t = choose|t: int| 0 <= t < needle@.len() && haystack@[i + t] != needle@[t];
                assert(haystack@.subrange(i as int, i + needle@.len())[t] != needle@[t]);
            }
        }
        if i == last {
            break;
        }
        i = i + 1;
    }
    None
}

/// The body with `extra` inserted before the first `</head>`; unchanged
/// when `extra` is empty or there is no `</head>`.
pub open spec fn injected(body: Seq<u8>, extra: Seq<u8>) -> Seq<u8> {
    let close = "</head>"@.map_values(|c: char| c as u8);
    if extra.len() == 0 {
        body
    } else if exists|i: int| bytes_occur_at(body, close, i) {
        let pos = choose|i: int|
            bytes_occur_at(body, close, i) && forall|j: int| 0 <= j < i ==> !bytes_occur_at(body, close, j);
        body.subrange(0, pos) + extra + body.subrange(pos, body.len() as int)
    } else {
        body
    }
}

/// The bytes of `</head>`.
fn head_close() -> (r: Vec<u8>)
    ensures
        r@ == "</head>"@.map_values(|c: char| c as u8),
{
    proof {
        reveal_strlit("</head>");
    }
    let r = vec![60u8, 47, 104, 101, 97, 100, 62];
    assert(r@ =~= "</head>"@.map_values(|c: char| c as u8));
    r
}

/// Inserts `extra` (raw HTML) before the shell's `</head>`, or returns
/// `body` unchanged if it has none, or if `extra` is empty.
pub fn inject_before_head_close(body: Vec<u8>, extra: &str) -> (r: Vec<u8>)
    ensures
        r@ == injected(body@, extra.spec_bytes()),
{
    let extra_bytes = extra.as_bytes();
    if extra_bytes.len() == 0 {
        return body;
    }
    let close = head_close();
    match find_subslice(body.as_slice(), close.as_slice()) {
        None => body,
        Some(pos) => {
            let ghost close_s = "</head>"@.map_values(|c: char| c as u8);
            proof {
                let p = choose|i: int|
                    bytes_occur_at(body@, close_s, i) && forall|j: int|
                        0 <= j < i ==> !bytes_occur_at(body@, close_s, j);
                assert(p == pos) by {
                    if p < pos {
                        assert(!bytes_occur_at(body@, close_s, p));
                    } else if p > pos {
                        assert(!bytes_occur_at(body@, close_s, pos as int));
                    }
                }
            }
            let mut out: Vec<u8> = Vec::new();
            let mut i: usize = 0;
            while i < pos
                invariant
                    pos <= body@.len(),
                    i <= pos,
                    out@ == body@.subrange(0, i as int),
                decreases pos - i,
            {
                out.push(body[i]);
                assert(body@.subrange(0, i + 1) == body@.subrange(0, i as int).push(body@[i as int]));
                i = i + 1;
            }
            let mut k: usize = 0;
            while k < extra_bytes.len()
                invariant
                    k <= extra_bytes@.len(),
                    out@ == body@.subrange(0, pos as int) + extra_bytes@.subrange(0, k as int),
                decreases extra_bytes@.len() - k,
            {
                out.push(extra_bytes[k]);
                assert(extra_bytes@.subrange(0, k + 1) == extra_bytes@.subrange(0, k as int).push(
                    extra_bytes@[k as int],
                ));
                k = k + 1;
            }
            assert(extra_bytes@.subrange(0, extra_bytes@.len() as int) == extra_bytes@);
            let mut j = pos;
            while j < body.len()
                invariant
                    pos <= j <= body@.len(),
                    out@ == body@.subrange(0, pos as int) + extra_bytes@ + body@.subrange(
                        pos as int,
                        j as int,
                    ),
                decreases body@.len() - j,
            {
                out.push(body[j]);
                assert(body@.subrange(pos as int, j + 1) == body@.subrange(pos as int, j as int).push(
                    body@[j as int],
                ));
                j = j + 1;
            }
            out
        },
    }
}

/// The `axgit:site-title`/`axgit:site-desc` `<meta>`s, each omitted when
/// its value is unset.
pub open spec fn site_meta(title: Option<Seq<char>>, description: Option<Seq<char>>) -> Seq<
    char,
> {
    (match title {
        Some(t) => "<meta name=\"axgit:site-title\" content=\""@ + xml_escaped(t) + "\">"@,
        None => Seq::empty(),
    }) + (match description {
        Some(d) => "<meta name=\"axgit:site-desc\" content=\""@ + xml_escaped(d) + "\">"@,
        None => Seq::empty(),
    })
}

/// Builds the site-wide `<meta>`s.
pub fn site_head_meta(title: Option<&str>, description: Option<&str>) -> (r: String)
    ensures
        r@ == site_meta(
            match title {
                Some(t) => Some(t@),
                None => None,
            },
            match description {
                Some(d) => Some(d@),
                None => None,
            },
        ),
{
    let mut out: Vec<char> = Vec::new();
    let ghost first: Seq<char> = Seq::empty();
    if let Some(t) = title {
        push_str_chars(&mut out, "<meta name=\"axgit:site-title\" content=\"");
        let tv = chars_of(t);
        push_escaped(&mut out, tv.as_slice());
        push_str_chars(&mut out, "\">");
        proof {
            first = out@;
        }
    }
    assert(out@ == first);
    if let Some(d) = description {
        push_str_chars(&mut out, "<meta name=\"axgit:site-desc\" content=\"");
        let dv = chars_of(d);
        push_escaped(&mut out, dv.as_slice());
        push_str_chars(&mut out, "\">");
    } else {
        assert(out@ == first + Seq::<char>::empty());
    }
    string_of(out.as_slice())
}

/// The per-repository `<link>`s: the two feeds always, plus `vcs-git` when
/// a clone base is configured (its trailing slashes dropped).
pub open spec fn repo_links(segment: Seq<char>, base: Option<Seq<char>>) -> Seq<char> {
    let s = xml_escaped(segment);
    "<link rel=\"alternate\" type=\"application/atom+xml\" title=\"Recent commits\" href=\"/api/v1/repos/"@
        + s + "/feed.atom\">"@
        + "<link rel=\"alternate\" type=\"application/atom+xml\" title=\"Recent commits (all refs)\" href=\"/api/v1/repos/"@
        + s + "/feed.atom?all=1\">"@ + match base {
        Some(b) => "<link rel=\"vcs-git\" title=\"Git repository\" href=\""@ + xml_escaped(
            strip_end(b, '/'),
        ) + "/"@ + s + ".git\">"@,
        None => Seq::empty(),
    }
}

/// Builds the per-repository `<link>` markup.
pub fn repo_head_links(segment: &str, clone_url_base: Option<&str>) -> (r: String)
    ensures
        r@ == repo_links(
            segment@,
            match clone_url_base {
                Some(b) => Some(b@),
                None => None,
            },
        ),
{
    let seg = chars_of(segment);
    let mut esc: Vec<char> = Vec::new();
    push_escaped(&mut esc, seg.as_slice());
    let mut out: Vec<char> = Vec::new();
    push_str_chars(
        &mut out,
        "<link rel=\"alternate\" type=\"application/atom+xml\" title=\"Recent commits\" href=\"/api/v1/repos/",
    );
    push_all(&mut out, esc.as_slice());
    push_str_chars(&mut out, "/feed.atom\">");
    push_str_chars(
        &mut out,
        "<link rel=\"alternate\" type=\"application/atom+xml\" title=\"Recent commits (all refs)\" href=\"/api/v1/repos/",
    );
    push_all(&mut out, esc.as_slice());
    push_str_chars(&mut out, "/feed.atom?all=1\">");
    let ghost links = out@;
    if let Some(base) = clone_url_base {
        let bv = chars_of(base);
        let end = strip_end_len(bv.as_slice(), '/');
        push_str_chars(&mut out, "<link rel=\"vcs-git\" title=\"Git repository\" href=\"");
        push_escaped(&mut out, &bv.as_slice()[0..end]);
        push_str_chars(&mut out, "/");
        push_all(&mut out, esc.as_slice());
        push_str_chars(&mut out, ".git\">");
    } else {
        assert(out@ == links + Seq::<char>::empty());
    }
    string_of(out.as_slice())
}

/// What a page shell gets injected before `</head>`: the site `<meta>`s,
/// then, for a repository shell, the repository's `<link>`s.
pub open spec fn shell_extra(
    path: Seq<char>,
    relative: Seq<char>,
    title: Option<Seq<char>>,
    description: Option<Seq<char>>,
    base: Option<Seq<char>>,
) -> Seq<char> {
    site_meta(title, description) + if under_repo_shell(relative) && path_segments(path).len() > 0 {
        repo_links(path_segments(path)[0], base)
    } else {
        Seq::empty()
    }
}

/// The text of an optional string.
pub open spec fn opt_str_view(o: Option<&str>) -> Option<Seq<char>> {
    match o {
        Some(s) => Some(s@),
        None => None,
    }
}

/// Builds what a page shell gets injected (see [`shell_extra`]) for a
/// request `path` served by the shell file `relative`.
pub fn shell_head_extra(
    path: &str,
    relative: &str,
    title: Option<&str>,
    description: Option<&str>,
    clone_url_base: Option<&str>,
) -> (r: String)
    ensures
        r@ == shell_extra(
            path@,
            relative@,
            opt_str_view(title),
            opt_str_view(description),
            opt_str_view(clone_url_base),
        ),
{
    let meta = site_head_meta(title, description);
    let mut out = chars_of(meta.as_str());
    match repo_segment_for(path, relative) {
        Some(seg) => {
            let links = repo_head_links(seg.as_str(), clone_url_base);
            push_str_chars(&mut out, links.as_str());
        },
        None => {
            assert(out@ == out@ + Seq::<char>::empty());
        },
    }
    string_of(out.as_slice())
}

/// A page shell served for `path`: the shell's bytes with the extra head
/// markup injected.
pub fn render_shell(
    body: Vec<u8>,
    path: &str,
    relative: &str,
    title: Option<&str>,
    description: Option<&str>,
    clone_url_base: Option<&str>,
) -> (r: Vec<u8>)
    ensures
        r@ == injected(
            body@,
            vstd::utf8::encode_utf8(
                shell_extra(
                    path@,
                    relative@,
                    opt_str_view(title),
                    opt_str_view(description),
                    opt_str_view(clone_url_base),
                ),
            ),
        ),
{
    let extra = shell_head_extra(path, relative, title, description, clone_url_base);
    inject_before_head_close(body, extra.as_str())
}

} // verus!
