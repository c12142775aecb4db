//! Links for submodule (gitlink) tree rows: a configured `module-link`
//! template, or else the `.gitmodules` URL of the same path.
//!
//! A template's two `%s` placeholders are the gitlink's full path and its
//! recorded commit sha; `.gitmodules` maps each stanza's `path` to its
//! `url`. Every failure degrades the one link to `None`.
use vstd::prelude::*;

use crate::repo::meta::{is_http_url, spec_is_http_url};
use crate::text::{
    ascii_lower_seq, chars_eq, chars_of, find_char, find_char_from, is_prefix, lower_chars, push_all,
    slice_chars, split_char, split_chars, starts_with_chars, string_of, strip_end, strip_end_len, trim,
    trim_bounds, trim_chars, trim_end, trim_end_len, trim_start,
};

verus! {

// ---------------------------------------------------------------------------
// module-link templates
// ---------------------------------------------------------------------------

/// `o` with `a` put in front of its text.
pub open spec fn prepend(a: Seq<char>, o: Option<Seq<char>>) -> Option<Seq<char>> {
    match o {
        Some(r) => Some(a + r),
        None => None,
    }
}

/// Expansion of `t[i..]` once `seen` `%s` placeholders have been used.
pub open spec fn expand_from(t: Seq<char>, i: int, path: Seq<char>, sha: Seq<char>, seen: nat) -> Option<
    Seq<char>,
>
    decreases t.len() - i,
{
    if i >= t.len() || i < 0 {
        Some(Seq::empty())
    } else if t[i] != '%' {
        prepend(seq![t[i]], expand_from(t, i + 1, path, sha, seen))
    } else if i + 1 >= t.len() {
        None
    } else if t[i + 1] == 's' {
        if seen == 0 {
            prepend(path, expand_from(t, i + 2, path, sha, 1))
        } else if seen == 1 {
            prepend(sha, expand_from(t, i + 2, path, sha, 2))
        } else {
            None
        }
    } else if t[i + 1] == '%' {
        prepend(seq!['%'], expand_from(t, i + 2, path, sha, seen))
    } else {
        None
    }
}

/// Expands a cgitrc-style `module-link` template: the first `%s` becomes
/// `path`, the second `sha`, and `%%` is a literal `%`. A third `%s`, any
/// other specifier, or a trailing lone `%` makes the template unusable.
pub fn expand_template(template: &str, path: &str, sha: &str) -> (r: Option<String>)
    ensures
        match expand_from(template@, 0, path@, sha@, 0) {
            Some(e) => r matches Some(s) && s@ == e,
            None => r is None,
        },
{
    let t = chars_of(template);
    let pv = chars_of(path);
    let sv = chars_of(sha);
    let mut out: Vec<char> = Vec::new();
    let mut seen: u8 = 0;
    let mut i: usize = 0;
    while i < t.len()
        invariant
            i <= t@.len(),
            t@ == template@,
            pv@ == path@,
            sv@ == sha@,
            seen <= 2,
            expand_from(template@, 0, path@, sha@, 0) == prepend(
                out@,
                expand_from(template@, i as int, path@, sha@, seen as nat),
            ),
        decreases t@.len() - i,
    {
        let c = t[i];
        let ghost o = out@;
        if c != '%' {
            out.push(c);
            proof {
                match expand_from(template@, i + 1, path@, sha@, seen as nat) {
                    Some(r) => assert(o + (seq![c] + r) == o.push(c) + r),
                    None => {},
                }
            }
            i = i + 1;
        } else {
            if i + 1 >= t.len() {
                return None;
            }
            let d = t[i + 1];
            if d == 's' {
                if seen == 0 {
                    push_all(&mut out, pv.as_slice());
                } else if seen == 1 {
                    push_all(&mut out, sv.as_slice());
                } else {
                    return None;
                }
                proof {
                    let ins = if seen == 0 { path@ } else { sha@ };
                    match expand_from(template@, i + 2, path@, sha@, (seen + 1) as nat) {
                        Some(r) => assert(o + (ins + r) == (o + ins) + r),
                        None => {},
                    }
                }
                seen = seen + 1;
                i = i + 2;
            } else if d == '%' {
                out.push('%');
                proof {
                    match expand_from(template@, i + 2, path@, sha@, seen as nat) {
                        Some(r) => assert(o + (seq!['%'] + r) == o.push('%') + r),
                        None => {},
                    }
                }
                i = i + 2;
            } else {
                return None;
            }
        }
    }
    assert(out@ + Seq::<char>::empty() == out@);
    Some(string_of(out.as_slice()))
}

/// Whether an expanded template may be used as an `<a href>`: an
/// `http(s)://` URL, or a root-relative path that is not protocol-relative
/// (`//host`, `/\host`).
pub open spec fn spec_is_link_href(url: Seq<char>) -> bool {
    spec_is_http_url(url) || (url.len() >= 1 && url[0] == '/' && (url.len() == 1 || (url[1] != '/'
        && url[1] != '\\')))
}

/// Whether an expanded `module-link` template result may be used as a link.
pub fn is_link_href(url: &str) -> (r: bool)
    ensures
        r == spec_is_link_href(url@),
{
    if is_http_url(url) {
        return true;
    }
    let v = chars_of(url);
    if v.len() == 0 || v[0] != '/' {
        return false;
    }
    v.len() == 1 || (v[1] != '/' && v[1] != '\\')
}

// ---------------------------------------------------------------------------
// .gitmodules
// ---------------------------------------------------------------------------

/// The escape sequences of a quoted value resolved: `\n` and `\t` become
/// the control characters, any other escaped character stands for itself,
/// and a trailing lone `\` is dropped.
pub open spec fn unescape(s: Seq<char>) -> Seq<char>
    decreases s.len(),
{
    if s.len() == 0 {
        Seq::empty()
    } else if s[0] != '\\' {
        seq![s[0]] + unescape(s.drop_first())
    } else if s.len() == 1 {
        Seq::empty()
    } else {
        let c = if s[1] == 'n' {
            '\n'
        } else if s[1] == 't' {
            '\t'
        } else {
            s[1]
        };
        seq![c] + unescape(s.subrange(2, s.len() as int))
    }
}

/// Index of the first `#` or `;` in `s`, or `s.len()`.
pub open spec fn comment_start(s: Seq<char>) -> int {
    let a = find_char_from(s, '#', 0);
    let b = find_char_from(s, ';', 0);
    if a < b {
        a
    } else {
        b
    }
}

/// A git-config-style value: a `"..."` value is unescaped; an unquoted
/// value is cut at an inline comment and trimmed at the end.
pub open spec fn config_value_text(raw: Seq<char>) -> Seq<char> {
    if raw.len() >= 2 && raw[0] == '"' && raw.last() == '"' {
        unescape(raw.subrange(1, raw.len() - 1))
    } else {
        trim_end(raw.subrange(0, comment_start(raw)))
    }
}

/// Unquotes a git-config-style value.
pub fn parse_value(raw: &str) -> (r: String)
    ensures
        r@ == config_value_text(raw@),
{
    let v = chars_of(raw);
    let out = parse_value_chars(v.as_slice());
    string_of(out.as_slice())
}

/// [`parse_value`] over characters.
pub fn parse_value_chars(v: &[char]) -> (r: Vec<char>)
    ensures
        r@ == config_value_text(v@),
{
    let n = v.len();
    if n >= 2 && v[0] == '"' && v[n - 1] == '"' {
        let ghost inner = v@.subrange(1, n - 1);
        let mut out: Vec<char> = Vec::new();
        let mut i: usize = 1;
        while i < n - 1
            invariant
                n == v@.len(),
                n >= 2,
                1 <= i <= n,
                inner == v@.subrange(1, n - 1),
                i <= n - 1 ==> unescape(inner) == out@ + unescape(v@.subrange(i as int, n - 1)),
                i > n - 1 ==> unescape(inner) == out@,
            decreases n - i,
        {
            let c = v[i];
            let ghost o = out@;
            let ghost rest = v@.subrange(i as int, n - 1);
            if c != '\\' {
                out.push(c);
                assert(rest.drop_first() == v@.subrange(i + 1, n - 1));
                assert(o + (seq![c] + unescape(rest.drop_first())) == o.push(c) + unescape(
                    rest.drop_first(),
                ));
                i = i + 1;
            } else if i + 1 >= n - 1 {
                assert(rest.len() == 1);
                assert(o + Seq::<char>::empty() == o);
                i = n;
            } else {
                let d = v[i + 1];
                let m = if d == 'n' {
                    '\n'
                } else if d == 't' {
                    '\t'
                } else {
                    d
                };
                out.push(m);
                assert(rest.subrange(2, rest.len() as int) == v@.subrange(i + 2, n - 1));
                assert(o + (seq![m] + unescape(rest.subrange(2, rest.len() as int))) == o.push(m)
                    + unescape(rest.subrange(2, rest.len() as int)));
                i = i + 2;
            }
        }
        proof {
            if i == n - 1 {
                assert(v@.subrange(i as int, n - 1).len() == 0);
                assert(out@ + Seq::<char>::empty() == out@);
            }
        }
        out
    } else {
        let a = find_char(v, '#', 0);
        let b = find_char(v, ';', 0);
        let end = if a < b {
            a
        } else {
            b
        };
        let head = slice_chars(v, 0, end);
        let e = trim_end_len(head.as_slice());
        slice_chars(v, 0, e)
    }
}

/// What a `.gitmodules` scan has seen so far: whether it is inside a
/// `[submodule ...]` section, the open stanza's `path` and `url`, and the
/// `(path, url)` pairs already emitted.
pub struct GitmodulesScan {
    pub in_submodule: bool,
    pub path: Option<Seq<char>>,
    pub url: Option<Seq<char>>,
    pub found: Seq<(Seq<char>, Seq<char>)>,
}

/// Whether `found` already holds an entry for `path`.
pub open spec fn has_path(found: Seq<(Seq<char>, Seq<char>)>, path: Seq<char>) -> bool {
    exists|i: int| 0 <= i < found.len() && #[trigger] found[i].0 == path
}

/// Closes the open stanza: a stanza with both `path` and `url` is emitted
/// unless an earlier stanza already claimed its path (first wins); either
/// way both values are cleared.
pub open spec fn gm_flush(st: GitmodulesScan) -> GitmodulesScan {
    let found = match (st.path, st.url) {
        (Some(p), Some(u)) => if has_path(st.found, p) {
            st.found
        } else {
            st.found.push((p, u))
        },
        _ => st.found,
    };
    GitmodulesScan { in_submodule: st.in_submodule, path: None, url: None, found }
}

/// One line of `.gitmodules` applied to the scan. Blank lines and `#`/`;`
/// comments are skipped; a `[` header closes the open stanza and starts a
/// new section; inside a submodule section, `path` and `url` keys (matched
/// case-insensitively) set the open stanza's values, the last one winning.
pub open spec fn gm_line(st: GitmodulesScan, raw: Seq<char>) -> GitmodulesScan {
    let line = trim(raw);
    if line.len() == 0 || line[0] == '#' || line[0] == ';' {
        st
    } else if line[0] == '[' {
        let f = gm_flush(st);
        GitmodulesScan {
            in_submodule: is_prefix("submodule"@, ascii_lower_seq(trim_start(line.drop_first()))),
            ..f
        }
    } else if !st.in_submodule {
        st
    } else {
        let k = find_char_from(line, '=', 0);
        if k >= line.len() {
            st
        } else {
            let key = ascii_lower_seq(trim(line.subrange(0, k)));
            let value = config_value_text(trim(line.subrange(k + 1, line.len() as int)));
            if key == "path"@ {
                GitmodulesScan { path: Some(strip_end(value, '/')), ..st }
            } else if key == "url"@ {
                GitmodulesScan { url: Some(value), ..st }
            } else {
                st
            }
        }
    }
}

/// The scan after every line of `lines`, from a fresh start.
pub open spec fn gm_scan(lines: Seq<Seq<char>>) -> GitmodulesScan
    decreases lines.len(),
{
    if lines.len() == 0 {
        GitmodulesScan { in_submodule: false, path: None, url: None, found: Seq::empty() }
    } else {
        gm_line(gm_scan(lines.drop_last()), lines.last())
    }
}

/// The `(path, url)` pairs of a `.gitmodules` text, in file order. Each
/// piece between `\n`s is one line; the `\r` of a CRLF ending is removed
/// by the trim that every line gets, and an empty last piece is a blank
/// line, so this reads the text as `str::lines` does.
pub open spec fn gitmodules_entries(content: Seq<char>) -> Seq<(Seq<char>, Seq<char>)> {
    gm_flush(gm_scan(split_char(content, '\n'))).found
}

/// `o`'s characters, as text.
pub open spec fn opt_chars(o: Option<Vec<char>>) -> Option<Seq<char>> {
    match o {
        Some(v) => Some(v@),
        None => None,
    }
}

/// Whether an emitted list of `(path, url)` character pairs matches `s`.
pub open spec fn pairs_match(v: Seq<(Vec<char>, Vec<char>)>, s: Seq<(Seq<char>, Seq<char>)>) -> bool {
    v.len() == s.len() && forall|i: int|
        0 <= i < v.len() ==> #[trigger] v[i].0@ == s[i].0 && v[i].1@ == s[i].1
}

/// Whether `found` holds an entry for `path`.
fn contains_path(found: &Vec<(Vec<char>, Vec<char>)>, path: &Vec<char>, Ghost(spec_found): Ghost<
    Seq<(Seq<char>, Seq<char>)>,
>) -> (r: bool)
    requires
        pairs_match(found@, spec_found),
    ensures
        r == has_path(spec_found, path@),
{
    let mut i: usize = 0;
    while i < found.len()
        invariant
            i <= found@.len(),
            pairs_match(found@, spec_found),
            forall|j: int| 0 <= j < i ==> spec_found[j].0 != path@,
        decreases found@.len() - i,
    {
        if chars_eq(found[i].0.as_slice(), path.as_slice()) {
            assert(spec_found[i as int].0 == path@);
            return true;
        }
        i = i + 1;
    }
    false
}

/// Closes the open stanza in place (see [`gm_flush`]).
fn flush_stanza(
    path: &mut Option<Vec<char>>,
    url: &mut Option<Vec<char>>,
    found: &mut Vec<(Vec<char>, Vec<char>)>,
    Ghost(st): Ghost<GitmodulesScan>,
) -> (r: Ghost<GitmodulesScan>)
    requires
        opt_chars(*old(path)) == st.path,
        opt_chars(*old(url)) == st.url,
        pairs_match(old(found)@, st.found),
    ensures
        r@ == gm_flush(st),
        final(path).is_none(),
        final(url).is_none(),
        pairs_match(final(found)@, r@.found),
{
    let p = path.take();
    let u = url.take();
    match (p, u) {
        (Some(p), Some(u)) => {
            if !contains_path(found, &p, Ghost(st.found)) {
                let ghost pv = p@;
                let ghost uv = u@;
                let ghost before = found@;
                found.push((p, u));
                let ghost sf = st.found.push((pv, uv));
                assert forall|i: int| 0 <= i < found@.len() implies #[trigger] found@[i].0@ == sf[i].0
                    && found@[i].1@ == sf[i].1 by {
                    if i < before.len() {
                        assert(found@[i] == before[i]);
                    }
                }
            }
        },
        _ => {},
    }
    Ghost(gm_flush(st))
}

/// Maps each `[submodule "..."]` stanza's `path` to its `url`, in file
/// order. A stanza needs both keys; a duplicate `path` keeps the first
/// stanza; a value may be quoted, or carry an inline `#`/`;` comment; a
/// trailing `/` on `path` is dropped.
pub fn parse_gitmodules(content: &str) -> (r: Vec<(String, String)>)
    ensures
        r.deep_view() == gitmodules_entries(content@),
{
    let text = chars_of(content);
    let lines = split_chars(text.as_slice(), '\n');
    let ghost ls = split_char(content@, '\n');
    let mut in_submodule = false;
    let mut path: Option<Vec<char>> = None;
    let mut url: Option<Vec<char>> = None;
    let mut found: Vec<(Vec<char>, Vec<char>)> = Vec::new();
    let submodule = chars_of("submodule");
    let path_key = chars_of("path");
    let url_key = chars_of("url");
    let mut n: usize = 0;
    while n < lines.len()
        invariant
            n <= lines@.len(),
            lines.deep_view() == ls,
            ls == split_char(content@, '\n'),
            submodule@ == "submodule"@,
            path_key@ == "path"@,
            url_key@ == "url"@,
            ({
                let st = gm_scan(ls.take(n as int));
                &&& st.in_submodule == in_submodule
                &&& st.path == opt_chars(path)
                &&& st.url == opt_chars(url)
                &&& pairs_match(found@, st.found)
            }),
        decreases lines@.len() - n,
    {
        let ghost st = gm_scan(ls.take(n as int));
        assert(ls.take(n + 1).drop_last() == ls.take(n as int));
        assert(lines[n as int]@ == ls[n as int]);
        let raw = &lines[n];
        let line = trim_chars(raw.as_slice());
        if line.len() == 0 || line[0] == '#' || line[0] == ';' {
        } else if line[0] == '[' {
            let Ghost(f) = flush_stanza(&mut path, &mut url, &mut found, Ghost(st));
            let rest = slice_chars(line.as_slice(), 1, line.len());
            assert(rest@ == line@.drop_first());
            let (a, _b) = trim_bounds(rest.as_slice());
            let head = slice_chars(rest.as_slice(), a, rest.len());
            let lowered = lower_chars(head.as_slice());
            in_submodule = starts_with_chars(lowered.as_slice(), submodule.as_slice());
        } else if in_submodule {
            let k = find_char(line.as_slice(), '=', 0);
            if k < line.len() {
                let key_raw = slice_chars(line.as_slice(), 0, k);
                let key_trim = trim_chars(key_raw.as_slice());
                let key = lower_chars(key_trim.as_slice());
                let value_raw = slice_chars(line.as_slice(), k + 1, line.len());
                let value_trim = trim_chars(value_raw.as_slice());
                let value = parse_value_chars(value_trim.as_slice());
                if chars_eq(key.as_slice(), path_key.as_slice()) {
                    let e = strip_end_len(value.as_slice(), '/');
                    path = Some(slice_chars(value.as_slice(), 0, e));
                } else if chars_eq(key.as_slice(), url_key.as_slice()) {
                    url = Some(value);
                }
            }
        }
        n = n + 1;
    }
    assert(ls.take(n as int) == ls);
    let ghost st = gm_scan(ls);
    let Ghost(fin) = flush_stanza(&mut path, &mut url, &mut found, Ghost(st));
    let mut out: Vec<(String, String)> = Vec::new();
    let mut i: usize = 0;
    while i < found.len()
        invariant
            i <= found@.len(),
            pairs_match(found@, fin.found),
            out.deep_view() == fin.found.take(i as int),
        decreases found@.len() - i,
    {
        let p = string_of(found[i].0.as_slice());
        let u = string_of(found[i].1.as_slice());
        out.push((p, u));
        assert(fin.found.take(i + 1) == fin.found.take(i as int).push(fin.found[i as int]));
        assert(out.deep_view() == fin.found.take(i + 1));
        i = i + 1;
    }
    assert(fin.found.take(i as int) == fin.found);
    out
}

/// The `url` of the first entry of `entries` whose path is `path`.
pub open spec fn url_for_path(entries: Seq<(Seq<char>, Seq<char>)>, path: Seq<char>) -> Option<
    Seq<char>,
>
    decreases entries.len(),
{
    if entries.len() == 0 {
        None
    } else if entries[0].0 == path {
        Some(entries[0].1)
    } else {
        url_for_path(entries.drop_first(), path)
    }
}

/// Largest `.gitmodules` blob read.
pub const GITMODULES_LIMIT: u64 = 65536;

/// Whether a `.gitmodules` blob of `size` bytes is read at all.
pub fn gitmodules_readable(size: u64) -> (r: bool)
    ensures
        r == (size <= GITMODULES_LIMIT),
{
    size <= GITMODULES_LIMIT
}

/// The link of a gitlink row at `path` recording commit `sha`. A configured
/// `template` decides alone: its expansion, if usable as an href, else no
/// link. Without a template, the `.gitmodules` URL of the same path, if it
/// is an `http(s)://` URL.
pub open spec fn module_link(
    template: Option<Seq<char>>,
    path: Seq<char>,
    sha: Seq<char>,
    gitmodules: Seq<(Seq<char>, Seq<char>)>,
) -> Option<Seq<char>> {
    match template {
        Some(t) => match expand_from(t, 0, path, sha, 0) {
            Some(e) => if spec_is_link_href(e) {
                Some(e)
            } else {
                None
            },
            None => None,
        },
        None => match url_for_path(gitmodules, path) {
            Some(u) => if spec_is_http_url(u) {
                Some(u)
            } else {
                None
            },
            None => None,
        },
    }
}

/// The link of one gitlink tree row (see [`module_link`]).
pub fn resolve_module_link(
    template: Option<&str>,
    path: &str,
    sha: &str,
    gitmodules: &[(String, String)],
) -> (r: Option<String>)
    ensures
        opt_str(r) == module_link(
            match template {
                Some(t) => Some(t@),
                None => None,
            },
            path@,
            sha@,
            gitmodules.deep_view(),
        ),
{
    match template {
        Some(t) => {
            match expand_template(t, path, sha) {
                Some(e) => if is_link_href(e.as_str()) {
                    Some(e)
                } else {
                    None
                },
                None => None,
            }
        },
        None => {
            let ghost es = gitmodules.deep_view();
            assert(es.subrange(0, es.len() as int) == es);
            let mut i: usize = 0;
            while i < gitmodules.len()
                invariant
                    i <= gitmodules@.len(),
                    template is None,
                    es == gitmodules.deep_view(),
                    url_for_path(es, path@) == url_for_path(es.subrange(i as int, es.len() as int), path@),
                decreases gitmodules@.len() - i,
            {
                let ghost rest = es.subrange(i as int, es.len() as int);
                assert(rest.drop_first() == es.subrange(i + 1, es.len() as int));
                assert(rest[0] == es[i as int]);
                assert(es[i as int] == (gitmodules@[i as int].0@, gitmodules@[i as int].1@));
                if crate::text::str_eq(gitmodules[i].0.as_str(), path) {
                    let u = &gitmodules[i].1;
                    assert(rest.len() > 0 && rest[0].0 == path@);
                    assert(url_for_path(rest, path@) == Some(u@));
                    if is_http_url(u.as_str()) {
                        return Some(crate::text::owned(u.as_str()));
                    }
                    return None;
                }
                i = i + 1;
            }
            None
        },
    }
}

/// `o`'s text.
pub open spec fn opt_str(o: Option<String>) -> Option<Seq<char>> {
    match o {
        Some(s) => Some(s@),
        None => None,
    }
}

/// The repo-relative path of an entry `name` in the directory `dir` (empty
/// for the root).
pub fn entry_path(dir: &str, name: &str) -> (r: String)
    ensures
        dir@.len() == 0 ==> r@ == name@,
        dir@.len() > 0 ==> r@ == dir@ + seq!['/'] + name@,
{
    let d = chars_of(dir);
    if d.len() == 0 {
        return crate::text::owned(name);
    }
    let mut out = d;
    out.push('/');
    crate::text::push_str_chars(&mut out, name);
    string_of(out.as_slice())
}

/// Whether a listing has any gitlink row, the only rows that get a link.
pub fn has_gitlink(kinds: &[crate::repo::tree::EntryKind]) -> (r: bool)
    ensures
        r == exists|i: int| 0 <= i < kinds@.len() && kinds@[i] == crate::repo::tree::EntryKind::Commit,
{
    let mut i: usize = 0;
    while i < kinds.len()
        invariant
            i <= kinds@.len(),
            forall|k: int| 0 <= k < i ==> kinds@[k] != crate::repo::tree::EntryKind::Commit,
        decreases kinds@.len() - i,
    {
        match kinds[i] {
            crate::repo::tree::EntryKind::Commit => {
                return true;
            },
            _ => {},
        }
        i = i + 1;
    }
    false
}


/// `p` does not end with a `/`.
pub open spec fn no_trailing_slash(p: Seq<char>) -> bool {
    p.len() == 0 || p.last() != '/'
}

/// Paths of `found` are pairwise distinct and none ends with `/`.
pub open spec fn distinct_clean_paths(found: Seq<(Seq<char>, Seq<char>)>) -> bool {
    &&& forall|i: int, j: int| 0 <= i < j < found.len() ==> (#[trigger] found[i]).0 != (#[trigger] found[j]).0
    &&& forall|i: int| 0 <= i < found.len() ==> no_trailing_slash(#[trigger] found[i].0)
}

/// What every scan keeps: its emitted paths are distinct and clean, and
/// so is the open stanza's path.
pub open spec fn scan_clean(st: GitmodulesScan) -> bool {
    &&& distinct_clean_paths(st.found)
    &&& st.path matches Some(p) ==> no_trailing_slash(p)
}

/// Stripping every trailing `c` leaves no trailing `c`.
proof fn lemma_strip_end_clean(s: Seq<char>)
    ensures
        no_trailing_slash(strip_end(s, '/')),
    decreases s.len(),
{
    if s.len() > 0 && s.last() == '/' {
        lemma_strip_end_clean(s.drop_last());
    }
}

/// Closing a stanza keeps the scan clean.
proof fn lemma_flush_clean(st: GitmodulesScan)
    requires
        scan_clean(st),
    ensures
        scan_clean(gm_flush(st)),
{
    match (st.path, st.url) {
        (Some(p), Some(u)) => {
            if !has_path(st.found, p) {
                let f = st.found.push((p, u));
                assert forall|i: int, j: int| 0 <= i < j < f.len() implies (#[trigger] f[i]).0 != (
                #[trigger] f[j]).0 by {
                    if j == f.len() - 1 {
                        assert(f[i] == st.found[i]);
                        if f[i].0 == p {
                            assert(st.found[i].0 == p);
                        }
                    } else {
                        assert(f[i] == st.found[i] && f[j] == st.found[j]);
                    }
                }
                assert forall|i: int| 0 <= i < f.len() implies no_trailing_slash(#[trigger] f[i].0) by {
                    if i < f.len() - 1 {
                        assert(f[i] == st.found[i]);
                    }
                }
            }
        },
        _ => {},
    }
}

/// Every line keeps the scan clean.
proof fn lemma_scan_clean(lines: Seq<Seq<char>>)
    ensures
        scan_clean(gm_scan(lines)),
    decreases lines.len(),
{
    if lines.len() > 0 {
        lemma_scan_clean(lines.drop_last());
        let st = gm_scan(lines.drop_last());
        let line = trim(lines.last());
        if line.len() == 0 || line[0] == '#' || line[0] == ';' {
        } else if line[0] == '[' {
            lemma_flush_clean(st);
        } else if st.in_submodule {
            let k = find_char_from(line, '=', 0);
            if k < line.len() {
                let value = config_value_text(trim(line.subrange(k + 1, line.len() as int)));
                lemma_strip_end_clean(value);
            }
        }
    }
}

/// The paths `.gitmodules` maps are distinct (the first stanza for a path
/// wins) and none ends with a `/`.
pub proof fn lemma_gitmodules_paths_distinct(content: Seq<char>)
    ensures
        distinct_clean_paths(gitmodules_entries(content)),
{
    let lines = split_char(content, '\n');
    lemma_scan_clean(lines);
    lemma_flush_clean(gm_scan(lines));
}

} // verus!
