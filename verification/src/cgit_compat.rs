//! cgit-style URL compatibility redirects.
//!
//! Historical and external links point at cgit's URL shapes
//! (`/{repo}.git/commit/?id={sha}`, `/{repo}.git/log/?h={ref}`, a bare
//! `/{repo}.git`, ...). A handful of core shapes are recognised and
//! answered with a permanent redirect to the matching axgit URL; everything
//! else, including any shape that already is a valid axgit route, is left
//! alone. Query values are never percent-decoded: anything copied into the
//! `Location` is copied verbatim from the request.
use vstd::prelude::*;

use crate::text::{
    chars_eq, chars_of, find_char, find_char_from, is_hex_char, is_suffix, lacks, lemma_find_char_from_bounds,
    lemma_find_char_is, lemma_join_front, lemma_join_lacks, lemma_segs_of_join, lemma_segs_shape,
    lemma_split_pieces_lack, path_segments, push_all, push_joined, join_with, push_str_chars, segments_of,
    slice_chars, split_char, split_chars, split_from, string_of, ends_with_chars,
};

verus! {

/// The value `key` has in `pieces[i..]`, the `&`-separated pairs of a raw
/// query: the first pair holding a `=` whose text before it is `key`.
pub open spec fn lookup_from(pieces: Seq<Seq<char>>, key: Seq<char>, i: int) -> Option<Seq<char>>
    decreases pieces.len() - i,
{
    if i < 0 || i >= pieces.len() {
        None
    } else {
        let p = pieces[i];
        let e = find_char_from(p, '=', 0);
        if e < p.len() && p.subrange(0, e) == key {
            Some(p.subrange(e + 1, p.len() as int))
        } else {
            lookup_from(pieces, key, i + 1)
        }
    }
}

/// The raw value of `key` in the query string `query`.
pub open spec fn query_lookup(query: Seq<char>, key: Seq<char>) -> Option<Seq<char>> {
    lookup_from(split_char(query, '&'), key, 0)
}

/// Finds `key=value` in a raw (still percent-encoded) query string.
pub fn query_value(query: &str, key: &str) -> (r: Option<String>)
    ensures
        match query_lookup(query@, key@) {
            Some(v) => r matches Some(s) && s@ == v,
            None => r is None,
        },
{
    let q = chars_of(query);
    let k = chars_of(key);
    let pieces = split_chars(q.as_slice(), '&');
    let ghost pv = pieces.deep_view();
    let mut i: usize = 0;
    while i < pieces.len()
        invariant
            i <= pieces@.len(),
            pv == pieces.deep_view(),
            pv == split_char(query@, '&'),
            k@ == key@,
            lookup_from(pv, key@, 0) == lookup_from(pv, key@, i as int),
        decreases pieces@.len() - i,
    {
        let p = pieces[i].as_slice();
        assert(p@ == pv[i as int]);
        let e = find_char(p, '=', 0);
        if e < p.len() {
            let name = slice_chars(p, 0, e);
            if chars_eq(name.as_slice(), k.as_slice()) {
                return Some(string_of(&p[e + 1..p.len()]));
            }
        }
        i = i + 1;
    }
    None
}

/// A full or abbreviated hex object id: 4 to 64 hex digits.
pub open spec fn spec_looks_like_sha(v: Seq<char>) -> bool {
    4 <= v.len() <= 64 && forall|i: int| 0 <= i < v.len() ==> is_hex_char(#[trigger] v[i])
}

/// Whether `value` looks like a hex object id.
pub fn looks_like_sha(value: &str) -> (r: bool)
    ensures
        r == spec_looks_like_sha(value@),
{
    let v = chars_of(value);
    if v.len() < 4 || v.len() > 64 {
        return false;
    }
    let mut i: usize = 0;
    while i < v.len()
        invariant
            i <= v@.len(),
            v@ == value@,
            4 <= v@.len() <= 64,
            forall|j: int| 0 <= j < i ==> is_hex_char(#[trigger] v@[j]),
        decreases v@.len() - i,
    {
        let c = v[i];
        if !(('0' <= c && c <= '9') || ('a' <= c && c <= 'f') || ('A' <= c && c <= 'F')) {
            assert(!is_hex_char(v@[i as int]));
            return false;
        }
        i = i + 1;
    }
    true
}

/// `name` with a `.git` suffix removed, when that leaves something.
pub open spec fn strip_git(name: Seq<char>) -> Option<Seq<char>> {
    if is_suffix(".git"@, name) && name.len() > 4 {
        Some(name.subrange(0, name.len() - 4))
    } else {
        None
    }
}

/// Where a cgit-shaped request for `path` (with raw query `query`) is
/// redirected to, if anywhere.
pub open spec fn redirect_target(path: Seq<char>, query: Option<Seq<char>>) -> Option<Seq<char>> {
    let segs = path_segments(path);
    if segs.len() == 0 {
        None
    } else {
        let raw = segs[0];
        let rest = segs.drop_first();
        let stripped = strip_git(raw);
        let repo = match stripped {
            Some(n) => n,
            None => raw,
        };
        let q = match query {
            Some(q) => q,
            None => Seq::empty(),
        };
        let sha = match query_lookup(q, "id"@) {
            Some(v) => if spec_looks_like_sha(v) {
                Some(v)
            } else {
                None
            },
            None => None,
        };
        let ref_name = query_lookup(q, "h"@);
        let commit_or_diff = rest.len() == 1 && (rest[0] == "commit"@ || rest[0] == "diff"@);
        let is_log = rest.len() == 1 && rest[0] == "log"@;
        let is_refs = rest.len() == 1 && rest[0] == "refs"@;
        let specific = if commit_or_diff {
            match sha {
                Some(s) => Some("/"@ + repo + "/commit/"@ + s),
                None => None,
            }
        } else if is_log {
            match ref_name {
                Some(h) => Some("/"@ + repo + "/log?ref="@ + h),
                None => None,
            }
        } else {
            None
        };
        let target = match specific {
            Some(t) => Some(t),
            None => if stripped is None {
                None
            } else if rest.len() == 0 {
                Some("/"@ + repo)
            } else if is_refs {
                Some("/"@ + repo + "/refs"@)
            } else if q.len() == 0 {
                Some("/"@ + repo + "/"@ + join_with(rest, '/'))
            } else {
                Some("/"@ + repo + "/"@ + join_with(rest, '/') + "?"@ + q)
            },
        };
        let current = match query {
            Some(q) => path + "?"@ + q,
            None => path,
        };
        match target {
            Some(t) => if t == current {
                None
            } else {
                Some(t)
            },
            None => None,
        }
    }
}

/// Returns the absolute path (plus query) to redirect a cgit-shaped request
/// to, or `None` when `path`/`query` match no recognised shape, including
/// when they already are a valid axgit route.
pub fn redirect_for(path: &str, query: Option<&str>) -> (r: Option<String>)
    ensures
        match redirect_target(path@, match query {
            Some(q) => Some(q@),
            None => None,
        }) {
            Some(t) => r matches Some(s) && s@ == t,
            None => r is None,
        },
{
    let pv = chars_of(path);
    let segs = segments_of(pv.as_slice());
    let ghost sv = segs.deep_view();
    if segs.len() == 0 {
        return None;
    }
    let raw = segs[0].as_slice();
    assert(raw@ == sv[0]);
    let ghost rest = sv.drop_first();
    let git = chars_of(".git");
    proof {
        reveal_strlit(".git");
    }
    let stripped = ends_with_chars(raw, git.as_slice()) && raw.len() > 4;
    let repo: Vec<char> = if stripped {
        slice_chars(raw, 0, raw.len() - 4)
    } else {
        slice_chars(raw, 0, raw.len())
    };
    assert(raw@.subrange(0, raw@.len() as int) == raw@);
    let qv: Vec<char> = match query {
        Some(q) => chars_of(q),
        None => Vec::new(),
    };
    let qs = string_of(qv.as_slice());
    let sha = match query_value(qs.as_str(), "id") {
        Some(v) => if looks_like_sha(v.as_str()) {
            Some(v)
        } else {
            None
        },
        None => None,
    };
    let ref_name = query_value(qs.as_str(), "h");
    let n = segs.len();
    let one_rest = n == 2;
    let commit_or_diff = one_rest && (chars_eq(segs[1].as_slice(), chars_of("commit").as_slice())
        || chars_eq(segs[1].as_slice(), chars_of("diff").as_slice()));
    let is_log = one_rest && chars_eq(segs[1].as_slice(), chars_of("log").as_slice());
    let is_refs = one_rest && chars_eq(segs[1].as_slice(), chars_of("refs").as_slice());
    proof {
        if n == 2 {
            assert(rest[0] == segs@[1]@);
        }
    }
    let mut out: Vec<char> = Vec::new();
    let mut found = false;
    if commit_or_diff {
        if let Some(s) = &sha {
            push_str_chars(&mut out, "/");
            push_all(&mut out, repo.as_slice());
            push_str_chars(&mut out, "/commit/");
            push_str_chars(&mut out, s.as_str());
            found = true;
        }
    } else if is_log {
        if let Some(h) = &ref_name {
            push_str_chars(&mut out, "/");
            push_all(&mut out, repo.as_slice());
            push_str_chars(&mut out, "/log?ref=");
            push_str_chars(&mut out, h.as_str());
            found = true;
        }
    }
    if !found {
        if !stripped {
            return None;
        }
        push_str_chars(&mut out, "/");
        push_all(&mut out, repo.as_slice());
        if n == 1 {
        } else if is_refs {
            push_str_chars(&mut out, "/refs");
        } else {
            push_str_chars(&mut out, "/");
            push_joined(&mut out, &segs, 1, '/');
            assert(sv.subrange(1, n as int) == rest);
            if qv.len() > 0 {
                push_str_chars(&mut out, "?");
                push_all(&mut out, qv.as_slice());
            }
        }
    }
    let mut current: Vec<char> = Vec::new();
    push_all(&mut current, pv.as_slice());
    if let Some(q) = query {
        push_str_chars(&mut current, "?");
        push_str_chars(&mut current, q);
    }
    if chars_eq(out.as_slice(), current.as_slice()) {
        None
    } else {
        Some(string_of(out.as_slice()))
    }
}


/// The path of a request target: what comes before its first `?`.
pub open spec fn target_path(t: Seq<char>) -> Seq<char> {
    t.subrange(0, find_char_from(t, '?', 0))
}

/// The raw query of a request target: what follows its first `?`, if it
/// has one.
pub open spec fn target_query(t: Seq<char>) -> Option<Seq<char>> {
    let q = find_char_from(t, '?', 0);
    if q < t.len() {
        Some(t.subrange(q + 1, t.len() as int))
    } else {
        None
    }
}

/// A value looked up among pieces that lack `c` lacks `c`.
proof fn lemma_lookup_lacks(pieces: Seq<Seq<char>>, key: Seq<char>, i: int, c: char)
    requires
        forall|j: int| 0 <= j < pieces.len() ==> lacks(#[trigger] pieces[j], c),
    ensures
        lookup_from(pieces, key, i) matches Some(v) ==> lacks(v, c),
    decreases pieces.len() - i,
{
    if 0 <= i < pieces.len() {
        let p = pieces[i];
        assert(lacks(p, c));
        let e = find_char_from(p, '=', 0);
        lemma_find_char_from_bounds(p, '=', 0);
        if e < p.len() && p.subrange(0, e) == key {
            let v = p.subrange(e + 1, p.len() as int);
            assert forall|k: int| 0 <= k < v.len() implies v[k] != c by {
                assert(v[k] == p[e + 1 + k]);
            }
        } else {
            lemma_lookup_lacks(pieces, key, i + 1, c);
        }
    }
}

/// A value of `key` in a raw query lacks `&`.
proof fn lemma_query_value_lacks_amp(query: Seq<char>, key: Seq<char>)
    ensures
        query_lookup(query, key) matches Some(v) ==> lacks(v, '&'),
{
    lemma_split_pieces_lack(query, '&', 0);
    lemma_lookup_lacks(split_char(query, '&'), key, 0, '&');
}

/// The query `ref=` and a value without `&` holds no `h`.
proof fn lemma_ref_query_has_no_h(h: Seq<char>)
    requires
        lacks(h, '&'),
    ensures
        query_lookup("ref="@ + h, "h"@) is None,
{
    reveal_strlit("ref=");
    reveal_strlit("h");
    let x = "ref="@ + h;
    assert forall|j: int| 0 <= j < x.len() implies x[j] != '&' by {
        if j >= 4 {
            assert(x[j] == h[j - 4]);
        }
    }
    lemma_find_char_is(x, '&', 0, x.len() as int);
    assert(x.subrange(0, x.len() as int) =~= x);
    assert(split_char(x, '&') == seq![x]);
    assert(x[3] == '=');
    lemma_find_char_is(x, '=', 0, 3);
    assert(x.subrange(0, 3).len() != "h"@.len());
    assert(lookup_from(seq![x], "h"@, 1) is None);
}

/// Splitting `p + "?" + q`, where `p` lacks `?`, gives back `p` and `q`.
proof fn lemma_split_target(p: Seq<char>, q: Option<Seq<char>>)
    requires
        lacks(p, '?'),
    ensures
        ({
            let t = match q {
                Some(v) => p + "?"@ + v,
                None => p,
            };
            target_path(t) == p && target_query(t) == q
        }),
{
    reveal_strlit("?");
    match q {
        Some(v) => {
            let t = p + "?"@ + v;
            assert forall|j: int| 0 <= j < p.len() implies t[j] != '?' by {
                assert(t[j] == p[j]);
            }
            assert(t[p.len() as int] == '?');
            lemma_find_char_is(t, '?', 0, p.len() as int);
            assert(t.subrange(0, p.len() as int) =~= p);
            assert(t.subrange(p.len() as int + 1, t.len() as int) =~= v);
        },
        None => {
            lemma_find_char_is(p, '?', 0, p.len() as int);
            assert(p.subrange(0, p.len() as int) =~= p);
        },
    }
}

/// `"/"` and pieces joined by `/` has the pieces as its path segments and
/// lacks `?` when they do.
proof fn lemma_joined_path(parts: Seq<Seq<char>>)
    requires
        parts.len() >= 1,
        forall|j: int|
            0 <= j < parts.len() ==> (#[trigger] parts[j]).len() > 0 && lacks(parts[j], '/') && lacks(
                parts[j],
                '?',
            ),
    ensures
        path_segments("/"@ + join_with(parts, '/')) == parts,
        lacks("/"@ + join_with(parts, '/'), '?'),
{
    reveal_strlit("/");
    let t = "/"@ + join_with(parts, '/');
    assert(t =~= seq!['/'] + join_with(parts, '/'));
    assert(t.subrange(0, t.len() as int) =~= t);
    lemma_segs_of_join(t, 0, parts);
    lemma_join_lacks(parts, '/', '?');
    let j = join_with(parts, '/');
    assert forall|k: int| 0 <= k < t.len() implies t[k] != '?' by {
        if k > 0 {
            assert(t[k] == j[k - 1]);
        }
    }
}

/// A request whose first segment `repo` has no `.git` to strip, and whose
/// other segments and query name neither a commit nor a log to look up,
/// is not redirected.
proof fn lemma_no_redirect(tp: Seq<char>, tq: Option<Seq<char>>, repo: Seq<char>, rest: Seq<Seq<char>>)
    requires
        path_segments(tp) == seq![repo] + rest,
        strip_git(repo) is None,
        ({
            let q = match tq {
                Some(v) => v,
                None => Seq::empty(),
            };
            &&& rest.len() == 1 && (rest[0] == "commit"@ || rest[0] == "diff"@) ==> match query_lookup(
                q,
                "id"@,
            ) {
                Some(v) => !spec_looks_like_sha(v),
                None => true,
            }
            &&& rest.len() == 1 && rest[0] == "log"@ ==> query_lookup(q, "h"@) is None
        }),
    ensures
        redirect_target(tp, tq) is None,
{
    let segs = path_segments(tp);
    assert(segs[0] == repo);
    assert(segs.drop_first() =~= rest);
}

/// A redirect's target is answered without a further redirect, so that
/// following redirects never loops: for a request path that holds no `?`
/// (as no HTTP path does) and whose first segment, with one `.git` taken
/// off, does not end in `.git` again.
#[verifier::rlimit(40)]
pub proof fn lemma_redirect_settles(path: Seq<char>, query: Option<Seq<char>>)
    requires
        lacks(path, '?'),
        redirect_target(path, query) is Some,
        strip_git(path_segments(path)[0]) matches Some(n) ==> strip_git(n) is None,
    ensures
        redirect_target(
            target_path(redirect_target(path, query).unwrap()),
            target_query(redirect_target(path, query).unwrap()),
        ) is None,
{
    reveal_strlit("/");
    reveal_strlit("commit");
    reveal_strlit("diff");
    reveal_strlit("log");
    reveal_strlit("refs");
    reveal_strlit("/commit/");
    reveal_strlit("/log?ref=");
    reveal_strlit("/log");
    reveal_strlit("/refs");
    reveal_strlit("?");
    reveal_strlit("ref=");
    let segs = path_segments(path);
    lemma_segs_shape(path, 0, '?');
    let raw = segs[0];
    let rest = segs.drop_first();
    let stripped = strip_git(raw);
    let repo = match stripped {
        Some(n) => n,
        None => raw,
    };
    assert(raw.len() > 0 && lacks(raw, '/') && lacks(raw, '?'));
    assert(repo.len() > 0 && lacks(repo, '/') && lacks(repo, '?')) by {
        if stripped is Some {
            assert forall|k: int| 0 <= k < repo.len() implies repo[k] != '/' && repo[k] != '?' by {
                assert(repo[k] == raw[k]);
            }
        }
    }
    assert(strip_git(repo) is None);
    assert forall|j: int| 0 <= j < rest.len() implies (#[trigger] rest[j]).len() > 0 && lacks(rest[j], '/')
        && lacks(rest[j], '?') by {
        assert(rest[j] == segs[j + 1]);
    }
    let q = match query {
        Some(q) => q,
        None => Seq::empty(),
    };
    let sha = match query_lookup(q, "id"@) {
        Some(v) => if spec_looks_like_sha(v) {
            Some(v)
        } else {
            None
        },
        None => None,
    };
    let ref_name = query_lookup(q, "h"@);
    let commit_or_diff = rest.len() == 1 && (rest[0] == "commit"@ || rest[0] == "diff"@);
    let is_log = rest.len() == 1 && rest[0] == "log"@;
    let is_refs = rest.len() == 1 && rest[0] == "refs"@;
    assert("log"@ != "commit"@ && "log"@ != "diff"@) by {
        assert("log"@.len() != "commit"@.len() && "log"@.len() != "diff"@.len());
    }
    assert("refs"@ != "commit"@ && "refs"@ != "log"@) by {
        assert("refs"@.len() != "commit"@.len() && "refs"@.len() != "log"@.len());
    }
    assert("refs"@ != "diff"@) by {
        assert("refs"@[0] != "diff"@[0]);
    }
    let t = redirect_target(path, query).unwrap();
    if commit_or_diff && sha is Some {
        let s = sha.unwrap();
        assert(lacks(s, '/') && lacks(s, '?')) by {
            assert forall|k: int| 0 <= k < s.len() implies s[k] != '/' && s[k] != '?' by {
                assert(is_hex_char(s[k]));
            }
        }
        let parts = seq![repo, "commit"@, s];
        lemma_join_front("commit"@, seq![s], '/');
        assert(seq!["commit"@, s] =~= seq!["commit"@] + seq![s]);
        lemma_join_front(repo, seq!["commit"@, s], '/');
        assert(parts =~= seq![repo] + seq!["commit"@, s]);
        assert(join_with(seq![s], '/') == s);
        assert(t =~= "/"@ + join_with(parts, '/'));
        lemma_joined_path(parts);
        lemma_split_target(t, None);
        lemma_no_redirect(t, None, repo, seq!["commit"@, s]);
    } else if is_log && ref_name is Some {
        let h = ref_name.unwrap();
        lemma_query_value_lacks_amp(q, "h"@);
        let parts = seq![repo, "log"@];
        lemma_join_front(repo, seq!["log"@], '/');
        assert(parts =~= seq![repo] + seq!["log"@]);
        let tp = "/"@ + join_with(parts, '/');
        assert(tp =~= "/"@ + repo + "/log"@);
        assert(t =~= tp + "?"@ + ("ref="@ + h));
        lemma_joined_path(parts);
        lemma_split_target(tp, Some("ref="@ + h));
        lemma_ref_query_has_no_h(h);
        lemma_no_redirect(tp, Some("ref="@ + h), repo, seq!["log"@]);
    } else {
        assert(stripped is Some);
        if rest.len() == 0 {
            let parts = seq![repo];
            assert(t =~= "/"@ + join_with(parts, '/'));
            lemma_joined_path(parts);
            lemma_split_target(t, None);
            assert(parts =~= seq![repo] + Seq::<Seq<char>>::empty());
            lemma_no_redirect(t, None, repo, Seq::<Seq<char>>::empty());
        } else if is_refs {
            let parts = seq![repo, "refs"@];
            lemma_join_front(repo, seq!["refs"@], '/');
            assert(parts =~= seq![repo] + seq!["refs"@]);
            assert(t =~= "/"@ + join_with(parts, '/'));
            lemma_joined_path(parts);
            lemma_split_target(t, None);
            lemma_no_redirect(t, None, repo, seq!["refs"@]);
        } else {
            let parts = seq![repo] + rest;
            lemma_join_front(repo, rest, '/');
            assert forall|j: int| 0 <= j < parts.len() implies (#[trigger] parts[j]).len() > 0 && lacks(
                parts[j],
                '/',
            ) && lacks(parts[j], '?') by {
                if j > 0 {
                    assert(parts[j] == rest[j - 1]);
                }
            }
            let tp = "/"@ + join_with(parts, '/');
            lemma_joined_path(parts);
            if q.len() == 0 {
                assert(t =~= tp);
                lemma_split_target(tp, None);
                assert(q =~= Seq::<char>::empty());
                lemma_no_redirect(tp, None, repo, rest);
            } else {
                assert(t =~= tp + "?"@ + q);
                lemma_split_target(tp, Some(q));
                lemma_no_redirect(tp, Some(q), repo, rest);
            }
        }
    }
}

} // verus!
