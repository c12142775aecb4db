//! The response cache's rules: freshness validators and the strong `ETag`
//! derived from them, `If-None-Match` evaluation, which entries may be
//! served without touching the repository, and what a fresh response
//! stores. The cache itself (an LRU keyed by repository, endpoint and
//! parameters) is driven by the caller, which asks these functions at each
//! step.
use vstd::prelude::*;

use crate::hex::{hex_of, push_hex, sha256, sha256_digest};
use crate::num::{decimal, push_decimal};
use crate::text::{
    chars_of, chars_eq, is_hex_char, is_prefix, push_str_chars, split_char, split_chars, string_of, trim,
    trim_chars,
};

verus! {

/// Bodies above this size are served but never cached, so one huge diff
/// cannot evict the rest of the cache.
pub const MAX_CACHEABLE_BODY: usize = 1048576;

/// `Cache-Control` for responses addressed by a full commit sha.
pub const IMMUTABLE_CACHE_CONTROL: &'static str = "public, max-age=31536000, immutable";

/// `Cache-Control` for validator-based responses: clients may store them but
/// must revalidate with `If-None-Match`.
pub const NO_CACHE_CONTROL: &'static str = "no-cache";

/// Response cache key: repository, a static endpoint tag, and the
/// endpoint's normalized parameter string.
#[derive(Clone, Hash, PartialEq, Eq, Debug)]
pub struct ResponseKey {
    pub repo: String,
    pub endpoint: String,
    pub params: String,
}

/// Freshness validator: a cached entry is served only while the repository
/// still produces the same validator, so a push (a HEAD move or an agefile
/// touch) invalidates it at once.
#[derive(Clone, Debug)]
pub struct Validator {
    /// HEAD commit id, lowercase hex; `None` for an unborn HEAD.
    pub head: Option<String>,
    /// The agefile's mtime as `(seconds, nanoseconds)` since the Unix
    /// epoch; `None` when there is no agefile.
    pub agefile_mtime: Option<(u64, u32)>,
}

/// The view of an optional string.
pub open spec fn head_view(o: Option<String>) -> Option<Seq<char>> {
    match o {
        Some(s) => Some(s@),
        None => None,
    }
}

/// Whether two validators describe the same repository state.
pub open spec fn same_state(a: Validator, b: Validator) -> bool {
    head_view(a.head) == head_view(b.head) && a.agefile_mtime == b.agefile_mtime
}

/// Whether two validators describe the same repository state.
pub fn same_validator(a: &Validator, b: &Validator) -> (r: bool)
    ensures
        r == same_state(*a, *b),
{
    let heads = match (&a.head, &b.head) {
        (Some(x), Some(y)) => crate::text::str_eq(x.as_str(), y.as_str()),
        (None, None) => true,
        _ => false,
    };
    heads && match (a.agefile_mtime, b.agefile_mtime) {
        (Some(x), Some(y)) => x.0 == y.0 && x.1 == y.1,
        (None, None) => true,
        _ => false,
    }
}

/// The `ETag` text of a validator: `"<head>-<mtime>"`, with `unborn` for
/// a missing HEAD and `0` for a missing agefile, the mtime written as
/// `<seconds>.<nanoseconds>`.
pub open spec fn etag_text(v: Validator) -> Seq<char> {
    seq!['"'] + etag_head(v) + seq!['-'] + etag_mtime(v) + seq!['"']
}

/// The HEAD part of an `ETag`: the commit id, or `unborn`.
pub open spec fn etag_head(v: Validator) -> Seq<char> {
    match v.head {
        Some(h) => h@,
        None => "unborn"@,
    }
}

/// The modification-time part of an `ETag`: `<seconds>.<nanoseconds>`,
/// or `0` without an agefile.
pub open spec fn etag_mtime(v: Validator) -> Seq<char> {
    match v.agefile_mtime {
        Some((s, n)) => decimal(s as nat) + seq!['.'] + decimal(n as nat),
        None => seq!['0'],
    }
}

/// Strong `ETag` derived from the freshness validator; opaque to clients.
pub fn validator_etag(validator: &Validator) -> (r: String)
    ensures
        r@ == etag_text(*validator),
{
    let mut out: Vec<char> = Vec::new();
    out.push('"');
    match &validator.head {
        Some(h) => push_str_chars(&mut out, h.as_str()),
        None => {
            push_str_chars(&mut out, "unborn");
        },
    }
    out.push('-');
    match validator.agefile_mtime {
        Some((s, n)) => {
            push_decimal(&mut out, s);
            out.push('.');
            push_decimal(&mut out, n as u64);
        },
        None => {
            out.push('0');
        },
    }
    out.push('"');
    string_of(out.as_slice())
}

/// A validator whose HEAD, when present, is written in hex digits (as every
/// object id is).
pub open spec fn hex_head(v: Validator) -> bool {
    v.head matches Some(h) ==> forall|i: int| 0 <= i < h@.len() ==> is_hex_char(#[trigger] h@[i])
}

/// `x`, a separator `c`, then `y`, where `x` holds no `c`, splits one way
/// only.
proof fn lemma_split_at_first(x: Seq<char>, y: Seq<char>, x2: Seq<char>, y2: Seq<char>, c: char)
    requires
        !x.contains(c),
        !x2.contains(c),
        x + seq![c] + y == x2 + seq![c] + y2,
    ensures
        x == x2,
        y == y2,
{
    let t = x + seq![c] + y;
    let t2 = x2 + seq![c] + y2;
    if x.len() < x2.len() {
        assert(t[x.len() as int] == c);
        assert(t2[x.len() as int] == x2[x.len() as int]);
        assert(x2.contains(x2[x.len() as int]));
    } else if x2.len() < x.len() {
        assert(t2[x2.len() as int] == c);
        assert(t[x2.len() as int] == x[x2.len() as int]);
        assert(x.contains(x[x2.len() as int]));
    }
    assert(x =~= t.subrange(0, x.len() as int));
    assert(x2 =~= t2.subrange(0, x2.len() as int));
    assert(y =~= t.subrange(x.len() as int + 1, t.len() as int));
    assert(y2 =~= t2.subrange(x2.len() as int + 1, t2.len() as int));
}

/// A decimal holds no character but digits.
proof fn lemma_decimal_digits(n: nat, c: char)
    requires
        !crate::num::is_digit(c),
    ensures
        !decimal(n).contains(c),
{
    crate::num::lemma_decimal(n);
    if decimal(n).contains(c) {
        let i = choose|i: int| 0 <= i < decimal(n).len() && #[trigger] decimal(n)[i] == c;
        assert(crate::num::is_digit(decimal(n)[i]));
    }
}

/// Decimals of different numbers differ.
proof fn lemma_decimal_injective(a: nat, b: nat)
    requires
        decimal(a) == decimal(b),
    ensures
        a == b,
{
    crate::num::lemma_parse_decimal(a, (a + b) as int);
    crate::num::lemma_parse_decimal(b, (a + b) as int);
}

/// Two repository states get the same `ETag` exactly when they are the same
/// state, so a client's stored `ETag` stops matching as soon as HEAD moves
/// or the agefile is touched. Heads are object ids, written in hex.
pub proof fn lemma_validator_etag_distinguishes(a: Validator, b: Validator)
    requires
        hex_head(a),
        hex_head(b),
    ensures
        (etag_text(a) == etag_text(b)) <==> same_state(a, b),
{
    reveal_strlit("unborn");
    if etag_text(a) == etag_text(b) {
        let ta = etag_text(a);
        let tb = etag_text(b);
        let ia = etag_head(a) + seq!['-'] + etag_mtime(a);
        let ib = etag_head(b) + seq!['-'] + etag_mtime(b);
        assert(ia =~= ta.subrange(1, ta.len() - 1));
        assert(ib =~= tb.subrange(1, tb.len() - 1));
        assert(!etag_head(a).contains('-')) by {
            if etag_head(a).contains('-') {
                let i = choose|i: int| 0 <= i < etag_head(a).len() && #[trigger] etag_head(a)[i] == '-';
                if a.head is None {
                    assert(etag_head(a) == seq!['u', 'n', 'b', 'o', 'r', 'n']);
                }
            }
        }
        assert(!etag_head(b).contains('-')) by {
            if etag_head(b).contains('-') {
                let i = choose|i: int| 0 <= i < etag_head(b).len() && #[trigger] etag_head(b)[i] == '-';
                if b.head is None {
                    assert(etag_head(b) == seq!['u', 'n', 'b', 'o', 'r', 'n']);
                }
            }
        }
        lemma_split_at_first(etag_head(a), etag_mtime(a), etag_head(b), etag_mtime(b), '-');
        // Heads: "unborn" is no hex text.
        if a.head is None && b.head is Some {
            assert(etag_head(b)[0] == 'u');
            assert(is_hex_char(etag_head(b)[0]));
        }
        if b.head is None && a.head is Some {
            assert(etag_head(a)[0] == 'u');
            assert(is_hex_char(etag_head(a)[0]));
        }
        assert(head_view(a.head) == head_view(b.head));
        // Modification times: "0" holds no '.', a written time does.
        match (a.agefile_mtime, b.agefile_mtime) {
            (Some((sa, na)), Some((sb, nb))) => {
                lemma_decimal_digits(sa as nat, '.');
                lemma_decimal_digits(sb as nat, '.');
                lemma_split_at_first(decimal(sa as nat), decimal(na as nat), decimal(sb as nat), decimal(nb as nat), '.');
                lemma_decimal_injective(sa as nat, sb as nat);
                lemma_decimal_injective(na as nat, nb as nat);
            },
            (Some((sa, na)), None) => {
                crate::num::lemma_decimal(sa as nat);
                assert(etag_mtime(a).len() > 1);
            },
            (None, Some((sb, nb))) => {
                crate::num::lemma_decimal(sb as nat);
                assert(etag_mtime(b).len() > 1);
            },
            (None, None) => {},
        }
    }
}

// ---------------------------------------------------------------------------
// If-None-Match
// ---------------------------------------------------------------------------

/// An entity tag with any `W/` (weak) prefix removed.
pub open spec fn weak_tag(t: Seq<char>) -> Seq<char> {
    if is_prefix("W/"@, t) {
        t.skip(2)
    } else {
        t
    }
}

/// Whether one `If-None-Match` candidate matches `etag` under the weak
/// comparison: `*`, or equal tags once `W/` prefixes are ignored.
pub open spec fn candidate_matches(candidate: Seq<char>, etag: Seq<char>) -> bool {
    candidate == "*"@ || weak_tag(candidate) == weak_tag(etag)
}

/// Whether any comma-separated, trimmed candidate of any of the header
/// `values` matches `etag`.
pub open spec fn header_matches(values: Seq<Seq<char>>, etag: Seq<char>) -> bool {
    exists|i: int, j: int|
        0 <= i < values.len() && 0 <= j < split_char(values[i], ',').len() && candidate_matches(
            trim(#[trigger] split_char(values[i], ',')[j]),
            etag,
        )
}

/// `t` with a `W/` prefix removed.
fn strip_weak(t: &[char]) -> (r: Vec<char>)
    ensures
        r@ == weak_tag(t@),
{
    let w = chars_of("W/");
    if crate::text::starts_with_chars(t, w.as_slice()) {
        proof {
            reveal_strlit("W/");
        }
        crate::text::slice_chars(t, 2, t.len())
    } else {
        crate::text::slice_chars(t, 0, t.len())
    }
}

/// Whether the request's `If-None-Match` header values match `etag`, using
/// the weak comparison RFC 9110 prescribes for 304 evaluation. `values` are
/// the header's values that are visible ASCII, in order.
pub fn if_none_match(values: &[String], etag: &str) -> (r: bool)
    ensures
        r == header_matches(values.deep_view(), etag@),
{
    let ghost vs = values.deep_view();
    let e = chars_of(etag);
    let own = strip_weak(e.as_slice());
    let star = chars_of("*");
    let mut i: usize = 0;
    while i < values.len()
        invariant
            i <= values@.len(),
            vs == values.deep_view(),
            own@ == weak_tag(etag@),
            star@ == "*"@,
            forall|a: int, b: int|
                0 <= a < i && 0 <= b < split_char(vs[a], ',').len() ==> !candidate_matches(
                    trim(#[trigger] split_char(vs[a], ',')[b]),
                    etag@,
                ),
        decreases values@.len() - i,
    {
        let v = chars_of(values[i].as_str());
        assert(v@ == vs[i as int]);
        let pieces = split_chars(v.as_slice(), ',');
        let mut j: usize = 0;
        while j < pieces.len()
            invariant
                i < values@.len(),
                j <= pieces@.len(),
                vs == values.deep_view(),
                v@ == vs[i as int],
                pieces.deep_view() == split_char(vs[i as int], ','),
                own@ == weak_tag(etag@),
                star@ == "*"@,
                forall|b: int|
                    0 <= b < j ==> !candidate_matches(
                        trim(#[trigger] split_char(vs[i as int], ',')[b]),
                        etag@,
                    ),
            decreases pieces@.len() - j,
        {
            assert(pieces@[j as int]@ == split_char(vs[i as int], ',')[j as int]);
            let c = trim_chars(pieces[j].as_slice());
            if chars_eq(c.as_slice(), star.as_slice()) {
                return true;
            }
            let w = strip_weak(c.as_slice());
            if chars_eq(w.as_slice(), own.as_slice()) {
                return true;
            }
            j = j + 1;
        }
        i = i + 1;
    }
    false
}

// ---------------------------------------------------------------------------
// The cached-response flow
// ---------------------------------------------------------------------------

/// What the cache holds about one entry besides its body.
#[derive(Clone, Debug)]
pub struct CacheEntryMeta {
    /// `None` marks a sha-addressed immutable entry.
    pub validator: Option<Validator>,
    /// Present exactly when `validator` is.
    pub etag: Option<String>,
}

impl CacheEntryMeta {
    /// An entry carries an `ETag` exactly when it carries a validator.
    pub open spec fn wf(self) -> bool {
        self.validator is Some <==> self.etag is Some
    }
}

/// Whether a cache lookup can be answered without opening the repository:
/// an immutable (sha-addressed) entry is.
pub fn serve_without_repository(entry: Option<&CacheEntryMeta>) -> (r: bool)
    ensures
        r == (entry matches Some(e) && e.validator is None),
{
    match entry {
        Some(e) => e.validator.is_none(),
        None => false,
    }
}

/// Whether a cached entry still matches the repository: it carries a
/// validator equal to the one just read.
pub fn entry_still_valid(entry: Option<&CacheEntryMeta>, current: &Validator) -> (r: bool)
    ensures
        r == (entry matches Some(e) && e.validator matches Some(v) && same_state(v, *current)),
{
    match entry {
        Some(e) => match &e.validator {
            Some(v) => same_validator(v, current),
            None => false,
        },
        None => false,
    }
}

/// How a response goes out.
#[derive(Clone, Copy, PartialEq, Eq, Debug, Structural)]
pub enum Delivery {
    /// 200 with the immutable `Cache-Control` and no `ETag`.
    Immutable,
    /// 200 with the `ETag` and `no-cache`.
    Tagged,
    /// 304 with the `ETag` and `no-cache`, no body.
    NotModified,
}

/// How a response with `etag` (none for an immutable one) goes out to a
/// request with the given `If-None-Match` values.
pub fn delivery(etag: Option<&str>, if_none_match_values: &[String]) -> (r: Delivery)
    ensures
        match etag {
            None => r == Delivery::Immutable,
            Some(t) => if header_matches(if_none_match_values.deep_view(), t@) {
                r == Delivery::NotModified
            } else {
                r == Delivery::Tagged
            },
        },
{
    match etag {
        None => Delivery::Immutable,
        Some(t) => if if_none_match(if_none_match_values, t) {
            Delivery::NotModified
        } else {
            Delivery::Tagged
        },
    }
}

/// The `ETag` a freshly computed response carries: none when it addressed
/// an immutable resource, else the one of the validator just read.
pub fn fresh_etag(current: &Validator, immutable: bool) -> (r: Option<String>)
    ensures
        immutable ==> r is None,
        !immutable ==> (r matches Some(t) && t@ == etag_text(*current)),
{
    if immutable {
        None
    } else {
        Some(validator_etag(current))
    }
}

/// What the cache stores beside a freshly computed body: the validator just
/// read and its `ETag`, or neither for an immutable resource.
pub fn entry_meta(current: &Validator, immutable: bool) -> (r: CacheEntryMeta)
    ensures
        r.wf(),
        immutable ==> r.validator is None,
        !immutable ==> (r.validator matches Some(v) && same_state(v, *current)),
        !immutable ==> (r.etag matches Some(t) && t@ == etag_text(*current)),
{
    if immutable {
        CacheEntryMeta { validator: None, etag: None }
    } else {
        let v = Validator { head: current.head.clone(), agefile_mtime: current.agefile_mtime };
        CacheEntryMeta { validator: Some(v), etag: Some(validator_etag(current)) }
    }
}

/// Whether a freshly computed body is stored in the cache.
pub fn should_store(body_len: usize) -> (r: bool)
    ensures
        r == (body_len <= MAX_CACHEABLE_BODY),
{
    body_len <= MAX_CACHEABLE_BODY
}

/// The weight of one cache entry: its key's text, its body, and a fixed
/// overhead, saturating at `u32::MAX`.
pub fn entry_weight(repo_len: usize, params_len: usize, body_len: usize) -> (r: u32)
    ensures
        r as int == if repo_len + params_len + body_len + 200 <= u32::MAX {
            repo_len + params_len + body_len + 200
        } else {
            u32::MAX as int
        },
{
    let total: u128 = repo_len as u128 + params_len as u128 + body_len as u128 + 200;
    if total <= 4294967295u128 {
        total as u32
    } else {
        u32::MAX
    }
}

/// Whether the repository-scan snapshot taken `elapsed_nanos` ago may still
/// be served under a time-to-live of `ttl_nanos`.
pub fn snapshot_is_fresh(elapsed_nanos: u128, ttl_nanos: u128) -> (r: bool)
    ensures
        r == (elapsed_nanos < ttl_nanos),
{
    elapsed_nanos < ttl_nanos
}

/// The `ETag` text of a body: its SHA-256 digest in lowercase hex, quoted.
pub open spec fn body_etag_text(body: Seq<u8>) -> Seq<char> {
    seq!['"'] + hex_of(sha256_digest(body)) + seq!['"']
}

/// Strong `ETag` from the response body, for responses without a single
/// backing repository (the repository list).
pub fn body_etag(body: &[u8]) -> (r: String)
    ensures
        r@ == body_etag_text(body@),
{
    let d = sha256(body);
    let mut out: Vec<char> = Vec::new();
    out.push('"');
    push_hex(&mut out, d.as_slice());
    out.push('"');
    string_of(out.as_slice())
}

} // verus!
