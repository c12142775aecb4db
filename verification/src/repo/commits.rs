//! Commit log: the response shapes, the opaque pagination cursor, the
//! author's avatar seed, and the bookkeeping of a log walk (the path
//! filter, rename following, skipping, and the page limit). The walk itself
//! runs in the caller, which reads each commit and hands this module the
//! facts it decides on.
use vstd::prelude::*;

use crate::hex::{hex_of, push_hex, sha256, sha256_digest};
use crate::num::{decimal, parse_unsigned, parse_usize, push_decimal};
use crate::repo::diff::StatCounts;
use crate::text::{
    chars_of, find_char_from, lossy_utf8, slice_chars, string_of, to_lowercase, trim, trim_bounds,
    trim_end, trim_end_len, unicode_lower, utf8_lossy,
};

verus! {

/// Commit author: the raw email is never exposed, only a hash that seeds
/// locally generated avatars.
#[derive(Debug, Clone)]
pub struct CommitAuthor {
    pub name: String,
    /// SHA-256 hex of the trimmed, lowercased author email.
    pub email_hash: String,
}

/// One log entry.
#[derive(Debug)]
pub struct CommitInfo {
    /// Full commit sha.
    pub sha: String,
    /// First line of the message; `None` for a non-UTF-8 message.
    pub summary: Option<String>,
    /// The message past the summary line, when asked for.
    pub body: Option<String>,
    pub author: CommitAuthor,
    /// Author date (RFC 3339); `None` when unrepresentable.
    pub authored_at: Option<String>,
    pub parents: Vec<String>,
    /// The followed path's previous name, on the commit that renamed it.
    pub renamed_from: Option<String>,
    /// First-parent file and line counts, when asked for.
    pub stat: Option<StatCounts>,
}

/// One page of the log.
#[derive(Debug)]
pub struct CommitsPage {
    pub commits: Vec<CommitInfo>,
    /// Token for the next page; `None` on the last page.
    pub next_cursor: Option<String>,
}

/// Commit detail: a superset of [`CommitInfo`].
#[derive(Debug)]
pub struct CommitDetail {
    pub sha: String,
    pub summary: Option<String>,
    /// Full message; `None` for a non-UTF-8 message.
    pub message: Option<String>,
    /// The commit's note on the default notes ref, if any and not blank.
    pub note: Option<String>,
    pub author: CommitAuthor,
    pub committer: CommitAuthor,
    pub authored_at: Option<String>,
    pub committed_at: Option<String>,
    pub parents: Vec<String>,
    pub diffstat: crate::repo::diff::DiffStat,
}

// ---------------------------------------------------------------------------
// Cursor
// ---------------------------------------------------------------------------

/// Largest offset a cursor may carry, bounding the walk a forged cursor can
/// force.
pub const MAX_OFFSET: usize = 100000;

/// A lowercase hex digit.
pub open spec fn is_lower_hex(c: char) -> bool {
    ('0' <= c && c <= '9') || ('a' <= c && c <= 'f')
}

/// A full object id in canonical form: 40 lowercase hex digits.
pub open spec fn is_full_oid(s: Seq<char>) -> bool {
    s.len() == 40 && forall|i: int| 0 <= i < s.len() ==> is_lower_hex(#[trigger] s[i])
}

/// Whether `s` is a full object id in canonical form.
pub fn full_oid(s: &[char]) -> (r: bool)
    ensures
        r == is_full_oid(s@),
{
    if s.len() != 40 {
        return false;
    }
    let mut i: usize = 0;
    while i < s.len()
        invariant
            i <= s@.len(),
            forall|k: int| 0 <= k < i ==> is_lower_hex(#[trigger] s@[k]),
        decreases s@.len() - i,
    {
        let c = s[i];
        if !(('0' <= c && c <= '9') || ('a' <= c && c <= 'f')) {
            return false;
        }
        i = i + 1;
    }
    true
}

/// Opaque pagination token: a fixed walk start plus how many filtered
/// commits to skip before collecting a page. Re-walking from the same start
/// on every page is what keeps pagination lossless across side branches.
#[derive(Debug, Clone)]
pub struct Cursor {
    /// Full sha the walk starts from, lowercase hex.
    pub start: String,
    pub offset: usize,
}

/// Index of the last `c` in `s`, if any.
pub open spec fn last_index_of(s: Seq<char>, c: char) -> Option<int>
    decreases s.len(),
{
    if s.len() == 0 {
        None
    } else if s.last() == c {
        Some(s.len() - 1)
    } else {
        last_index_of(s.drop_last(), c)
    }
}

/// The cursor that `raw` spells, as `(start, offset)`: `<full sha>.<offset>`
/// split at the last `.`, the sha in canonical form, the offset a `usize`
/// no larger than [`MAX_OFFSET`].
pub open spec fn cursor_parts(raw: Seq<char>) -> Option<(Seq<char>, int)> {
    match last_index_of(raw, '.') {
        Some(k) => {
            let sha = raw.subrange(0, k);
            match parse_unsigned(raw.subrange(k + 1, raw.len() as int), usize::MAX as int) {
                Some(n) => if is_full_oid(sha) && n <= MAX_OFFSET {
                    Some((sha, n))
                } else {
                    None
                },
                None => None,
            }
        },
        None => None,
    }
}

/// The text of a cursor: `<start>.<offset>`.
pub open spec fn cursor_text(start: Seq<char>, offset: nat) -> Seq<char> {
    start + seq!['.'] + decimal(offset)
}

impl Cursor {
    /// Parses `<full sha>.<offset>`; anything else, a bare sha included, is
    /// `None`, which callers answer with `400 invalid_param`.
    pub fn parse(raw: &str) -> (r: Option<Cursor>)
        ensures
            match cursor_parts(raw@) {
                Some((sha, n)) => r matches Some(c) && c.start@ == sha && c.offset == n,
                None => r is None,
            },
    {
        let v = chars_of(raw);
        let mut k: usize = v.len();
        assert(v@.subrange(0, v@.len() as int) == v@);
        while k > 0 && v[k - 1] != '.'
            invariant
                k <= v@.len(),
                last_index_of(v@, '.') == last_index_of(v@.subrange(0, k as int), '.'),
            decreases k,
        {
            assert(v@.subrange(0, k as int).drop_last() == v@.subrange(0, k - 1));
            k = k - 1;
        }
        if k == 0 {
            assert(v@.subrange(0, 0).len() == 0);
            return None;
        }
        let dot = k - 1;
        assert(last_index_of(v@, '.') == Some(dot as int));
        let sha = slice_chars(v.as_slice(), 0, dot);
        let digits = slice_chars(v.as_slice(), dot + 1, v.len());
        match parse_usize(digits.as_slice()) {
            Some(n) => {
                if full_oid(sha.as_slice()) && n <= MAX_OFFSET {
                    Some(Cursor { start: string_of(sha.as_slice()), offset: n })
                } else {
                    None
                }
            },
            None => None,
        }
    }

    /// The cursor's text.
    pub fn encode(&self) -> (r: String)
        ensures
            r@ == cursor_text(self.start@, self.offset as nat),
    {
        let mut out = chars_of(self.start.as_str());
        out.push('.');
        push_decimal(&mut out, self.offset as u64);
        string_of(out.as_slice())
    }
}

/// A cursor with a canonical start and an offset within bounds prints to a
/// text that parses back to it.
pub proof fn lemma_cursor_round_trip(start: Seq<char>, offset: nat)
    requires
        is_full_oid(start),
        offset <= MAX_OFFSET,
    ensures
        cursor_parts(cursor_text(start, offset)) == Some((start, offset as int)),
{
    let t = cursor_text(start, offset);
    let d = decimal(offset);
    crate::num::lemma_decimal(offset);
    crate::num::lemma_parse_decimal(offset, usize::MAX as int);
    lemma_last_dot(start, d);
    assert(t.subrange(0, start.len() as int) == start);
    assert(t.subrange(start.len() as int + 1, t.len() as int) == d);
}

/// The last `.` of `start.<digits>` is the one before the digits.
proof fn lemma_last_dot(start: Seq<char>, d: Seq<char>)
    requires
        forall|i: int| 0 <= i < d.len() ==> #[trigger] d[i] != '.',
    ensures
        last_index_of(start + seq!['.'] + d, '.') == Some(start.len() as int),
    decreases d.len(),
{
    let t = start + seq!['.'] + d;
    if d.len() == 0 {
        assert(t.last() == '.');
    } else {
        assert(t.drop_last() == start + seq!['.'] + d.drop_last());
        lemma_last_dot(start, d.drop_last());
    }
}

// ---------------------------------------------------------------------------
// Authors and notes
// ---------------------------------------------------------------------------

/// The avatar seed of an email: SHA-256, in lowercase hex, of the email
/// read as UTF-8 (invalid sequences replaced), trimmed and lowercased, so
/// that case and whitespace variants of one address agree.
pub open spec fn email_hash_text(email: Seq<u8>) -> Seq<char> {
    hex_of(sha256_digest(vstd::utf8::encode_utf8(unicode_lower(trim(utf8_lossy(email))))))
}

/// The avatar seed of an email address (see [`email_hash_text`]).
pub fn email_hash(email: &[u8]) -> (r: String)
    ensures
        r@ == email_hash_text(email@),
{
    let text = lossy_utf8(email);
    let cs = chars_of(text.as_str());
    let (a, b) = trim_bounds(cs.as_slice());
    let trimmed = string_of(slice_chars(cs.as_slice(), a, b).as_slice());
    let lowered = to_lowercase(trimmed.as_str());
    let digest = sha256(lowered.as_str().as_bytes());
    let mut out: Vec<char> = Vec::new();
    push_hex(&mut out, digest.as_slice());
    string_of(out.as_slice())
}

/// An author from a signature's raw name and email bytes: the name read as
/// UTF-8 (invalid sequences replaced), the email reduced to its hash.
pub fn signature_info(name: &[u8], email: &[u8]) -> (r: CommitAuthor)
    ensures
        r.name@ == utf8_lossy(name@),
        r.email_hash@ == email_hash_text(email@),
{
    CommitAuthor { name: lossy_utf8(name), email_hash: email_hash(email) }
}

/// An author for a hunk that has no signature: an empty name and the hash
/// of an empty email, the shape an empty signature gives.
pub fn missing_signature_info() -> (r: CommitAuthor)
    ensures
        r.name@ == Seq::<char>::empty(),
        r.email_hash@ == email_hash_text(Seq::empty()),
{
    let empty: Vec<u8> = Vec::new();
    let hash = email_hash(empty.as_slice());
    assert(empty@ == Seq::<u8>::empty());
    CommitAuthor { name: String::new(), email_hash: hash }
}

/// A note message as shown: trailing whitespace removed; a blank note is
/// none at all.
pub open spec fn note_text(message: Seq<char>) -> Option<Seq<char>> {
    if trim(message).len() == 0 {
        None
    } else {
        Some(trim_end(message))
    }
}

/// The note shown for a commit, from its note message.
pub fn note_from_message(message: &str) -> (r: Option<String>)
    ensures
        match note_text(message@) {
            Some(t) => r matches Some(s) && s@ == t,
            None => r is None,
        },
{
    let v = chars_of(message);
    let (a, b) = trim_bounds(v.as_slice());
    if a == b {
        return None;
    }
    let e = trim_end_len(v.as_slice());
    Some(string_of(slice_chars(v.as_slice(), 0, e).as_slice()))
}

// ---------------------------------------------------------------------------
// The log walk
// ---------------------------------------------------------------------------

/// Bounds how many rename lookups one following walk performs; once hit,
/// the walk keeps filtering on the path it was last tracking.
pub const MAX_FOLLOW_RENAME_LOOKUPS: usize = 100;

/// What a log walk is asked for.
#[derive(Debug, Clone)]
pub struct LogParams {
    /// Only commits touching this path.
    pub path: Option<String>,
    /// Filtered commits to pass over before collecting.
    pub skip: usize,
    /// Entries to collect.
    pub limit: usize,
    pub include_body: bool,
    /// Follow the path filter across whole-file renames.
    pub follow: bool,
    /// Carry each entry's first-parent counts.
    pub include_stat: bool,
}

/// Where a log walk stands.
#[derive(Debug, Clone)]
pub struct LogState {
    /// Filtered commits passed over so far.
    pub skipped: usize,
    /// Entries collected so far.
    pub collected: usize,
    /// The walk stopped with more commits available.
    pub has_more: bool,
    /// The path being filtered on; it changes when the walk crosses a
    /// rename.
    pub followed_path: Option<String>,
    /// Rename lookups made so far.
    pub follow_lookups: usize,
}

/// What happens to one walked commit.
#[derive(Debug, Clone, Copy, PartialEq, Eq, Structural)]
pub enum LogVerdict {
    /// It does not touch the followed_path path.
    Filtered,
    /// It passes the filter but falls within the skipped commits.
    Skipped,
    /// It becomes the next entry.
    Collect,
    /// The page is full: the walk ends with more commits available.
    Stop,
}

/// The plain view of a walk's state: skipped, collected, has-more, followed_path
/// path, lookups.
pub open spec fn state_view(s: LogState) -> (nat, nat, bool, Option<Seq<char>>, nat) {
    (
        s.skipped as nat,
        s.collected as nat,
        s.has_more,
        match s.followed_path {
            Some(t) => Some(t@),
            None => None,
        },
        s.follow_lookups as nat,
    )
}

/// A walk's state is consistent with its parameters: it never skips or
/// collects beyond what was asked, and collects only after skipping all.
pub open spec fn log_wf(s: LogState, p: LogParams) -> bool {
    &&& s.skipped <= p.skip
    &&& s.collected <= p.limit
    &&& s.collected > 0 ==> s.skipped == p.skip
    &&& s.has_more ==> s.collected == p.limit
    &&& s.follow_lookups <= MAX_FOLLOW_RENAME_LOOKUPS
    &&& (s.followed_path is Some <==> p.path is Some)
}

impl LogState {
    /// The state before the first commit.
    pub fn start(params: &LogParams) -> (r: LogState)
        ensures
            state_view(r) == (0nat, 0nat, false, match params.path {
                Some(t) => Some(t@),
                None => None,
            }, 0nat),
            log_wf(r, *params),
    {
        let followed_path = match &params.path {
            Some(p) => Some(crate::text::owned(p.as_str())),
            None => None,
        };
        LogState { skipped: 0, collected: 0, has_more: false, followed_path, follow_lookups: 0 }
    }
}

/// Whether the walk asks for the rename source of this commit's followed_path
/// path: following is on, the lookup budget is not spent, the commit
/// touches the path, has an entry there, and its first parent has none.
pub open spec fn wants_lookup(
    s: LogState,
    p: LogParams,
    touches: bool,
    entry_present: bool,
    first_parent_lacks: bool,
) -> bool {
    s.followed_path is Some && touches && p.follow && s.follow_lookups < MAX_FOLLOW_RENAME_LOOKUPS
        && entry_present && first_parent_lacks
}

/// Whether to look up a rename source for this commit (see
/// [`wants_lookup`]).
pub fn wants_rename_lookup(
    state: &LogState,
    params: &LogParams,
    touches: bool,
    entry_present: bool,
    first_parent_lacks: bool,
) -> (r: bool)
    ensures
        r == wants_lookup(*state, *params, touches, entry_present, first_parent_lacks),
{
    state.followed_path.is_some() && touches && params.follow && state.follow_lookups
        < MAX_FOLLOW_RENAME_LOOKUPS && entry_present && first_parent_lacks
}

/// The verdict on one commit, and the state after it. `touches` says
/// whether the commit touches the followed_path path (ignored without a path
/// filter); `looked_up` whether a rename lookup was made for it, and
/// `rename` what it found.
pub open spec fn log_next(
    s: LogState,
    p: LogParams,
    touches: bool,
    looked_up: bool,
    rename: Option<Seq<char>>,
) -> (LogVerdict, (nat, nat, bool, Option<Seq<char>>, nat)) {
    let v = state_view(s);
    if s.followed_path is Some && !touches {
        (LogVerdict::Filtered, v)
    } else {
        let lookups = if looked_up {
            v.4 + 1
        } else {
            v.4
        };
        let followed_path = if looked_up && rename is Some {
            rename
        } else {
            v.3
        };
        if s.skipped < p.skip {
            (LogVerdict::Skipped, (v.0 + 1, v.1, false, followed_path, lookups))
        } else if s.collected == p.limit {
            (LogVerdict::Stop, (v.0, v.1, true, followed_path, lookups))
        } else {
            (LogVerdict::Collect, (v.0, v.1 + 1, false, followed_path, lookups))
        }
    }
}

/// Applies one walked commit to the walk (see [`log_next`]). A collected
/// entry's `renamed_from` is the rename found for it, if any.
pub fn log_step(
    state: &mut LogState,
    params: &LogParams,
    touches: bool,
    looked_up: bool,
    rename: Option<String>,
) -> (r: (LogVerdict, Option<String>))
    requires
        log_wf(*old(state), *params),
        !old(state).has_more,
        looked_up ==> wants_lookup(*old(state), *params, touches, true, true),
        !looked_up ==> rename is None,
    ensures
        (r.0, state_view(*final(state))) == log_next(
            *old(state),
            *params,
            touches,
            looked_up,
            match rename {
                Some(t) => Some(t@),
                None => None,
            },
        ),
        log_wf(*final(state), *params),
        r.0 == LogVerdict::Collect ==> match rename {
            Some(t) => r.1 matches Some(f) && f@ == t@,
            None => r.1 is None,
        },
        r.0 != LogVerdict::Collect ==> r.1 is None,
        !params.follow ==> r.1 is None && state_view(*final(state)).3 == state_view(*old(state)).3
            && final(state).follow_lookups == old(state).follow_lookups,
{
    if state.followed_path.is_some() && !touches {
        return (LogVerdict::Filtered, None);
    }
    if looked_up {
        state.follow_lookups = state.follow_lookups + 1;
    }
    let renamed_from = match rename {
        Some(old) => {
            let copy = crate::text::owned(old.as_str());
            state.followed_path = Some(old);
            Some(copy)
        },
        None => None,
    };
    if state.skipped < params.skip {
        state.skipped = state.skipped + 1;
        return (LogVerdict::Skipped, None);
    }
    if state.collected == params.limit {
        state.has_more = true;
        return (LogVerdict::Stop, None);
    }
    state.collected = state.collected + 1;
    (LogVerdict::Collect, renamed_from)
}

/// The next page's cursor: present exactly when the walk stopped with more
/// commits available, and then pointing past this page.
pub fn next_cursor(start: &str, params: &LogParams, has_more: bool) -> (r: Option<String>)
    requires
        params.skip + params.limit <= usize::MAX,
    ensures
        !has_more ==> r is None,
        has_more ==> (r matches Some(t) && t@ == cursor_text(
            start@,
            (params.skip + params.limit) as nat,
        )),
{
    if has_more {
        let c = Cursor { start: crate::text::owned(start), offset: params.skip + params.limit };
        Some(c.encode())
    } else {
        None
    }
}


/// Whether the `j`-th walked commit passes the path filter (every commit
/// does without one).
pub open spec fn passes_filter(p: LogParams, touches: Seq<bool>, j: int) -> bool {
    p.path is None || touches[j]
}

/// How many of the first `j` walked commits pass the path filter.
pub open spec fn passed_before(p: LogParams, touches: Seq<bool>, j: int) -> nat
    decreases j,
{
    if j <= 0 {
        0
    } else {
        passed_before(p, touches, j - 1) + if passes_filter(p, touches, j - 1) {
            1nat
        } else {
            0nat
        }
    }
}

/// What a log walk does with the `j`-th commit: a commit off the path is
/// filtered; of the rest, the first `skip` are skipped, the next `limit`
/// collected, and the one after them stops the walk.
pub open spec fn page_verdict(p: LogParams, touches: Seq<bool>, j: int) -> LogVerdict {
    let n = passed_before(p, touches, j);
    if !passes_filter(p, touches, j) {
        LogVerdict::Filtered
    } else if n < p.skip {
        LogVerdict::Skipped
    } else if n < p.skip + p.limit {
        LogVerdict::Collect
    } else {
        LogVerdict::Stop
    }
}

/// Where a walk stands before its `j`-th commit: how many commits it has
/// skipped and collected, and that it has not stopped.
pub open spec fn page_counts(p: LogParams, touches: Seq<bool>, j: int) -> (nat, nat, bool) {
    let n = passed_before(p, touches, j);
    (
        if n < p.skip { n } else { p.skip as nat },
        if n <= p.skip { 0nat } else if n - p.skip < p.limit { (n - p.skip) as nat } else { p.limit as nat },
        false,
    )
}

/// Whether `states` and `verdicts` are a walk of log steps from the start:
/// each step is [`log_next`] of the one before, on whether the commit
/// touches the path followed at that point, with the rename lookups made
/// (only while filtering on a path) and what they found; no step before
/// the last stops the walk.
pub open spec fn is_log_walk(
    p: LogParams,
    touches: Seq<bool>,
    looked: Seq<bool>,
    renames: Seq<Option<Seq<char>>>,
    states: Seq<LogState>,
    verdicts: Seq<LogVerdict>,
) -> bool {
    &&& states.len() == touches.len() + 1
    &&& verdicts.len() == touches.len()
    &&& looked.len() == touches.len()
    &&& renames.len() == touches.len()
    &&& state_view(states[0]) == (0nat, 0nat, false, match p.path {
        Some(t) => Some(t@),
        None => None,
    }, 0nat)
    &&& forall|i: int| 0 <= i < touches.len() ==> #[trigger] looked[i] ==> p.path is Some
    &&& forall|i: int|
        0 <= i < touches.len() ==> (#[trigger] verdicts[i], state_view(states[i + 1])) == log_next(
            states[i],
            p,
            touches[i],
            looked[i],
            renames[i],
        )
    &&& forall|i: int| 0 <= i < touches.len() - 1 ==> #[trigger] verdicts[i] != LogVerdict::Stop
}

/// The state of a log walk, step by step.
proof fn lemma_log_page_states(
    p: LogParams,
    touches: Seq<bool>,
    looked: Seq<bool>,
    renames: Seq<Option<Seq<char>>>,
    states: Seq<LogState>,
    verdicts: Seq<LogVerdict>,
    j: int,
)
    requires
        is_log_walk(p, touches, looked, renames, states, verdicts),
        0 <= j < touches.len(),
    ensures
        ({
            let v = state_view(states[j]);
            &&& (v.0, v.1, v.2) == page_counts(p, touches, j)
            &&& v.3 is Some <==> p.path is Some
        }),
        verdicts[j] == page_verdict(p, touches, j),
    decreases j,
{
    if j > 0 {
        lemma_log_page_states(p, touches, looked, renames, states, verdicts, j - 1);
        assert(verdicts[j - 1] != LogVerdict::Stop);
        assert((verdicts[j - 1], state_view(states[j])) == log_next(
            states[j - 1],
            p,
            touches[j - 1],
            looked[j - 1],
            renames[j - 1],
        ));
        assert(looked[j - 1] ==> p.path is Some);
    }
    assert((verdicts[j], state_view(states[j + 1])) == log_next(states[j], p, touches[j], looked[j], renames[j]));
    assert(states[j].followed_path is Some <==> state_view(states[j]).3 is Some);
}

/// Paging a log walk: when each step is [`log_next`] of the one before,
/// from the start state, the walk passes over commits off the path it
/// follows at that point, skips the first `skip` on it, collects the next
/// `limit`, and stops at the first one past them, whether or not it follows
/// renames. A page is therefore the walk's path-filtered commits
/// `skip..skip + limit`, and the walk stops with more available exactly
/// when there is one beyond.
pub proof fn lemma_log_page(
    p: LogParams,
    touches: Seq<bool>,
    looked: Seq<bool>,
    renames: Seq<Option<Seq<char>>>,
    states: Seq<LogState>,
    verdicts: Seq<LogVerdict>,
)
    requires
        is_log_walk(p, touches, looked, renames, states, verdicts),
    ensures
        forall|j: int| 0 <= j < touches.len() ==> #[trigger] verdicts[j] == page_verdict(p, touches, j),
{
    assert forall|j: int| 0 <= j < touches.len() implies #[trigger] verdicts[j] == page_verdict(p, touches, j) by {
        lemma_log_page_states(p, touches, looked, renames, states, verdicts, j);
    }
}


/// Without `follow`, no rename is ever looked up, whatever the commit.
pub proof fn lemma_no_follow_no_lookup(
    s: LogState,
    p: LogParams,
    touches: bool,
    entry_present: bool,
    first_parent_lacks: bool,
)
    requires
        !p.follow,
    ensures
        !wants_lookup(s, p, touches, entry_present, first_parent_lacks),
{
}

/// A walk without `follow` keeps filtering on the requested path from
/// start to end and makes no lookups: where each lookup is one the walk
/// asks for, every state's followed path is the requested path, its lookup
/// count is zero, and no rename is applied.
pub proof fn lemma_no_follow_keeps_path(
    p: LogParams,
    touches: Seq<bool>,
    looked: Seq<bool>,
    renames: Seq<Option<Seq<char>>>,
    states: Seq<LogState>,
    verdicts: Seq<LogVerdict>,
    j: int,
)
    requires
        !p.follow,
        is_log_walk(p, touches, looked, renames, states, verdicts),
        forall|i: int| 0 <= i < touches.len() ==> #[trigger] looked[i] ==> wants_lookup(states[i], p, touches[i], true, true),
        0 <= j <= touches.len(),
    ensures
        state_view(states[j]).3 == match p.path {
            Some(t) => Some(t@),
            None => None,
        },
        state_view(states[j]).4 == 0,
        forall|i: int| 0 <= i < j ==> !(#[trigger] looked[i]),
    decreases j,
{
    if j > 0 {
        lemma_no_follow_keeps_path(p, touches, looked, renames, states, verdicts, j - 1);
        lemma_no_follow_no_lookup(states[j - 1], p, touches[j - 1], true, true);
        assert(!looked[j - 1]);
        assert((verdicts[j - 1], state_view(states[j])) == log_next(
            states[j - 1],
            p,
            touches[j - 1],
            looked[j - 1],
            renames[j - 1],
        ));
    }
}

} // verus!
