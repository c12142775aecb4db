//! Repository search: case-insensitive matching, matched-line extraction,
//! the scan and result budgets of every search variant, and the rev-list
//! expression syntax of `type=range`. The scans themselves (tree walks,
//! blob reads, history walks) run in the caller, which asks these functions
//! at each step.
use vstd::prelude::*;

use crate::repo::blob::{classify, BLOB_CONTENT_LIMIT};
use crate::repo::commits::CommitInfo;
use crate::repo::tree::MODE_LINK;
use crate::text::{
    all_ascii, ascii_lower_seq, chars_all_ascii, chars_of, contains_seq, find_seq, lines_of,
    lossy_utf8, lower_chars, occurs_at, owned, push_str_chars, slice_chars, string_of, text_lines,
    to_lowercase, unicode_lower, utf8_lossy, words_from, words_of,
};

verus! {

/// Tree entries considered per search, whatever the result limit.
pub const MAX_SCANNED_BLOBS: usize = 20000;

/// Cumulative blob bytes read by a content search.
pub const MAX_SCANNED_BYTES: usize = 33554432;

/// Matching lines kept per file.
pub const MAX_MATCHES_PER_FILE: usize = 10;

/// Characters kept per matched line.
pub const MAX_LINE_CHARS: usize = 500;

/// Commits walked by the commit searches.
pub const MAX_SCANNED_COMMITS: usize = 10000;

/// Requested search variant, echoed back in the response's `type` field.
#[derive(Debug, Clone, Copy, PartialEq, Eq, Structural)]
pub enum SearchKind {
    /// File content, line by line.
    Content,
    /// File path (name), no content read.
    Path,
    /// Commit message (title + body).
    Message,
    /// Author signature name.
    Author,
    /// Committer signature name.
    Committer,
    /// A rev-list expression selecting commits directly.
    Range,
}

/// A matched line within a file.
#[derive(Debug)]
pub struct LineMatch {
    /// 1-based line number.
    pub line: usize,
    /// The matching line, cut to [`MAX_LINE_CHARS`] characters.
    pub text: String,
}

/// A file with at least one match.
#[derive(Debug)]
pub struct FileMatch {
    pub path: String,
    /// Empty for path matches: the path itself is the match.
    pub lines: Vec<LineMatch>,
}

/// Response of a search.
#[derive(Debug)]
pub struct SearchResults {
    /// Resolved commit sha; `None` only for an empty repository searched
    /// without a ref.
    pub sha: Option<String>,
    pub kind: SearchKind,
    /// A scan or result budget was hit: the results are a prefix.
    pub truncated: bool,
    /// Content and path results.
    pub files: Vec<FileMatch>,
    /// Commit results.
    pub commits: Vec<CommitInfo>,
}

// ---------------------------------------------------------------------------
// Matching
// ---------------------------------------------------------------------------

/// Text folded for a case-insensitive match: ASCII text by ASCII
/// lowercasing, other text by Unicode lowercasing.
pub open spec fn folded(h: Seq<char>) -> Seq<char> {
    if all_ascii(h) {
        ascii_lower_seq(h)
    } else {
        unicode_lower(h)
    }
}

/// Case-insensitive substring test; `needle_lower` is the query already
/// lowercased once by the caller.
pub fn contains_ignore_case(haystack: &str, needle_lower: &str) -> (r: bool)
    ensures
        r == contains_seq(folded(haystack@), needle_lower@),
{
    let h = chars_of(haystack);
    let n = chars_of(needle_lower);
    let f = if chars_all_ascii(h.as_slice()) {
        lower_chars(h.as_slice())
    } else {
        let l = to_lowercase(haystack);
        chars_of(l.as_str())
    };
    match find_seq(f.as_slice(), n.as_slice()) {
        Some(_) => true,
        None => false,
    }
}

/// `s` cut to its first `max` characters (never inside a character).
pub open spec fn first_chars(s: Seq<char>, max: nat) -> Seq<char> {
    if s.len() <= max {
        s
    } else {
        s.take(max as int)
    }
}

/// `s` cut to its first `max_chars` characters.
pub fn truncate_chars(s: &str, max_chars: usize) -> (r: String)
    ensures
        r@ == first_chars(s@, max_chars as nat),
{
    let v = chars_of(s);
    let end = if v.len() <= max_chars {
        v.len()
    } else {
        max_chars
    };
    string_of(slice_chars(v.as_slice(), 0, end).as_slice())
}

/// Every line of `lines` that matches, as `(1-based line number, line)`.
pub open spec fn matching_lines(lines: Seq<Seq<char>>, q: Seq<char>) -> Seq<(int, Seq<char>)>
    decreases lines.len(),
{
    if lines.len() == 0 {
        Seq::empty()
    } else {
        let rest = matching_lines(lines.drop_last(), q);
        if contains_seq(folded(lines.last()), q) {
            rest.push((lines.len() as int, lines.last()))
        } else {
            rest
        }
    }
}

/// The matched lines a file reports: the first [`MAX_MATCHES_PER_FILE`]
/// matching lines, each cut to [`MAX_LINE_CHARS`] characters.
pub open spec fn reported_lines(text: Seq<char>, q: Seq<char>) -> Seq<(int, Seq<char>)> {
    let all = matching_lines(text_lines(text), q);
    let kept = if all.len() <= MAX_MATCHES_PER_FILE {
        all
    } else {
        all.take(MAX_MATCHES_PER_FILE as int)
    };
    kept.map_values(|m: (int, Seq<char>)| (m.0, first_chars(m.1, MAX_LINE_CHARS as nat)))
}

/// The matches of a prefix of the lines are a prefix of all the matches.
proof fn lemma_matching_prefix(lines: Seq<Seq<char>>, q: Seq<char>, k: int)
    requires
        0 <= k <= lines.len(),
    ensures
        matching_lines(lines.take(k), q).len() <= matching_lines(lines, q).len(),
        matching_lines(lines.take(k), q) == matching_lines(lines, q).take(
            matching_lines(lines.take(k), q).len() as int,
        ),
    decreases lines.len(),
{
    if k == lines.len() {
        assert(lines.take(k) == lines);
        assert(matching_lines(lines, q).take(matching_lines(lines, q).len() as int) == matching_lines(
            lines,
            q,
        ));
    } else {
        assert(lines.drop_last().take(k) == lines.take(k));
        lemma_matching_prefix(lines.drop_last(), q, k);
        let m = matching_lines(lines.drop_last(), q);
        let a = matching_lines(lines.take(k), q);
        if contains_seq(folded(lines.last()), q) {
            assert(m.push((lines.len() as int, lines.last())).take(a.len() as int) == m.take(
                a.len() as int,
            ));
        }
    }
}

/// The `(line number, line)` view of reported matches.
pub open spec fn match_view(m: LineMatch) -> (int, Seq<char>) {
    (m.line as int, m.text@)
}

/// The matched lines of a text (see [`reported_lines`]).
pub fn match_lines(text: &str, query_lower: &str) -> (r: Vec<LineMatch>)
    ensures
        r@.map_values(|m: LineMatch| match_view(m)) == reported_lines(text@, query_lower@),
{
    let v = chars_of(text);
    let lines = lines_of(v.as_slice());
    let ghost ls = text_lines(text@);
    let ghost all = matching_lines(ls, query_lower@);
    let mut out: Vec<LineMatch> = Vec::new();
    let ghost mut found: Seq<(int, Seq<char>)> = Seq::empty();
    let mut i: usize = 0;
    assert(ls.take(0) == Seq::<Seq<char>>::empty());
    while i < lines.len()
        invariant
            i <= lines@.len(),
            lines.deep_view() == ls,
            ls == text_lines(text@),
            all == matching_lines(ls, query_lower@),
            found == matching_lines(ls.take(i as int), query_lower@),
            found.len() < MAX_MATCHES_PER_FILE,
            out@.map_values(|m: LineMatch| match_view(m)) == found.map_values(
                |m: (int, Seq<char>)| (m.0, first_chars(m.1, MAX_LINE_CHARS as nat)),
            ),
        decreases lines@.len() - i,
    {
        assert(lines@[i as int]@ == ls[i as int]);
        assert(ls.take(i + 1).drop_last() == ls.take(i as int));
        assert(ls.take(i + 1).last() == ls[i as int]);
        let line = string_of(lines[i].as_slice());
        let ghost before = out@.map_values(|m: LineMatch| match_view(m));
        if contains_ignore_case(line.as_str(), query_lower) {
            let t = truncate_chars(line.as_str(), MAX_LINE_CHARS);
            assert(line@ == ls[i as int]);
            let ghost old_found = found;
            out.push(LineMatch { line: i + 1, text: t });
            proof {
                found = found.push(((i + 1) as int, ls[i as int]));
            }
            assert(match_view(out@.last()) == ((i + 1) as int, first_chars(ls[i as int], MAX_LINE_CHARS as nat)));
            assert(out@.map_values(|m: LineMatch| match_view(m)) =~= before.push(match_view(out@.last())));
            assert(found.map_values(|m: (int, Seq<char>)| (m.0, first_chars(m.1, MAX_LINE_CHARS as nat)))
                =~= old_found.map_values(|m: (int, Seq<char>)| (m.0, first_chars(m.1, MAX_LINE_CHARS as nat))).push(
                ((i + 1) as int, first_chars(ls[i as int], MAX_LINE_CHARS as nat))));
            assert(out@.map_values(|m: LineMatch| match_view(m)) =~= found.map_values(
                |m: (int, Seq<char>)| (m.0, first_chars(m.1, MAX_LINE_CHARS as nat)),
            ));
            if out.len() >= MAX_MATCHES_PER_FILE {
                proof {
                    lemma_matching_prefix(ls, query_lower@, i + 1);
                    assert(found == all.take(found.len() as int));
                }
                return out;
            }
        }
        i = i + 1;
    }
    proof {
        assert(ls.take(i as int) == ls);
    }
    out
}

// ---------------------------------------------------------------------------
// Path search
// ---------------------------------------------------------------------------

/// Paths that match, and whether the result limit stopped the scan, over
/// the scanned paths in order with `limit` results still allowed.
pub open spec fn path_results(paths: Seq<Seq<char>>, q: Seq<char>, limit: int) -> (Seq<Seq<char>>, bool)
    decreases paths.len(),
{
    if paths.len() == 0 {
        (Seq::empty(), false)
    } else if limit <= 0 {
        (Seq::empty(), true)
    } else {
        let rest = paths.drop_first();
        if contains_seq(folded(paths[0]), q) {
            let r = path_results(rest, q, limit - 1);
            (seq![paths[0]] + r.0, r.1)
        } else {
            path_results(rest, q, limit)
        }
    }
}

/// Path search over the scanned blob paths: matching paths in scan order,
/// at most `limit` of them. `truncated` says whether the scan itself was
/// cut short (`scan_truncated`) or the limit stopped it with paths left.
pub fn search_paths(paths: &[String], scan_truncated: bool, query_lower: &str, limit: usize) -> (r: (
    Vec<FileMatch>,
    bool,
))
    ensures
        r.0@.map_values(|f: FileMatch| f.path@) == path_results(
            paths.deep_view(),
            query_lower@,
            limit as int,
        ).0,
        forall|i: int| 0 <= i < r.0@.len() ==> (#[trigger] r.0@[i]).lines@.len() == 0,
        r.1 == (scan_truncated || path_results(paths.deep_view(), query_lower@, limit as int).1),
{
    let ghost ps = paths.deep_view();
    let mut files: Vec<FileMatch> = Vec::new();
    let mut i: usize = 0;
    assert(ps.skip(0) == ps);
    while i < paths.len()
        invariant
            i <= paths@.len(),
            ps == paths.deep_view(),
            files@.len() <= limit,
            forall|k: int| 0 <= k < files@.len() ==> (#[trigger] files@[k]).lines@.len() == 0,
            path_results(ps, query_lower@, limit as int) == ({
                let rest = path_results(ps.skip(i as int), query_lower@, limit - files@.len());
                (files@.map_values(|f: FileMatch| f.path@) + rest.0, rest.1)
            }),
        decreases paths@.len() - i,
    {
        let ghost rest = ps.skip(i as int);
        assert(rest[0] == ps[i as int]);
        assert(rest.drop_first() == ps.skip(i + 1));
        assert(paths@[i as int]@ == ps[i as int]);
        if files.len() >= limit {
            return (files, true);
        }
        if contains_ignore_case(paths[i].as_str(), query_lower) {
            let ghost before = files@.map_values(|f: FileMatch| f.path@);
            files.push(FileMatch { path: owned(paths[i].as_str()), lines: Vec::new() });
            assert(files@.map_values(|f: FileMatch| f.path@) =~= before.push(ps[i as int]));
            let ghost r = path_results(ps.skip(i + 1), query_lower@, limit - files@.len());
            assert(before + (seq![ps[i as int]] + r.0) =~= before.push(ps[i as int]) + r.0);
        }
        i = i + 1;
    }
    assert(ps.skip(i as int).len() == 0);
    assert(files@.map_values(|f: FileMatch| f.path@) + Seq::<Seq<char>>::empty()
        =~= files@.map_values(|f: FileMatch| f.path@));
    (files, scan_truncated)
}

/// A scanned blob's path: its directory prefix (empty, or ending in `/`)
/// and its name.
pub fn scanned_path(root: &str, name: &str) -> (r: String)
    ensures
        r@ == root@ + name@,
{
    let mut out: Vec<char> = Vec::new();
    push_str_chars(&mut out, root);
    push_str_chars(&mut out, name);
    string_of(out.as_slice())
}

/// Whether a tree walk that has collected `collected` blob entries must
/// stop (and report the search truncated).
pub fn blob_scan_full(collected: usize) -> (r: bool)
    ensures
        r == (collected >= MAX_SCANNED_BLOBS),
{
    collected >= MAX_SCANNED_BLOBS
}

// ---------------------------------------------------------------------------
// Content search
// ---------------------------------------------------------------------------

/// Where a content search stands.
#[derive(Debug)]
pub struct ContentScan {
    pub files: Vec<FileMatch>,
    /// Blob bytes read so far.
    pub scanned_bytes: usize,
    pub truncated: bool,
}

/// What to do with the next scanned blob entry.
#[derive(Debug, Clone, Copy, PartialEq, Eq, Structural)]
pub enum ContentStep {
    /// The limit or the byte budget is reached: the search ends, truncated.
    Stop,
    /// Not searched: a symlink, unreadable, or too large.
    Skip,
    /// Read the blob and search it.
    Read,
}

/// The next step of a content search for an entry of file mode `mode`
/// whose object header gave `size` (`None` when it could not be read).
pub open spec fn content_step_of(files: nat, scanned: nat, limit: nat, mode: u32, size: Option<u64>) -> ContentStep {
    if files >= limit {
        ContentStep::Stop
    } else if mode == MODE_LINK {
        ContentStep::Skip
    } else {
        match size {
            None => ContentStep::Skip,
            Some(n) => if n > BLOB_CONTENT_LIMIT {
                ContentStep::Skip
            } else if scanned + n > MAX_SCANNED_BYTES {
                ContentStep::Stop
            } else {
                ContentStep::Read
            },
        }
    }
}

impl ContentScan {
    /// A content search that has seen nothing, with the tree walk's own
    /// truncation.
    pub fn start(scan_truncated: bool) -> (r: ContentScan)
        ensures
            r.files@.len() == 0,
            r.scanned_bytes == 0,
            r.truncated == scan_truncated,
    {
        ContentScan { files: Vec::new(), scanned_bytes: 0, truncated: scan_truncated }
    }

    /// Decides the next entry (see [`content_step_of`]); a stop marks the
    /// search truncated.
    pub fn next_step(&mut self, limit: usize, mode: u32, size: Option<u64>) -> (r: ContentStep)
        ensures
            r == content_step_of(
                old(self).files@.len(),
                old(self).scanned_bytes as nat,
                limit as nat,
                mode,
                size,
            ),
            final(self).files@ == old(self).files@,
            final(self).scanned_bytes == old(self).scanned_bytes,
            final(self).truncated == (old(self).truncated || r == ContentStep::Stop),
    {
        if self.files.len() >= limit {
            self.truncated = true;
            return ContentStep::Stop;
        }
        if mode == MODE_LINK {
            return ContentStep::Skip;
        }
        match size {
            None => ContentStep::Skip,
            Some(n) => {
                if n > BLOB_CONTENT_LIMIT as u64 {
                    ContentStep::Skip
                } else if self.scanned_bytes as u128 + n as u128 > MAX_SCANNED_BYTES as u128 {
                    self.truncated = true;
                    ContentStep::Stop
                } else {
                    ContentStep::Read
                }
            },
        }
    }

    /// Searches a blob that was read: its bytes count against the budget;
    /// a text blob with matching lines adds a file.
    pub fn add_blob(&mut self, path: String, content: &[u8], git_binary: bool, query_lower: &str)
        requires
            old(self).scanned_bytes + content@.len() <= usize::MAX,
        ensures
            final(self).scanned_bytes == old(self).scanned_bytes + content@.len(),
            final(self).truncated == old(self).truncated,
            ({
                let (binary, too_large) = (
                    crate::repo::blob::is_binary(content@, git_binary),
                    crate::repo::blob::is_too_large(content@),
                );
                let found = reported_lines(utf8_lossy(content@), query_lower@);
                if binary || too_large || found.len() == 0 {
                    final(self).files@ == old(self).files@
                } else {
                    &&& final(self).files@.len() == old(self).files@.len() + 1
                    &&& final(self).files@.drop_last() == old(self).files@
                    &&& final(self).files@.last().path == path
                    &&& final(self).files@.last().lines@.map_values(|m: LineMatch| match_view(m))
                        == found
                }
            }),
    {
        self.scanned_bytes = self.scanned_bytes + content.len();
        let (binary, too_large) = classify(content, git_binary);
        if binary || too_large {
            return;
        }
        let text = lossy_utf8(content);
        let lines = match_lines(text.as_str(), query_lower);
        if lines.len() > 0 {
            self.files.push(FileMatch { path, lines });
        }
    }
}

// ---------------------------------------------------------------------------
// Commit searches
// ---------------------------------------------------------------------------

/// Whether a commit search stops before the next walked commit: the result
/// limit is reached, or the commit budget is spent. Either way the results
/// are reported truncated.
pub fn commit_scan_stops(found: usize, scanned: usize, limit: usize) -> (r: bool)
    ensures
        r == (found >= limit || scanned >= MAX_SCANNED_COMMITS),
{
    found >= limit || scanned >= MAX_SCANNED_COMMITS
}

/// Whether an optional text (a commit message, a signature name) matches;
/// a missing (non-UTF-8) text never does.
pub fn text_matches(text: Option<&str>, query_lower: &str) -> (r: bool)
    ensures
        r == (text matches Some(t) && contains_seq(folded(t@), query_lower@)),
{
    match text {
        Some(t) => contains_ignore_case(t, query_lower),
        None => false,
    }
}

// ---------------------------------------------------------------------------
// Rev-list expressions
// ---------------------------------------------------------------------------

/// One token of a rev-list expression, as the walk applies it. Sides are
/// revisions to resolve, an empty side already replaced by `HEAD`.
#[derive(Debug, Clone)]
pub enum RangeOp {
    /// `A...B`: hide every merge base of the two, walk from both.
    Symmetric(String, String),
    /// `A..B`: hide `A`, walk from `B`.
    Between(String, String),
    /// `^X`: hide `X`.
    Hide(String),
    /// A bare revision: walk from it.
    Push(String),
    /// A token that looks like a flag: the expression is rejected with this
    /// `invalid_param` detail when the walk reaches it.
    Reject(String),
}

/// The plain view of a range operation: its kind (0 symmetric, 1 between,
/// 2 hide, 3 push, 4 reject) and its texts.
pub open spec fn op_view(op: RangeOp) -> (int, Seq<char>, Seq<char>) {
    match op {
        RangeOp::Symmetric(a, b) => (0, a@, b@),
        RangeOp::Between(a, b) => (1, a@, b@),
        RangeOp::Hide(x) => (2, x@, Seq::empty()),
        RangeOp::Push(x) => (3, x@, Seq::empty()),
        RangeOp::Reject(m) => (4, m@, Seq::empty()),
    }
}

/// An empty range side means `HEAD`.
pub open spec fn side_of(s: Seq<char>) -> Seq<char> {
    if s.len() == 0 {
        "HEAD"@
    } else {
        s
    }
}

/// The first position of `n` in `h`, if it occurs.
pub open spec fn first_occurrence(h: Seq<char>, n: Seq<char>) -> Option<int> {
    if contains_seq(h, n) {
        Some(choose|i: int| occurs_at(h, n, i) && forall|j: int| 0 <= j < i ==> !occurs_at(h, n, j))
    } else {
        None
    }
}

/// How one token applies: a leading `-` is rejected; `...` splits it at its
/// first occurrence into a symmetric difference; else `..` into a range;
/// else a leading `^` hides; else the token is walked from.
pub open spec fn token_op(t: Seq<char>) -> (int, Seq<char>, Seq<char>) {
    if t.len() > 0 && t[0] == '-' {
        (4, "range token '"@ + t + "' looks like a flag, not a revision"@, Seq::empty())
    } else {
        match first_occurrence(t, "..."@) {
            Some(k) => (0, side_of(t.subrange(0, k)), side_of(t.subrange(k + 3, t.len() as int))),
            None => match first_occurrence(t, ".."@) {
                Some(k) => (1, side_of(t.subrange(0, k)), side_of(t.subrange(k + 2, t.len() as int))),
                None => if t.len() > 0 && t[0] == '^' {
                    (2, t.drop_first(), Seq::empty())
                } else {
                    (3, t, Seq::empty())
                },
            },
        }
    }
}

/// An occurrence of `n` in `h` at `i0` means a first occurrence exists.
proof fn lemma_first_occurrence_exists(h: Seq<char>, n: Seq<char>, i0: int)
    requires
        occurs_at(h, n, i0),
    ensures
        exists|i: int| occurs_at(h, n, i) && forall|j: int| 0 <= j < i ==> !occurs_at(h, n, j),
    decreases i0,
{
    if exists|j: int| 0 <= j < i0 && occurs_at(h, n, j) {
        let j = choose|j: int| 0 <= j < i0 && occurs_at(h, n, j);
        lemma_first_occurrence_exists(h, n, j);
    } else {
        assert(occurs_at(h, n, i0) && forall|j: int| 0 <= j < i0 ==> !occurs_at(h, n, j));
    }
}

/// A first occurrence is an occurrence.
proof fn lemma_first_occurrence_occurs(h: Seq<char>, n: Seq<char>)
    ensures
        first_occurrence(h, n) matches Some(k) ==> occurs_at(h, n, k),
{
    if contains_seq(h, n) {
        let i0 = choose|i: int| occurs_at(h, n, i);
        lemma_first_occurrence_exists(h, n, i0);
    }
}

/// The sides of a range token: the token is a left text, the range's dots,
/// and a right text; each side of the operation is that text, or `HEAD`
/// when the text is empty, so no side is ever empty.
pub proof fn lemma_range_sides(t: Seq<char>)
    ensures
        token_op(t).0 == 0 || token_op(t).0 == 1 ==> ({
            let dots = if token_op(t).0 == 0 {
                "..."@
            } else {
                ".."@
            };
            exists|k: int|
                #![trigger t.subrange(0, k)]
                0 <= k && k + dots.len() <= t.len() && t.subrange(k, k + dots.len()) == dots && token_op(t).1
                    == (if k == 0 {
                    "HEAD"@
                } else {
                    t.subrange(0, k)
                }) && token_op(t).2 == (if k + dots.len() == t.len() {
                    "HEAD"@
                } else {
                    t.subrange(k + dots.len(), t.len() as int)
                })
        }),
        token_op(t).0 == 0 || token_op(t).0 == 1 ==> token_op(t).1.len() > 0 && token_op(t).2.len() > 0,
{
    reveal_strlit("...");
    reveal_strlit("..");
    reveal_strlit("HEAD");
    lemma_first_occurrence_occurs(t, "..."@);
    lemma_first_occurrence_occurs(t, ".."@);
    if !(t.len() > 0 && t[0] == '-') {
        match first_occurrence(t, "..."@) {
            Some(k) => {
                assert(t.subrange(0, k) == t.subrange(0, k));
            },
            None => match first_occurrence(t, ".."@) {
                Some(k) => {
                    assert(t.subrange(0, k) == t.subrange(0, k));
                },
                None => {},
            },
        }
    }
}

/// A range side as a revision.
fn range_side(s: &[char]) -> (r: String)
    ensures
        r@ == side_of(s@),
{
    if s.len() == 0 {
        owned("HEAD")
    } else {
        string_of(s)
    }
}

/// How one token applies (see [`token_op`]).
fn parse_token(t: &[char]) -> (r: RangeOp)
    ensures
        op_view(r) == token_op(t@),
{
    if t.len() > 0 && t[0] == '-' {
        let mut m: Vec<char> = Vec::new();
        push_str_chars(&mut m, "range token '");
        crate::text::push_all(&mut m, t);
        push_str_chars(&mut m, "' looks like a flag, not a revision");
        return RangeOp::Reject(string_of(m.as_slice()));
    }
    let three = chars_of("...");
    match find_seq(t, three.as_slice()) {
        Some(k) => {
            proof {
                reveal_strlit("...");
            }
            assert(first_occurrence(t@, "..."@) == Some(k as int));
            let left = slice_chars(t, 0, k);
            let right = slice_chars(t, k + 3, t.len());
            return RangeOp::Symmetric(range_side(left.as_slice()), range_side(right.as_slice()));
        },
        None => {},
    }
    let two = chars_of("..");
    match find_seq(t, two.as_slice()) {
        Some(k) => {
            proof {
                reveal_strlit("..");
            }
            assert(first_occurrence(t@, ".."@) == Some(k as int));
            let left = slice_chars(t, 0, k);
            let right = slice_chars(t, k + 2, t.len());
            RangeOp::Between(range_side(left.as_slice()), range_side(right.as_slice()))
        },
        None => {
            if t.len() > 0 && t[0] == '^' {
                RangeOp::Hide(string_of(slice_chars(t, 1, t.len()).as_slice()))
            } else {
                RangeOp::Push(string_of(t))
            }
        },
    }
}

/// A rev-list expression (`A..B`, `A...B`, `^X`, or bare revisions,
/// whitespace-separated) as the operations its tokens apply, in order.
pub fn parse_range(expr: &str) -> (r: Vec<RangeOp>)
    ensures
        r@.map_values(|op: RangeOp| op_view(op)) == words_from(expr@, 0).map_values(
            |t: Seq<char>| token_op(t),
        ),
{
    let v = chars_of(expr);
    let words = words_of(v.as_slice());
    let ghost ws = words_from(expr@, 0);
    let mut out: Vec<RangeOp> = Vec::new();
    let mut i: usize = 0;
    while i < words.len()
        invariant
            i <= words@.len(),
            words.deep_view() == ws,
            ws == words_from(expr@, 0),
            out@.map_values(|op: RangeOp| op_view(op)) == ws.take(i as int).map_values(
                |t: Seq<char>| token_op(t),
            ),
        decreases words@.len() - i,
    {
        assert(words@[i as int]@ == ws[i as int]);
        let op = parse_token(words[i].as_slice());
        let ghost before = out@.map_values(|op: RangeOp| op_view(op));
        out.push(op);
        assert(out@.map_values(|op: RangeOp| op_view(op)) =~= before.push(token_op(ws[i as int])));
        assert(ws.take(i + 1).map_values(|t: Seq<char>| token_op(t)) =~= ws.take(i as int).map_values(
            |t: Seq<char>| token_op(t),
        ).push(token_op(ws[i as int])));
        i = i + 1;
    }
    assert(ws.take(i as int) == ws);
    out
}

} // verus!
