//! Diffstat and structured diff shapes, and the rules that turn a diff's
//! raw pieces (deltas, hunks, lines as git produced them) into responses:
//! statuses, paths, the per-file line cap that drops whole hunks, the file
//! cap, totals, and the raw-patch framing.
use vstd::prelude::*;

use crate::error::ApiError;
use crate::text::{chars_of, lossy_utf8, owned, slice_chars, string_of, utf8_lossy};

verus! {

/// Per-file cap on rendered diff lines; hunks are dropped whole once the
/// cap would be crossed, never cut in the middle.
pub const MAX_FILE_DIFF_LINES: usize = 1000;

/// Cap on files rendered by the structured diffs.
pub const MAX_DIFF_FILES: usize = 300;

/// Diff context lines used when a request names none (`git diff`'s own).
pub const DEFAULT_CONTEXT: u32 = 3;

/// Largest `context=` accepted.
pub const MAX_CONTEXT: u32 = 100;

/// Largest number of commits rendered as one patch series; a larger range
/// is rejected rather than silently shortened.
pub const MAX_PATCH_COMMITS: usize = 100;

/// Display options of a diff.
#[derive(Debug, Clone)]
pub struct DiffParams {
    /// Literal single-path restriction.
    pub path: Option<String>,
    pub context: u32,
    /// Ignore whitespace when deciding what changed.
    pub ignore_whitespace: bool,
}

impl Default for DiffParams {
    fn default() -> (r: Self)
        ensures
            r.path is None,
            r.context == DEFAULT_CONTEXT,
            !r.ignore_whitespace,
    {
        DiffParams { path: None, context: DEFAULT_CONTEXT, ignore_whitespace: false }
    }
}

/// How a file changed between the two trees.
#[derive(Debug, Clone, Copy, PartialEq, Eq, Structural)]
pub enum DiffStatus {
    Added,
    Deleted,
    Modified,
    Renamed,
    Copied,
    Typechange,
}

/// A delta's status as git reports it.
#[derive(Debug, Clone, Copy, PartialEq, Eq, Structural)]
pub enum Delta {
    Unmodified,
    Added,
    Deleted,
    Modified,
    Renamed,
    Copied,
    Ignored,
    Untracked,
    Typechange,
    Unreadable,
    Conflicted,
}

/// The status a delta is reported with; worktree- and index-only states,
/// which a tree-to-tree diff never has, read as modified.
pub open spec fn status_of(d: Delta) -> DiffStatus {
    match d {
        Delta::Added => DiffStatus::Added,
        Delta::Deleted => DiffStatus::Deleted,
        Delta::Renamed => DiffStatus::Renamed,
        Delta::Copied => DiffStatus::Copied,
        Delta::Typechange => DiffStatus::Typechange,
        _ => DiffStatus::Modified,
    }
}

/// A status names a change kind.
pub open spec fn is_change_kind(d: Delta) -> bool {
    d == Delta::Added || d == Delta::Deleted || d == Delta::Modified || d == Delta::Renamed || d
        == Delta::Copied || d == Delta::Typechange
}

/// The reported status names the same kind of change as git's delta, for
/// each of the six kinds a diff between two trees reports; two different
/// kinds never share a status.
pub proof fn lemma_status_names_the_change(d: Delta, e: Delta)
    ensures
        d == Delta::Added <==> status_of(d) == DiffStatus::Added,
        d == Delta::Deleted <==> status_of(d) == DiffStatus::Deleted,
        d == Delta::Renamed <==> status_of(d) == DiffStatus::Renamed,
        d == Delta::Copied <==> status_of(d) == DiffStatus::Copied,
        d == Delta::Typechange <==> status_of(d) == DiffStatus::Typechange,
        d == Delta::Modified ==> status_of(d) == DiffStatus::Modified,
        is_change_kind(d) && is_change_kind(e) && d != e ==> status_of(d) != status_of(e),
{
}

/// The status a delta is reported with.
pub fn diff_status(status: Delta) -> (r: DiffStatus)
    ensures
        r == status_of(status),
{
    match status {
        Delta::Added => DiffStatus::Added,
        Delta::Deleted => DiffStatus::Deleted,
        Delta::Modified => DiffStatus::Modified,
        Delta::Renamed => DiffStatus::Renamed,
        Delta::Copied => DiffStatus::Copied,
        Delta::Typechange => DiffStatus::Typechange,
        Delta::Unmodified | Delta::Ignored | Delta::Untracked | Delta::Unreadable
        | Delta::Conflicted => DiffStatus::Modified,
    }
}

/// The view of an optional string.
pub open spec fn ov(o: Option<String>) -> Option<Seq<char>> {
    match o {
        Some(s) => Some(s@),
        None => None,
    }
}

/// A delta's reported paths: the new path (else the old one, else empty),
/// and the old path only for a rename or a copy.
pub open spec fn paths_of(status: Delta, new_path: Option<Seq<char>>, old_path: Option<Seq<char>>) -> (
    Seq<char>,
    Option<Seq<char>>,
) {
    let path = match new_path {
        Some(p) => p,
        None => match old_path {
            Some(p) => p,
            None => Seq::empty(),
        },
    };
    let old = if status == Delta::Renamed || status == Delta::Copied {
        old_path
    } else {
        None
    };
    (path, old)
}

/// A delta's reported paths (see [`paths_of`]); the paths come as text
/// already read from the delta.
pub fn delta_paths(status: Delta, new_path: Option<&str>, old_path: Option<&str>) -> (r: (
    String,
    Option<String>,
))
    ensures
        (r.0@, ov(r.1)) == paths_of(
            status,
            match new_path {
                Some(p) => Some(p@),
                None => None,
            },
            match old_path {
                Some(p) => Some(p@),
                None => None,
            },
        ),
{
    let path = match new_path {
        Some(p) => owned(p),
        None => match old_path {
            Some(p) => owned(p),
            None => String::new(),
        },
    };
    let old = match status {
        Delta::Renamed | Delta::Copied => match old_path {
            Some(p) => Some(owned(p)),
            None => None,
        },
        _ => None,
    };
    (path, old)
}

/// Per-file entry shared by the diffstat and the diff.
#[derive(Debug)]
pub struct DiffStatFile {
    pub path: String,
    /// Previous path; only set for renamed and copied files.
    pub old_path: Option<String>,
    pub status: DiffStatus,
    /// Always the full count, even when the file's hunks were truncated;
    /// binary files report 0.
    pub additions: usize,
    pub deletions: usize,
    pub binary: bool,
}

/// A delta's stat entry: its status and paths, and the line counts of its
/// patch. `counts` is `None` when git produced no text for the delta, which
/// is reported as binary with no counts.
pub fn file_stat(
    status: Delta,
    new_path: Option<&str>,
    old_path: Option<&str>,
    binary: bool,
    counts: Option<(usize, usize)>,
) -> (r: DiffStatFile)
    ensures
        (r.path@, ov(r.old_path)) == paths_of(
            status,
            match new_path {
                Some(p) => Some(p@),
                None => None,
            },
            match old_path {
                Some(p) => Some(p@),
                None => None,
            },
        ),
        r.status == status_of(status),
        match counts {
            Some((a, d)) => r.additions == a && r.deletions == d && r.binary == binary,
            None => r.additions == 0 && r.deletions == 0 && r.binary,
        },
{
    let (path, old) = delta_paths(status, new_path, old_path);
    match counts {
        Some((a, d)) => DiffStatFile {
            path,
            old_path: old,
            status: diff_status(status),
            additions: a,
            deletions: d,
            binary,
        },
        None => DiffStatFile {
            path,
            old_path: old,
            status: diff_status(status),
            additions: 0,
            deletions: 0,
            binary: true,
        },
    }
}

/// A commit's diffstat.
#[derive(Debug)]
pub struct DiffStat {
    pub files: Vec<DiffStatFile>,
    pub files_changed: usize,
    pub total_additions: usize,
    pub total_deletions: usize,
}

/// File and line counts of a log entry.
#[derive(Debug)]
pub struct StatCounts {
    pub files_changed: usize,
    pub additions: usize,
    pub deletions: usize,
}

/// Sum of the additions of `files`.
pub open spec fn additions_sum(files: Seq<DiffStatFile>) -> int
    decreases files.len(),
{
    if files.len() == 0 {
        0
    } else {
        additions_sum(files.drop_last()) + files.last().additions
    }
}

/// Sum of the deletions of `files`.
pub open spec fn deletions_sum(files: Seq<DiffStatFile>) -> int
    decreases files.len(),
{
    if files.len() == 0 {
        0
    } else {
        deletions_sum(files.drop_last()) + files.last().deletions
    }
}

/// Sums never shrink as files are added.
proof fn lemma_sums_monotone(files: Seq<DiffStatFile>, k: int)
    requires
        0 <= k <= files.len(),
    ensures
        additions_sum(files.take(k)) <= additions_sum(files),
        deletions_sum(files.take(k)) <= deletions_sum(files),
        additions_sum(files.take(k)) >= 0,
        deletions_sum(files.take(k)) >= 0,
    decreases files.len(),
{
    if k < files.len() {
        assert(files.drop_last().take(k) == files.take(k));
        lemma_sums_monotone(files.drop_last(), k);
        lemma_sums_monotone(files.drop_last(), files.len() - 1);
        assert(files.drop_last().take(files.len() - 1) == files.drop_last());
    } else {
        assert(files.take(k) == files);
        if files.len() > 0 {
            lemma_sums_monotone(files.drop_last(), files.len() - 1);
            assert(files.drop_last().take(files.len() - 1) == files.drop_last());
        }
    }
}

/// The diffstat of a list of file entries: their count and line totals.
pub fn diffstat_of(files: Vec<DiffStatFile>) -> (r: DiffStat)
    requires
        additions_sum(files@) <= usize::MAX,
        deletions_sum(files@) <= usize::MAX,
    ensures
        r.files@ == files@,
        r.files_changed == files@.len(),
        r.total_additions == additions_sum(files@),
        r.total_deletions == deletions_sum(files@),
{
    let mut add: usize = 0;
    let mut del: usize = 0;
    let mut i: usize = 0;
    while i < files.len()
        invariant
            i <= files@.len(),
            additions_sum(files@) <= usize::MAX,
            deletions_sum(files@) <= usize::MAX,
            add == additions_sum(files@.take(i as int)),
            del == deletions_sum(files@.take(i as int)),
        decreases files@.len() - i,
    {
        assert(files@.take(i + 1).drop_last() == files@.take(i as int));
        proof {
            lemma_sums_monotone(files@, i + 1);
        }
        add = add + files[i].additions;
        del = del + files[i].deletions;
        i = i + 1;
    }
    assert(files@.take(i as int) == files@);
    let n = files.len();
    DiffStat { files, files_changed: n, total_additions: add, total_deletions: del }
}

// ---------------------------------------------------------------------------
// Hunks and lines
// ---------------------------------------------------------------------------

/// Which side of the diff a line belongs to.
#[derive(Debug, Clone, Copy, PartialEq, Eq, Structural)]
pub enum LineOrigin {
    Context,
    Addition,
    Deletion,
}

/// The origin a git line-origin character maps to; other origins (EOF
/// newline markers, file headers) map to none and are dropped.
pub open spec fn origin_of(c: char) -> Option<LineOrigin> {
    if c == ' ' {
        Some(LineOrigin::Context)
    } else if c == '+' {
        Some(LineOrigin::Addition)
    } else if c == '-' {
        Some(LineOrigin::Deletion)
    } else {
        None
    }
}

/// Maps a git line-origin character (see [`origin_of`]).
pub fn line_origin(origin: char) -> (r: Option<LineOrigin>)
    ensures
        r == origin_of(origin),
{
    if origin == ' ' {
        Some(LineOrigin::Context)
    } else if origin == '+' {
        Some(LineOrigin::Addition)
    } else if origin == '-' {
        Some(LineOrigin::Deletion)
    } else {
        None
    }
}

/// `s` with one trailing `\n` and then one trailing `\r` removed.
pub open spec fn without_newline(s: Seq<char>) -> Seq<char> {
    let a = if s.len() > 0 && s.last() == '\n' {
        s.drop_last()
    } else {
        s
    };
    if a.len() > 0 && a.last() == '\r' {
        a.drop_last()
    } else {
        a
    }
}

/// Strips one trailing `\n` (or `\r\n`); git's line and header buffers keep
/// it.
pub fn trim_newline(text: &str) -> (r: String)
    ensures
        r@ == without_newline(text@),
{
    let v = chars_of(text);
    let mut n = v.len();
    if n > 0 && v[n - 1] == '\n' {
        n = n - 1;
    }
    if n > 0 && v[n - 1] == '\r' {
        n = n - 1;
    }
    let r = slice_chars(v.as_slice(), 0, n);
    proof {
        let s = text@;
        let a = if s.len() > 0 && s.last() == '\n' {
            s.drop_last()
        } else {
            s
        };
        if s.len() > 0 && s.last() == '\n' {
            assert(a == s.subrange(0, s.len() - 1));
        } else {
            assert(a == s.subrange(0, s.len() as int));
        }
        if a.len() > 0 && a.last() == '\r' {
            assert(a.drop_last() == s.subrange(0, a.len() - 1));
        }
    }
    string_of(r.as_slice())
}

/// One diff line as git produced it.
#[derive(Debug)]
pub struct RawLine {
    pub origin: char,
    pub content: Vec<u8>,
    pub old_lineno: Option<u32>,
    pub new_lineno: Option<u32>,
}

/// One hunk as git produced it: its header bytes, ranges, and every line,
/// whatever its origin.
#[derive(Debug)]
pub struct RawHunk {
    pub header: Vec<u8>,
    pub old_start: u32,
    pub old_lines: u32,
    pub new_start: u32,
    pub new_lines: u32,
    pub lines: Vec<RawLine>,
}

/// One rendered diff line.
#[derive(Debug)]
pub struct Line {
    pub origin: LineOrigin,
    /// Content without the trailing newline (read as UTF-8, invalid
    /// sequences replaced).
    pub content: String,
    /// `None` on added lines.
    pub old_lineno: Option<u32>,
    /// `None` on deleted lines.
    pub new_lineno: Option<u32>,
}

/// One rendered hunk.
#[derive(Debug)]
pub struct Hunk {
    /// `@@ -a,b +c,d @@ <context>` without the trailing newline.
    pub header: String,
    pub old_start: u32,
    pub old_lines: u32,
    pub new_start: u32,
    pub new_lines: u32,
    pub lines: Vec<Line>,
}

/// The view of a rendered line.
pub open spec fn line_view(l: Line) -> (LineOrigin, Seq<char>, Option<u32>, Option<u32>) {
    (l.origin, l.content@, l.old_lineno, l.new_lineno)
}

/// The rendered view of raw lines: those with a kept origin, in order, their
/// content read as text without the trailing newline.
pub open spec fn rendered_lines(raw: Seq<RawLine>) -> Seq<(LineOrigin, Seq<char>, Option<u32>, Option<u32>)>
    decreases raw.len(),
{
    if raw.len() == 0 {
        Seq::empty()
    } else {
        let rest = rendered_lines(raw.drop_last());
        let l = raw.last();
        match origin_of(l.origin) {
            Some(o) => rest.push((o, without_newline(utf8_lossy(l.content@)), l.old_lineno, l.new_lineno)),
            None => rest,
        }
    }
}

/// Whether `h` renders the raw hunk `raw`.
pub open spec fn renders_hunk(h: Hunk, raw: RawHunk) -> bool {
    &&& h.header@ == without_newline(utf8_lossy(raw.header@))
    &&& h.old_start == raw.old_start
    &&& h.old_lines == raw.old_lines
    &&& h.new_start == raw.new_start
    &&& h.new_lines == raw.new_lines
    &&& h.lines@.map_values(|l: Line| line_view(l)) == rendered_lines(raw.lines@)
}

/// Renders one raw hunk.
fn render_hunk(raw: &RawHunk) -> (r: Hunk)
    ensures
        renders_hunk(r, *raw),
{
    let header_text = lossy_utf8(raw.header.as_slice());
    let header = trim_newline(header_text.as_str());
    let mut lines: Vec<Line> = Vec::new();
    let mut i: usize = 0;
    assert(raw.lines@.take(0) == Seq::<RawLine>::empty());
    while i < raw.lines.len()
        invariant
            i <= raw.lines@.len(),
            lines@.map_values(|l: Line| line_view(l)) == rendered_lines(raw.lines@.take(i as int)),
        decreases raw.lines@.len() - i,
    {
        assert(raw.lines@.take(i + 1).drop_last() == raw.lines@.take(i as int));
        assert(raw.lines@.take(i + 1).last() == raw.lines@[i as int]);
        let l = &raw.lines[i];
        match line_origin(l.origin) {
            Some(o) => {
                let text = lossy_utf8(l.content.as_slice());
                let content = trim_newline(text.as_str());
                let line = Line { origin: o, content, old_lineno: l.old_lineno, new_lineno: l.new_lineno };
                let ghost before = lines@;
                lines.push(line);
                assert(lines@.map_values(|l: Line| line_view(l)) =~= before.map_values(
                    |l: Line| line_view(l),
                ).push(line_view(lines@.last())));
            },
            None => {},
        }
        i = i + 1;
    }
    assert(raw.lines@.take(i as int) == raw.lines@);
    Hunk {
        header,
        old_start: raw.old_start,
        old_lines: raw.old_lines,
        new_start: raw.new_start,
        new_lines: raw.new_lines,
        lines,
    }
}

/// How many leading hunks fit within `budget` lines, counting every raw
/// line of each: the first hunk that would cross the budget ends the list.
pub open spec fn hunks_within(raw: Seq<RawHunk>, budget: int) -> nat
    decreases raw.len(),
{
    if raw.len() == 0 {
        0
    } else if raw[0].lines.len() > budget {
        0
    } else {
        1 + hunks_within(raw.drop_first(), budget - raw[0].lines.len())
    }
}

/// Raw lines in the first `m` hunks.
pub open spec fn prefix_lines(raw: Seq<RawHunk>, m: int) -> int
    decreases m,
{
    if m <= 0 || raw.len() == 0 {
        0
    } else {
        raw[0].lines.len() + prefix_lines(raw.drop_first(), m - 1)
    }
}

/// A file's hunks are cut to the longest leading run that fits the line
/// budget, whole hunks only: the kept hunks fit, and any longer run of
/// leading hunks does not.
pub proof fn lemma_hunks_within_longest(raw: Seq<RawHunk>, budget: int)
    requires
        budget >= 0,
    ensures
        hunks_within(raw, budget) <= raw.len(),
        prefix_lines(raw, hunks_within(raw, budget) as int) <= budget,
        forall|m: int|
            0 <= m <= raw.len() && #[trigger] prefix_lines(raw, m) <= budget ==> m <= hunks_within(raw, budget),
    decreases raw.len(),
{
    lemma_hunks_within_bound(raw, budget);
    if raw.len() > 0 {
        if raw[0].lines.len() <= budget {
            let rest = raw.drop_first();
            let b2 = budget - raw[0].lines.len();
            lemma_hunks_within_longest(rest, b2);
            assert forall|m: int| 0 <= m <= raw.len() && #[trigger] prefix_lines(raw, m) <= budget implies m
                <= hunks_within(raw, budget) by {
                if m > 0 {
                    assert(prefix_lines(raw, m) == raw[0].lines.len() + prefix_lines(rest, m - 1));
                    assert(prefix_lines(rest, m - 1) <= b2);
                }
            }
        } else {
            assert forall|m: int| 0 <= m <= raw.len() && #[trigger] prefix_lines(raw, m) <= budget implies m
                <= hunks_within(raw, budget) by {
                if m > 0 {
                    lemma_prefix_lines_nonneg(raw.drop_first(), m - 1);
                }
            }
        }
    }
}

/// Line counts are never negative.
proof fn lemma_prefix_lines_nonneg(raw: Seq<RawHunk>, m: int)
    ensures
        prefix_lines(raw, m) >= 0,
    decreases m,
{
    if m > 0 && raw.len() > 0 {
        lemma_prefix_lines_nonneg(raw.drop_first(), m - 1);
    }
}

/// [`hunks_within`] never exceeds the number of hunks.
proof fn lemma_hunks_within_bound(raw: Seq<RawHunk>, budget: int)
    ensures
        hunks_within(raw, budget) <= raw.len(),
    decreases raw.len(),
{
    if raw.len() > 0 && raw[0].lines.len() <= budget {
        lemma_hunks_within_bound(raw.drop_first(), budget - raw[0].lines.len());
    }
}

/// Renders a file's hunks up to [`MAX_FILE_DIFF_LINES`] lines: the leading
/// hunks that fit are kept whole, the rest dropped, and `truncated` says
/// whether any was.
pub fn collect_hunks(raw: &Vec<RawHunk>) -> (r: (Vec<Hunk>, bool))
    ensures
        r.0@.len() == hunks_within(raw@, MAX_FILE_DIFF_LINES as int),
        forall|i: int| 0 <= i < r.0@.len() ==> renders_hunk(#[trigger] r.0@[i], raw@[i]),
        r.1 == (hunks_within(raw@, MAX_FILE_DIFF_LINES as int) < raw@.len()),
{
    let mut hunks: Vec<Hunk> = Vec::new();
    let mut rendered: usize = 0;
    let mut i: usize = 0;
    proof {
        lemma_hunks_within_bound(raw@, MAX_FILE_DIFF_LINES as int);
    }
    assert(raw@.skip(0) == raw@);
    while i < raw.len()
        invariant
            i <= raw@.len(),
            rendered <= MAX_FILE_DIFF_LINES,
            hunks@.len() == i,
            forall|k: int| 0 <= k < i ==> renders_hunk(#[trigger] hunks@[k], raw@[k]),
            hunks_within(raw@, MAX_FILE_DIFF_LINES as int) == i + hunks_within(
                raw@.skip(i as int),
                MAX_FILE_DIFF_LINES - rendered,
            ),
        decreases raw@.len() - i,
    {
        let ghost rest = raw@.skip(i as int);
        assert(rest[0] == raw@[i as int]);
        assert(rest.drop_first() == raw@.skip(i + 1));
        let count = raw[i].lines.len();
        if count > MAX_FILE_DIFF_LINES - rendered {
            proof {
                lemma_hunks_within_bound(raw@, MAX_FILE_DIFF_LINES as int);
            }
            return (hunks, true);
        }
        rendered = rendered + count;
        let h = render_hunk(&raw[i]);
        hunks.push(h);
        i = i + 1;
    }
    assert(raw@.skip(i as int).len() == 0);
    (hunks, false)
}

// ---------------------------------------------------------------------------
// Files
// ---------------------------------------------------------------------------

/// One file of a structured diff.
#[derive(Debug)]
pub struct FileDiff {
    pub stat: DiffStatFile,
    /// Hunks were dropped past [`MAX_FILE_DIFF_LINES`].
    pub truncated: bool,
    /// Empty for binary files.
    pub hunks: Vec<Hunk>,
}

/// How many of `delta_count` files a structured diff renders.
pub fn rendered_file_count(delta_count: usize) -> (r: usize)
    ensures
        r == if delta_count < MAX_DIFF_FILES {
            delta_count
        } else {
            MAX_DIFF_FILES
        },
{
    if delta_count < MAX_DIFF_FILES {
        delta_count
    } else {
        MAX_DIFF_FILES
    }
}

/// One file to render: its stat entry and, when git produced text for it,
/// its hunks.
#[derive(Debug)]
pub struct RawFile {
    pub stat: DiffStatFile,
    pub hunks: Option<Vec<RawHunk>>,
}

/// Renders the files of a diff with `delta_count` deltas, given the first
/// [`rendered_file_count`] of them. A file gets hunks only when it has text
/// and is not binary; `truncated` says whether files past the cap were
/// left out.
pub fn render_files(delta_count: usize, files: Vec<RawFile>) -> (r: (Vec<FileDiff>, bool))
    ensures
        r.0@.len() == files@.len(),
        forall|i: int|
            0 <= i < files@.len() ==> {
                let f = #[trigger] r.0@[i];
                let raw = files@[i];
                &&& f.stat == raw.stat
                &&& match raw.hunks {
                    Some(hs) => if raw.stat.binary {
                        f.hunks@.len() == 0 && !f.truncated
                    } else {
                        &&& f.hunks@.len() == hunks_within(hs@, MAX_FILE_DIFF_LINES as int)
                        &&& forall|k: int|
                            0 <= k < f.hunks@.len() ==> renders_hunk(f.hunks@[k], hs@[k])
                        &&& f.truncated == (hunks_within(hs@, MAX_FILE_DIFF_LINES as int)
                            < hs@.len())
                    },
                    None => f.hunks@.len() == 0 && !f.truncated,
                }
            },
        r.1 == (delta_count > MAX_DIFF_FILES),
{
    let ghost orig = files@;
    assert(orig.len() == files.len());
    let mut out: Vec<FileDiff> = Vec::new();
    let mut rest = files;
    let mut taken: Vec<RawFile> = Vec::new();
    while rest.len() > 0
        invariant
            taken@.len() + rest@.len() == orig.len(),
            orig.len() <= usize::MAX,
            rest@ == orig.take(rest@.len() as int),
            forall|j: int| 0 <= j < taken@.len() ==> #[trigger] taken@[j] == orig[orig.len() - 1 - j],
        decreases rest@.len(),
    {
        let ghost before = rest@;
        match rest.pop() {
            Some(f) => {
                assert(f == orig[before.len() - 1]);
                assert(rest@ == orig.take(rest@.len() as int));
                taken.push(f);
            },
            None => {},
        }
    }
    let mut k: usize = 0;
    while taken.len() > 0
        invariant
            taken@.len() + k == orig.len(),
            orig.len() <= usize::MAX,
            forall|j: int| 0 <= j < taken@.len() ==> #[trigger] taken@[j] == orig[orig.len() - 1 - j],
            out@.len() == k,
            forall|i: int|
                0 <= i < k ==> {
                    let f = #[trigger] out@[i];
                    let raw = orig[i];
                    &&& f.stat == raw.stat
                    &&& match raw.hunks {
                        Some(hs) => if raw.stat.binary {
                            f.hunks@.len() == 0 && !f.truncated
                        } else {
                            &&& f.hunks@.len() == hunks_within(hs@, MAX_FILE_DIFF_LINES as int)
                            &&& forall|m: int|
                                0 <= m < f.hunks@.len() ==> renders_hunk(f.hunks@[m], hs@[m])
                            &&& f.truncated == (hunks_within(hs@, MAX_FILE_DIFF_LINES as int)
                                < hs@.len())
                        },
                        None => f.hunks@.len() == 0 && !f.truncated,
                    }
                },
        decreases taken@.len(),
    {
        let ghost before = taken@;
        match taken.pop() {
            Some(raw) => {
                assert(raw == orig[k as int]);
                let RawFile { stat, hunks } = raw;
                let fd = match hunks {
                    Some(hs) => if stat.binary {
                        FileDiff { stat, truncated: false, hunks: Vec::new() }
                    } else {
                        let (rendered, truncated) = collect_hunks(&hs);
                        FileDiff { stat, truncated, hunks: rendered }
                    },
                    None => FileDiff { stat, truncated: false, hunks: Vec::new() },
                };
                out.push(fd);
                k = k + 1;
            },
            None => {},
        }
    }
    (out, delta_count > MAX_DIFF_FILES)
}

/// Structured diff of one commit against its first parent.
#[derive(Debug)]
pub struct CommitDiff {
    pub sha: String,
    /// First parent the diff was computed against; `None` for a root commit.
    pub parent: Option<String>,
    /// Files beyond [`MAX_DIFF_FILES`] were omitted.
    pub truncated: bool,
    pub files: Vec<FileDiff>,
}

/// Two-revision diff.
#[derive(Debug)]
pub struct RevDiff {
    /// Resolved full sha of the old side; `None` only when `from` was
    /// omitted and `to` is a root commit.
    pub from: Option<String>,
    pub to: String,
    /// Always `false` in stat-only mode.
    pub truncated: bool,
    /// The full, uncapped file list.
    pub diffstat: DiffStat,
    /// Always empty in stat-only mode.
    pub files: Vec<FileDiff>,
}

/// One delta of a first-parent diff as the rename search sees it: status,
/// new path and old path.
#[derive(Debug, Clone)]
pub struct DeltaPaths {
    pub status: Delta,
    pub new_path: Option<String>,
    pub old_path: Option<String>,
}

/// The old path of the first delta that renames to `new_path`, if any.
pub open spec fn rename_source_of(deltas: Seq<DeltaPaths>, new_path: Seq<char>) -> Option<Option<Seq<char>>>
    decreases deltas.len(),
{
    if deltas.len() == 0 {
        None
    } else if deltas[0].status == Delta::Renamed && ov(deltas[0].new_path) == Some(new_path) {
        Some(ov(deltas[0].old_path))
    } else {
        rename_source_of(deltas.drop_first(), new_path)
    }
}

/// The path `new_path` had in a commit's first parent, when that commit
/// renamed it: the old path of the first rename delta whose new path is
/// `new_path`. A root commit (no parent) renames nothing; only whole-file
/// renames count, never copies.
pub fn rename_source(has_parent: bool, deltas: &[DeltaPaths], new_path: &str) -> (r: Option<String>)
    ensures
        !has_parent ==> r is None,
        has_parent ==> ov(r) == match rename_source_of(deltas@, new_path@) {
            Some(o) => o,
            None => None,
        },
{
    if !has_parent {
        return None;
    }
    let mut i: usize = 0;
    assert(deltas@.skip(0) == deltas@);
    while i < deltas.len()
        invariant
            i <= deltas@.len(),
            has_parent,
            rename_source_of(deltas@, new_path@) == rename_source_of(deltas@.skip(i as int), new_path@),
        decreases deltas@.len() - i,
    {
        let ghost rest = deltas@.skip(i as int);
        assert(rest[0] == deltas@[i as int]);
        assert(rest.drop_first() == deltas@.skip(i + 1));
        let d = &deltas[i];
        let matches = match d.status {
            Delta::Renamed => match &d.new_path {
                Some(p) => crate::text::str_eq(p.as_str(), new_path),
                None => false,
            },
            _ => false,
        };
        if matches {
            return match &d.old_path {
                Some(p) => Some(owned(p.as_str())),
                None => None,
            };
        }
        i = i + 1;
    }
    None
}

/// The commits of a patch series, oldest first, from the walk of the range
/// (newest first). A range of more than [`MAX_PATCH_COMMITS`] commits is
/// rejected rather than shortened.
pub fn patch_series(walked: Vec<String>) -> (r: Result<Vec<String>, ApiError>)
    ensures
        walked@.len() > MAX_PATCH_COMMITS ==> (r matches Err(ApiError::InvalidParam(m)) && m@
            == "commit range exceeds the 100-commit patch limit"@),
        walked@.len() <= MAX_PATCH_COMMITS ==> (r matches Ok(v) && v@ == walked@.reverse()),
{
    if walked.len() > MAX_PATCH_COMMITS {
        return Err(ApiError::InvalidParam(owned("commit range exceeds the 100-commit patch limit")));
    }
    let ghost orig = walked@;
    let mut rest = walked;
    let mut out: Vec<String> = Vec::new();
    while rest.len() > 0
        invariant
            out@.len() + rest@.len() == orig.len(),
            rest@ == orig.take(rest@.len() as int),
            out@ == orig.skip(rest@.len() as int).reverse(),
        decreases rest@.len(),
    {
        let ghost before = rest@;
        match rest.pop() {
            Some(x) => {
                assert(x == orig[before.len() - 1]);
                assert(rest@ == orig.take(rest@.len() as int));
                let ghost o = out@;
                out.push(x);
                assert(orig.skip(rest@.len() as int) == seq![x] + orig.skip(before.len() as int));
                assert(out@ =~= orig.skip(rest@.len() as int).reverse());
            },
            None => {},
        }
    }
    assert(orig.skip(0) == orig);
    Ok(out)
}

/// The bytes one printed diff line adds to a raw unified diff: content lines
/// get back the origin character git keeps out of their content.
pub open spec fn raw_line_bytes(origin: char, content: Seq<u8>) -> Seq<u8> {
    if origin == ' ' {
        seq![32u8] + content
    } else if origin == '+' {
        seq![43u8] + content
    } else if origin == '-' {
        seq![45u8] + content
    } else {
        content
    }
}

/// Appends one printed diff line to a raw unified diff.
pub fn push_raw_line(out: &mut Vec<u8>, origin: char, content: &[u8])
    ensures
        final(out)@ == old(out)@ + raw_line_bytes(origin, content@),
{
    let ghost start = out@;
    if origin == ' ' {
        out.push(32u8);
    } else if origin == '+' {
        out.push(43u8);
    } else if origin == '-' {
        out.push(45u8);
    }
    let ghost mid = out@;
    let mut i: usize = 0;
    while i < content.len()
        invariant
            i <= content@.len(),
            out@ == mid + content@.take(i as int),
        decreases content@.len() - i,
    {
        assert(content@.take(i + 1) == content@.take(i as int).push(content@[i as int]));
        out.push(content[i]);
        i = i + 1;
    }
    assert(content@.take(i as int) == content@);
}

} // verus!
