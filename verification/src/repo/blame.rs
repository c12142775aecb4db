//! Per-line attribution: the ranges a blame reports, in line order,
//! covering the file.
use vstd::prelude::*;

use crate::repo::commits::CommitAuthor;

verus! {

/// One contiguous run of lines attributed to the same commit.
#[derive(Debug)]
pub struct BlameRange {
    /// 1-based, inclusive.
    pub start_line: usize,
    pub line_count: usize,
    pub sha: String,
    /// `None` for a non-UTF-8 commit message.
    pub summary: Option<String>,
    pub author: CommitAuthor,
    pub authored_at: Option<String>,
}

/// Response of the blame endpoint.
#[derive(Debug)]
pub struct BlameInfo {
    pub sha: String,
    pub path: String,
    pub binary: bool,
    pub too_large: bool,
    pub lines: usize,
    /// `start_line` ascending; empty for binary, too-large, or empty files.
    pub ranges: Vec<BlameRange>,
}

/// The response for a file that is not blamed at all: binary or too large.
pub fn blame_skipped(sha: String, path: String, binary: bool, too_large: bool) -> (r: BlameInfo)
    ensures
        r.sha == sha,
        r.path == path,
        r.binary == binary,
        r.too_large == too_large,
        r.lines == 0,
        r.ranges@.len() == 0,
{
    BlameInfo { sha, path, binary, too_large, lines: 0, ranges: Vec::new() }
}

/// The hunks that cover at least one line, in order (git reports a single
/// zero-length hunk for an empty file).
pub open spec fn nonempty_ranges(s: Seq<BlameRange>) -> Seq<BlameRange>
    decreases s.len(),
{
    if s.len() == 0 {
        s
    } else if s.last().line_count == 0 {
        nonempty_ranges(s.drop_last())
    } else {
        nonempty_ranges(s.drop_last()).push(s.last())
    }
}

/// Total lines of `s`.
pub open spec fn line_total(s: Seq<BlameRange>) -> int
    decreases s.len(),
{
    if s.len() == 0 {
        0
    } else {
        line_total(s.drop_last()) + s.last().line_count
    }
}

/// Index at which `x` enters `s`, ordered by start line, from `i`: after
/// every range starting no later (the sort is stable).
pub open spec fn range_insert_index(s: Seq<BlameRange>, x: BlameRange, i: int) -> int
    decreases s.len() - i,
{
    if i >= s.len() {
        s.len() as int
    } else if x.start_line < s[i].start_line {
        i
    } else {
        range_insert_index(s, x, i + 1)
    }
}

/// `s` ordered by start line: a stable sort.
pub open spec fn by_start_line(s: Seq<BlameRange>) -> Seq<BlameRange>
    decreases s.len(),
{
    if s.len() == 0 {
        s
    } else {
        let r = by_start_line(s.drop_last());
        r.insert(range_insert_index(r, s.last(), 0), s.last())
    }
}

/// Totals never shrink as ranges are added.
proof fn lemma_line_total_prefix(s: Seq<BlameRange>, k: int)
    requires
        0 <= k <= s.len(),
    ensures
        0 <= line_total(s.take(k)) <= line_total(s),
    decreases s.len(),
{
    if k < s.len() {
        assert(s.drop_last().take(k) == s.take(k));
        lemma_line_total_prefix(s.drop_last(), k);
        lemma_line_total_prefix(s.drop_last(), s.len() - 1);
        assert(s.drop_last().take(s.len() - 1) == s.drop_last());
    } else {
        assert(s.take(k) == s);
        if s.len() > 0 {
            lemma_line_total_prefix(s.drop_last(), s.len() - 1);
            assert(s.drop_last().take(s.len() - 1) == s.drop_last());
        }
    }
}

/// Assembles a blame from its hunks in git's order: zero-length hunks are
/// dropped, the line count is the total of the rest, and the ranges come
/// ordered by start line.
pub fn assemble_blame(sha: String, path: String, hunks: Vec<BlameRange>) -> (r: BlameInfo)
    requires
        line_total(hunks@) <= usize::MAX,
    ensures
        r.sha == sha,
        r.path == path,
        !r.binary,
        !r.too_large,
        r.lines == line_total(hunks@),
        r.ranges@ == by_start_line(nonempty_ranges(hunks@)),
{
    let ghost orig = hunks@;
    assert(orig.len() == hunks.len());
    let mut rest = hunks;
    let mut items: Vec<BlameRange> = Vec::new();
    let mut lines: usize = 0;
    while rest.len() > 0
        invariant
            items@.len() + rest@.len() == orig.len(),
            orig.len() <= usize::MAX,
            rest@ == orig.take(rest@.len() as int),
            forall|j: int| 0 <= j < items@.len() ==> #[trigger] items@[j] == orig[orig.len() - 1 - j],
        decreases rest@.len(),
    {
        let ghost before = rest@;
        match rest.pop() {
            Some(x) => {
                assert(x == orig[before.len() - 1]);
                assert(rest@ == orig.take(rest@.len() as int));
                items.push(x);
            },
            None => {},
        }
    }
    let mut ranges: Vec<BlameRange> = Vec::new();
    let mut k: usize = 0;
    assert(orig.take(0) == Seq::<BlameRange>::empty());
    while items.len() > 0
        invariant
            items@.len() + k == orig.len(),
            orig.len() <= usize::MAX,
            line_total(orig) <= usize::MAX,
            forall|j: int| 0 <= j < items@.len() ==> #[trigger] items@[j] == orig[orig.len() - 1 - j],
            lines == line_total(orig.take(k as int)),
            ranges@ == by_start_line(nonempty_ranges(orig.take(k as int))),
        decreases items@.len(),
    {
        let ghost before = items@;
        match items.pop() {
            Some(x) => {
                assert(x == orig[k as int]);
                assert(orig.take(k + 1).drop_last() == orig.take(k as int));
                assert(orig.take(k + 1).last() == x);
                proof {
                    lemma_line_total_prefix(orig, k + 1);
                }
                lines = lines + x.line_count;
                let ghost ne = nonempty_ranges(orig.take(k as int));
                assert(ne.push(x).drop_last() == ne);
                if x.line_count > 0 {
                    let mut p: usize = 0;
                    while p < ranges.len() && x.start_line >= ranges[p].start_line
                        invariant
                            p <= ranges@.len(),
                            range_insert_index(ranges@, x, 0) == range_insert_index(
                                ranges@,
                                x,
                                p as int,
                            ),
                        decreases ranges@.len() - p,
                    {
                        p = p + 1;
                    }
                    ranges.insert(p, x);
                }
                k = k + 1;
            },
            None => {},
        }
    }
    assert(orig.take(k as int) == orig);
    BlameInfo { sha, path, binary: false, too_large: false, lines, ranges }
}

/// Where [`range_insert_index`] stops.
proof fn lemma_range_insert_index(s: Seq<BlameRange>, x: BlameRange, i: int)
    requires
        0 <= i <= s.len(),
    ensures
        i <= range_insert_index(s, x, i) <= s.len(),
        forall|k: int| i <= k < range_insert_index(s, x, i) ==> (#[trigger] s[k]).start_line
            <= x.start_line,
        range_insert_index(s, x, i) < s.len() ==> x.start_line < s[range_insert_index(
            s,
            x,
            i,
        )].start_line,
    decreases s.len() - i,
{
    if i < s.len() && x.start_line >= s[i].start_line {
        lemma_range_insert_index(s, x, i + 1);
    }
}

/// Whether `s` is ordered by start line.
pub open spec fn ordered_by_start(s: Seq<BlameRange>) -> bool {
    forall|i: int, j: int| 0 <= i < j < s.len() ==> #[trigger] s[i].start_line <= #[trigger] s[j].start_line
}

/// The ranges of a blame come in ascending start-line order.
pub proof fn lemma_by_start_line_ordered(s: Seq<BlameRange>)
    ensures
        ordered_by_start(by_start_line(s)),
    decreases s.len(),
{
    if s.len() > 0 {
        lemma_by_start_line_ordered(s.drop_last());
        let r = by_start_line(s.drop_last());
        let x = s.last();
        let p = range_insert_index(r, x, 0);
        lemma_range_insert_index(r, x, 0);
        let t = r.insert(p, x);
        assert forall|i: int, j: int| 0 <= i < j < t.len() implies #[trigger] t[i].start_line
            <= #[trigger] t[j].start_line by {
            if i < p && j < p {
                assert(t[i] == r[i] && t[j] == r[j]);
            } else if i < p && j == p {
                assert(t[i] == r[i]);
            } else if i < p && j > p {
                assert(t[i] == r[i] && t[j] == r[j - 1]);
            } else if i == p {
                assert(t[j] == r[j - 1]);
                assert(r[p].start_line <= r[j - 1].start_line);
            } else {
                assert(t[i] == r[i - 1] && t[j] == r[j - 1]);
            }
        }
    }
}

/// The ranges of a blame cover only lines: none of them is empty.
pub proof fn lemma_blame_ranges_nonempty(s: Seq<BlameRange>)
    ensures
        forall|i: int| 0 <= i < nonempty_ranges(s).len() ==> #[trigger] nonempty_ranges(s)[i].line_count > 0,
    decreases s.len(),
{
    if s.len() > 0 {
        lemma_blame_ranges_nonempty(s.drop_last());
    }
}


/// Whether `s` tiles a file from line 1: none is empty, the first starts at
/// line 1, and each starts where the one before it ends.
pub open spec fn tiles(s: Seq<BlameRange>) -> bool {
    &&& s.len() > 0 ==> s[0].start_line == 1
    &&& forall|i: int| 0 <= i < s.len() ==> (#[trigger] s[i]).line_count > 0
    &&& forall|i: int|
        0 <= i < s.len() - 1 ==> (#[trigger] s[i + 1]).start_line == s[i].start_line + s[i].line_count
}

/// A prefix of a tiling tiles.
proof fn lemma_tiles_drop_last(s: Seq<BlameRange>)
    requires
        tiles(s),
        s.len() > 0,
    ensures
        tiles(s.drop_last()),
{
    let d = s.drop_last();
    assert forall|i: int| 0 <= i < d.len() implies (#[trigger] d[i]).line_count > 0 by {
        assert(d[i] == s[i]);
    }
    assert forall|i: int| 0 <= i < d.len() - 1 implies (#[trigger] d[i + 1]).start_line == d[i].start_line
        + d[i].line_count by {
        assert(d[i + 1] == s[i + 1] && d[i] == s[i]);
        assert(s[i + 1].start_line == s[i].start_line + s[i].line_count);
    }
}

/// In a tiling, every range starts before every later one.
proof fn lemma_tiles_increasing(s: Seq<BlameRange>, i: int, j: int)
    requires
        tiles(s),
        0 <= i < j < s.len(),
    ensures
        s[i].start_line < s[j].start_line,
    decreases j - i,
{
    let k = j - 1;
    assert(s[k + 1].start_line == s[k].start_line + s[k].line_count);
    assert(s[k].line_count > 0);
    if i < j - 1 {
        lemma_tiles_increasing(s, i, j - 1);
    }
}

/// Dropping empty ranges leaves a sequence without empty ranges as it is.
proof fn lemma_nonempty_keeps(s: Seq<BlameRange>)
    requires
        forall|i: int| 0 <= i < s.len() ==> (#[trigger] s[i]).line_count > 0,
    ensures
        nonempty_ranges(s) == s,
    decreases s.len(),
{
    if s.len() > 0 {
        let d = s.drop_last();
        assert forall|i: int| 0 <= i < d.len() implies (#[trigger] d[i]).line_count > 0 by {
            assert(d[i] == s[i]);
        }
        lemma_nonempty_keeps(d);
        assert(s.last().line_count > 0);
        assert(d.push(s.last()) =~= s);
    }
}

/// Ordering a tiling by start line leaves it as it is.
proof fn lemma_by_start_line_keeps(s: Seq<BlameRange>)
    requires
        tiles(s),
    ensures
        by_start_line(s) == s,
    decreases s.len(),
{
    if s.len() > 0 {
        let d = s.drop_last();
        lemma_tiles_drop_last(s);
        lemma_by_start_line_keeps(d);
        let x = s.last();
        lemma_range_insert_index(d, x, 0);
        let p = range_insert_index(d, x, 0);
        if p < d.len() {
            lemma_tiles_increasing(s, p, s.len() - 1);
            assert(d[p] == s[p]);
        }
        assert(p == d.len());
        assert(d.insert(p, x) =~= s);
    }
}

/// The lines of a tiling end where its last range ends.
proof fn lemma_tiles_total(s: Seq<BlameRange>)
    requires
        tiles(s),
    ensures
        line_total(s) == if s.len() == 0 {
            0
        } else {
            s.last().start_line + s.last().line_count - 1
        },
    decreases s.len(),
{
    if s.len() > 0 {
        let d = s.drop_last();
        lemma_tiles_drop_last(s);
        lemma_tiles_total(d);
        if d.len() > 0 {
            let k = s.len() - 2;
            assert(s[k + 1].start_line == s[k].start_line + s[k].line_count);
            assert(d.last() == s[s.len() - 2]);
        }
    }
}

/// When git's hunks tile the file (the first starts at line 1, each starts
/// where the one before it ends, none is empty), a blame's ranges are
/// exactly those hunks, so they too run contiguously from line 1, and the
/// blame's line count is where the last one ends.
pub proof fn lemma_blame_ranges_tile(hunks: Seq<BlameRange>)
    requires
        tiles(hunks),
    ensures
        by_start_line(nonempty_ranges(hunks)) == hunks,
        line_total(hunks) == if hunks.len() == 0 {
            0
        } else {
            hunks.last().start_line + hunks.last().line_count - 1
        },
{
    lemma_nonempty_keeps(hunks);
    lemma_by_start_line_keeps(hunks);
    lemma_tiles_total(hunks);
}

} // verus!
