//! Commit-activity statistics: the window of twelve calendar periods
//! ending with the anchor commit's, which bucket a commit falls in, the
//! per-bucket and per-author tallies, and the author ranking. The history
//! walk is the caller's.
use vstd::prelude::*;

use crate::repo::commits::CommitAuthor;
use crate::repo::sort::{compare_str, lemma_text_order_antisymmetric, lemma_text_order_transitive, text_order};
use crate::text::str_eq;
use crate::time::{zoned_text_of, RFC3339_FORMAT};

verus! {

/// Buckets in every response, whatever the period.
pub const BUCKET_COUNT: usize = 12;

/// Commits walked before the statistics give up.
pub const MAX_SCANNED_COMMITS: usize = 20000;

/// Requested bucket size, echoed back in the response's `period` field.
#[derive(Debug, Clone, Copy, PartialEq, Eq, Structural)]
pub enum StatsPeriod {
    Week,
    Month,
    Quarter,
    Year,
}

/// One time bucket.
#[derive(Debug)]
pub struct BucketStats {
    /// Bucket start, UTC, RFC 3339; buckets come oldest first.
    pub start: String,
    /// Commits in this bucket, authors cut by the limit included.
    pub commits: usize,
}

/// One author's breakdown.
#[derive(Debug)]
pub struct AuthorStats {
    pub author: CommitAuthor,
    /// The author's commits within the window.
    pub commits: usize,
    /// Parallel to the response's buckets.
    pub buckets: Vec<usize>,
}

/// Response of the statistics endpoint.
#[derive(Debug)]
pub struct StatsResults {
    pub sha: Option<String>,
    pub period: StatsPeriod,
    /// The commit budget was hit, or the author list was cut.
    pub truncated: bool,
    /// Distinct authors within the window (may exceed the list's length).
    pub author_count: usize,
    pub buckets: Vec<BucketStats>,
    /// By commit count, descending; at most the limit.
    pub authors: Vec<AuthorStats>,
}

/// The first month of the quarter `month` (1 to 12) falls in.
pub fn quarter_start_month(month: u8) -> (r: u8)
    requires
        1 <= month <= 12,
    ensures
        r == (month - 1) / 3 * 3 + 1,
        1 <= r <= month,
{
    (month - 1) / 3 * 3 + 1
}

// ---------------------------------------------------------------------------
// Buckets
// ---------------------------------------------------------------------------

/// Whether the bucket starts are strictly ascending.
pub open spec fn ascending(starts: Seq<i128>) -> bool {
    forall|i: int, j: int| 0 <= i < j < starts.len() ==> #[trigger] starts[i] < #[trigger] starts[j]
}

/// The last bucket of `starts[..k]` whose start is not after `instant`.
pub open spec fn last_start_at_or_before(starts: Seq<i128>, instant: i128, k: int) -> int
    decreases k,
{
    if k <= 1 {
        0
    } else if starts[k - 1] <= instant {
        k - 1
    } else {
        last_start_at_or_before(starts, instant, k - 1)
    }
}

/// The bucket an instant falls into: none before the first start; the last
/// bucket at or past the window's end (a commit authored after the anchor
/// clamps into it); else the bucket whose start is the latest not after it.
pub open spec fn bucket_of(instant: i128, starts: Seq<i128>, window_end: i128) -> Option<int> {
    if instant < starts[0] {
        None
    } else if instant >= window_end {
        Some(starts.len() - 1)
    } else {
        Some(last_start_at_or_before(starts, instant, starts.len() as int))
    }
}

/// The bucket an instant (nanoseconds since the epoch) falls into, given
/// the ascending bucket starts and the window's end.
pub fn bucket_index(instant: i128, starts: &[i128], window_end: i128) -> (r: Option<usize>)
    requires
        starts@.len() >= 1,
    ensures
        match bucket_of(instant, starts@, window_end) {
            Some(k) => r == Some(k as usize),
            None => r is None,
        },
        r matches Some(k) ==> k < starts@.len(),
{
    if instant < starts[0] {
        return None;
    }
    if instant >= window_end {
        return Some(starts.len() - 1);
    }
    let mut k: usize = starts.len();
    while k > 1 && starts[k - 1] > instant
        invariant
            1 <= k <= starts@.len(),
            last_start_at_or_before(starts@, instant, starts@.len() as int)
                == last_start_at_or_before(starts@, instant, k as int),
        decreases k,
    {
        k = k - 1;
    }
    if k <= 1 {
        Some(0)
    } else {
        Some(k - 1)
    }
}

/// The bucket found for an instant within the window starts no later than
/// the instant, and the next bucket (if any) starts after it.
pub proof fn lemma_bucket_of_brackets(instant: i128, starts: Seq<i128>, window_end: i128)
    requires
        starts.len() >= 1,
        ascending(starts),
        starts[0] <= instant < window_end,
    ensures
        bucket_of(instant, starts, window_end) matches Some(k) && 0 <= k < starts.len() && starts[k]
            <= instant && (k + 1 < starts.len() ==> instant < starts[k + 1]),
{
    lemma_last_start(starts, instant, starts.len() as int);
}

/// Where [`last_start_at_or_before`] stops.
proof fn lemma_last_start(starts: Seq<i128>, instant: i128, k: int)
    requires
        1 <= k <= starts.len(),
        ascending(starts),
        starts[0] <= instant,
        k < starts.len() ==> instant < starts[k],
    ensures
        0 <= last_start_at_or_before(starts, instant, k) < k,
        starts[last_start_at_or_before(starts, instant, k)] <= instant,
        last_start_at_or_before(starts, instant, k) + 1 < starts.len() ==> instant
            < starts[last_start_at_or_before(starts, instant, k) + 1],
    decreases k,
{
    if k > 1 && starts[k - 1] > instant {
        lemma_last_start(starts, instant, k - 1);
    }
}

// ---------------------------------------------------------------------------
// Tallies
// ---------------------------------------------------------------------------

/// One author's tally: the author first seen with that email hash, and
/// their commits per bucket.
#[derive(Debug)]
pub struct AuthorTally {
    pub author: CommitAuthor,
    pub buckets: Vec<usize>,
}

/// The running tallies of a statistics walk.
#[derive(Debug)]
pub struct StatsTally {
    /// Commits per bucket.
    pub bucket_totals: Vec<usize>,
    /// One entry per distinct email hash, in order of first appearance.
    pub authors: Vec<AuthorTally>,
    /// The commit budget was hit.
    pub truncated: bool,
}

/// Sum of `s`.
pub open spec fn total(s: Seq<usize>) -> int
    decreases s.len(),
{
    if s.len() == 0 {
        0
    } else {
        total(s.drop_last()) + s.last()
    }
}

/// Raising one entry by one raises the total by one.
proof fn lemma_total_increment(s: Seq<usize>, i: int)
    requires
        0 <= i < s.len(),
        s[i] < usize::MAX,
    ensures
        total(s.update(i, (s[i] + 1) as usize)) == total(s) + 1,
    decreases s.len(),
{
    let t = s.update(i, (s[i] + 1) as usize);
    if i == s.len() - 1 {
        assert(t.drop_last() == s.drop_last());
    } else {
        assert(t.drop_last() == s.drop_last().update(i, (s[i] + 1) as usize));
        lemma_total_increment(s.drop_last(), i);
    }
}

/// A total bounds each entry, and entries bounded pointwise have bounded
/// totals.
proof fn lemma_total_bounds(a: Seq<usize>, b: Seq<usize>)
    requires
        a.len() == b.len(),
        forall|i: int| 0 <= i < a.len() ==> a[i] <= b[i],
    ensures
        0 <= total(a) <= total(b),
    decreases a.len(),
{
    if a.len() > 0 {
        lemma_total_bounds(a.drop_last(), b.drop_last());
    }
}

/// The tallies are consistent: twelve buckets everywhere, one entry per
/// email hash, each author's counts within the bucket totals, and the
/// totals within the commit budget.
pub open spec fn tally_wf(t: StatsTally) -> bool {
    &&& t.bucket_totals@.len() == BUCKET_COUNT
    &&& total(t.bucket_totals@) <= MAX_SCANNED_COMMITS
    &&& forall|a: int|
        0 <= a < t.authors@.len() ==> (#[trigger] t.authors@[a]).buckets@.len() == BUCKET_COUNT
    &&& forall|a: int, i: int|
        0 <= a < t.authors@.len() && 0 <= i < BUCKET_COUNT ==> #[trigger] t.authors@[a].buckets@[i]
            <= t.bucket_totals@[i]
    &&& forall|a: int, b: int|
        0 <= a < b < t.authors@.len() ==> (#[trigger] t.authors@[a]).author.email_hash@
            != (#[trigger] t.authors@[b]).author.email_hash@
}

/// Twelve zero counts.
fn zero_buckets() -> (r: Vec<usize>)
    ensures
        r@.len() == BUCKET_COUNT,
        forall|i: int| 0 <= i < BUCKET_COUNT ==> r@[i] == 0,
        total(r@) == 0,
{
    let mut v: Vec<usize> = Vec::new();
    let mut i: usize = 0;
    while i < BUCKET_COUNT
        invariant
            i <= BUCKET_COUNT,
            v@.len() == i,
            forall|k: int| 0 <= k < i ==> v@[k] == 0,
            total(v@) == 0,
        decreases BUCKET_COUNT - i,
    {
        let ghost before = v@;
        v.push(0);
        assert(v@.drop_last() == before);
        i = i + 1;
    }
    v
}

/// Whether the walk stops before its `scanned`-th commit (counting from
/// zero): the budget is spent, and the results are reported truncated.
pub fn stats_scan_stops(scanned: usize) -> (r: bool)
    ensures
        r == (scanned >= MAX_SCANNED_COMMITS),
{
    scanned >= MAX_SCANNED_COMMITS
}

impl StatsTally {
    /// Empty tallies.
    pub fn new() -> (r: StatsTally)
        ensures
            tally_wf(r),
            r.authors@.len() == 0,
            !r.truncated,
            forall|i: int| 0 <= i < BUCKET_COUNT ==> r.bucket_totals@[i] == 0,
            total(r.bucket_totals@) == 0,
    {
        StatsTally { bucket_totals: zero_buckets(), authors: Vec::new(), truncated: false }
    }

    /// Counts one commit in bucket `index` for `author`: the bucket total
    /// and the author's own count go up by one; an email hash not seen
    /// before adds an author, with this author's name.
    pub fn add(&mut self, index: usize, author: CommitAuthor)
        requires
            tally_wf(*old(self)),
            index < BUCKET_COUNT,
            total(old(self).bucket_totals@) < MAX_SCANNED_COMMITS,
        ensures
            tally_wf(*final(self)),
            final(self).truncated == old(self).truncated,
            final(self).bucket_totals@ == old(self).bucket_totals@.update(
                index as int,
                (old(self).bucket_totals@[index as int] + 1) as usize,
            ),
            ({
                let found = exists|a: int|
                    0 <= a < old(self).authors@.len() && (#[trigger] old(
                        self,
                    ).authors@[a]).author.email_hash@ == author.email_hash@;
                if found {
                    &&& final(self).authors@.len() == old(self).authors@.len()
                    &&& forall|a: int|
                        0 <= a < old(self).authors@.len() ==> (#[trigger] final(self).authors@[a]).author
                            == old(self).authors@[a].author && final(self).authors@[a].buckets@ == if old(
                            self,
                        ).authors@[a].author.email_hash@ == author.email_hash@ {
                            old(self).authors@[a].buckets@.update(
                                index as int,
                                (old(self).authors@[a].buckets@[index as int] + 1) as usize,
                            )
                        } else {
                            old(self).authors@[a].buckets@
                        }
                } else {
                    &&& final(self).authors@.len() == old(self).authors@.len() + 1
                    &&& final(self).authors@.drop_last() == old(self).authors@
                    &&& final(self).authors@.last().author == author
                    &&& final(self).authors@.last().buckets@ == Seq::new(
                        BUCKET_COUNT as nat,
                        |i: int| if i == index { 1usize } else { 0usize },
                    )
                }
            }),
    {
        proof {
            lemma_total_bounds(
                Seq::new(BUCKET_COUNT as nat, |i: int| self.bucket_totals@[i]),
                self.bucket_totals@,
            );
        }
        assert(self.bucket_totals@[index as int] <= total(self.bucket_totals@)) by {
            lemma_entry_le_total(self.bucket_totals@, index as int);
        }
        let t = self.bucket_totals[index] + 1;
        self.bucket_totals.set(index, t);
        proof {
            lemma_total_increment(old(self).bucket_totals@, index as int);
        }
        let mut a: usize = 0;
        while a < self.authors.len()
            invariant
                a <= self.authors@.len(),
                self.authors@ == old(self).authors@,
                self.truncated == old(self).truncated,
                total(self.bucket_totals@) == total(old(self).bucket_totals@) + 1,
                total(old(self).bucket_totals@) < MAX_SCANNED_COMMITS,
                self.bucket_totals@ == old(self).bucket_totals@.update(index as int, t),
                t == old(self).bucket_totals@[index as int] + 1,
                index < BUCKET_COUNT,
                tally_wf(*old(self)),
                forall|k: int| 0 <= k < a ==> (#[trigger] self.authors@[k]).author.email_hash@
                    != author.email_hash@,
            decreases self.authors@.len() - a,
        {
            if str_eq(self.authors[a].author.email_hash.as_str(), author.email_hash.as_str()) {
                let ghost before = self.authors@;
                let mut entry = self.authors.remove(a);
                let c = entry.buckets[index] + 1;
                entry.buckets.set(index, c);
                self.authors.insert(a, entry);
                assert(self.authors@ == before.update(a as int, self.authors@[a as int]));
                assert forall|k: int, i: int|
                    0 <= k < self.authors@.len() && 0 <= i < BUCKET_COUNT implies #[trigger] self.authors@[k].buckets@[i]
                        <= self.bucket_totals@[i] by {
                    if k != a {
                        assert(self.authors@[k] == before[k]);
                    }
                }
                assert forall|k: int| 0 <= k < self.authors@.len() implies (#[trigger] self.authors@[k]).author
                    == before[k].author by {}
                return;
            }
            a = a + 1;
        }
        let mut buckets = zero_buckets();
        buckets.set(index, 1);
        assert(buckets@ =~= Seq::new(
            BUCKET_COUNT as nat,
            |i: int| if i == index { 1usize } else { 0usize },
        ));
        self.authors.push(AuthorTally { author, buckets });
    }
}

/// The bucket the `j`-th walked commit is tallied in: its instant's
/// bucket, none when it has no instant or falls before the window.
pub open spec fn walked_bucket(w: Seq<(Option<i128>, CommitAuthor)>, starts: Seq<i128>, window_end: i128, j: int) -> Option<int> {
    match w[j].0 {
        Some(t) => bucket_of(t, starts, window_end),
        None => None,
    }
}

/// Whether the `j`-th walked commit is tallied at all.
pub open spec fn tallied(w: Seq<(Option<i128>, CommitAuthor)>, starts: Seq<i128>, window_end: i128, j: int) -> bool {
    walked_bucket(w, starts, window_end, j) is Some
}

/// How many of the first `k` walked commits land in bucket `b`, counting
/// only those whose author's email hash is `h` when `h` is given.
pub open spec fn bucket_hits(
    w: Seq<(Option<i128>, CommitAuthor)>,
    starts: Seq<i128>,
    window_end: i128,
    h: Option<Seq<char>>,
    b: int,
    k: int,
) -> int
    decreases k,
{
    if k <= 0 {
        0
    } else {
        bucket_hits(w, starts, window_end, h, b, k - 1) + if walked_bucket(w, starts, window_end, k - 1)
            == Some(b) && match h {
            Some(x) => w[k - 1].1.email_hash@ == x,
            None => true,
        } {
            1int
        } else {
            0int
        }
    }
}

/// How many of the first `k` walked commits are tallied.
pub open spec fn window_hits(w: Seq<(Option<i128>, CommitAuthor)>, starts: Seq<i128>, window_end: i128, k: int) -> int
    decreases k,
{
    if k <= 0 {
        0
    } else {
        window_hits(w, starts, window_end, k - 1) + if tallied(w, starts, window_end, k - 1) {
            1int
        } else {
            0int
        }
    }
}

/// How many walked commits the statistics look at: all, up to the budget.
pub open spec fn scanned_of(len: int) -> int {
    if len > MAX_SCANNED_COMMITS {
        MAX_SCANNED_COMMITS as int
    } else {
        len
    }
}

/// Whether `t` is the tally of the first `k` walked commits: each bucket
/// total counts the commits in that bucket; each author's counts are those
/// of the commits with that author's email hash; each author is the first
/// tallied commit's author with that hash; and every tallied commit's hash
/// has an author.
pub open spec fn tally_of(
    t: StatsTally,
    w: Seq<(Option<i128>, CommitAuthor)>,
    starts: Seq<i128>,
    window_end: i128,
    k: int,
) -> bool {
    &&& forall|b: int| 0 <= b < BUCKET_COUNT ==> #[trigger] t.bucket_totals@[b] == bucket_hits(w, starts, window_end, None, b, k)
    &&& total(t.bucket_totals@) == window_hits(w, starts, window_end, k)
    &&& forall|a: int, b: int|
        0 <= a < t.authors@.len() && 0 <= b < BUCKET_COUNT ==> #[trigger] t.authors@[a].buckets@[b]
            == bucket_hits(w, starts, window_end, Some(t.authors@[a].author.email_hash@), b, k)
    &&& forall|a: int|
        0 <= a < t.authors@.len() ==> has_first_commit(w, starts, window_end, k, (#[trigger] t.authors@[a]).author)
    &&& forall|j: int|
        0 <= j < k && #[trigger] tallied(w, starts, window_end, j) ==> exists|a: int|
            0 <= a < t.authors@.len() && (#[trigger] t.authors@[a]).author.email_hash@ == w[j].1.email_hash@
}

/// [`last_start_at_or_before`] names one of the first `k` buckets.
proof fn lemma_last_start_range(starts: Seq<i128>, instant: i128, k: int)
    requires
        1 <= k,
    ensures
        0 <= last_start_at_or_before(starts, instant, k) < k,
    decreases k,
{
    if k > 1 && starts[k - 1] > instant {
        lemma_last_start_range(starts, instant, k - 1);
    }
}

/// One more walked commit adds one to a count exactly when it lands in the
/// bucket (by the hash, when one is given).
proof fn lemma_bucket_hits_step(
    w: Seq<(Option<i128>, CommitAuthor)>,
    starts: Seq<i128>,
    window_end: i128,
    h: Option<Seq<char>>,
    b: int,
    k: int,
)
    requires
        k >= 0,
    ensures
        bucket_hits(w, starts, window_end, h, b, k + 1) == bucket_hits(w, starts, window_end, h, b, k) + if walked_bucket(
            w,
            starts,
            window_end,
            k,
        ) == Some(b) && match h {
            Some(x) => w[k].1.email_hash@ == x,
            None => true,
        } {
            1int
        } else {
            0int
        },
{
}

/// A hash that no tallied commit before `k` had counts nothing.
proof fn lemma_hits_need_a_commit(
    w: Seq<(Option<i128>, CommitAuthor)>,
    starts: Seq<i128>,
    window_end: i128,
    h: Seq<char>,
    b: int,
    k: int,
)
    requires
        forall|i: int| 0 <= i < k && tallied(w, starts, window_end, i) ==> w[i].1.email_hash@ != h,
    ensures
        bucket_hits(w, starts, window_end, Some(h), b, k) == 0,
    decreases k,
{
    if k > 0 {
        lemma_hits_need_a_commit(w, starts, window_end, h, b, k - 1);
        if tallied(w, starts, window_end, k - 1) {
            assert(w[k - 1].1.email_hash@ != h);
        }
    }
}

/// No more commits are tallied than were walked.
proof fn lemma_window_hits_bound(w: Seq<(Option<i128>, CommitAuthor)>, starts: Seq<i128>, window_end: i128, k: int)
    requires
        k >= 0,
    ensures
        0 <= window_hits(w, starts, window_end, k) <= k,
    decreases k,
{
    if k > 0 {
        lemma_window_hits_bound(w, starts, window_end, k - 1);
    }
}

/// The first tallied commit for each author, as [`tally_of`] states it.
pub open spec fn first_commit_of(
    w: Seq<(Option<i128>, CommitAuthor)>,
    starts: Seq<i128>,
    window_end: i128,
    k: int,
    author: CommitAuthor,
    j: int,
) -> bool {
    &&& 0 <= j < k
    &&& tallied(w, starts, window_end, j)
    &&& w[j].1 == author
    &&& forall|i: int|
        0 <= i < j && tallied(w, starts, window_end, i) ==> w[i].1.email_hash@ != author.email_hash@
}

/// Whether `author` is the author of a first tallied commit for its hash
/// among the first `k`.
pub open spec fn has_first_commit(
    w: Seq<(Option<i128>, CommitAuthor)>,
    starts: Seq<i128>,
    window_end: i128,
    k: int,
    author: CommitAuthor,
) -> bool {
    exists|j: int| #[trigger] first_commit_of(w, starts, window_end, k, author, j)
}

/// A commit that is not tallied leaves the tally of the walk so far as it
/// is.
proof fn lemma_tally_skip(t: StatsTally, w: Seq<(Option<i128>, CommitAuthor)>, starts: Seq<i128>, window_end: i128, k: int)
    requires
        0 <= k < w.len(),
        !tallied(w, starts, window_end, k),
        tally_of(t, w, starts, window_end, k),
    ensures
        tally_of(t, w, starts, window_end, k + 1),
{
    assert forall|a: int| 0 <= a < t.authors@.len() implies has_first_commit(
        w,
        starts,
        window_end,
        k + 1,
        (#[trigger] t.authors@[a]).author,
    ) by {
        let j = choose|j: int| first_commit_of(w, starts, window_end, k, t.authors@[a].author, j);
        assert(first_commit_of(w, starts, window_end, k + 1, t.authors@[a].author, j));
    }
}

/// Adding a tallied commit to the tally of the walk before it gives the
/// tally of the walk through it.
#[verifier::rlimit(60)]
proof fn lemma_tally_step(
    old_t: StatsTally,
    t: StatsTally,
    w: Seq<(Option<i128>, CommitAuthor)>,
    starts: Seq<i128>,
    window_end: i128,
    k: int,
    index: int,
)
    requires
        0 <= k < w.len(),
        0 <= index < BUCKET_COUNT,
        walked_bucket(w, starts, window_end, k) == Some(index),
        old_t.bucket_totals@[index] < MAX_SCANNED_COMMITS,
        tally_wf(old_t),
        tally_of(old_t, w, starts, window_end, k),
        total(t.bucket_totals@) == total(old_t.bucket_totals@) + 1,
        t.bucket_totals@ == old_t.bucket_totals@.update(index, (old_t.bucket_totals@[index] + 1) as usize),
        ({
            let author = w[k].1;
            let found = exists|a: int|
                0 <= a < old_t.authors@.len() && (#[trigger] old_t.authors@[a]).author.email_hash@
                    == author.email_hash@;
            if found {
                &&& t.authors@.len() == old_t.authors@.len()
                &&& forall|a: int|
                    0 <= a < old_t.authors@.len() ==> (#[trigger] t.authors@[a]).author == old_t.authors@[a].author
                        && t.authors@[a].buckets@ == if old_t.authors@[a].author.email_hash@ == author.email_hash@ {
                        old_t.authors@[a].buckets@.update(index, (old_t.authors@[a].buckets@[index] + 1) as usize)
                    } else {
                        old_t.authors@[a].buckets@
                    }
            } else {
                &&& t.authors@.len() == old_t.authors@.len() + 1
                &&& t.authors@.drop_last() == old_t.authors@
                &&& t.authors@.last().author == author
                &&& t.authors@.last().buckets@ == Seq::new(
                    BUCKET_COUNT as nat,
                    |i: int| if i == index { 1usize } else { 0usize },
                )
            }
        }),
    ensures
        tally_of(t, w, starts, window_end, k + 1),
{
    let h = w[k].1.email_hash@;
    let found = exists|a: int|
        0 <= a < old_t.authors@.len() && (#[trigger] old_t.authors@[a]).author.email_hash@ == h;
    if !found {
        assert forall|j: int| 0 <= j < k && tallied(w, starts, window_end, j) implies w[j].1.email_hash@ != h by {
            if w[j].1.email_hash@ == h {
                let a = choose|a: int|
                    0 <= a < old_t.authors@.len() && (#[trigger] old_t.authors@[a]).author.email_hash@
                        == w[j].1.email_hash@;
                assert(old_t.authors@[a].author.email_hash@ == h);
            }
        }
        assert forall|b: int| 0 <= b < BUCKET_COUNT implies bucket_hits(w, starts, window_end, Some(h), b, k) == 0 by {
            lemma_hits_need_a_commit(w, starts, window_end, h, b, k);
        }
    }
    assert forall|b: int| 0 <= b < BUCKET_COUNT implies #[trigger] t.bucket_totals@[b] == bucket_hits(
        w,
        starts,
        window_end,
        None,
        b,
        k + 1,
    ) by {
        assert(old_t.bucket_totals@[b] == bucket_hits(w, starts, window_end, None, b, k));
        lemma_bucket_hits_step(w, starts, window_end, None, b, k);
    }
    assert forall|a: int, b: int|
        0 <= a < t.authors@.len() && 0 <= b < BUCKET_COUNT implies #[trigger] t.authors@[a].buckets@[b]
            == bucket_hits(w, starts, window_end, Some(t.authors@[a].author.email_hash@), b, k + 1) by {
        lemma_bucket_hits_step(w, starts, window_end, Some(t.authors@[a].author.email_hash@), b, k);
        if a < old_t.authors@.len() {
            assert(old_t.authors@[a].buckets@[index] <= old_t.bucket_totals@[index]);
            if !found {
                assert(t.authors@[a] == old_t.authors@[a]);
            }
            assert(t.authors@[a].author == old_t.authors@[a].author);
            assert(old_t.authors@[a].buckets@[b] == bucket_hits(
                w,
                starts,
                window_end,
                Some(old_t.authors@[a].author.email_hash@),
                b,
                k,
            ));
        } else {
            assert(t.authors@[a] == t.authors@.last());
            assert(bucket_hits(w, starts, window_end, Some(h), b, k) == 0);
        }
    }
    assert forall|a: int| 0 <= a < t.authors@.len() implies has_first_commit(
        w,
        starts,
        window_end,
        k + 1,
        (#[trigger] t.authors@[a]).author,
    ) by {
        if a < old_t.authors@.len() {
            if !found {
                assert(t.authors@[a] == old_t.authors@[a]);
            }
            assert(t.authors@[a].author == old_t.authors@[a].author);
            let j = choose|j: int| first_commit_of(w, starts, window_end, k, old_t.authors@[a].author, j);
            assert(first_commit_of(w, starts, window_end, k + 1, t.authors@[a].author, j));
        } else {
            assert(t.authors@[a] == t.authors@.last());
            assert(first_commit_of(w, starts, window_end, k + 1, t.authors@[a].author, k));
        }
    }
    assert forall|j: int| 0 <= j < k + 1 && #[trigger] tallied(w, starts, window_end, j) implies exists|a: int|
        0 <= a < t.authors@.len() && (#[trigger] t.authors@[a]).author.email_hash@ == w[j].1.email_hash@ by {
        if j < k {
            let a = choose|a: int|
                0 <= a < old_t.authors@.len() && (#[trigger] old_t.authors@[a]).author.email_hash@
                    == w[j].1.email_hash@;
            if !found {
                assert(t.authors@[a] == old_t.authors@[a]);
            }
            assert(t.authors@[a].author == old_t.authors@[a].author);
        } else if found {
            let a = choose|a: int| 0 <= a < old_t.authors@.len() && (#[trigger] old_t.authors@[a]).author.email_hash@ == h;
            assert(t.authors@[a].author == old_t.authors@[a].author);
        } else {
            let a = t.authors@.len() - 1;
            assert(t.authors@[a].author == w[k].1);
        }
    }
}

/// A copy of a commit author.
fn copy_author(a: &CommitAuthor) -> (r: CommitAuthor)
    ensures
        r == *a,
{
    CommitAuthor { name: a.name.clone(), email_hash: a.email_hash.clone() }
}

/// The bucket a walked commit's instant falls into.
fn walked_bucket_exec(instant: Option<i128>, starts: &[i128], window_end: i128) -> (r: Option<usize>)
    requires
        starts@.len() == BUCKET_COUNT,
    ensures
        match instant {
            Some(t) => match bucket_of(t, starts@, window_end) {
                Some(x) => r == Some(x as usize) && 0 <= x < BUCKET_COUNT,
                None => r is None,
            },
            None => r is None,
        },
{
    proof {
        if let Some(t) = instant {
            if t >= starts@[0] && t < window_end {
                lemma_last_start_range(starts@, t, starts@.len() as int);
            }
        }
    }
    match instant {
        Some(t) => bucket_index(t, starts, window_end),
        None => None,
    }
}

/// Tallies a walk: `walked` holds each walked commit's instant (none when
/// it has none) and author, in walk order. Commits past the budget are not
/// looked at and mark the result truncated; the others are counted in the
/// bucket their instant falls into, those before the window not at all.
pub fn tally_walk(walked: &Vec<(Option<i128>, CommitAuthor)>, starts: &[i128], window_end: i128) -> (r: StatsTally)
    requires
        starts@.len() == BUCKET_COUNT,
    ensures
        tally_wf(r),
        r.truncated == (walked@.len() > MAX_SCANNED_COMMITS),
        tally_of(r, walked@, starts@, window_end, scanned_of(walked@.len() as int)),
{
    let mut tally = StatsTally::new();
    let mut i: usize = 0;
    let ghost w = walked@;
    while i < walked.len()
        invariant
            w == walked@,
            starts@.len() == BUCKET_COUNT,
            i <= walked@.len(),
            i <= MAX_SCANNED_COMMITS,
            tally_wf(tally),
            !tally.truncated,
            tally_of(tally, w, starts@, window_end, i as int),
        decreases walked@.len() - i,
    {
        if stats_scan_stops(i) {
            let ghost before = tally;
            tally.truncated = true;
            assert(tally.bucket_totals == before.bucket_totals && tally.authors == before.authors);
            assert(scanned_of(walked@.len() as int) == i as int);
            return tally;
        }
        let ghost old_tally = tally;
        let ghost k = i as int;
        let found = walked_bucket_exec(walked[i].0, starts, window_end);
        match found {
            Some(index) => {
                assert(walked_bucket(w, starts@, window_end, k) == Some(index as int));
                proof {
                    lemma_window_hits_bound(w, starts@, window_end, k);
                    lemma_entry_le_total(old_tally.bucket_totals@, index as int);
                    lemma_total_increment(old_tally.bucket_totals@, index as int);
                }
                let author = copy_author(&walked[i].1);
                tally.add(index, author);
                proof {
                    lemma_tally_step(old_tally, tally, w, starts@, window_end, k, index as int);
                }
            },
            None => {
                assert(!tallied(w, starts@, window_end, k));
                proof {
                    lemma_tally_skip(tally, w, starts@, window_end, k);
                }
            },
        }
        i = i + 1;
    }
    tally
}

/// An entry is at most its sequence's total.
proof fn lemma_entry_le_total(s: Seq<usize>, i: int)
    requires
        0 <= i < s.len(),
    ensures
        s[i] <= total(s),
    decreases s.len(),
{
    lemma_total_nonneg(s.drop_last());
    if i < s.len() - 1 {
        lemma_entry_le_total(s.drop_last(), i);
    }
}

/// Totals are never negative.
proof fn lemma_total_nonneg(s: Seq<usize>)
    ensures
        total(s) >= 0,
    decreases s.len(),
{
    if s.len() > 0 {
        lemma_total_nonneg(s.drop_last());
    }
}

// ---------------------------------------------------------------------------
// Author ranking
// ---------------------------------------------------------------------------

/// The ranking of two authors: more commits first, then email hash in
/// text order.
pub open spec fn author_rank(a: AuthorStats, b: AuthorStats) -> int {
    if a.commits > b.commits {
        -1
    } else if a.commits < b.commits {
        1
    } else {
        text_order(a.author.email_hash@, b.author.email_hash@)
    }
}

/// Index at which `x` enters the ranked `s`, from `i`.
pub open spec fn rank_insert_index(s: Seq<AuthorStats>, x: AuthorStats, i: int) -> int
    decreases s.len() - i,
{
    if i >= s.len() {
        s.len() as int
    } else if author_rank(x, s[i]) < 0 {
        i
    } else {
        rank_insert_index(s, x, i + 1)
    }
}

/// `s` ranked: a stable sort by [`author_rank`].
pub open spec fn ranked(s: Seq<AuthorStats>) -> Seq<AuthorStats>
    decreases s.len(),
{
    if s.len() == 0 {
        s
    } else {
        let r = ranked(s.drop_last());
        r.insert(rank_insert_index(r, s.last(), 0), s.last())
    }
}

/// [`author_rank`] of two authors.
fn compare_authors(a: &AuthorStats, b: &AuthorStats) -> (r: i8)
    ensures
        r as int == author_rank(*a, *b),
{
    if a.commits > b.commits {
        -1
    } else if a.commits < b.commits {
        1
    } else {
        compare_str(a.author.email_hash.as_str(), b.author.email_hash.as_str())
    }
}

/// Ranks `authors` (see [`ranked`]).
fn rank_authors(authors: &mut Vec<AuthorStats>)
    ensures
        final(authors)@ == ranked(old(authors)@),
{
    let ghost orig = authors@;
    let ghost n = orig.len();
    assert(n == authors.len());
    let mut pending: Vec<AuthorStats> = Vec::new();
    while authors.len() > 0
        invariant
            pending@.len() + authors@.len() == n,
            n == orig.len(),
            n <= usize::MAX,
            authors@ == orig.take(authors@.len() as int),
            forall|j: int| 0 <= j < pending@.len() ==> #[trigger] pending@[j] == orig[n - 1 - j],
        decreases authors@.len(),
    {
        let ghost before = authors@;
        match authors.pop() {
            Some(x) => {
                assert(x == orig[before.len() - 1]);
                assert(authors@ == orig.take(authors@.len() as int));
                pending.push(x);
            },
            None => {},
        }
    }
    let mut k: usize = 0;
    assert(orig.take(0) == Seq::<AuthorStats>::empty());
    while pending.len() > 0
        invariant
            pending@.len() + k == n,
            n == orig.len(),
            n <= usize::MAX,
            forall|j: int| 0 <= j < pending@.len() ==> #[trigger] pending@[j] == orig[n - 1 - j],
            authors@ == ranked(orig.take(k as int)),
        decreases pending@.len(),
    {
        match pending.pop() {
            Some(x) => {
                assert(x == orig[k as int]);
                let mut p: usize = 0;
                while p < authors.len() && compare_authors(&x, &authors[p]) >= 0
                    invariant
                        p <= authors@.len(),
                        rank_insert_index(authors@, x, 0) == rank_insert_index(authors@, x, p as int),
                    decreases authors@.len() - p,
                {
                    p = p + 1;
                }
                authors.insert(p, x);
                assert(orig.take(k + 1).drop_last() == orig.take(k as int));
                assert(orig.take(k + 1).last() == x);
                k = k + 1;
            },
            None => {},
        }
    }
    assert(orig.take(n as int) == orig);
}

/// The stats entry of a tally: the author, their total, their buckets.
pub open spec fn stats_of(t: AuthorTally) -> AuthorStats {
    AuthorStats { author: t.author, commits: total(t.buckets@) as usize, buckets: t.buckets }
}

/// The author list of finished tallies: ranked, then cut to `limit`.
pub open spec fn author_list(tallies: Seq<AuthorTally>, limit: nat) -> Seq<AuthorStats> {
    let r = ranked(tallies.map_values(|t: AuthorTally| stats_of(t)));
    if r.len() <= limit {
        r
    } else {
        r.take(limit as int)
    }
}

/// Sum of counts, as [`total`].
fn sum_counts(v: &Vec<usize>, Ghost(bound): Ghost<Seq<usize>>) -> (r: usize)
    requires
        v@.len() == bound.len(),
        forall|i: int| 0 <= i < v@.len() ==> v@[i] <= bound[i],
        total(bound) <= usize::MAX,
    ensures
        r == total(v@),
{
    proof {
        lemma_total_bounds(v@, bound);
    }
    let mut s: usize = 0;
    let mut i: usize = 0;
    assert(v@.take(0) == Seq::<usize>::empty());
    while i < v.len()
        invariant
            i <= v@.len(),
            v@.len() == bound.len(),
            forall|k: int| 0 <= k < v@.len() ==> v@[k] <= bound[k],
            total(bound) <= usize::MAX,
            s == total(v@.take(i as int)),
        decreases v@.len() - i,
    {
        assert(v@.take(i + 1).drop_last() == v@.take(i as int));
        proof {
            lemma_total_bounds(v@.take(i + 1), bound.take(i + 1));
            lemma_total_prefix(bound, i + 1);
        }
        s = s + v[i];
        i = i + 1;
    }
    assert(v@.take(i as int) == v@);
    s
}

/// A prefix's total is at most the whole total.
proof fn lemma_total_prefix(s: Seq<usize>, k: int)
    requires
        0 <= k <= s.len(),
    ensures
        total(s.take(k)) <= total(s),
    decreases s.len(),
{
    if k < s.len() {
        assert(s.drop_last().take(k) == s.take(k));
        lemma_total_prefix(s.drop_last(), k);
        lemma_total_nonneg(s.drop_last());
    } else {
        assert(s.take(k) == s);
    }
}

/// Finishes a statistics walk: the number of distinct authors, the ranked
/// author list cut to `limit`, and whether the results are a prefix (the
/// walk was cut short, or the list was).
pub fn finish_authors(tally: StatsTally, limit: usize) -> (r: (Vec<AuthorStats>, usize, bool))
    requires
        tally_wf(tally),
    ensures
        r.0@ == author_list(tally.authors@, limit as nat),
        r.1 == tally.authors@.len(),
        r.2 == (tally.truncated || tally.authors@.len() > limit),
{
    let StatsTally { bucket_totals, authors, truncated } = tally;
    let ghost orig = authors@;
    let author_count = authors.len();
    let mut rest = authors;
    let mut pending: Vec<AuthorTally> = Vec::new();
    while rest.len() > 0
        invariant
            pending@.len() + rest@.len() == orig.len(),
            orig.len() <= usize::MAX,
            rest@ == orig.take(rest@.len() as int),
            forall|j: int| 0 <= j < pending@.len() ==> #[trigger] pending@[j] == orig[orig.len() - 1 - j],
        decreases rest@.len(),
    {
        let ghost before = rest@;
        match rest.pop() {
            Some(x) => {
                assert(x == orig[before.len() - 1]);
                assert(rest@ == orig.take(rest@.len() as int));
                pending.push(x);
            },
            None => {},
        }
    }
    let mut list: Vec<AuthorStats> = Vec::new();
    let mut k: usize = 0;
    while pending.len() > 0
        invariant
            pending@.len() + k == orig.len(),
            orig.len() <= usize::MAX,
            forall|j: int| 0 <= j < pending@.len() ==> #[trigger] pending@[j] == orig[orig.len() - 1 - j],
            bucket_totals@.len() == BUCKET_COUNT,
            total(bucket_totals@) <= MAX_SCANNED_COMMITS,
            forall|a: int| 0 <= a < orig.len() ==> (#[trigger] orig[a]).buckets@.len() == BUCKET_COUNT,
            forall|a: int, i: int|
                0 <= a < orig.len() && 0 <= i < BUCKET_COUNT ==> #[trigger] orig[a].buckets@[i]
                    <= bucket_totals@[i],
            list@ == orig.take(k as int).map_values(|t: AuthorTally| stats_of(t)),
        decreases pending@.len(),
    {
        match pending.pop() {
            Some(t) => {
                assert(t == orig[k as int]);
                let commits = sum_counts(&t.buckets, Ghost(bucket_totals@));
                let AuthorTally { author, buckets } = t;
                let ghost before = list@;
                list.push(AuthorStats { author, commits, buckets });
                assert(list@ =~= orig.take(k + 1).map_values(|t: AuthorTally| stats_of(t)));
                k = k + 1;
            },
            None => {},
        }
    }
    assert(orig.take(k as int) == orig);
    proof {
        lemma_ranked_len(list@);
    }
    rank_authors(&mut list);
    let cut = list.len() > limit;
    if cut {
        list.truncate(limit);
    }
    (list, author_count, truncated || cut)
}

/// Ranking keeps the length.
proof fn lemma_ranked_len(s: Seq<AuthorStats>)
    ensures
        ranked(s).len() == s.len(),
    decreases s.len(),
{
    if s.len() > 0 {
        lemma_ranked_len(s.drop_last());
        lemma_rank_insert_index(ranked(s.drop_last()), s.last(), 0);
    }
}

/// [`author_rank`] swaps sign when its arguments swap.
proof fn lemma_author_rank_antisymmetric(a: AuthorStats, b: AuthorStats)
    ensures
        author_rank(a, b) == -author_rank(b, a),
{
    lemma_text_order_antisymmetric(a.author.email_hash@, b.author.email_hash@);
}

/// [`author_rank`] is transitive.
proof fn lemma_author_rank_transitive(a: AuthorStats, b: AuthorStats, c: AuthorStats)
    requires
        author_rank(a, b) <= 0,
        author_rank(b, c) <= 0,
    ensures
        author_rank(a, c) <= 0,
{
    lemma_text_order_antisymmetric(a.author.email_hash@, b.author.email_hash@);
    lemma_text_order_antisymmetric(b.author.email_hash@, c.author.email_hash@);
    lemma_text_order_antisymmetric(a.author.email_hash@, c.author.email_hash@);
    if a.commits == b.commits && b.commits == c.commits {
        lemma_text_order_transitive(a.author.email_hash@, b.author.email_hash@, c.author.email_hash@);
    }
}

/// Where [`rank_insert_index`] stops.
proof fn lemma_rank_insert_index(s: Seq<AuthorStats>, x: AuthorStats, i: int)
    requires
        0 <= i <= s.len(),
    ensures
        i <= rank_insert_index(s, x, i) <= s.len(),
        forall|k: int| i <= k < rank_insert_index(s, x, i) ==> author_rank(x, #[trigger] s[k]) >= 0,
        rank_insert_index(s, x, i) < s.len() ==> author_rank(x, s[rank_insert_index(s, x, i)]) < 0,
    decreases s.len() - i,
{
    if i < s.len() && author_rank(x, s[i]) >= 0 {
        lemma_rank_insert_index(s, x, i + 1);
    }
}

/// Whether `s` is ranked.
pub open spec fn in_rank_order(s: Seq<AuthorStats>) -> bool {
    forall|i: int, j: int| 0 <= i < j < s.len() ==> #[trigger] author_rank(s[i], s[j]) <= 0
}

/// The author list is ranked: more commits first, ties by email hash.
pub proof fn lemma_ranked_in_order(s: Seq<AuthorStats>)
    ensures
        in_rank_order(ranked(s)),
    decreases s.len(),
{
    if s.len() > 0 {
        lemma_ranked_in_order(s.drop_last());
        let r = ranked(s.drop_last());
        let x = s.last();
        let p = rank_insert_index(r, x, 0);
        lemma_rank_insert_index(r, x, 0);
        let t = r.insert(p, x);
        assert forall|i: int, j: int| 0 <= i < j < t.len() implies #[trigger] author_rank(
            t[i],
            t[j],
        ) <= 0 by {
            if i < p && j < p {
                assert(t[i] == r[i] && t[j] == r[j]);
            } else if i < p && j == p {
                lemma_author_rank_antisymmetric(x, r[i]);
            } else if i < p && j > p {
                assert(t[i] == r[i] && t[j] == r[j - 1]);
            } else if i == p {
                assert(t[j] == r[j - 1]);
                if j - 1 > p {
                    assert(author_rank(r[p], r[j - 1]) <= 0);
                    lemma_author_rank_transitive(x, r[p], r[j - 1]);
                }
            } else {
                assert(t[i] == r[i - 1] && t[j] == r[j - 1]);
            }
        }
    }
}

/// Ranking keeps exactly the authors it was given.
pub proof fn lemma_ranked_permutes(s: Seq<AuthorStats>)
    ensures
        ranked(s).to_multiset() == s.to_multiset(),
    decreases s.len(),
{
    broadcast use vstd::seq_lib::group_to_multiset_ensures;

    if s.len() > 0 {
        lemma_ranked_permutes(s.drop_last());
        let r = ranked(s.drop_last());
        let p = rank_insert_index(r, s.last(), 0);
        lemma_rank_insert_index(r, s.last(), 0);
        let t = r.insert(p, s.last());
        assert(t.remove(p) == r);
        assert(t.remove(p).to_multiset() == t.to_multiset().remove(t[p]));
        assert(s.drop_last().push(s.last()) == s);
        assert(t.to_multiset().contains(s.last()));
    }
}

/// No author has more commits than the window has in all: every author's
/// commits are counted in the bucket totals.
pub proof fn lemma_author_totals_bounded(t: StatsTally, a: int)
    requires
        tally_wf(t),
        0 <= a < t.authors@.len(),
    ensures
        0 <= total(t.authors@[a].buckets@) <= total(t.bucket_totals@),
{
    lemma_total_bounds(t.authors@[a].buckets@, t.bucket_totals@);
}

// ---------------------------------------------------------------------------
// The window
// ---------------------------------------------------------------------------

/// Whether `y` is a leap year of the proleptic Gregorian calendar.
pub open spec fn is_leap_year(y: int) -> bool {
    y % 4 == 0 && (y % 100 != 0 || y % 400 == 0)
}

/// The number of days in month `m` of year `y`.
pub open spec fn days_in_month(y: int, m: int) -> int {
    if m == 2 {
        if is_leap_year(y) {
            29
        } else {
            28
        }
    } else if m == 4 || m == 6 || m == 9 || m == 11 {
        30
    } else {
        31
    }
}

/// A date `jiff` holds: a year in `-9999..=9999`, a month, and a day of
/// that month.
pub open spec fn valid_date(d: (i16, i8, i8)) -> bool {
    &&& -9999 <= d.0 <= 9999
    &&& 1 <= d.1 <= 12
    &&& 1 <= d.2 <= days_in_month(d.0 as int, d.1 as int)
}

/// Days from 1970-01-01 to a date of the proleptic Gregorian calendar
/// (negative before it): eras of 400 years of 146097 days, counted from
/// March so that the leap day ends the year.
pub open spec fn days_from_civil(d: (i16, i8, i8)) -> int {
    let y = if d.1 <= 2 {
        d.0 - 1
    } else {
        d.0 as int
    };
    let era = y / 400;
    let yoe = y - era * 400;
    let mp = (d.1 + 9) % 12;
    let doy = (153 * mp + 2) / 5 + d.2 - 1;
    let doe = yoe * 365 + yoe / 4 - yoe / 100 + doy;
    era * 146097 + doe - 719468
}

/// Seconds in a day.
pub const SECONDS_PER_DAY: i64 = 86400;

/// The calendar date an instant (seconds since the epoch) falls on at the
/// fixed UTC offset `offset_seconds`, as `jiff` computes it; none outside
/// its range.
pub uninterp spec fn date_at_of(second: i64, offset_seconds: i32) -> Option<(i16, i8, i8)>;

/// The day of the week of a date, counted from Monday as zero, as `jiff`
/// computes it; none for a date that does not exist.
pub uninterp spec fn monday_offset_of(date: (i16, i8, i8)) -> Option<i8>;

/// A date moved back by a span of years, months, weeks and days, as `jiff`
/// computes it (a negative count moves it forward); none for an invalid
/// date, a count outside `jiff`'s span range, or a result out of range.
pub uninterp spec fn date_minus(date: (i16, i8, i8), span: (i64, i64, i64, i64)) -> Option<(i16, i8, i8)>;

/// The instant (nanoseconds since the epoch) a date begins at the fixed
/// UTC offset `offset_seconds`, as `jiff` computes it; none for a date
/// that does not exist or an offset out of range.
pub uninterp spec fn midnight_at_of(date: (i16, i8, i8), offset_seconds: i32) -> Option<i128>;

/// Calls `jiff::Timestamp::from_second`, `tz::Offset::from_seconds` and
/// `Timestamp::to_zoned` with that fixed offset, and takes the date: the
/// day of the proleptic Gregorian calendar that the local second falls in.
#[verifier::external_body]
fn date_at(second: i64, offset_seconds: i32) -> (r: Option<(i16, i8, i8)>)
    ensures
        r == date_at_of(second, offset_seconds),
        r matches Some(d) ==> valid_date(d) && days_from_civil(d) == (second + offset_seconds) / (
        SECONDS_PER_DAY as int),
{
    let ts = jiff::Timestamp::from_second(second).ok()?;
    let offset = jiff::tz::Offset::from_seconds(offset_seconds).ok()?;
    let date = ts.to_zoned(jiff::tz::TimeZone::fixed(offset)).date();
    Some((date.year(), date.month(), date.day()))
}

/// Calls `jiff::civil::Date::new(..).weekday().to_monday_zero_offset()`.
/// `Date::new` accepts exactly the valid dates; 1970-01-01 was a Thursday,
/// so a date's offset from Monday is its day count plus three, modulo 7.
#[verifier::external_body]
fn monday_offset(date: (i16, i8, i8)) -> (r: Option<i8>)
    ensures
        r == monday_offset_of(date),
        r is Some <==> valid_date(date),
        r matches Some(k) ==> 0 <= k <= 6 && k == (days_from_civil(date) + 3) % 7,
{
    let d = jiff::civil::Date::new(date.0, date.1, date.2).ok()?;
    Some(d.weekday().to_monday_zero_offset())
}

/// Calls `jiff::civil::Date::checked_sub` with the span of `span.0` years,
/// `span.1` months, `span.2` weeks and `span.3` days, built with `jiff`'s
/// fallible span setters; none when a count is outside `jiff`'s span range.
#[verifier::external_body]
fn minus(date: (i16, i8, i8), span: (i64, i64, i64, i64)) -> (r: Option<(i16, i8, i8)>)
    ensures
        r == date_minus(date, span),
{
    let d = jiff::civil::Date::new(date.0, date.1, date.2).ok()?;
    let span = jiff::Span::new().try_years(span.0).ok()?.try_months(span.1).ok()?.try_weeks(span.2).ok()?.try_days(span.3).ok()?;
    let out = d.checked_sub(span).ok()?;
    Some((out.year(), out.month(), out.day()))
}

/// Calls `jiff::civil::Date::new`, `tz::Offset::from_seconds` and
/// `Date::to_zoned` with that fixed offset, and reads the instant in
/// nanoseconds: the date's first second, local at that offset.
#[verifier::external_body]
fn midnight_at(date: (i16, i8, i8), offset_seconds: i32) -> (r: Option<i128>)
    ensures
        r == midnight_at_of(date, offset_seconds),
        r matches Some(n) ==> valid_date(date) && n == (days_from_civil(date) * SECONDS_PER_DAY
            - offset_seconds) * 1_000_000_000,
{
    let d = jiff::civil::Date::new(date.0, date.1, date.2).ok()?;
    let offset = jiff::tz::Offset::from_seconds(offset_seconds).ok()?;
    Some(d.to_zoned(jiff::tz::TimeZone::fixed(offset)).ok()?.timestamp().as_nanosecond())
}

/// Statistics are laid out in UTC.
pub const UTC_OFFSET: i32 = 0;

/// The span of `count` periods, as years, months, weeks and days.
pub open spec fn period_span(period: StatsPeriod, count: int) -> (i64, i64, i64, i64) {
    match period {
        StatsPeriod::Week => (0, 0, count as i64, 0),
        StatsPeriod::Month => (0, count as i64, 0, 0),
        StatsPeriod::Quarter => (0, (count * 3) as i64, 0, 0),
        StatsPeriod::Year => (count as i64, 0, 0, 0),
    }
}

/// The start of the period `date` falls in: its week's Monday, the first
/// of its month, of its quarter's first month, or of its year.
pub open spec fn period_start_of(date: (i16, i8, i8), period: StatsPeriod) -> Option<(i16, i8, i8)> {
    match period {
        StatsPeriod::Week => match monday_offset_of(date) {
            Some(k) => date_minus(date, (0, 0, 0, k as i64)),
            None => None,
        },
        StatsPeriod::Month => Some((date.0, date.1, 1)),
        StatsPeriod::Quarter => if 1 <= date.1 <= 12 {
            Some((date.0, ((date.1 - 1) / 3 * 3 + 1) as i8, 1))
        } else {
            None
        },
        StatsPeriod::Year => Some((date.0, 1, 1)),
    }
}

/// The months a month, quarter or year spans.
pub open spec fn period_months(period: StatsPeriod) -> int {
    match period {
        StatsPeriod::Week => 0,
        StatsPeriod::Month => 1,
        StatsPeriod::Quarter => 3,
        StatsPeriod::Year => 12,
    }
}

/// A month, quarter or year period starts on the first of a month of the
/// date's own year, on or before the date, and the next one starts after
/// it; its month is a multiple of the period's length past January, so a
/// quarter starts in January, April, July or October.
pub proof fn lemma_period_start_brackets(date: (i16, i8, i8), period: StatsPeriod)
    requires
        valid_date(date),
        period != StatsPeriod::Week,
    ensures
        period_start_of(date, period) matches Some(s) && {
            &&& s.0 == date.0
            &&& s.2 == 1
            &&& 1 <= s.1 <= date.1
            &&& date.1 < s.1 + period_months(period)
            &&& (s.1 - 1) % period_months(period) == 0
        },
{
}

/// The start of the period a date falls in (see [`period_start_of`]).
pub fn period_start(date: (i16, i8, i8), period: StatsPeriod) -> (r: Option<(i16, i8, i8)>)
    ensures
        r == period_start_of(date, period),
{
    match period {
        StatsPeriod::Week => match monday_offset(date) {
            Some(k) => minus(date, (0, 0, 0, k as i64)),
            None => None,
        },
        StatsPeriod::Month => Some((date.0, date.1, 1)),
        StatsPeriod::Quarter => if 1 <= date.1 && date.1 <= 12 {
            let q = quarter_start_month(date.1 as u8);
            Some((date.0, q as i8, 1))
        } else {
            None
        },
        StatsPeriod::Year => Some((date.0, 1, 1)),
    }
}

/// The window of statistics: where each bucket starts, where the window
/// ends, and each start as text.
#[derive(Debug)]
pub struct StatsWindow {
    /// Bucket starts, nanoseconds since the epoch, ascending.
    pub starts: Vec<i128>,
    /// The end of the last bucket.
    pub end: i128,
    /// Each bucket start as RFC 3339 text.
    pub labels: Vec<String>,
}

/// The date `back` periods before `last`.
pub open spec fn start_before(last: (i16, i8, i8), period: StatsPeriod, back: int) -> Option<(i16, i8, i8)> {
    date_minus(last, period_span(period, back))
}

/// The instant (UTC midnight) `back` periods before `last`.
pub open spec fn start_instant(last: (i16, i8, i8), period: StatsPeriod, back: int) -> Option<i128> {
    match start_before(last, period, back) {
        Some(d) => midnight_at_of(d, UTC_OFFSET),
        None => None,
    }
}

/// The RFC 3339 text of an instant in UTC.
pub open spec fn utc_text(instant: i128) -> Option<Seq<char>> {
    zoned_text_of(RFC3339_FORMAT@, instant, UTC_OFFSET)
}

/// A bucket start that exists, with an instant that has a text.
pub open spec fn start_usable(last: (i16, i8, i8), period: StatsPeriod, back: int) -> bool {
    start_instant(last, period, back) matches Some(n) && utc_text(n) is Some
}

/// Whether the window from `last` (the anchor's period start) can be laid
/// out: every bucket start, `0` to `11` periods back, exists with its
/// instant and text, each starts after the one before it, and the window's
/// end, one period ahead, exists and comes after the last start.
pub open spec fn window_exists(last: (i16, i8, i8), period: StatsPeriod) -> bool {
    &&& forall|k: int| 0 <= k < BUCKET_COUNT ==> #[trigger] start_usable(last, period, k)
    &&& forall|k: int|
        1 <= k < BUCKET_COUNT ==> start_instant(last, period, k).unwrap() < #[trigger] start_instant(
            last,
            period,
            k - 1,
        ).unwrap()
    &&& start_instant(last, period, -1) matches Some(e) && start_instant(last, period, 0).unwrap() < e
}

/// Bucket `i` of the window from `last` starts at the instant `start`,
/// written `label`: `11 - i` periods before `last`.
pub open spec fn bucket_matches(start: i128, label: Seq<char>, last: (i16, i8, i8), period: StatsPeriod, i: int) -> bool {
    &&& start_instant(last, period, BUCKET_COUNT - 1 - i) == Some(start)
    &&& utc_text(start) == Some(label)
}

/// The span of `back` periods.
fn span_of(period: StatsPeriod, back: i64) -> (r: (i64, i64, i64, i64))
    requires
        -1 <= back < BUCKET_COUNT,
    ensures
        r == period_span(period, back as int),
{
    match period {
        StatsPeriod::Week => (0, 0, back, 0),
        StatsPeriod::Month => (0, back, 0, 0),
        StatsPeriod::Quarter => (0, back * 3, 0, 0),
        StatsPeriod::Year => (back, 0, 0, 0),
    }
}

/// The instant `back` periods before `last`.
fn instant_before(last: (i16, i8, i8), period: StatsPeriod, back: i64) -> (r: Option<i128>)
    requires
        -1 <= back < BUCKET_COUNT,
    ensures
        r == start_instant(last, period, back as int),
{
    match minus(last, span_of(period, back)) {
        Some(d) => midnight_at(d, UTC_OFFSET),
        None => None,
    }
}

/// Lays out the twelve buckets ending with the period the instant
/// `anchor_second` falls in (UTC): bucket `i` starts at UTC midnight `11 - i`
/// periods before that period's start, written as RFC 3339, and the window
/// ends one period after it. The starts ascend. `None` when a date leaves
/// the calendar's range.
pub fn stats_window(anchor_second: i64, period: StatsPeriod) -> (r: Option<StatsWindow>)
    ensures
        match date_at_of(anchor_second, UTC_OFFSET) {
            Some(date) => match period_start_of(date, period) {
                Some(last) => if window_exists(last, period) {
                    r matches Some(w) && {
                        &&& w.starts@.len() == BUCKET_COUNT
                        &&& w.labels@.len() == BUCKET_COUNT
                        &&& forall|i: int|
                            0 <= i < BUCKET_COUNT ==> #[trigger] bucket_matches(
                                w.starts@[i],
                                w.labels@[i]@,
                                last,
                                period,
                                i,
                            )
                        &&& forall|i: int|
                            0 <= i < BUCKET_COUNT ==> Some(w.labels@[i]@) == zoned_text_of(
                                RFC3339_FORMAT@,
                                #[trigger] w.starts@[i],
                                UTC_OFFSET,
                            )
                        &&& ascending(w.starts@)
                        &&& start_instant(last, period, -1) == Some(w.end)
                        &&& w.starts@[BUCKET_COUNT - 1] < w.end
                    }
                } else {
                    r is None
                },
                None => r is None,
            },
            None => r is None,
        },
{
    let date = match date_at(anchor_second, UTC_OFFSET) {
        Some(d) => d,
        None => return None,
    };
    let last = match period_start(date, period) {
        Some(d) => d,
        None => return None,
    };
    let mut starts: Vec<i128> = Vec::new();
    let mut labels: Vec<String> = Vec::new();
    let mut i: usize = 0;
    while i < BUCKET_COUNT
        invariant
            i <= BUCKET_COUNT,
            date_at_of(anchor_second, UTC_OFFSET) == Some(date),
            period_start_of(date, period) == Some(last),
            starts@.len() == i,
            labels@.len() == i,
            forall|j: int| 0 <= j < i ==> #[trigger] bucket_matches(starts@[j], labels@[j]@, last, period, j),
            ascending(starts@),
        decreases BUCKET_COUNT - i,
    {
        let back: i64 = (BUCKET_COUNT - 1 - i) as i64;
        let ghost k = BUCKET_COUNT - 1 - i;
        let at = match instant_before(last, period, back) {
            Some(n) => n,
            None => {
                proof {
                    assert(!start_usable(last, period, k));
                }
                return None;
            },
        };
        let text = match crate::time::rfc3339_text(at, UTC_OFFSET) {
            Some(t) => t,
            None => {
                proof {
                    assert(!start_usable(last, period, k));
                }
                return None;
            },
        };
        if i > 0 && at <= starts[i - 1] {
            proof {
                assert(bucket_matches(starts@[i - 1], labels@[i - 1]@, last, period, i - 1));
                assert(start_instant(last, period, k + 1) == Some(starts@[i - 1]));
                assert(start_instant(last, period, k) == Some(at));
                let kk = k + 1;
                assert(1 <= kk < BUCKET_COUNT);
                assert(!(start_instant(last, period, kk).unwrap() < start_instant(last, period, kk - 1).unwrap()));
                assert(!window_exists(last, period));
            }
            return None;
        }
        let ghost before_starts = starts@;
        let ghost before_labels = labels@;
        starts.push(at);
        labels.push(text);
        proof {
            assert forall|j: int| 0 <= j < i + 1 implies #[trigger] bucket_matches(
                starts@[j],
                labels@[j]@,
                last,
                period,
                j,
            ) by {
                if j < i {
                    assert(starts@[j] == before_starts[j]);
                    assert(labels@[j] == before_labels[j]);
                    assert(bucket_matches(before_starts[j], before_labels[j]@, last, period, j));
                }
            }
            assert forall|x: int, y: int| 0 <= x < y < starts@.len() implies #[trigger] starts@[x] < #[trigger] starts@[y] by {
                if y == i && x < i - 1 {
                    assert(before_starts[x] < before_starts[i - 1]);
                }
            }
        }
        i = i + 1;
    }
    let end = match instant_before(last, period, -1) {
        Some(n) => n,
        None => return None,
    };
    if end <= starts[BUCKET_COUNT - 1] {
        proof {
            assert(bucket_matches(starts@[BUCKET_COUNT - 1], labels@[BUCKET_COUNT - 1]@, last, period, BUCKET_COUNT - 1));
        }
        return None;
    }
    proof {
        assert forall|k: int| 0 <= k < BUCKET_COUNT implies #[trigger] start_usable(last, period, k) by {
            let j = BUCKET_COUNT - 1 - k;
            assert(bucket_matches(starts@[j], labels@[j]@, last, period, j));
        }
        assert forall|k: int| 1 <= k < BUCKET_COUNT implies start_instant(last, period, k).unwrap() < #[trigger] start_instant(
            last,
            period,
            k - 1,
        ).unwrap() by {
            let j = BUCKET_COUNT - 1 - k;
            assert(bucket_matches(starts@[j], labels@[j]@, last, period, j));
            assert(bucket_matches(starts@[j + 1], labels@[j + 1]@, last, period, j + 1));
            assert(starts@[j] < starts@[j + 1]);
        }
        assert(bucket_matches(starts@[BUCKET_COUNT - 1], labels@[BUCKET_COUNT - 1]@, last, period, BUCKET_COUNT - 1));
        assert forall|i2: int| 0 <= i2 < BUCKET_COUNT implies Some(labels@[i2]@) == zoned_text_of(
            RFC3339_FORMAT@,
            #[trigger] starts@[i2],
            UTC_OFFSET,
        ) by {
            assert(bucket_matches(starts@[i2], labels@[i2]@, last, period, i2));
        }
    }
    Some(StatsWindow { starts, end, labels })
}

} // verus!
