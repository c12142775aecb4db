//! Branch and tag listings: the entries, each list in name order, and the
//! first line of a tag's annotation.
use vstd::prelude::*;

use crate::repo::sort::{compare_str, lemma_text_order_antisymmetric, lemma_text_order_transitive, text_order};
use crate::text::{chars_of, find_char_from, slice_chars, split_char, string_of, trim, trim_bounds};

verus! {

/// Branch entry.
#[derive(Debug)]
pub struct BranchRef {
    pub name: String,
    /// Commit sha of the branch tip.
    pub target: String,
    /// Author date (RFC 3339) of the branch tip.
    pub committed_at: Option<String>,
}

/// Tag entry.
#[derive(Debug)]
pub struct TagRef {
    pub name: String,
    /// Peeled commit sha (not the tag object), so clients can link to the
    /// commit; the peeled object's id for a tag on something else.
    pub target: String,
    /// First line of the tag message; `None` for lightweight tags.
    pub annotation: Option<String>,
    /// Tagger date (RFC 3339); `None` for lightweight tags.
    pub tagged_at: Option<String>,
}

/// Every ref list of a repository.
#[derive(Debug)]
pub struct RefsInfo {
    /// Sorted by name ascending.
    pub branches: Vec<BranchRef>,
    /// Remote-tracking branches, sorted by name ascending.
    pub remote_branches: Vec<BranchRef>,
    /// Sorted by name ascending.
    pub tags: Vec<TagRef>,
}

/// Something listed by name.
pub trait Named {
    /// The name, as text.
    spec fn name_view(&self) -> Seq<char>;

    /// The name.
    fn name_str(&self) -> (r: &str)
        ensures
            r@ == self.name_view(),
    ;
}

impl Named for BranchRef {
    open spec fn name_view(&self) -> Seq<char> {
        self.name@
    }

    fn name_str(&self) -> (r: &str) {
        self.name.as_str()
    }
}

impl Named for TagRef {
    open spec fn name_view(&self) -> Seq<char> {
        self.name@
    }

    fn name_str(&self) -> (r: &str) {
        self.name.as_str()
    }
}

/// Index at which `x` enters the name-ordered `s`, from `i`: after every
/// entry whose name is not greater (the sort is stable).
pub open spec fn name_insert_index<T: Named>(s: Seq<T>, x: T, i: int) -> int
    decreases s.len() - i,
{
    if i >= s.len() {
        s.len() as int
    } else if text_order(x.name_view(), s[i].name_view()) < 0 {
        i
    } else {
        name_insert_index(s, x, i + 1)
    }
}

/// `s` sorted by name: a stable sort.
pub open spec fn sorted_by_name<T: Named>(s: Seq<T>) -> Seq<T>
    decreases s.len(),
{
    if s.len() == 0 {
        s
    } else {
        let r = sorted_by_name(s.drop_last());
        r.insert(name_insert_index(r, s.last(), 0), s.last())
    }
}

/// Sorts `items` by name, stably.
pub fn sort_by_name<T: Named>(items: &mut Vec<T>)
    ensures
        final(items)@ == sorted_by_name(old(items)@),
{
    let ghost orig = items@;
    let ghost n = orig.len();
    assert(n == items.len());
    let mut pending: Vec<T> = Vec::new();
    while items.len() > 0
        invariant
            pending@.len() + items@.len() == n,
            n == orig.len(),
            n <= usize::MAX,
            items@ == orig.take(items@.len() as int),
            forall|j: int| 0 <= j < pending@.len() ==> #[trigger] pending@[j] == orig[n - 1 - j],
        decreases items@.len(),
    {
        let ghost before = items@;
        match items.pop() {
            Some(x) => {
                assert(x == orig[before.len() - 1]);
                assert(items@ == orig.take(items@.len() as int));
                pending.push(x);
            },
            None => {},
        }
    }
    let mut k: usize = 0;
    assert(orig.take(0) == Seq::<T>::empty());
    while pending.len() > 0
        invariant
            pending@.len() + k == n,
            n == orig.len(),
            n <= usize::MAX,
            forall|j: int| 0 <= j < pending@.len() ==> #[trigger] pending@[j] == orig[n - 1 - j],
            items@ == sorted_by_name(orig.take(k as int)),
        decreases pending@.len(),
    {
        let ghost before = pending@;
        match pending.pop() {
            Some(x) => {
                assert(x == orig[k as int]);
                let mut p: usize = 0;
                while p < items.len() && compare_str(x.name_str(), items[p].name_str()) >= 0
                    invariant
                        p <= items@.len(),
                        name_insert_index(items@, x, 0) == name_insert_index(items@, x, p as int),
                    decreases items@.len() - p,
                {
                    p = p + 1;
                }
                items.insert(p, x);
                assert(orig.take(k + 1).drop_last() == orig.take(k as int));
                assert(orig.take(k + 1).last() == x);
                k = k + 1;
            },
            None => {},
        }
    }
    assert(orig.take(n as int) == orig);
}

/// Where [`name_insert_index`] stops.
proof fn lemma_name_insert_index<T: Named>(s: Seq<T>, x: T, i: int)
    requires
        0 <= i <= s.len(),
    ensures
        i <= name_insert_index(s, x, i) <= s.len(),
        forall|k: int|
            i <= k < name_insert_index(s, x, i) ==> text_order(
                x.name_view(),
                (#[trigger] s[k]).name_view(),
            ) >= 0,
        name_insert_index(s, x, i) < s.len() ==> text_order(
            x.name_view(),
            s[name_insert_index(s, x, i)].name_view(),
        ) < 0,
    decreases s.len() - i,
{
    if i < s.len() && text_order(x.name_view(), s[i].name_view()) >= 0 {
        lemma_name_insert_index(s, x, i + 1);
    }
}

/// Whether `s` is in name order.
pub open spec fn names_in_order<T: Named>(s: Seq<T>) -> bool {
    forall|i: int, j: int|
        0 <= i < j < s.len() ==> text_order(#[trigger] s[i].name_view(), #[trigger] s[j].name_view())
            <= 0
}

/// A sorted list is in ascending name order.
pub proof fn lemma_sorted_by_name_in_order<T: Named>(s: Seq<T>)
    ensures
        names_in_order(sorted_by_name(s)),
    decreases s.len(),
{
    if s.len() > 0 {
        lemma_sorted_by_name_in_order(s.drop_last());
        let r = sorted_by_name(s.drop_last());
        let x = s.last();
        let p = name_insert_index(r, x, 0);
        lemma_name_insert_index(r, x, 0);
        let t = r.insert(p, x);
        assert forall|i: int, j: int| 0 <= i < j < t.len() implies text_order(
            #[trigger] t[i].name_view(),
            #[trigger] t[j].name_view(),
        ) <= 0 by {
            if i < p && j < p {
                assert(t[i] == r[i] && t[j] == r[j]);
            } else if i < p && j == p {
                assert(t[i] == r[i]);
                lemma_text_order_antisymmetric(x.name_view(), r[i].name_view());
            } else if i < p && j > p {
                assert(t[i] == r[i] && t[j] == r[j - 1]);
            } else if i == p {
                assert(t[j] == r[j - 1]);
                lemma_text_order_antisymmetric(x.name_view(), r[p].name_view());
                if j - 1 > p {
                    assert(text_order(r[p].name_view(), r[j - 1].name_view()) <= 0);
                    lemma_text_order_transitive(x.name_view(), r[p].name_view(), r[j - 1].name_view());
                }
            } else {
                assert(t[i] == r[i - 1] && t[j] == r[j - 1]);
            }
        }
    }
}

/// A sorted list holds exactly the entries it was given.
pub proof fn lemma_sorted_by_name_permutes<T: Named>(s: Seq<T>)
    ensures
        sorted_by_name(s).to_multiset() == s.to_multiset(),
    decreases s.len(),
{
    broadcast use vstd::seq_lib::group_to_multiset_ensures;

    if s.len() > 0 {
        lemma_sorted_by_name_permutes(s.drop_last());
        let r = sorted_by_name(s.drop_last());
        let p = name_insert_index(r, s.last(), 0);
        lemma_name_insert_index(r, s.last(), 0);
        let t = r.insert(p, s.last());
        assert(t.remove(p) == r);
        assert(t.remove(p).to_multiset() == t.to_multiset().remove(t[p]));
        assert(s.drop_last().push(s.last()) == s);
        assert(t.to_multiset().contains(s.last()));
    }
}

/// The first line of a tag message, trimmed; a blank first line is none.
pub open spec fn first_line_text(message: Seq<char>) -> Option<Seq<char>> {
    let first = if message.len() == 0 {
        None
    } else {
        let line = split_char(message, '\n')[0];
        Some(trim(line))
    };
    match first {
        Some(l) => if l.len() == 0 {
            None
        } else {
            Some(l)
        },
        None => None,
    }
}

/// The first line of a tag message (see [`first_line_text`]). Lines end at
/// `\n`; a `\r` before it is trimmed away with the rest of the whitespace.
pub fn first_line(message: &str) -> (r: Option<String>)
    ensures
        match first_line_text(message@) {
            Some(t) => r matches Some(s) && s@ == t,
            None => r is None,
        },
{
    let v = chars_of(message);
    if v.len() == 0 {
        return None;
    }
    let end = crate::text::find_char(v.as_slice(), '\n', 0);
    proof {
        crate::text::lemma_find_char_from_bounds(v@, '\n', 0);
        let e = find_char_from(v@, '\n', 0);
        assert(split_char(v@, '\n')[0] == v@.subrange(0, e));
    }
    let line = slice_chars(v.as_slice(), 0, end);
    let (a, b) = trim_bounds(line.as_slice());
    if a == b {
        return None;
    }
    Some(string_of(slice_chars(line.as_slice(), a, b).as_slice()))
}

/// A branch list's entry from a branch that was read: only a direct ref
/// with a UTF-8 name whose tip resolves to a commit is listed (a remote's
/// `HEAD` alias is symbolic and left out).
pub fn branch_entry(
    direct: bool,
    name: Option<String>,
    tip: Option<String>,
    committed_at: Option<String>,
) -> (r: Option<BranchRef>)
    ensures
        (direct && name is Some && tip is Some) <==> r is Some,
        r matches Some(b) ==> b.name == name.unwrap() && b.target == tip.unwrap() && b.committed_at
            == committed_at,
{
    if !direct {
        return None;
    }
    match (name, tip) {
        (Some(n), Some(t)) => Some(BranchRef { name: n, target: t, committed_at }),
        _ => None,
    }
}

} // verus!
