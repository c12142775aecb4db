//! Repository-list order: a sort column plus direction, parsed from and
//! printed back to the `?sort=` spelling, and the stable sort it drives.
//!
//! Missing values sort last whatever the direction, and ties are broken by
//! name ascending, so the order never depends on the incoming order except
//! between rows that agree on both.
use vstd::prelude::*;

use crate::repo::meta::opt_view;
use crate::repo::RepoInfo;
use crate::text::{chars_of, str_eq, string_of};

verus! {

/// Sortable column.
#[derive(Debug, Clone, Copy, PartialEq, Eq, Structural)]
pub enum RepoSort {
    Name,
    Desc,
    Owner,
    /// Last activity; descending unless flipped.
    Idle,
    Section,
}

/// Unknown sort text. Carries no detail: every caller already holds the
/// raw text and builds its own message from it.
#[derive(Debug, Clone, Copy, PartialEq, Eq, Structural)]
pub struct ParseRepoOrderError;

/// The spelling of a sort column.
pub open spec fn sort_name(k: RepoSort) -> Seq<char> {
    match k {
        RepoSort::Name => "name"@,
        RepoSort::Desc => "desc"@,
        RepoSort::Owner => "owner"@,
        RepoSort::Idle => "idle"@,
        RepoSort::Section => "section"@,
    }
}

/// The column spelled `s`, if any.
pub open spec fn sort_from_name(s: Seq<char>) -> Option<RepoSort> {
    if s == "name"@ {
        Some(RepoSort::Name)
    } else if s == "desc"@ {
        Some(RepoSort::Desc)
    } else if s == "owner"@ {
        Some(RepoSort::Owner)
    } else if s == "idle"@ {
        Some(RepoSort::Idle)
    } else if s == "section"@ {
        Some(RepoSort::Section)
    } else {
        None
    }
}

impl RepoSort {
    /// Parses a column name.
    pub fn from_name(s: &str) -> (r: Result<RepoSort, ParseRepoOrderError>)
        ensures
            match sort_from_name(s@) {
                Some(k) => r == Ok::<RepoSort, ParseRepoOrderError>(k),
                None => r is Err,
            },
    {
        if str_eq(s, "name") {
            Ok(RepoSort::Name)
        } else if str_eq(s, "desc") {
            Ok(RepoSort::Desc)
        } else if str_eq(s, "owner") {
            Ok(RepoSort::Owner)
        } else if str_eq(s, "idle") {
            Ok(RepoSort::Idle)
        } else if str_eq(s, "section") {
            Ok(RepoSort::Section)
        } else {
            Err(ParseRepoOrderError)
        }
    }

    /// The column's spelling.
    pub fn name(self) -> (r: &'static str)
        ensures
            r@ == sort_name(self),
    {
        match self {
            RepoSort::Name => "name",
            RepoSort::Desc => "desc",
            RepoSort::Owner => "owner",
            RepoSort::Idle => "idle",
            RepoSort::Section => "section",
        }
    }
}

impl std::str::FromStr for RepoSort {
    type Err = ParseRepoOrderError;

    fn from_str(s: &str) -> (r: Result<Self, ParseRepoOrderError>)
        ensures
            match sort_from_name(s@) {
                Some(k) => r == Ok::<RepoSort, ParseRepoOrderError>(k),
                None => r is Err,
            },
    {
        RepoSort::from_name(s)
    }
}

/// A sort column plus direction.
#[derive(Debug, Clone, Copy, PartialEq, Eq, Structural)]
pub struct RepoOrder {
    pub key: RepoSort,
    /// `true` sorts descending. `Idle` starts descending, every other
    /// column ascending; a leading `-` flips the column's own default.
    pub reverse: bool,
}

/// Whether a column sorts descending unless flipped.
pub open spec fn default_reverse(k: RepoSort) -> bool {
    k == RepoSort::Idle
}

/// The order a raw `?sort=` value names, if any.
pub open spec fn parse_order(raw: Seq<char>) -> Option<RepoOrder> {
    let negated = raw.len() > 0 && raw[0] == '-';
    let rest = if negated {
        raw.drop_first()
    } else {
        raw
    };
    match sort_from_name(rest) {
        Some(k) => Some(RepoOrder { key: k, reverse: default_reverse(k) != negated }),
        None => None,
    }
}

/// The spelling of an order: the column's name, after a `-` when the
/// direction is not the column's default.
pub open spec fn order_text(o: RepoOrder) -> Seq<char> {
    if o.reverse != default_reverse(o.key) {
        "-"@ + sort_name(o.key)
    } else {
        sort_name(o.key)
    }
}

impl RepoOrder {
    /// Parses a raw `?sort=` value.
    pub fn parse(raw: &str) -> (r: Result<RepoOrder, ParseRepoOrderError>)
        ensures
            match parse_order(raw@) {
                Some(o) => r == Ok::<RepoOrder, ParseRepoOrderError>(o),
                None => r is Err,
            },
    {
        let v = chars_of(raw);
        let negated = v.len() > 0 && v[0] == '-';
        let rest = if negated {
            let tail = crate::text::slice_chars(v.as_slice(), 1, v.len());
            assert(tail@ == raw@.drop_first());
            string_of(tail.as_slice())
        } else {
            string_of(v.as_slice())
        };
        match RepoSort::from_name(rest.as_str()) {
            Ok(key) => {
                let d = match key {
                    RepoSort::Idle => true,
                    _ => false,
                };
                Ok(RepoOrder { key, reverse: d != negated })
            },
            Err(e) => Err(e),
        }
    }

    /// The order's `?sort=` spelling, as it is echoed back in responses.
    pub fn to_string(&self) -> (r: String)
        ensures
            r@ == order_text(*self),
    {
        let d = match self.key {
            RepoSort::Idle => true,
            _ => false,
        };
        let name = self.key.name();
        if self.reverse != d {
            let mut out: Vec<char> = Vec::new();
            out.push('-');
            crate::text::push_str_chars(&mut out, name);
            assert(out@ == seq!['-'] + name@);
            proof {
                reveal_strlit("-");
                assert("-"@ == seq!['-']);
            }
            string_of(out.as_slice())
        } else {
            crate::text::owned(name)
        }
    }
}

impl Default for RepoOrder {
    /// `name` ascending.
    fn default() -> (r: Self)
        ensures
            r == (RepoOrder { key: RepoSort::Name, reverse: false }),
    {
        RepoOrder { key: RepoSort::Name, reverse: false }
    }
}

/// The spellings of distinct columns differ.
proof fn lemma_sort_names()
    ensures
        forall|k: RepoSort| sort_from_name(#[trigger] sort_name(k)) == Some(k),
        forall|k: RepoSort| #[trigger] sort_name(k).len() > 0 && sort_name(k)[0] != '-',
{
    reveal_strlit("name");
    reveal_strlit("desc");
    reveal_strlit("owner");
    reveal_strlit("idle");
    reveal_strlit("section");
    assert(sort_from_name("name"@) == Some(RepoSort::Name));
    assert("desc"@[0] != "name"@[0]);
    assert(sort_from_name("desc"@) == Some(RepoSort::Desc));
    assert("owner"@[0] != "name"@[0] && "owner"@[0] != "desc"@[0]);
    assert(sort_from_name("owner"@) == Some(RepoSort::Owner));
    assert("idle"@[0] != "name"@[0] && "idle"@[0] != "desc"@[0] && "idle"@[0] != "owner"@[0]);
    assert(sort_from_name("idle"@) == Some(RepoSort::Idle));
    assert("section"@.len() != "name"@.len() && "section"@.len() != "desc"@.len()
        && "section"@.len() != "owner"@.len() && "section"@.len() != "idle"@.len());
    assert(sort_from_name("section"@) == Some(RepoSort::Section));
}

/// Printing an order and parsing the text gives the order back.
pub proof fn lemma_order_text_parses_back(o: RepoOrder)
    ensures
        parse_order(order_text(o)) == Some(o),
{
    lemma_sort_names();
    reveal_strlit("-");
    let t = order_text(o);
    if o.reverse != default_reverse(o.key) {
        assert(t.drop_first() == sort_name(o.key));
    }
}

/// Every text that parses prints back exactly.
pub proof fn lemma_parse_prints_back(raw: Seq<char>)
    requires
        parse_order(raw) is Some,
    ensures
        order_text(parse_order(raw).unwrap()) == raw,
{
    lemma_sort_names();
    reveal_strlit("-");
    reveal_strlit("name");
    reveal_strlit("desc");
    reveal_strlit("owner");
    reveal_strlit("idle");
    reveal_strlit("section");
    let negated = raw.len() > 0 && raw[0] == '-';
    if negated {
        assert(raw == seq!['-'] + raw.drop_first());
    }
}

// ---------------------------------------------------------------------------
// Comparison
// ---------------------------------------------------------------------------

/// Text order (as `str` orders): lexicographic by character, which is the byte
/// order of UTF-8. `-1`, `0` or `1`.
pub open spec fn text_order(a: Seq<char>, b: Seq<char>) -> int
    decreases a.len(),
{
    if a.len() == 0 {
        if b.len() == 0 {
            0
        } else {
            -1
        }
    } else if b.len() == 0 {
        1
    } else if a[0] < b[0] {
        -1
    } else if a[0] > b[0] {
        1
    } else {
        text_order(a.drop_first(), b.drop_first())
    }
}

/// Integer order: `-1`, `0` or `1`.
pub open spec fn int_order(a: int, b: int) -> int {
    if a < b {
        -1
    } else if a > b {
        1
    } else {
        0
    }
}

/// The instant (nanoseconds since the Unix epoch) that an RFC 3339 text
/// names, as `jiff::Timestamp` parses it; `None` where it does not parse.
pub uninterp spec fn timestamp_instant(text: Seq<char>) -> Option<i128>;

/// Parses `text` as a `jiff::Timestamp` and gives its instant in
/// nanoseconds. The contract only names the result: it is
/// [`timestamp_instant`] of the text.
#[verifier::external_body]
pub(crate) fn parse_instant(text: &str) -> (r: Option<i128>)
    ensures
        r == timestamp_instant(text@),
{
    match text.parse::<jiff::Timestamp>() {
        Ok(t) => Some(t.as_nanosecond()),
        Err(_) => None,
    }
}

/// The value a text column reads from a repository.
pub open spec fn column_text(k: RepoSort, r: RepoInfo) -> Option<Seq<char>> {
    match k {
        RepoSort::Name => Some(r.name@),
        RepoSort::Desc => opt_view(r.description),
        RepoSort::Owner => opt_view(r.owner),
        RepoSort::Idle => opt_view(r.last_modified),
        RepoSort::Section => opt_view(r.section),
    }
}

/// The instant of a repository's last activity, if it has one that parses.
pub open spec fn idle_instant(r: RepoInfo) -> Option<i128> {
    match r.last_modified {
        Some(t) => timestamp_instant(t@),
        None => None,
    }
}

/// Two optional texts compared: present before missing whatever the
/// direction; `reverse` flips only the order of two present values.
pub open spec fn opt_text_order(a: Option<Seq<char>>, b: Option<Seq<char>>, reverse: bool) -> int {
    match (a, b) {
        (Some(x), Some(y)) => if reverse {
            text_order(y, x)
        } else {
            text_order(x, y)
        },
        (Some(_), None) => -1,
        (None, Some(_)) => 1,
        (None, None) => 0,
    }
}

/// Two optional instants compared, as [`opt_text_order`].
pub open spec fn opt_instant_order(a: Option<i128>, b: Option<i128>, reverse: bool) -> int {
    match (a, b) {
        (Some(x), Some(y)) => if reverse {
            int_order(y as int, x as int)
        } else {
            int_order(x as int, y as int)
        },
        (Some(_), None) => -1,
        (None, Some(_)) => 1,
        (None, None) => 0,
    }
}

/// The order's own column compared; `Idle` compares parsed instants, not
/// the texts, since two texts may carry different UTC offsets.
pub open spec fn column_order(o: RepoOrder, a: RepoInfo, b: RepoInfo) -> int {
    match o.key {
        RepoSort::Idle => opt_instant_order(idle_instant(a), idle_instant(b), o.reverse),
        k => opt_text_order(column_text(k, a), column_text(k, b), o.reverse),
    }
}

/// Two repositories compared under `o`: the column, then the name.
pub open spec fn repos_order(o: RepoOrder, a: RepoInfo, b: RepoInfo) -> int {
    let c = column_order(o, a, b);
    if c != 0 {
        c
    } else {
        text_order(a.name@, b.name@)
    }
}

/// [`text_order`] over character slices.
fn compare_text(a: &[char], b: &[char]) -> (r: i8)
    ensures
        r as int == text_order(a@, b@),
{
    let mut i: usize = 0;
    assert(a@.skip(0) == a@ && b@.skip(0) == b@);
    while i < a.len() && i < b.len()
        invariant
            i <= a@.len(),
            i <= b@.len(),
            text_order(a@, b@) == text_order(a@.skip(i as int), b@.skip(i as int)),
        decreases a@.len() - i,
    {
        let ghost sa = a@.skip(i as int);
        let ghost sb = b@.skip(i as int);
        assert(sa[0] == a@[i as int] && sb[0] == b@[i as int]);
        let x = a[i];
        let y = b[i];
        if x < y {
            return -1;
        }
        if x > y {
            return 1;
        }
        assert(sa.drop_first() == a@.skip(i + 1));
        assert(sb.drop_first() == b@.skip(i + 1));
        i = i + 1;
    }
    if i == a.len() {
        if i == b.len() {
            0
        } else {
            -1
        }
    } else {
        1
    }
}

/// [`text_order`] of two strings.
pub fn compare_str(a: &str, b: &str) -> (r: i8)
    ensures
        r as int == text_order(a@, b@),
{
    let x = chars_of(a);
    let y = chars_of(b);
    compare_text(x.as_slice(), y.as_slice())
}

/// [`opt_text_order`] over optional strings.
fn compare_opt_str(a: Option<&str>, b: Option<&str>, reverse: bool) -> (r: i8)
    ensures
        r as int == opt_text_order(
            match a {
                Some(x) => Some(x@),
                None => None,
            },
            match b {
                Some(y) => Some(y@),
                None => None,
            },
            reverse,
        ),
{
    match (a, b) {
        (Some(x), Some(y)) => {
            let xs = chars_of(x);
            let ys = chars_of(y);
            if reverse {
                compare_text(ys.as_slice(), xs.as_slice())
            } else {
                compare_text(xs.as_slice(), ys.as_slice())
            }
        },
        (Some(_), None) => -1,
        (None, Some(_)) => 1,
        (None, None) => 0,
    }
}

/// `o`'s text, borrowed.
fn opt_as_str(o: &Option<String>) -> (r: Option<&str>)
    ensures
        match r {
            Some(x) => Some(x@),
            None => None::<Seq<char>>,
        } == opt_view(*o),
{
    match o {
        Some(s) => Some(s.as_str()),
        None => None,
    }
}

impl RepoSort {
    /// The text this column reads from `repo` (see [`column_text`]).
    fn key<'a>(self, repo: &'a RepoInfo) -> (r: Option<&'a str>)
        ensures
            match r {
                Some(x) => Some(x@),
                None => None::<Seq<char>>,
            } == column_text(self, *repo),
    {
        match self {
            RepoSort::Name => Some(repo.name.as_str()),
            RepoSort::Desc => opt_as_str(&repo.description),
            RepoSort::Owner => opt_as_str(&repo.owner),
            RepoSort::Idle => opt_as_str(&repo.last_modified),
            RepoSort::Section => opt_as_str(&repo.section),
        }
    }
}

/// [`opt_instant_order`] of two repositories' last activity.
fn compare_idle(a: &RepoInfo, b: &RepoInfo, reverse: bool) -> (r: i8)
    ensures
        r as int == opt_instant_order(idle_instant(*a), idle_instant(*b), reverse),
{
    let x = match &a.last_modified {
        Some(t) => parse_instant(t.as_str()),
        None => None,
    };
    let y = match &b.last_modified {
        Some(t) => parse_instant(t.as_str()),
        None => None,
    };
    match (x, y) {
        (Some(p), Some(q)) => {
            let (l, h) = if reverse {
                (q, p)
            } else {
                (p, q)
            };
            if l < h {
                -1
            } else if l > h {
                1
            } else {
                0
            }
        },
        (Some(_), None) => -1,
        (None, Some(_)) => 1,
        (None, None) => 0,
    }
}

/// [`repos_order`] of two repositories.
fn compare_repos(o: RepoOrder, a: &RepoInfo, b: &RepoInfo) -> (r: i8)
    ensures
        r as int == repos_order(o, *a, *b),
{
    let c = match o.key {
        RepoSort::Idle => compare_idle(a, b, o.reverse),
        _ => compare_opt_str(o.key.key(a), o.key.key(b), o.reverse),
    };
    if c != 0 {
        c
    } else {
        let an = chars_of(a.name.as_str());
        let bn = chars_of(b.name.as_str());
        compare_text(an.as_slice(), bn.as_slice())
    }
}

// ---------------------------------------------------------------------------
// The sort
// ---------------------------------------------------------------------------

/// Index at which `x` enters the ordered `s`, searching from `i`: before
/// the first row that `x` sorts strictly before, so that `x` lands after
/// every row it ties with (the sort is stable).
pub open spec fn insert_index(o: RepoOrder, s: Seq<RepoInfo>, x: RepoInfo, i: int) -> int
    decreases s.len() - i,
{
    if i >= s.len() {
        s.len() as int
    } else if repos_order(o, x, s[i]) < 0 {
        i
    } else {
        insert_index(o, s, x, i + 1)
    }
}

/// `x` inserted into the ordered `s`.
pub open spec fn insert_ordered(o: RepoOrder, s: Seq<RepoInfo>, x: RepoInfo) -> Seq<RepoInfo> {
    s.insert(insert_index(o, s, x, 0), x)
}

/// `s` in the order `o`: each row, in incoming order, inserted after the
/// rows it does not sort before. This is a stable sort by [`repos_order`].
pub open spec fn sorted_repos(o: RepoOrder, s: Seq<RepoInfo>) -> Seq<RepoInfo>
    decreases s.len(),
{
    if s.len() == 0 {
        s
    } else {
        insert_ordered(o, sorted_repos(o, s.drop_last()), s.last())
    }
}

/// Sorts `repos` by `order`. Rows missing the column's value sort last
/// whatever the direction; ties are broken by name ascending; rows equal on
/// both keep their incoming order.
pub fn sort_repos(repos: &mut Vec<RepoInfo>, order: RepoOrder)
    ensures
        final(repos)@ == sorted_repos(order, old(repos)@),
{
    let ghost orig = repos@;
    let ghost n = orig.len();
    assert(n == repos.len());
    let mut items: Vec<RepoInfo> = Vec::new();
    while repos.len() > 0
        invariant
            items@.len() + repos@.len() == n,
            n == orig.len(),
            n <= usize::MAX,
            repos@ == orig.take(repos@.len() as int),
            forall|j: int| 0 <= j < items@.len() ==> #[trigger] items@[j] == orig[n - 1 - j],
        decreases repos@.len(),
    {
        let ghost before = repos@;
        match repos.pop() {
            Some(x) => {
                assert(x == orig[before.len() - 1]);
                assert(repos@ == orig.take(repos@.len() as int));
                items.push(x);
            },
            None => {},
        }
    }
    let mut k: usize = 0;
    assert(orig.take(0) == Seq::<RepoInfo>::empty());
    while items.len() > 0
        invariant
            items@.len() + k == n,
            n == orig.len(),
            n <= usize::MAX,
            forall|j: int| 0 <= j < items@.len() ==> #[trigger] items@[j] == orig[n - 1 - j],
            repos@ == sorted_repos(order, orig.take(k as int)),
        decreases items@.len(),
    {
        let ghost before = items@;
        match items.pop() {
            Some(x) => {
                assert(x == before[before.len() - 1]);
                assert(x == orig[k as int]);
                let mut p: usize = 0;
                while p < repos.len() && compare_repos(order, &x, &repos[p]) >= 0
                    invariant
                        p <= repos@.len(),
                        insert_index(order, repos@, x, 0) == insert_index(order, repos@, x, p as int),
                    decreases repos@.len() - p,
                {
                    p = p + 1;
                }
                repos.insert(p, x);
                assert(orig.take(k + 1).drop_last() == orig.take(k as int));
                assert(orig.take(k + 1).last() == x);
                k = k + 1;
            },
            None => {},
        }
    }
    assert(orig.take(n as int) == orig);
}

// ---------------------------------------------------------------------------
// Laws of the order
// ---------------------------------------------------------------------------

/// [`text_order`] is `-1`, `0` or `1`, swaps sign when its arguments swap,
/// and is `0` only for equal texts.
pub proof fn lemma_text_order_antisymmetric(a: Seq<char>, b: Seq<char>)
    ensures
        -1 <= text_order(a, b) <= 1,
        text_order(a, b) == -text_order(b, a),
        text_order(a, b) == 0 <==> a == b,
    decreases a.len(),
{
    if a.len() > 0 && b.len() > 0 && a[0] == b[0] {
        lemma_text_order_antisymmetric(a.drop_first(), b.drop_first());
        if a.drop_first() == b.drop_first() {
            assert(a == seq![a[0]] + a.drop_first());
            assert(b == seq![b[0]] + b.drop_first());
        }
        if a == b {
            assert(a.drop_first() == b.drop_first());
        }
    } else if a.len() > 0 && b.len() > 0 {
        assert(a[0] != b[0]);
    } else if a.len() == 0 && b.len() > 0 {
        assert(a != b);
    } else if a.len() > 0 && b.len() == 0 {
        assert(a != b);
    } else if a.len() == 0 && b.len() == 0 {
        assert(a =~= b);
    }
}

/// [`text_order`] is transitive.
pub proof fn lemma_text_order_transitive(a: Seq<char>, b: Seq<char>, c: Seq<char>)
    requires
        text_order(a, b) <= 0,
        text_order(b, c) <= 0,
    ensures
        text_order(a, c) <= 0,
    decreases a.len(),
{
    if a.len() > 0 && b.len() > 0 && c.len() > 0 && a[0] == b[0] && b[0] == c[0] {
        lemma_text_order_transitive(a.drop_first(), b.drop_first(), c.drop_first());
    }
}

/// [`repos_order`] swaps sign when its arguments swap.
pub proof fn lemma_repos_order_antisymmetric(o: RepoOrder, a: RepoInfo, b: RepoInfo)
    ensures
        -1 <= repos_order(o, a, b) <= 1,
        repos_order(o, a, b) == -repos_order(o, b, a),
{
    lemma_text_order_antisymmetric(a.name@, b.name@);
    match (column_text(o.key, a), column_text(o.key, b)) {
        (Some(x), Some(y)) => lemma_text_order_antisymmetric(x, y),
        _ => {},
    }
}

/// The column comparison is transitive.
proof fn lemma_column_order_transitive(o: RepoOrder, a: RepoInfo, b: RepoInfo, c: RepoInfo)
    requires
        column_order(o, a, b) <= 0,
        column_order(o, b, c) <= 0,
    ensures
        column_order(o, a, c) <= 0,
        column_order(o, a, b) < 0 || column_order(o, b, c) < 0 ==> column_order(o, a, c) < 0,
{
    match o.key {
        RepoSort::Idle => {},
        k => {
            let (x, y, z) = (column_text(k, a), column_text(k, b), column_text(k, c));
            match (x, y, z) {
                (Some(x), Some(y), Some(z)) => {
                    lemma_text_order_antisymmetric(x, y);
                    lemma_text_order_antisymmetric(y, z);
                    lemma_text_order_antisymmetric(x, z);
                    if o.reverse {
                        lemma_text_order_transitive(z, y, x);
                        if text_order(z, x) == 0 {
                            assert(x == z);
                            lemma_text_order_antisymmetric(y, x);
                        }
                    } else {
                        lemma_text_order_transitive(x, y, z);
                        if text_order(x, z) == 0 {
                            assert(x == z);
                            lemma_text_order_antisymmetric(y, x);
                        }
                    }
                },
                _ => {},
            }
        },
    }
}

/// [`repos_order`] is transitive.
pub proof fn lemma_repos_order_transitive(o: RepoOrder, a: RepoInfo, b: RepoInfo, c: RepoInfo)
    requires
        repos_order(o, a, b) <= 0,
        repos_order(o, b, c) <= 0,
    ensures
        repos_order(o, a, c) <= 0,
{
    lemma_repos_order_antisymmetric(o, a, b);
    lemma_repos_order_antisymmetric(o, b, c);
    lemma_repos_order_antisymmetric(o, a, c);
    if column_order(o, a, b) == 0 && column_order(o, b, c) == 0 {
        lemma_column_order_transitive(o, a, b, c);
        lemma_text_order_transitive(a.name@, b.name@, c.name@);
    } else {
        assert(column_order(o, a, b) <= 0 && column_order(o, b, c) <= 0);
        lemma_column_order_transitive(o, a, b, c);
    }
}

/// Whether `s` is in the order `o`.
pub open spec fn in_order(o: RepoOrder, s: Seq<RepoInfo>) -> bool {
    forall|i: int, j: int| 0 <= i < j < s.len() ==> #[trigger] repos_order(o, s[i], s[j]) <= 0
}

/// Where [`insert_index`] stops.
proof fn lemma_insert_index(o: RepoOrder, s: Seq<RepoInfo>, x: RepoInfo, i: int)
    requires
        0 <= i <= s.len(),
    ensures
        i <= insert_index(o, s, x, i) <= s.len(),
        forall|k: int| i <= k < insert_index(o, s, x, i) ==> repos_order(o, x, #[trigger] s[k]) >= 0,
        insert_index(o, s, x, i) < s.len() ==> repos_order(o, x, s[insert_index(o, s, x, i)]) < 0,
    decreases s.len() - i,
{
    if i < s.len() && repos_order(o, x, s[i]) >= 0 {
        lemma_insert_index(o, s, x, i + 1);
    }
}

/// Inserting into an ordered sequence keeps it ordered.
proof fn lemma_insert_keeps_order(o: RepoOrder, s: Seq<RepoInfo>, x: RepoInfo)
    requires
        in_order(o, s),
    ensures
        in_order(o, insert_ordered(o, s, x)),
{
    let p = insert_index(o, s, x, 0);
    lemma_insert_index(o, s, x, 0);
    let t = s.insert(p, x);
    assert forall|i: int, j: int| 0 <= i < j < t.len() implies #[trigger] repos_order(o, t[i], t[j])
        <= 0 by {
        if i < p && j < p {
            assert(t[i] == s[i] && t[j] == s[j]);
        } else if i < p && j == p {
            lemma_repos_order_antisymmetric(o, x, s[i]);
        } else if i < p && j > p {
            assert(t[i] == s[i] && t[j] == s[j - 1]);
        } else if i == p {
            assert(t[j] == s[j - 1]);
            assert(repos_order(o, x, s[p]) < 0);
            if j - 1 > p {
                assert(repos_order(o, s[p], s[j - 1]) <= 0);
                lemma_repos_order_transitive(o, x, s[p], s[j - 1]);
            }
        } else {
            assert(t[i] == s[i - 1] && t[j] == s[j - 1]);
        }
    }
}

/// The sort's result is in order: for every two rows, the earlier one sorts
/// before or ties with the later one. In particular a row missing the
/// column's value is never followed by one that has it, and rows that tie
/// on the column come in ascending name order.
pub proof fn lemma_sorted_repos_in_order(o: RepoOrder, s: Seq<RepoInfo>)
    ensures
        in_order(o, sorted_repos(o, s)),
    decreases s.len(),
{
    if s.len() > 0 {
        lemma_sorted_repos_in_order(o, s.drop_last());
        lemma_insert_keeps_order(o, sorted_repos(o, s.drop_last()), s.last());
    }
}

/// The sort's result holds exactly the incoming rows.
pub proof fn lemma_sorted_repos_permutes(o: RepoOrder, s: Seq<RepoInfo>)
    ensures
        sorted_repos(o, s).to_multiset() == s.to_multiset(),
    decreases s.len(),
{
    broadcast use vstd::seq_lib::group_to_multiset_ensures;

    if s.len() > 0 {
        lemma_sorted_repos_permutes(o, s.drop_last());
        let r = sorted_repos(o, s.drop_last());
        let p = insert_index(o, r, s.last(), 0);
        lemma_insert_index(o, r, s.last(), 0);
        let t = r.insert(p, s.last());
        assert(t.remove(p) == r);
        assert(t.remove(p).to_multiset() == t.to_multiset().remove(t[p]));
        assert(s.drop_last().push(s.last()) == s);
        assert(t.to_multiset().contains(s.last()));
    }
}


/// No two rows share a name.
pub open spec fn distinct_names(s: Seq<RepoInfo>) -> bool {
    forall|i: int, j: int| 0 <= i < j < s.len() ==> (#[trigger] s[i]).name@ != (#[trigger] s[j]).name@
}

/// Two ordered arrangements of the same rows, no two of which share a
/// name, are the same sequence.
proof fn lemma_ordered_unique(o: RepoOrder, a: Seq<RepoInfo>, b: Seq<RepoInfo>)
    requires
        in_order(o, a),
        in_order(o, b),
        a.to_multiset() == b.to_multiset(),
        distinct_names(a),
    ensures
        a == b,
    decreases a.len(),
{
    broadcast use vstd::seq_lib::group_to_multiset_ensures;

    assert(a.len() == a.to_multiset().len());
    assert(b.len() == b.to_multiset().len());
    if a.len() == 0 {
        assert(a =~= b);
    } else {
        assert(b.to_multiset().count(b[0]) > 0);
        assert(a.contains(b[0]));
        let k = choose|k: int| 0 <= k < a.len() && a[k] == b[0];
        assert(a.to_multiset().count(a[0]) > 0);
        assert(b.contains(a[0]));
        let m = choose|m: int| 0 <= m < b.len() && b[m] == a[0];
        if k != 0 {
            assert(repos_order(o, a[0], a[k]) <= 0);
            if m != 0 {
                assert(repos_order(o, b[0], b[m]) <= 0);
            }
            lemma_repos_order_antisymmetric(o, a[0], b[0]);
            assert(repos_order(o, a[0], b[0]) == 0);
            lemma_text_order_antisymmetric(a[0].name@, b[0].name@);
            assert(a[0].name@ == a[k].name@);
            assert(false);
        }
        assert(a[0] == b[0]);
        let a1 = a.drop_first();
        let b1 = b.drop_first();
        assert(a.remove(0) =~= a1);
        assert(b.remove(0) =~= b1);
        assert(a1.to_multiset() == b1.to_multiset());
        assert forall|i: int, j: int| 0 <= i < j < a1.len() implies #[trigger] repos_order(o, a1[i], a1[j])
            <= 0 by {
            assert(repos_order(o, a[i + 1], a[j + 1]) <= 0);
        }
        assert forall|i: int, j: int| 0 <= i < j < b1.len() implies #[trigger] repos_order(o, b1[i], b1[j])
            <= 0 by {
            assert(repos_order(o, b[i + 1], b[j + 1]) <= 0);
        }
        assert forall|i: int, j: int| 0 <= i < j < a1.len() implies (#[trigger] a1[i]).name@
            != (#[trigger] a1[j]).name@ by {
            assert(a[i + 1].name@ != a[j + 1].name@);
        }
        lemma_ordered_unique(o, a1, b1);
        assert(a =~= b) by {
            assert forall|i: int| 0 <= i < a.len() implies a[i] == b[i] by {
                if i > 0 {
                    assert(a1[i - 1] == b1[i - 1]);
                }
            }
        }
    }
}

/// Rows of a sequence with distinct names keep distinct names in any
/// arrangement of them.
proof fn lemma_distinct_names_permuted(s: Seq<RepoInfo>, t: Seq<RepoInfo>)
    requires
        distinct_names(s),
        s.to_multiset() == t.to_multiset(),
    ensures
        distinct_names(t),
{
    broadcast use vstd::seq_lib::group_to_multiset_ensures;

    assert(s.no_duplicates()) by {
        assert forall|i: int, j: int| 0 <= i < s.len() && 0 <= j < s.len() && i != j implies s[i] != s[j] by {
            if i < j {
                assert(s[i].name@ != s[j].name@);
            } else {
                assert(s[j].name@ != s[i].name@);
            }
        }
    }
    s.lemma_multiset_has_no_duplicates();
    t.lemma_multiset_has_no_duplicates_conv();
    assert forall|i: int, j: int| 0 <= i < j < t.len() implies (#[trigger] t[i]).name@
        != (#[trigger] t[j]).name@ by {
        assert(t.to_multiset().count(t[i]) > 0);
        assert(t.to_multiset().count(t[j]) > 0);
        assert(s.contains(t[i]));
        assert(s.contains(t[j]));
        let p = choose|p: int| 0 <= p < s.len() && s[p] == t[i];
        let q = choose|q: int| 0 <= q < s.len() && s[q] == t[j];
        assert(t[i] != t[j]);
        if p < q {
            assert(s[p].name@ != s[q].name@);
        } else {
            assert(s[q].name@ != s[p].name@);
        }
    }
}

/// Among rows with distinct names, the sort's result does not depend on
/// the order the rows come in: two arrangements of the same rows sort to
/// the same sequence.
pub proof fn lemma_sorted_repos_order_free(o: RepoOrder, s1: Seq<RepoInfo>, s2: Seq<RepoInfo>)
    requires
        s1.to_multiset() == s2.to_multiset(),
        distinct_names(s1),
    ensures
        sorted_repos(o, s1) == sorted_repos(o, s2),
{
    let a = sorted_repos(o, s1);
    let b = sorted_repos(o, s2);
    lemma_sorted_repos_in_order(o, s1);
    lemma_sorted_repos_in_order(o, s2);
    lemma_sorted_repos_permutes(o, s1);
    lemma_sorted_repos_permutes(o, s2);
    lemma_distinct_names_permuted(s1, a);
    lemma_ordered_unique(o, a, b);
}


/// How two repositories must compare on a text field: two different
/// present values in text order (flipped when reversed), a present value
/// before a missing one whatever the direction.
pub open spec fn compares_by(reverse: bool, fa: Option<String>, fb: Option<String>, r: int) -> bool {
    match (fa, fb) {
        (Some(x), Some(y)) => x@ != y@ ==> r == if reverse {
            text_order(y@, x@)
        } else {
            text_order(x@, y@)
        },
        (Some(_), None) => r < 0,
        (None, Some(_)) => r > 0,
        (None, None) => true,
    }
}

/// Each sort key orders repositories by the field it names, whatever their
/// other fields: `name` by the name, `desc` by the description, `owner` by
/// the owner, `section` by the section, and `idle` by the instant of the
/// last activity (most recent first unless flipped).
pub proof fn lemma_key_reads_its_field(o: RepoOrder, a: RepoInfo, b: RepoInfo)
    ensures
        o.key == RepoSort::Name && a.name@ != b.name@ ==> repos_order(o, a, b) == if o.reverse {
            text_order(b.name@, a.name@)
        } else {
            text_order(a.name@, b.name@)
        },
        o.key == RepoSort::Desc ==> compares_by(o.reverse, a.description, b.description, repos_order(o, a, b)),
        o.key == RepoSort::Owner ==> compares_by(o.reverse, a.owner, b.owner, repos_order(o, a, b)),
        o.key == RepoSort::Section ==> compares_by(o.reverse, a.section, b.section, repos_order(o, a, b)),
        o.key == RepoSort::Idle ==> match (idle_instant(a), idle_instant(b)) {
            (Some(x), Some(y)) => x != y ==> repos_order(o, a, b) == if o.reverse {
                int_order(y as int, x as int)
            } else {
                int_order(x as int, y as int)
            },
            (Some(_), None) => repos_order(o, a, b) < 0,
            (None, Some(_)) => repos_order(o, a, b) > 0,
            (None, None) => true,
        },
{
    lemma_text_order_antisymmetric(a.name@, b.name@);
    match (a.description, b.description) {
        (Some(x), Some(y)) => lemma_text_order_antisymmetric(x@, y@),
        _ => {},
    }
    match (a.owner, b.owner) {
        (Some(x), Some(y)) => lemma_text_order_antisymmetric(x@, y@),
        _ => {},
    }
    match (a.section, b.section) {
        (Some(x), Some(y)) => lemma_text_order_antisymmetric(x@, y@),
        _ => {},
    }
}

} // verus!
