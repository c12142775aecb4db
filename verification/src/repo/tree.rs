//! Directory listings: what each entry's mode makes of it, which entries
//! carry a size or a symlink target, and the listing order (trees first,
//! then by name).
use vstd::prelude::*;

use crate::num::{mode_string, octal6};
use crate::repo::sort::text_order;
use crate::text::utf8_text;

verus! {

/// File mode of a tree (directory).
pub const MODE_TREE: u32 = 16384;

/// File mode of a symlink.
pub const MODE_LINK: u32 = 40960;

/// File mode of a gitlink (submodule).
pub const MODE_COMMIT: u32 = 57344;

/// Longest symlink target read inline; a longer one is reported as none
/// rather than truncated.
pub const SYMLINK_TARGET_LIMIT: u64 = 4096;

/// What a tree entry points at, derived from its file mode.
#[derive(Debug, Clone, Copy, PartialEq, Eq, Structural)]
pub enum EntryKind {
    Tree,
    Blob,
    Symlink,
    /// A gitlink (submodule).
    Commit,
}

/// The kind a file mode names.
pub open spec fn kind_of_mode(mode: u32) -> EntryKind {
    if mode == MODE_TREE {
        EntryKind::Tree
    } else if mode == MODE_LINK {
        EntryKind::Symlink
    } else if mode == MODE_COMMIT {
        EntryKind::Commit
    } else {
        EntryKind::Blob
    }
}

/// The kind a file mode names.
pub fn kind_of(mode: u32) -> (r: EntryKind)
    ensures
        r == kind_of_mode(mode),
{
    if mode == MODE_TREE {
        EntryKind::Tree
    } else if mode == MODE_LINK {
        EntryKind::Symlink
    } else if mode == MODE_COMMIT {
        EntryKind::Commit
    } else {
        EntryKind::Blob
    }
}

/// One tree entry.
#[derive(Debug)]
pub struct TreeEntryInfo {
    pub name: String,
    pub kind: EntryKind,
    /// Octal file mode, six digits at least (`"100644"`).
    pub mode: String,
    /// Object size in bytes; blobs only.
    pub size: Option<u64>,
    /// Symlink target; symlinks only, and none for a target that is not
    /// UTF-8 or is longer than [`SYMLINK_TARGET_LIMIT`].
    pub target: Option<String>,
    /// The entry's object id (for a gitlink, the recorded commit).
    pub sha: String,
    /// A gitlink's link, when one resolves.
    pub module_link: Option<String>,
}

/// A directory listing.
#[derive(Debug)]
pub struct TreeListing {
    /// Resolved commit sha the listing was taken from.
    pub sha: String,
    /// Requested directory path; empty for the root tree.
    pub path: String,
    /// Trees first, then by name ascending.
    pub entries: Vec<TreeEntryInfo>,
}

/// Whether an entry of this kind reports its object's size (a blob's size,
/// or the size limit on a symlink's target).
pub fn needs_object_size(kind: EntryKind) -> (r: bool)
    ensures
        r == (kind == EntryKind::Blob || kind == EntryKind::Symlink),
{
    match kind {
        EntryKind::Blob | EntryKind::Symlink => true,
        _ => false,
    }
}

/// Whether a symlink's target is read: its object size is known and within
/// the limit.
pub fn reads_target(kind: EntryKind, object_size: Option<u64>) -> (r: bool)
    ensures
        r == (kind == EntryKind::Symlink && (object_size matches Some(n) && n
            <= SYMLINK_TARGET_LIMIT)),
{
    match kind {
        EntryKind::Symlink => match object_size {
            Some(n) => n <= SYMLINK_TARGET_LIMIT,
            None => false,
        },
        _ => false,
    }
}

/// A listing entry from what was read for it: its name, mode and id, its
/// object size when it was read, and its content when its target was read.
pub fn tree_entry(
    name: String,
    mode: u32,
    sha: String,
    object_size: Option<u64>,
    target_bytes: Option<Vec<u8>>,
) -> (r: TreeEntryInfo)
    ensures
        r.name == name,
        r.sha == sha,
        r.kind == kind_of_mode(mode),
        r.mode@ == octal6(mode as nat),
        r.size == (if kind_of_mode(mode) == EntryKind::Blob {
            object_size
        } else {
            None
        }),
        match target_bytes {
            Some(b) => if kind_of_mode(mode) == EntryKind::Symlink && vstd::utf8::valid_utf8(b@) {
                r.target matches Some(t) && t@ == vstd::utf8::decode_utf8(b@)
            } else {
                r.target is None
            },
            None => r.target is None,
        },
        r.module_link is None,
        entry_consistent(r),
{
    let kind = kind_of(mode);
    let size = match kind {
        EntryKind::Blob => object_size,
        _ => None,
    };
    let target = match (kind, target_bytes) {
        (EntryKind::Symlink, Some(b)) => utf8_text(b.as_slice()),
        _ => None,
    };
    TreeEntryInfo { name, kind, mode: mode_string(mode), size, target, sha, module_link: None }
}

/// The listing order of two entries: trees before everything else, then
/// names in text order.
pub open spec fn entry_order(a: TreeEntryInfo, b: TreeEntryInfo) -> int {
    let at = a.kind == EntryKind::Tree;
    let bt = b.kind == EntryKind::Tree;
    if at && !bt {
        -1
    } else if !at && bt {
        1
    } else {
        text_order(a.name@, b.name@)
    }
}

/// Index at which `x` enters the ordered `s`, searching from `i`: before
/// the first entry `x` sorts strictly before.
pub open spec fn entry_insert_index(s: Seq<TreeEntryInfo>, x: TreeEntryInfo, i: int) -> int
    decreases s.len() - i,
{
    if i >= s.len() {
        s.len() as int
    } else if entry_order(x, s[i]) < 0 {
        i
    } else {
        entry_insert_index(s, x, i + 1)
    }
}

/// `s` in listing order: a stable sort by [`entry_order`].
pub open spec fn sorted_entries(s: Seq<TreeEntryInfo>) -> Seq<TreeEntryInfo>
    decreases s.len(),
{
    if s.len() == 0 {
        s
    } else {
        let r = sorted_entries(s.drop_last());
        r.insert(entry_insert_index(r, s.last(), 0), s.last())
    }
}

/// [`entry_order`] of two entries.
fn compare_entries(a: &TreeEntryInfo, b: &TreeEntryInfo) -> (r: i8)
    ensures
        r as int == entry_order(*a, *b),
{
    let at = match a.kind {
        EntryKind::Tree => true,
        _ => false,
    };
    let bt = match b.kind {
        EntryKind::Tree => true,
        _ => false,
    };
    if at && !bt {
        -1
    } else if !at && bt {
        1
    } else {
        crate::repo::sort::compare_str(a.name.as_str(), b.name.as_str())
    }
}

/// Puts `entries` in listing order: trees first, then by name.
pub fn sort_entries(entries: &mut Vec<TreeEntryInfo>)
    ensures
        final(entries)@ == sorted_entries(old(entries)@),
{
    let ghost orig = entries@;
    let ghost n = orig.len();
    assert(n == entries.len());
    let mut items: Vec<TreeEntryInfo> = Vec::new();
    while entries.len() > 0
        invariant
            items@.len() + entries@.len() == n,
            n == orig.len(),
            n <= usize::MAX,
            entries@ == orig.take(entries@.len() as int),
            forall|j: int| 0 <= j < items@.len() ==> #[trigger] items@[j] == orig[n - 1 - j],
        decreases entries@.len(),
    {
        let ghost before = entries@;
        match entries.pop() {
            Some(x) => {
                assert(x == orig[before.len() - 1]);
                assert(entries@ == orig.take(entries@.len() as int));
                items.push(x);
            },
            None => {},
        }
    }
    let mut k: usize = 0;
    assert(orig.take(0) == Seq::<TreeEntryInfo>::empty());
    while items.len() > 0
        invariant
            items@.len() + k == n,
            n == orig.len(),
            n <= usize::MAX,
            forall|j: int| 0 <= j < items@.len() ==> #[trigger] items@[j] == orig[n - 1 - j],
            entries@ == sorted_entries(orig.take(k as int)),
        decreases items@.len(),
    {
        let ghost before = items@;
        match items.pop() {
            Some(x) => {
                assert(x == before[before.len() - 1]);
                assert(x == orig[k as int]);
                let mut p: usize = 0;
                while p < entries.len() && compare_entries(&x, &entries[p]) >= 0
                    invariant
                        p <= entries@.len(),
                        entry_insert_index(entries@, x, 0) == entry_insert_index(entries@, x, p as int),
                    decreases entries@.len() - p,
                {
                    p = p + 1;
                }
                entries.insert(p, x);
                assert(orig.take(k + 1).drop_last() == orig.take(k as int));
                assert(orig.take(k + 1).last() == x);
                k = k + 1;
            },
            None => {},
        }
    }
    assert(orig.take(n as int) == orig);
}

/// [`entry_order`] swaps sign when its arguments swap.
proof fn lemma_entry_order_antisymmetric(a: TreeEntryInfo, b: TreeEntryInfo)
    ensures
        entry_order(a, b) == -entry_order(b, a),
{
    crate::repo::sort::lemma_text_order_antisymmetric(a.name@, b.name@);
}

/// [`entry_order`] is transitive.
proof fn lemma_entry_order_transitive(a: TreeEntryInfo, b: TreeEntryInfo, c: TreeEntryInfo)
    requires
        entry_order(a, b) <= 0,
        entry_order(b, c) <= 0,
    ensures
        entry_order(a, c) <= 0,
{
    crate::repo::sort::lemma_text_order_antisymmetric(a.name@, b.name@);
    crate::repo::sort::lemma_text_order_antisymmetric(b.name@, c.name@);
    crate::repo::sort::lemma_text_order_antisymmetric(a.name@, c.name@);
    if (a.kind == EntryKind::Tree) == (b.kind == EntryKind::Tree) && (b.kind == EntryKind::Tree) == (
    c.kind == EntryKind::Tree) {
        crate::repo::sort::lemma_text_order_transitive(a.name@, b.name@, c.name@);
    }
}

/// Whether `s` is in listing order.
pub open spec fn entries_in_order(s: Seq<TreeEntryInfo>) -> bool {
    forall|i: int, j: int| 0 <= i < j < s.len() ==> #[trigger] entry_order(s[i], s[j]) <= 0
}

/// Where [`entry_insert_index`] stops.
proof fn lemma_entry_insert_index(s: Seq<TreeEntryInfo>, x: TreeEntryInfo, i: int)
    requires
        0 <= i <= s.len(),
    ensures
        i <= entry_insert_index(s, x, i) <= s.len(),
        forall|k: int| i <= k < entry_insert_index(s, x, i) ==> entry_order(x, #[trigger] s[k]) >= 0,
        entry_insert_index(s, x, i) < s.len() ==> entry_order(x, s[entry_insert_index(s, x, i)]) < 0,
    decreases s.len() - i,
{
    if i < s.len() && entry_order(x, s[i]) >= 0 {
        lemma_entry_insert_index(s, x, i + 1);
    }
}

/// A listing is in order: every tree comes before every other entry, and
/// entries of the same group come in ascending name order.
pub proof fn lemma_sorted_entries_in_order(s: Seq<TreeEntryInfo>)
    ensures
        entries_in_order(sorted_entries(s)),
    decreases s.len(),
{
    if s.len() > 0 {
        lemma_sorted_entries_in_order(s.drop_last());
        let r = sorted_entries(s.drop_last());
        let x = s.last();
        let p = entry_insert_index(r, x, 0);
        lemma_entry_insert_index(r, x, 0);
        let t = r.insert(p, x);
        assert forall|i: int, j: int| 0 <= i < j < t.len() implies #[trigger] entry_order(
            t[i],
            t[j],
        ) <= 0 by {
            if i < p && j < p {
                assert(t[i] == r[i] && t[j] == r[j]);
            } else if i < p && j == p {
                lemma_entry_order_antisymmetric(x, r[i]);
            } else if i < p && j > p {
                assert(t[i] == r[i] && t[j] == r[j - 1]);
            } else if i == p {
                assert(t[j] == r[j - 1]);
                if j - 1 > p {
                    assert(entry_order(r[p], r[j - 1]) <= 0);
                    lemma_entry_order_transitive(x, r[p], r[j - 1]);
                }
            } else {
                assert(t[i] == r[i - 1] && t[j] == r[j - 1]);
            }
        }
    }
}

/// A listing holds exactly the entries it was given.
pub proof fn lemma_sorted_entries_permutes(s: Seq<TreeEntryInfo>)
    ensures
        sorted_entries(s).to_multiset() == s.to_multiset(),
    decreases s.len(),
{
    broadcast use vstd::seq_lib::group_to_multiset_ensures;

    if s.len() > 0 {
        lemma_sorted_entries_permutes(s.drop_last());
        let r = sorted_entries(s.drop_last());
        let p = entry_insert_index(r, s.last(), 0);
        lemma_entry_insert_index(r, s.last(), 0);
        let t = r.insert(p, s.last());
        assert(t.remove(p) == r);
        assert(t.remove(p).to_multiset() == t.to_multiset().remove(t[p]));
        assert(s.drop_last().push(s.last()) == s);
        assert(t.to_multiset().contains(s.last()));
    }
}

/// The listing of a directory from its entries in tree order.
pub fn listing(sha: String, path: String, entries: Vec<TreeEntryInfo>) -> (r: TreeListing)
    ensures
        r.sha == sha,
        r.path == path,
        r.entries@ == sorted_entries(entries@),
{
    let mut entries = entries;
    sort_entries(&mut entries);
    TreeListing { sha, path, entries }
}


/// An entry carries a size only as a blob and a target only as a symlink.
pub open spec fn entry_consistent(e: TreeEntryInfo) -> bool {
    &&& e.size is Some ==> e.kind == EntryKind::Blob
    &&& e.target is Some ==> e.kind == EntryKind::Symlink
}

/// A listing keeps its entries consistent: when each entry carries a size
/// only as a blob and a target only as a symlink, so does each listed one.
pub proof fn lemma_listing_consistent(s: Seq<TreeEntryInfo>)
    requires
        forall|i: int| 0 <= i < s.len() ==> entry_consistent(#[trigger] s[i]),
    ensures
        forall|i: int| 0 <= i < sorted_entries(s).len() ==> entry_consistent(#[trigger] sorted_entries(s)[i]),
{
    broadcast use vstd::seq_lib::group_to_multiset_ensures;

    let t = sorted_entries(s);
    lemma_sorted_entries_permutes(s);
    assert forall|i: int| 0 <= i < t.len() implies entry_consistent(#[trigger] t[i]) by {
        assert(t.to_multiset().count(t[i]) > 0);
        assert(s.contains(t[i]));
        let k = choose|k: int| 0 <= k < s.len() && s[k] == t[i];
        assert(entry_consistent(s[k]));
    }
}

} // verus!
