//! Character-level building blocks shared by every text-handling module:
//! conversions between `str`/`String` and `Vec<char>`, prefix/suffix tests,
//! whitespace trimming, ASCII case folding and substring search, each with a
//! specification over `Seq<char>`.
use vstd::prelude::*;

verus! {

// ---------------------------------------------------------------------------
// Specifications
// ---------------------------------------------------------------------------

/// `p` is a prefix of `s`.
pub open spec fn is_prefix(p: Seq<char>, s: Seq<char>) -> bool {
    p.len() <= s.len() && s.subrange(0, p.len() as int) == p
}

/// `p` is a suffix of `s`.
pub open spec fn is_suffix(p: Seq<char>, s: Seq<char>) -> bool {
    p.len() <= s.len() && s.subrange(s.len() - p.len(), s.len() as int) == p
}

/// `n` occurs in `h` starting at position `i`.
pub open spec fn occurs_at(h: Seq<char>, n: Seq<char>, i: int) -> bool {
    0 <= i && i + n.len() <= h.len() && h.subrange(i, i + n.len()) == n
}

/// `n` occurs somewhere in `h` (the empty needle occurs everywhere).
pub open spec fn contains_seq(h: Seq<char>, n: Seq<char>) -> bool {
    exists|i: int| occurs_at(h, n, i)
}

/// Unicode `White_Space`, the set `char::is_whitespace` answers for.
pub open spec fn is_ws(c: char) -> bool {
    c == '\t' || c == '\n' || c == '\x0B' || c == '\x0C' || c == '\r' || c == ' '
        || c == '\u{85}' || c == '\u{A0}' || c == '\u{1680}' || ('\u{2000}' <= c
        && c <= '\u{200A}') || c == '\u{2028}' || c == '\u{2029}' || c == '\u{202F}'
        || c == '\u{205F}' || c == '\u{3000}'
}

/// `s` with leading whitespace removed.
pub open spec fn trim_start(s: Seq<char>) -> Seq<char>
    decreases s.len(),
{
    if s.len() == 0 {
        s
    } else if is_ws(s[0]) {
        trim_start(s.drop_first())
    } else {
        s
    }
}

/// `s` with trailing whitespace removed.
pub open spec fn trim_end(s: Seq<char>) -> Seq<char>
    decreases s.len(),
{
    if s.len() == 0 {
        s
    } else if is_ws(s.last()) {
        trim_end(s.drop_last())
    } else {
        s
    }
}

/// `s` with whitespace removed from both ends (`str::trim`).
pub open spec fn trim(s: Seq<char>) -> Seq<char> {
    trim_end(trim_start(s))
}

/// `c` folded to ASCII lowercase; every other character is unchanged.
pub open spec fn ascii_lower(c: char) -> char {
    if 'A' <= c && c <= 'Z' {
        ((c as u32) + 32) as char
    } else {
        c
    }
}

/// Every character of `s` folded with [`ascii_lower`].
pub open spec fn ascii_lower_seq(s: Seq<char>) -> Seq<char> {
    Seq::new(s.len(), |i: int| ascii_lower(s[i]))
}

/// Every character of `s` is ASCII.
pub open spec fn all_ascii(s: Seq<char>) -> bool {
    forall|i: int| 0 <= i < s.len() ==> (s[i] as u32) < 128
}

/// ASCII hex digit `[0-9a-fA-F]`.
pub open spec fn is_hex_char(c: char) -> bool {
    ('0' <= c && c <= '9') || ('a' <= c && c <= 'f') || ('A' <= c && c <= 'F')
}

/// ASCII alphanumeric `[0-9A-Za-z]`.
pub open spec fn is_alnum_char(c: char) -> bool {
    ('0' <= c && c <= '9') || ('a' <= c && c <= 'z') || ('A' <= c && c <= 'Z')
}

/// Index of the first occurrence of `c` in `s` at or after `from`, or `s.len()`.
pub open spec fn find_char_from(s: Seq<char>, c: char, from: int) -> int
    decreases s.len() - from,
{
    if from >= s.len() {
        s.len() as int
    } else if s[from] == c {
        from
    } else {
        find_char_from(s, c, from + 1)
    }
}

/// The pieces of `s` between occurrences of `sep`, starting at `from`
/// (`str::split` with a single-character separator).
pub open spec fn split_from(s: Seq<char>, sep: char, from: int) -> Seq<Seq<char>>
    recommends
        0 <= from <= s.len(),
    decreases s.len() - from,
{
    let end = find_char_from(s, sep, from);
    proof {
        lemma_find_char_from_bounds(s, sep, from);
    }
    if end >= s.len() {
        seq![s.subrange(from, s.len() as int)]
    } else {
        seq![s.subrange(from, end)] + split_from(s, sep, end + 1)
    }
}

/// [`find_char_from`] never moves backwards and never passes the end.
pub proof fn lemma_find_char_from_bounds(s: Seq<char>, c: char, from: int)
    ensures
        from < s.len() ==> from <= find_char_from(s, c, from) <= s.len(),
        from >= s.len() ==> find_char_from(s, c, from) == s.len(),
        find_char_from(s, c, from) < s.len() ==> s[find_char_from(s, c, from)] == c,
        forall|k: int| from <= k < find_char_from(s, c, from) ==> s[k] != c,
    decreases s.len() - from,
{
    if from < s.len() && s[from] != c {
        lemma_find_char_from_bounds(s, c, from + 1);
    }
}

/// Splitting always yields at least one piece.
pub proof fn lemma_split_nonempty(s: Seq<char>, sep: char)
    ensures
        split_char(s, sep).len() >= 1,
{
    lemma_find_char_from_bounds(s, sep, 0);
}

/// `str::split(sep)` over the whole of `s`.
pub open spec fn split_char(s: Seq<char>, sep: char) -> Seq<Seq<char>> {
    split_from(s, sep, 0)
}

/// `s` with every leading `c` removed.
pub open spec fn strip_start(s: Seq<char>, c: char) -> Seq<char>
    decreases s.len(),
{
    if s.len() == 0 {
        s
    } else if s[0] == c {
        strip_start(s.drop_first(), c)
    } else {
        s
    }
}

/// `s` with every trailing `c` removed.
pub open spec fn strip_end(s: Seq<char>, c: char) -> Seq<char>
    decreases s.len(),
{
    if s.len() == 0 {
        s
    } else if s.last() == c {
        strip_end(s.drop_last(), c)
    } else {
        s
    }
}

/// `str::trim_matches(c)`: every `c` removed from both ends.
pub open spec fn strip_both(s: Seq<char>, c: char) -> Seq<char> {
    strip_end(strip_start(s, c), c)
}

// ---------------------------------------------------------------------------
// Conversions
// ---------------------------------------------------------------------------

/// Collects the characters of `s`, in order.
pub fn chars_of(s: &str) -> (v: Vec<char>)
    ensures
        v@ == s@,
{
    let mut v: Vec<char> = Vec::new();
    for c in it: s.chars()
        invariant
            v@ == it.seq().take(it.index() as int),
    {
        v.push(c);
    }
    v
}

/// `String::push`: appends one character.
#[verifier::external_body]
pub(crate) fn push_char(s: &mut String, c: char)
    ensures
        final(s)@ == old(s)@.push(c),
{
    s.push(c);
}

/// Builds a `String` holding exactly the characters of `v`.
pub fn string_of(v: &[char]) -> (s: String)
    ensures
        s@ == v@,
{
    let mut s = String::new();
    let mut i: usize = 0;
    while i < v.len()
        invariant
            i <= v@.len(),
            s@ == v@.take(i as int),
        decreases v@.len() - i,
    {
        push_char(&mut s, v[i]);
        assert(v@.take(i + 1) == v@.take(i as int).push(v@[i as int]));
        i = i + 1;
    }
    assert(v@.take(v@.len() as int) == v@);
    s
}

/// An owned copy of `s`.
pub fn owned(s: &str) -> (r: String)
    ensures
        r@ == s@,
{
    s.to_owned()
}

/// Appends every character of `v` to `out`.
pub fn push_all(out: &mut Vec<char>, v: &[char])
    ensures
        final(out)@ == old(out)@ + v@,
{
    let mut i: usize = 0;
    while i < v.len()
        invariant
            i <= v@.len(),
            out@ == old(out)@ + v@.take(i as int),
        decreases v@.len() - i,
    {
        out.push(v[i]);
        assert(v@.take(i + 1) == v@.take(i as int).push(v@[i as int]));
        i = i + 1;
    }
    assert(v@.take(v@.len() as int) == v@);
}

/// Appends the characters of `s` to `out`.
pub fn push_str_chars(out: &mut Vec<char>, s: &str)
    ensures
        final(out)@ == old(out)@ + s@,
{
    let v = chars_of(s);
    push_all(out, v.as_slice());
}

/// Copies `v[start..end]`.
pub fn slice_chars(v: &[char], start: usize, end: usize) -> (r: Vec<char>)
    requires
        start <= end <= v@.len(),
    ensures
        r@ == v@.subrange(start as int, end as int),
{
    let mut r: Vec<char> = Vec::new();
    let mut i = start;
    while i < end
        invariant
            start <= i <= end <= v@.len(),
            r@ == v@.subrange(start as int, i as int),
        decreases end - i,
    {
        r.push(v[i]);
        assert(v@.subrange(start as int, i + 1) == v@.subrange(start as int, i as int).push(
            v@[i as int],
        ));
        i = i + 1;
    }
    r
}

// ---------------------------------------------------------------------------
// Tests on characters and sequences
// ---------------------------------------------------------------------------

/// `char::is_whitespace`.
pub fn is_whitespace(c: char) -> (r: bool)
    ensures
        r == is_ws(c),
{
    c == '\t' || c == '\n' || c == '\x0B' || c == '\x0C' || c == '\r' || c == ' ' || c == '\u{85}'
        || c == '\u{A0}' || c == '\u{1680}' || ('\u{2000}' <= c && c <= '\u{200A}') || c
        == '\u{2028}' || c == '\u{2029}' || c == '\u{202F}' || c == '\u{205F}' || c == '\u{3000}'
}

/// `char::to_ascii_lowercase`.
pub fn lower_char(c: char) -> (r: char)
    ensures
        r == ascii_lower(c),
{
    if 'A' <= c && c <= 'Z' {
        let u = c as u32;
        let b = (u + 32) as u8;
        let r = b as char;
        assert(r == ((c as u32) + 32) as char) by {
            assert((b as u32) == (c as u32) + 32);
        }
        r
    } else {
        c
    }
}

/// Every character of `v` folded to ASCII lowercase.
pub fn lower_chars(v: &[char]) -> (r: Vec<char>)
    ensures
        r@ == ascii_lower_seq(v@),
{
    let mut r: Vec<char> = Vec::new();
    let mut i: usize = 0;
    while i < v.len()
        invariant
            i <= v@.len(),
            r@.len() == i,
            forall|j: int| 0 <= j < i ==> r@[j] == ascii_lower(v@[j]),
        decreases v@.len() - i,
    {
        r.push(lower_char(v[i]));
        i = i + 1;
    }
    assert(r@ == ascii_lower_seq(v@));
    r
}

/// Whether `v` is ASCII throughout.
pub fn chars_all_ascii(v: &[char]) -> (r: bool)
    ensures
        r == all_ascii(v@),
{
    let mut i: usize = 0;
    while i < v.len()
        invariant
            i <= v@.len(),
            forall|j: int| 0 <= j < i ==> (v@[j] as u32) < 128,
        decreases v@.len() - i,
    {
        if (v[i] as u32) >= 128 {
            return false;
        }
        i = i + 1;
    }
    true
}

/// Whether `p` is a prefix of `s`.
pub fn starts_with_chars(s: &[char], p: &[char]) -> (r: bool)
    ensures
        r == is_prefix(p@, s@),
{
    if p.len() > s.len() {
        return false;
    }
    let mut i: usize = 0;
    while i < p.len()
        invariant
            p@.len() <= s@.len(),
            i <= p@.len(),
            forall|j: int| 0 <= j < i ==> s@[j] == p@[j],
        decreases p@.len() - i,
    {
        if s[i] != p[i] {
            assert(s@.subrange(0, p@.len() as int)[i as int] != p@[i as int]);
            return false;
        }
        i = i + 1;
    }
    assert(s@.subrange(0, p@.len() as int) == p@);
    true
}

/// Whether `p` is a suffix of `s`.
pub fn ends_with_chars(s: &[char], p: &[char]) -> (r: bool)
    ensures
        r == is_suffix(p@, s@),
{
    if p.len() > s.len() {
        return false;
    }
    let off = s.len() - p.len();
    let mut i: usize = 0;
    while i < p.len()
        invariant
            p@.len() <= s@.len(),
            off + p@.len() == s@.len(),
            i <= p@.len(),
            forall|j: int| 0 <= j < i ==> s@[off + j] == p@[j],
        decreases p@.len() - i,
    {
        assert(s@.len() == s.len());
        if s[off + i] != p[i] {
            assert(s@.subrange(off as int, s@.len() as int)[i as int] != p@[i as int]);
            return false;
        }
        i = i + 1;
    }
    assert(s@.subrange(off as int, s@.len() as int) == p@);
    true
}

/// Whether the string `p` is a prefix of the string `s`.
pub fn str_starts_with(s: &str, p: &str) -> (r: bool)
    ensures
        r == is_prefix(p@, s@),
{
    let sv = chars_of(s);
    let pv = chars_of(p);
    starts_with_chars(sv.as_slice(), pv.as_slice())
}

/// Whether two character sequences are equal.
pub fn chars_eq(a: &[char], b: &[char]) -> (r: bool)
    ensures
        r == (a@ == b@),
{
    if a.len() != b.len() {
        return false;
    }
    let r = starts_with_chars(a, b);
    assert(a@.subrange(0, b@.len() as int) =~= a@);
    r
}

/// Whether two strings hold the same characters.
pub fn str_eq(a: &str, b: &str) -> (r: bool)
    ensures
        r == (a@ == b@),
{
    let av = chars_of(a);
    let bv = chars_of(b);
    chars_eq(av.as_slice(), bv.as_slice())
}

/// Whether `n` occurs in `h` at position `i`.
pub fn occurs_at_exec(h: &[char], n: &[char], i: usize) -> (r: bool)
    ensures
        r == occurs_at(h@, n@, i as int),
{
    if i > h.len() || n.len() > h.len() - i {
        return false;
    }
    let mut j: usize = 0;
    while j < n.len()
        invariant
            i + n@.len() <= h@.len(),
            j <= n@.len(),
            forall|k: int| 0 <= k < j ==> h@[i + k] == n@[k],
        decreases n@.len() - j,
    {
        assert(h@.len() == h.len());
        assert(i + j < h@.len());
        if h[i + j] != n[j] {
            assert(h@.subrange(i as int, i + n@.len())[j as int] != n@[j as int]);
            return false;
        }
        j = j + 1;
    }
    assert(h@.subrange(i as int, i + n@.len()) == n@);
    true
}

/// Position of the first occurrence of `n` in `h`.
pub fn find_seq(h: &[char], n: &[char]) -> (r: Option<usize>)
    ensures
        match r {
            Some(i) => occurs_at(h@, n@, i as int) && forall|j: int|
                0 <= j < i ==> !occurs_at(h@, n@, j),
            None => !contains_seq(h@, n@),
        },
{
    if n.len() > h.len() {
        assert forall|i: int| !occurs_at(h@, n@, i) by {}
        return None;
    }
    let last = h.len() - n.len();
    let mut i: usize = 0;
    while i <= last
        invariant_except_break
            i <= last,
        invariant
            last == h@.len() - n@.len(),
            forall|j: int| 0 <= j < i ==> !occurs_at(h@, n@, j),
        ensures
            forall|j: int| 0 <= j <= last ==> !occurs_at(h@, n@, j),
        decreases last - i,
    {
        if occurs_at_exec(h, n, i) {
            return Some(i);
        }
        if i == last {
            break;
        }
        i = i + 1;
    }
    assert forall|j: int| !occurs_at(h@, n@, j) by {}
    None
}

/// Index of the first `c` in `v` at or after `from` (or `v.len()`).
pub fn find_char(v: &[char], c: char, from: usize) -> (r: usize)
    requires
        from <= v@.len(),
    ensures
        r == find_char_from(v@, c, from as int),
        from <= r <= v@.len(),
{
    let mut i = from;
    while i < v.len()
        invariant
            from <= i <= v@.len(),
            find_char_from(v@, c, from as int) == find_char_from(v@, c, i as int),
        decreases v@.len() - i,
    {
        if v[i] == c {
            return i;
        }
        i = i + 1;
    }
    i
}

/// Bounds of `v` with surrounding whitespace removed: `v[r.0..r.1]` is the
/// trimmed text.
pub fn trim_bounds(v: &[char]) -> (r: (usize, usize))
    ensures
        r.0 <= r.1 <= v@.len(),
        v@.subrange(r.0 as int, r.1 as int) == trim(v@),
        trim_start(v@) == v@.subrange(r.0 as int, v@.len() as int),
{
    let mut i: usize = 0;
    assert(v@.subrange(0, v@.len() as int) =~= v@);
    while i < v.len() && is_whitespace(v[i])
        invariant
            i <= v@.len(),
            trim_start(v@) == trim_start(v@.subrange(i as int, v@.len() as int)),
        decreases v@.len() - i,
    {
        assert(v@.subrange(i as int, v@.len() as int).drop_first() == v@.subrange(
            i + 1,
            v@.len() as int,
        ));
        i = i + 1;
    }
    let ghost rest = v@.subrange(i as int, v@.len() as int);
    assert(trim_start(rest) == rest);
    let mut j = v.len();
    while j > i && is_whitespace(v[j - 1])
        invariant
            i <= j <= v@.len(),
            trim_end(rest) == trim_end(v@.subrange(i as int, j as int)),
        decreases j,
    {
        assert(v@.subrange(i as int, j as int).drop_last() == v@.subrange(i as int, j - 1));
        j = j - 1;
    }
    (i, j)
}

/// `str::trim`, as characters.
pub fn trim_chars(v: &[char]) -> (r: Vec<char>)
    ensures
        r@ == trim(v@),
{
    let (a, b) = trim_bounds(v);
    slice_chars(v, a, b)
}

/// `str::trim`.
pub fn trim_str(s: &str) -> (r: String)
    ensures
        r@ == trim(s@),
{
    let v = chars_of(s);
    let t = trim_chars(v.as_slice());
    string_of(t.as_slice())
}

} // verus!

verus! {

/// Bounds of `v` with every leading and trailing `c` removed.
pub fn strip_bounds(v: &[char], c: char) -> (r: (usize, usize))
    ensures
        r.0 <= r.1 <= v@.len(),
        v@.subrange(r.0 as int, r.1 as int) == strip_both(v@, c),
        strip_start(v@, c) == v@.subrange(r.0 as int, v@.len() as int),
{
    let mut i: usize = 0;
    assert(v@.subrange(0, v@.len() as int) =~= v@);
    while i < v.len() && v[i] == c
        invariant
            i <= v@.len(),
            strip_start(v@, c) == strip_start(v@.subrange(i as int, v@.len() as int), c),
        decreases v@.len() - i,
    {
        assert(v@.subrange(i as int, v@.len() as int).drop_first() == v@.subrange(
            i + 1,
            v@.len() as int,
        ));
        i = i + 1;
    }
    let ghost rest = v@.subrange(i as int, v@.len() as int);
    assert(strip_start(rest, c) == rest);
    let mut j = v.len();
    while j > i && v[j - 1] == c
        invariant
            i <= j <= v@.len(),
            strip_end(rest, c) == strip_end(v@.subrange(i as int, j as int), c),
        decreases j,
    {
        assert(v@.subrange(i as int, j as int).drop_last() == v@.subrange(i as int, j - 1));
        j = j - 1;
    }
    (i, j)
}

/// Bounds of `v` with every trailing `c` removed: `v[..r]`.
pub fn strip_end_len(v: &[char], c: char) -> (r: usize)
    ensures
        r <= v@.len(),
        v@.subrange(0, r as int) == strip_end(v@, c),
{
    let mut j = v.len();
    assert(v@.subrange(0, v@.len() as int) =~= v@);
    while j > 0 && v[j - 1] == c
        invariant
            j <= v@.len(),
            strip_end(v@, c) == strip_end(v@.subrange(0, j as int), c),
        decreases j,
    {
        assert(v@.subrange(0, j as int).drop_last() == v@.subrange(0, j - 1));
        j = j - 1;
    }
    j
}

/// Length of `v` with its trailing whitespace removed.
pub fn trim_end_len(v: &[char]) -> (r: usize)
    ensures
        r <= v@.len(),
        v@.subrange(0, r as int) == trim_end(v@),
{
    let mut j = v.len();
    assert(v@.subrange(0, v@.len() as int) =~= v@);
    while j > 0 && is_whitespace(v[j - 1])
        invariant
            j <= v@.len(),
            trim_end(v@) == trim_end(v@.subrange(0, j as int)),
        decreases j,
    {
        assert(v@.subrange(0, j as int).drop_last() == v@.subrange(0, j - 1));
        j = j - 1;
    }
    j
}

} // verus!

verus! {

/// The non-empty pieces of `s` between `/` separators, from position `i`
/// on (`split('/')` with the empty pieces dropped).
pub open spec fn segs_from(s: Seq<char>, i: int) -> Seq<Seq<char>>
    decreases s.len() - i,
{
    if i >= s.len() || i < 0 {
        Seq::empty()
    } else if s[i] == '/' {
        segs_from(s, i + 1)
    } else {
        let e = find_char_from(s, '/', i);
        proof {
            lemma_find_char_from_bounds(s, '/', i);
        }
        seq![s.subrange(i, e)] + segs_from(s, e)
    }
}

/// The non-empty `/`-separated segments of `s`.
pub open spec fn path_segments(s: Seq<char>) -> Seq<Seq<char>> {
    segs_from(s, 0)
}

/// Splits `v` on `/`, dropping empty pieces.
pub fn segments_of(v: &[char]) -> (r: Vec<Vec<char>>)
    ensures
        r.deep_view() == path_segments(v@),
{
    let mut r: Vec<Vec<char>> = Vec::new();
    let mut i: usize = 0;
    while i < v.len()
        invariant
            i <= v@.len(),
            r.deep_view() + segs_from(v@, i as int) == path_segments(v@),
        decreases v@.len() - i,
    {
        if v[i] == '/' {
            i = i + 1;
        } else {
            let e = find_char(v, '/', i);
            proof {
                lemma_find_char_from_bounds(v@, '/', i as int);
            }
            let piece = slice_chars(v, i, e);
            let ghost before = r.deep_view();
            let ghost old_r = r@;
            r.push(piece);
            assert(r@ == old_r.push(piece));
            assert(piece.deep_view() =~= piece@);
            assert(r.deep_view() =~= before.push(v@.subrange(i as int, e as int)));
            assert(before + segs_from(v@, i as int) == before + (seq![v@.subrange(i as int, e as int)]
                + segs_from(v@, e as int)));
            assert(before + (seq![v@.subrange(i as int, e as int)] + segs_from(v@, e as int))
                == before.push(v@.subrange(i as int, e as int)) + segs_from(v@, e as int));
            i = e;
        }
    }
    assert(segs_from(v@, i as int) == Seq::<Seq<char>>::empty());
    assert(r.deep_view() + Seq::<Seq<char>>::empty() == r.deep_view());
    r
}

} // verus!

verus! {

/// Splits `v` on `sep`, keeping empty pieces (`str::split`).
pub fn split_chars(v: &[char], sep: char) -> (r: Vec<Vec<char>>)
    ensures
        r.deep_view() == split_char(v@, sep),
{
    let mut r: Vec<Vec<char>> = Vec::new();
    let mut i: usize = 0;
    loop
        invariant
            i <= v@.len(),
            r.deep_view() + split_from(v@, sep, i as int) == split_char(v@, sep),
        decreases v@.len() - i,
    {
        let e = find_char(v, sep, i);
        proof {
            lemma_find_char_from_bounds(v@, sep, i as int);
        }
        let piece = slice_chars(v, i, e);
        let ghost before = r.deep_view();
        let ghost old_r = r@;
        r.push(piece);
        assert(r@ == old_r.push(piece));
        assert(piece.deep_view() =~= piece@);
        assert(r.deep_view() =~= before.push(v@.subrange(i as int, e as int)));
        if e >= v.len() {
            assert(split_from(v@, sep, i as int) == seq![v@.subrange(i as int, v@.len() as int)]);
            assert(before + seq![v@.subrange(i as int, v@.len() as int)] == r.deep_view());
            return r;
        }
        assert(split_from(v@, sep, i as int) == seq![v@.subrange(i as int, e as int)] + split_from(
            v@,
            sep,
            e + 1,
        ));
        assert(before + (seq![v@.subrange(i as int, e as int)] + split_from(v@, sep, e + 1))
            == before.push(v@.subrange(i as int, e as int)) + split_from(v@, sep, e + 1));
        i = e + 1;
    }
}

/// The pieces joined with `sep` between them (`[T]::join`).
pub open spec fn join_with(pieces: Seq<Seq<char>>, sep: char) -> Seq<char>
    decreases pieces.len(),
{
    if pieces.len() == 0 {
        Seq::empty()
    } else if pieces.len() == 1 {
        pieces[0]
    } else {
        join_with(pieces.drop_last(), sep) + seq![sep] + pieces.last()
    }
}

/// Appends `pieces[from..]` joined with `sep` to `out`.
pub fn push_joined(out: &mut Vec<char>, pieces: &Vec<Vec<char>>, from: usize, sep: char)
    requires
        from <= pieces@.len(),
    ensures
        final(out)@ == old(out)@ + join_with(pieces.deep_view().subrange(from as int, pieces@.len() as int), sep),
{
    push_joined_range(out, pieces, from, pieces.len(), sep);
}

/// Appends `pieces[from..to]` joined with `sep` to `out`.
pub fn push_joined_range(out: &mut Vec<char>, pieces: &Vec<Vec<char>>, from: usize, to: usize, sep: char)
    requires
        from <= to <= pieces@.len(),
    ensures
        final(out)@ == old(out)@ + join_with(pieces.deep_view().subrange(from as int, to as int), sep),
{
    let ghost dv = pieces.deep_view();
    let mut i = from;
    while i < to
        invariant
            from <= i <= to,
            to <= pieces@.len(),
            dv == pieces.deep_view(),
            out@ == old(out)@ + join_with(dv.subrange(from as int, i as int), sep),
        decreases to - i,
    {
        let ghost prev = dv.subrange(from as int, i as int);
        let ghost next = dv.subrange(from as int, i + 1);
        assert(next.drop_last() == prev);
        assert(next.last() == pieces@[i as int]@);
        if i > from {
            out.push(sep);
        } else {
            assert(prev.len() == 0);
        }
        push_all(out, pieces[i].as_slice());
        i = i + 1;
    }
}

// ---------------------------------------------------------------------------
// Unicode conversions of std
// ---------------------------------------------------------------------------

/// The text `String::from_utf8_lossy` makes of `bytes`.
pub uninterp spec fn utf8_lossy(bytes: Seq<u8>) -> Seq<char>;

/// Calls `String::from_utf8_lossy`. The contract names the result and
/// states what its documentation promises: valid UTF-8 is decoded as is.
#[verifier::external_body]
pub(crate) fn lossy_utf8(bytes: &[u8]) -> (r: String)
    ensures
        r@ == utf8_lossy(bytes@),
        vstd::utf8::valid_utf8(bytes@) ==> r@ == vstd::utf8::decode_utf8(bytes@),
{
    String::from_utf8_lossy(bytes).into_owned()
}

/// The text `str::to_lowercase` makes of `s` (Unicode lowercase mapping).
pub uninterp spec fn unicode_lower(s: Seq<char>) -> Seq<char>;

/// Calls `str::to_lowercase`. The contract names the result and states the
/// mapping of ASCII text, which is ASCII lowercase.
#[verifier::external_body]
pub(crate) fn to_lowercase(s: &str) -> (r: String)
    ensures
        r@ == unicode_lower(s@),
        all_ascii(s@) ==> r@ == ascii_lower_seq(s@),
{
    s.to_lowercase()
}

/// Calls `std::str::from_utf8` and copies the text out: `Some` exactly for
/// valid UTF-8, holding the decoded characters.
#[verifier::external_body]
pub(crate) fn utf8_text(bytes: &[u8]) -> (r: Option<String>)
    ensures
        r is Some <==> vstd::utf8::valid_utf8(bytes@),
        r matches Some(s) ==> s@ == vstd::utf8::decode_utf8(bytes@),
{
    match std::str::from_utf8(bytes) {
        Ok(s) => Some(s.to_owned()),
        Err(_) => None,
    }
}

/// Calls `std::str::from_utf8` for its verdict only: whether `bytes` are
/// valid UTF-8.
#[verifier::external_body]
pub(crate) fn is_valid_utf8(bytes: &[u8]) -> (r: bool)
    ensures
        r == vstd::utf8::valid_utf8(bytes@),
{
    std::str::from_utf8(bytes).is_ok()
}

// ---------------------------------------------------------------------------
// Lines and words
// ---------------------------------------------------------------------------

/// `s` with one trailing `\r` removed.
pub open spec fn strip_cr(s: Seq<char>) -> Seq<char> {
    if s.len() > 0 && s.last() == '\r' {
        s.drop_last()
    } else {
        s
    }
}

/// The lines of `s` as `str::lines` yields them: split at `\n`, a final
/// empty piece dropped, and one `\r` removed before each `\n`.
pub open spec fn text_lines(s: Seq<char>) -> Seq<Seq<char>> {
    let ps = split_char(s, '\n');
    let n = ps.len();
    let body = if n > 0 && ps[n - 1].len() == 0 {
        ps.drop_last()
    } else {
        ps
    };
    Seq::new(body.len(), |i: int| if i < n - 1 { strip_cr(body[i]) } else { body[i] })
}

/// `str::lines`, as characters.
pub fn lines_of(v: &[char]) -> (r: Vec<Vec<char>>)
    ensures
        r.deep_view() == text_lines(v@),
{
    let pieces = split_chars(v, '\n');
    let ghost ps = split_char(v@, '\n');
    let n = pieces.len();
    let keep = if n > 0 && pieces[n - 1].len() == 0 {
        n - 1
    } else {
        n
    };
    let ghost body = if n > 0 && ps[n - 1].len() == 0 {
        ps.drop_last()
    } else {
        ps
    };
    assert(body.len() == keep);
    let mut out: Vec<Vec<char>> = Vec::new();
    let mut i: usize = 0;
    while i < keep
        invariant
            i <= keep,
            keep <= n,
            n == pieces@.len(),
            pieces.deep_view() == ps,
            ps == split_char(v@, '\n'),
            body.len() == keep,
            forall|k: int| 0 <= k < keep ==> body[k] == ps[k],
            out.deep_view() == text_lines(v@).take(i as int),
            text_lines(v@).len() == keep,
        decreases keep - i,
    {
        let piece = &pieces[i];
        assert(piece@ == ps[i as int]);
        let m = piece.len();
        let line = if i + 1 < n && m > 0 && piece[m - 1] == '\r' {
            slice_chars(piece.as_slice(), 0, m - 1)
        } else {
            slice_chars(piece.as_slice(), 0, m)
        };
        assert(line@ == text_lines(v@)[i as int]);
        let ghost before = out.deep_view();
        assert(line.deep_view() =~= line@);
        out.push(line);
        assert(out.deep_view() =~= before.push(text_lines(v@)[i as int]));
        assert(text_lines(v@).take(i + 1) == text_lines(v@).take(i as int).push(
            text_lines(v@)[i as int],
        ));
        i = i + 1;
    }
    assert(text_lines(v@).take(keep as int) == text_lines(v@));
    out
}

/// Index of the first non-whitespace character of `s` at or after `i`.
pub open spec fn skip_ws(s: Seq<char>, i: int) -> int
    decreases s.len() - i,
{
    if i >= s.len() {
        s.len() as int
    } else if is_ws(s[i]) {
        skip_ws(s, i + 1)
    } else {
        i
    }
}

/// Index of the first whitespace character of `s` at or after `i`.
pub open spec fn word_end(s: Seq<char>, i: int) -> int
    decreases s.len() - i,
{
    if i >= s.len() {
        s.len() as int
    } else if is_ws(s[i]) {
        i
    } else {
        word_end(s, i + 1)
    }
}

/// [`skip_ws`] and [`word_end`] never move backwards or past the end.
pub proof fn lemma_scan_bounds(s: Seq<char>, i: int)
    requires
        0 <= i,
    ensures
        i <= s.len() ==> i <= skip_ws(s, i) <= s.len(),
        i <= s.len() ==> i <= word_end(s, i) <= s.len(),
        skip_ws(s, i) < s.len() ==> !is_ws(s[skip_ws(s, i)]),
        i < s.len() && !is_ws(s[i]) ==> word_end(s, i) > i,
        forall|k: int| i <= k < word_end(s, i) ==> !is_ws(#[trigger] s[k]),
    decreases s.len() - i,
{
    if i < s.len() {
        lemma_scan_bounds(s, i + 1);
    }
}

/// The whitespace-separated words of `s` from position `i` on
/// (`str::split_whitespace`).
pub open spec fn words_from(s: Seq<char>, i: int) -> Seq<Seq<char>>
    decreases s.len() - i,
{
    if i < 0 || i >= s.len() {
        Seq::empty()
    } else {
        let a = skip_ws(s, i);
        proof {
            lemma_scan_bounds(s, i);
        }
        if a >= s.len() {
            Seq::empty()
        } else {
            let b = word_end(s, a);
            proof {
                lemma_scan_bounds(s, a);
            }
            seq![s.subrange(a, b)] + words_from(s, b)
        }
    }
}

/// `str::split_whitespace`, as characters.
pub fn words_of(v: &[char]) -> (r: Vec<Vec<char>>)
    ensures
        r.deep_view() == words_from(v@, 0),
{
    let mut out: Vec<Vec<char>> = Vec::new();
    let mut i: usize = 0;
    while i < v.len()
        invariant
            i <= v@.len(),
            out.deep_view() + words_from(v@, i as int) == words_from(v@, 0),
        decreases v@.len() - i,
    {
        proof {
            lemma_scan_bounds(v@, i as int);
        }
        let mut a = i;
        while a < v.len() && is_whitespace(v[a])
            invariant
                i <= a <= v@.len(),
                skip_ws(v@, i as int) == skip_ws(v@, a as int),
            decreases v@.len() - a,
        {
            a = a + 1;
        }
        if a >= v.len() {
            assert(words_from(v@, i as int) == Seq::<Seq<char>>::empty());
            assert(out.deep_view() + Seq::<Seq<char>>::empty() == out.deep_view());
            i = v.len();
        } else {
            proof {
                lemma_scan_bounds(v@, a as int);
            }
            let mut b = a;
            while b < v.len() && !is_whitespace(v[b])
                invariant
                    a <= b <= v@.len(),
                    word_end(v@, a as int) == word_end(v@, b as int),
                decreases v@.len() - b,
            {
                b = b + 1;
            }
            let w = slice_chars(v, a, b);
            let ghost before = out.deep_view();
            assert(w.deep_view() =~= w@);
            out.push(w);
            assert(out.deep_view() =~= before.push(v@.subrange(a as int, b as int)));
            assert(before + words_from(v@, i as int) == before + (seq![v@.subrange(a as int, b as int)]
                + words_from(v@, b as int)));
            assert(before + (seq![v@.subrange(a as int, b as int)] + words_from(v@, b as int))
                =~= before.push(v@.subrange(a as int, b as int)) + words_from(v@, b as int));
            i = b;
        }
    }
    assert(words_from(v@, i as int) == Seq::<Seq<char>>::empty());
    assert(out.deep_view() + Seq::<Seq<char>>::empty() == out.deep_view());
    out
}

} // verus!

verus! {

// ---------------------------------------------------------------------------
// Facts about searching, splitting and joining
// ---------------------------------------------------------------------------

/// `c` occurs nowhere in `s`.
pub open spec fn lacks(s: Seq<char>, c: char) -> bool {
    forall|i: int| 0 <= i < s.len() ==> s[i] != c
}

/// The search for `c` from `from` stops at `k` when nothing before `k` is
/// `c` and `k` is `c` or the end.
pub proof fn lemma_find_char_is(s: Seq<char>, c: char, from: int, k: int)
    requires
        0 <= from <= k <= s.len(),
        forall|j: int| from <= j < k ==> s[j] != c,
        k == s.len() || s[k] == c,
    ensures
        find_char_from(s, c, from) == k,
    decreases k - from,
{
    if from < k {
        lemma_find_char_is(s, c, from + 1, k);
    }
}

/// Path segments are non-empty, hold no `/`, and hold no character that
/// the path lacks.
pub proof fn lemma_segs_shape(s: Seq<char>, i: int, c: char)
    requires
        lacks(s, c),
    ensures
        forall|j: int|
            0 <= j < segs_from(s, i).len() ==> {
                &&& (#[trigger] segs_from(s, i)[j]).len() > 0
                &&& lacks(segs_from(s, i)[j], '/')
                &&& lacks(segs_from(s, i)[j], c)
            },
    decreases s.len() - i,
{
    if i >= s.len() || i < 0 {
    } else if s[i] == '/' {
        lemma_segs_shape(s, i + 1, c);
        assert(segs_from(s, i) == segs_from(s, i + 1));
    } else {
        let e = find_char_from(s, '/', i);
        lemma_find_char_from_bounds(s, '/', i);
        assert(e > i);
        lemma_segs_shape(s, e, c);
        let all = segs_from(s, i);
        assert(all == seq![s.subrange(i, e)] + segs_from(s, e));
        assert forall|j: int| 0 <= j < all.len() implies {
            &&& (#[trigger] all[j]).len() > 0
            &&& lacks(all[j], '/')
            &&& lacks(all[j], c)
        } by {
            if j > 0 {
                assert(all[j] == segs_from(s, e)[j - 1]);
            } else {
                let w = s.subrange(i, e);
                assert(all[j] == w);
                assert forall|k: int| 0 <= k < w.len() implies w[k] != '/' && w[k] != c by {
                    assert(w[k] == s[i + k]);
                }
            }
        }
    }
}

/// Joining one more piece in front adds it and a separator.
pub proof fn lemma_join_front(a: Seq<char>, rest: Seq<Seq<char>>, sep: char)
    requires
        rest.len() >= 1,
    ensures
        join_with(seq![a] + rest, sep) == a + seq![sep] + join_with(rest, sep),
    decreases rest.len(),
{
    let all = seq![a] + rest;
    if rest.len() == 1 {
        assert(all.drop_last() =~= seq![a]);
        assert(all.last() == rest[0]);
        assert(join_with(seq![a], sep) == a);
        assert(join_with(rest, sep) == rest[0]);
        assert(join_with(all, sep) =~= a + seq![sep] + join_with(rest, sep));
    } else {
        lemma_join_front(a, rest.drop_last(), sep);
        assert(all.drop_last() =~= seq![a] + rest.drop_last());
        assert(all.last() == rest.last());
        assert(join_with(all, sep) =~= a + seq![sep] + join_with(rest, sep));
    }
}

/// Pieces that lack `c`, joined by another separator, lack `c`.
pub proof fn lemma_join_lacks(pieces: Seq<Seq<char>>, sep: char, c: char)
    requires
        sep != c,
        forall|j: int| 0 <= j < pieces.len() ==> lacks(#[trigger] pieces[j], c),
    ensures
        lacks(join_with(pieces, sep), c),
    decreases pieces.len(),
{
    if pieces.len() == 1 {
        assert(lacks(pieces[0], c));
    } else if pieces.len() > 1 {
        lemma_join_lacks(pieces.drop_last(), sep, c);
        let a = join_with(pieces.drop_last(), sep);
        let b = pieces.last();
        assert(lacks(pieces[pieces.len() - 1], c));
        let whole = a + seq![sep] + b;
        assert forall|i: int| 0 <= i < whole.len() implies whole[i] != c by {
            if i < a.len() {
                assert(whole[i] == a[i]);
            } else if i > a.len() {
                assert(whole[i] == b[i - a.len() - 1]);
            }
        }
    }
}

/// `/` followed by non-empty pieces without `/`, joined by `/`, splits back
/// into those pieces.
pub proof fn lemma_segs_of_join(s: Seq<char>, i: int, ss: Seq<Seq<char>>)
    requires
        0 <= i <= s.len(),
        ss.len() >= 1,
        s.subrange(i, s.len() as int) == seq!['/'] + join_with(ss, '/'),
        forall|j: int| 0 <= j < ss.len() ==> (#[trigger] ss[j]).len() > 0 && lacks(ss[j], '/'),
    ensures
        segs_from(s, i) == ss,
    decreases ss.len(),
{
    let u = s.subrange(i, s.len() as int);
    let w = ss[0];
    let tail = ss.drop_first();
    let e = i + 1 + w.len();
    assert(w.len() > 0 && lacks(w, '/'));
    if ss.len() == 1 {
        assert(u == seq!['/'] + w);
    } else {
        assert(ss =~= seq![w] + tail);
        lemma_join_front(w, tail, '/');
        assert(u =~= seq!['/'] + w + seq!['/'] + join_with(tail, '/'));
    }
    assert(s[i] == u[0]);
    assert forall|k: int| i + 1 <= k < e implies s[k] != '/' by {
        assert(s[k] == u[k - i]);
        assert(u[k - i] == w[k - i - 1]);
    }
    if ss.len() > 1 {
        assert(s[e] == u[e - i]);
    }
    lemma_find_char_is(s, '/', i + 1, e);
    assert(s.subrange(i + 1, e) =~= w) by {
        assert forall|k: int| 0 <= k < w.len() implies s.subrange(i + 1, e)[k] == w[k] by {
            assert(s[i + 1 + k] == u[1 + k]);
        }
    }
    assert(s[i + 1] == u[1]);
    assert(segs_from(s, i) == segs_from(s, i + 1));
    assert(segs_from(s, i + 1) == seq![s.subrange(i + 1, e)] + segs_from(s, e));
    if ss.len() == 1 {
        assert(segs_from(s, e) == Seq::<Seq<char>>::empty());
        assert(ss =~= seq![w]);
    } else {
        assert(s.subrange(e, s.len() as int) =~= seq!['/'] + join_with(tail, '/')) by {
            assert forall|k: int| 0 <= k < s.len() - e implies s.subrange(e, s.len() as int)[k] == (
            seq!['/'] + join_with(tail, '/'))[k] by {
                assert(s[e + k] == u[e - i + k]);
            }
        }
        assert forall|j: int| 0 <= j < tail.len() implies (#[trigger] tail[j]).len() > 0 && lacks(
            tail[j],
            '/',
        ) by {
            assert(tail[j] == ss[j + 1]);
        }
        lemma_segs_of_join(s, e, tail);
        assert(ss =~= seq![w] + tail);
    }
}

/// The pieces of a split hold no separator.
pub proof fn lemma_split_pieces_lack(s: Seq<char>, sep: char, from: int)
    requires
        0 <= from <= s.len(),
    ensures
        forall|j: int|
            0 <= j < split_from(s, sep, from).len() ==> lacks(#[trigger] split_from(s, sep, from)[j], sep),
    decreases s.len() - from,
{
    let end = find_char_from(s, sep, from);
    lemma_find_char_from_bounds(s, sep, from);
    let all = split_from(s, sep, from);
    let first = s.subrange(from, end);
    assert forall|k: int| 0 <= k < first.len() implies first[k] != sep by {
        assert(first[k] == s[from + k]);
    }
    if end < s.len() {
        lemma_split_pieces_lack(s, sep, end + 1);
        assert(all == seq![first] + split_from(s, sep, end + 1));
        assert forall|j: int| 0 <= j < all.len() implies lacks(#[trigger] all[j], sep) by {
            if j > 0 {
                assert(all[j] == split_from(s, sep, end + 1)[j - 1]);
            }
        }
    } else {
        assert(first =~= s.subrange(from, s.len() as int));
        assert(all == seq![first]);
    }
}

} // verus!
