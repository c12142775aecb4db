//! The Atom feed: the external base URL reconstructed from proxy headers,
//! URL-safe repository segments, and the hand-built document with every
//! text escaped. Entry ids are `urn:sha1:` IRIs, stable whatever host
//! served the request.
use vstd::prelude::*;

use crate::escape::{push_escaped, xml_escaped};
use crate::repo::commits::CommitInfo;
use crate::repo::RepoInfo;
use crate::text::{chars_of, find_char_from, push_str_chars, slice_chars, string_of, trim, trim_bounds};

verus! {

/// Commits shown in the feed.
pub const FEED_ENTRY_LIMIT: usize = 20;

/// `<updated>` for a commit whose timestamp is unrepresentable.
pub const EPOCH: &'static str = "1970-01-01T00:00:00Z";

/// The first comma-separated element of a header value, trimmed; none when
/// empty.
pub open spec fn header_first(v: Seq<char>) -> Option<Seq<char>> {
    let first = trim(v.subrange(0, find_char_from(v, ',', 0)));
    if first.len() == 0 {
        None
    } else {
        Some(first)
    }
}

/// The first element of a header value (see [`header_first`]); `raw` is
/// the header's value when present and visible ASCII.
pub fn header_value(raw: Option<&str>) -> (r: Option<String>)
    ensures
        match raw {
            Some(v) => match header_first(v@) {
                Some(f) => r matches Some(s) && s@ == f,
                None => r is None,
            },
            None => r is None,
        },
{
    match raw {
        Some(v) => {
            let c = chars_of(v);
            let end = crate::text::find_char(c.as_slice(), ',', 0);
            let first = slice_chars(c.as_slice(), 0, end);
            let (a, b) = trim_bounds(first.as_slice());
            if a == b {
                None
            } else {
                Some(string_of(slice_chars(first.as_slice(), a, b).as_slice()))
            }
        },
        None => None,
    }
}

/// The view of an optional header element, with a default.
pub open spec fn or_default(v: Option<Seq<char>>, d: Seq<char>) -> Seq<char> {
    match v {
        Some(x) => x,
        None => d,
    }
}

/// The external base URL: `X-Forwarded-Proto` (else `http`), `://`, and
/// `X-Forwarded-Host` (else `Host`, else `localhost`).
pub open spec fn base_url_text(
    proto: Option<Seq<char>>,
    forwarded_host: Option<Seq<char>>,
    host: Option<Seq<char>>,
) -> Seq<char> {
    let scheme = match proto {
        Some(p) => or_default(header_first(p), "http"@),
        None => "http"@,
    };
    let fh = match forwarded_host {
        Some(h) => header_first(h),
        None => None,
    };
    let h = match host {
        Some(h) => header_first(h),
        None => None,
    };
    let name = match fh {
        Some(x) => x,
        None => or_default(h, "localhost"@),
    };
    scheme + "://"@ + name
}

/// The optional text of a header value.
pub open spec fn opt_text(o: Option<&str>) -> Option<Seq<char>> {
    match o {
        Some(s) => Some(s@),
        None => None,
    }
}

/// Reconstructs the external base URL from the request's headers (see
/// [`base_url_text`]); TLS ends at the reverse proxy, so the forwarded
/// headers are authoritative when present.
pub fn base_url(proto: Option<&str>, forwarded_host: Option<&str>, host: Option<&str>) -> (r: String)
    ensures
        r@ == base_url_text(opt_text(proto), opt_text(forwarded_host), opt_text(host)),
{
    let scheme = match header_value(proto) {
        Some(p) => p,
        None => crate::text::owned("http"),
    };
    let name = match header_value(forwarded_host) {
        Some(x) => x,
        None => match header_value(host) {
            Some(x) => x,
            None => crate::text::owned("localhost"),
        },
    };
    let mut out: Vec<char> = Vec::new();
    push_str_chars(&mut out, scheme.as_str());
    push_str_chars(&mut out, "://");
    push_str_chars(&mut out, name.as_str());
    string_of(out.as_slice())
}

// ---------------------------------------------------------------------------
// URL segments
// ---------------------------------------------------------------------------

/// A byte that stays as is in a URL path segment: ASCII alphanumerics and
/// `-._~`.
pub open spec fn unreserved(b: u8) -> bool {
    (65 <= b <= 90) || (97 <= b <= 122) || (48 <= b <= 57) || b == 45 || b == 46 || b == 95 || b
        == 126
}

/// The uppercase hex digit of `n < 16`.
pub open spec fn upper_hex(n: int) -> char {
    if n < 10 {
        (('0' as int) + n) as char
    } else {
        (('A' as int) + n - 10) as char
    }
}

/// Percent-encoding of bytes for a path segment: unreserved bytes as their
/// character, every other byte as `%XX` in uppercase hex.
pub open spec fn segment_encoded(b: Seq<u8>) -> Seq<char>
    decreases b.len(),
{
    if b.len() == 0 {
        Seq::empty()
    } else {
        let x = b.last();
        segment_encoded(b.drop_last()) + if unreserved(x) {
            seq![x as char]
        } else {
            seq!['%', upper_hex((x / 16) as int), upper_hex((x % 16) as int)]
        }
    }
}

/// The uppercase hex digit of `n < 16`.
fn upper_hex_digit(n: u8) -> (c: char)
    requires
        n < 16,
    ensures
        c == upper_hex(n as int),
{
    if n < 10 {
        (48u8 + n) as char
    } else {
        (55u8 + n) as char
    }
}

/// Percent-encodes a repository name for use as a URL path segment (its
/// UTF-8 bytes, see [`segment_encoded`]).
pub fn encode_segment(value: &str) -> (r: String)
    ensures
        r@ == segment_encoded(vstd::utf8::encode_utf8(value@)),
{
    let bytes = value.as_bytes();
    let mut out: Vec<char> = Vec::new();
    let mut i: usize = 0;
    assert(bytes@.take(0) == Seq::<u8>::empty());
    while i < bytes.len()
        invariant
            i <= bytes@.len(),
            bytes@ == vstd::utf8::encode_utf8(value@),
            out@ == segment_encoded(bytes@.take(i as int)),
        decreases bytes@.len() - i,
    {
        let b = bytes[i];
        assert(bytes@.take(i + 1).drop_last() == bytes@.take(i as int));
        assert(bytes@.take(i + 1).last() == b);
        if (65 <= b && b <= 90) || (97 <= b && b <= 122) || (48 <= b && b <= 57) || b == 45 || b == 46
            || b == 95 || b == 126 {
            out.push(b as char);
        } else {
            let ghost before = out@;
            out.push('%');
            out.push(upper_hex_digit(b / 16));
            out.push(upper_hex_digit(b % 16));
            assert(out@ =~= before + seq!['%', upper_hex((b / 16) as int), upper_hex((b % 16) as int)]);
        }
        i = i + 1;
    }
    assert(bytes@.take(i as int) == bytes@);
    string_of(out.as_slice())
}

// ---------------------------------------------------------------------------
// The document
// ---------------------------------------------------------------------------

/// An optional string's text, with a default.
pub open spec fn text_or(o: Option<String>, d: Seq<char>) -> Seq<char> {
    match o {
        Some(s) => s@,
        None => d,
    }
}

/// One `<entry>` of the feed: title (the summary, else `(no message)`), id
/// `urn:sha1:<sha>`, a link to the web UI's commit page, the author date
/// (else the epoch), and the author's name; the email is never shown.
pub open spec fn entry_text(base: Seq<char>, seg: Seq<char>, c: CommitInfo) -> Seq<char> {
    entry_head(c) + entry_link(base, seg, c) + entry_tail(c)
}

/// The opening of an entry: its title and id.
pub open spec fn entry_head(c: CommitInfo) -> Seq<char> {
    "  <entry>\n"@ + "    <title>"@ + xml_escaped(text_or(c.summary, "(no message)"@))
        + "</title>\n"@ + "    <id>urn:sha1:"@ + c.sha@ + "</id>\n"@
}

/// An entry's link to the web UI's commit page.
pub open spec fn entry_link(base: Seq<char>, seg: Seq<char>, c: CommitInfo) -> Seq<char> {
    "    <link rel=\"alternate\" href=\""@ + xml_escaped(base + "/"@ + seg + "/commit/"@ + c.sha@)
        + "\"/>\n"@
}

/// The close of an entry: its date and author name.
pub open spec fn entry_tail(c: CommitInfo) -> Seq<char> {
    "    <updated>"@ + xml_escaped(text_or(c.authored_at, EPOCH@)) + "</updated>\n"@
        + "    <author><name>"@ + xml_escaped(c.author.name@) + "</name></author>\n"@
        + "  </entry>\n"@
}

/// The entries of `commits`, in order.
pub open spec fn entries_text(base: Seq<char>, seg: Seq<char>, commits: Seq<CommitInfo>) -> Seq<char>
    decreases commits.len(),
{
    if commits.len() == 0 {
        Seq::empty()
    } else {
        entries_text(base, seg, commits.drop_last()) + entry_text(base, seg, commits.last())
    }
}

/// The `<updated>` of the feed: the first commit's author date, else the
/// epoch.
pub open spec fn feed_updated(commits: Seq<CommitInfo>) -> Seq<char> {
    if commits.len() > 0 && commits[0].authored_at is Some {
        commits[0].authored_at.unwrap()@
    } else {
        EPOCH@
    }
}

/// The feed's subtitle line, present only with a description.
pub open spec fn feed_subtitle(info: RepoInfo) -> Seq<char> {
    match info.description {
        Some(d) => "  <subtitle>"@ + xml_escaped(d@) + "</subtitle>\n"@,
        None => Seq::empty(),
    }
}

/// The whole feed document. Its id and self link are the API route of the
/// feed itself; the subtitle appears only with a description.
pub open spec fn feed_text(base: Seq<char>, name: Seq<char>, info: RepoInfo, commits: Seq<CommitInfo>) -> Seq<char> {
    let seg = segment_encoded(vstd::utf8::encode_utf8(name));
    let self_url = base + "/api/v1/repos/"@ + seg + "/feed.atom"@;
    let subtitle = feed_subtitle(info);
    "<?xml version=\"1.0\" encoding=\"utf-8\"?>\n"@ + "<feed xmlns=\"http://www.w3.org/2005/Atom\">\n"@
        + "  <title>"@ + xml_escaped(name) + "</title>\n"@ + subtitle + "  <id>"@ + xml_escaped(
        self_url,
    ) + "</id>\n"@ + "  <link rel=\"self\" href=\""@ + xml_escaped(self_url) + "\"/>\n"@
        + "  <updated>"@ + xml_escaped(feed_updated(commits)) + "</updated>\n"@ + entries_text(
        base,
        seg,
        commits,
    ) + "</feed>\n"@
}

/// Appends the escaped text of `s`.
fn push_escaped_str(out: &mut Vec<char>, s: &str)
    ensures
        final(out)@ == old(out)@ + xml_escaped(s@),
{
    let v = chars_of(s);
    push_escaped(out, v.as_slice());
}

/// Appends the opening of an entry (see [`entry_head`]).
fn render_entry_head(out: &mut Vec<char>, commit: &CommitInfo)
    ensures
        final(out)@ == old(out)@ + entry_head(*commit),
{
    let ghost start = out@;
    push_str_chars(out, "  <entry>\n");
    push_str_chars(out, "    <title>");
    match &commit.summary {
        Some(t) => push_escaped_str(out, t.as_str()),
        None => push_escaped_str(out, "(no message)"),
    }
    push_str_chars(out, "</title>\n");
    push_str_chars(out, "    <id>urn:sha1:");
    push_str_chars(out, commit.sha.as_str());
    push_str_chars(out, "</id>\n");
    assert(out@ =~= start + entry_head(*commit));
}

/// Appends an entry's link (see [`entry_link`]).
fn render_entry_link(out: &mut Vec<char>, base: &str, seg: &str, commit: &CommitInfo)
    ensures
        final(out)@ == old(out)@ + entry_link(base@, seg@, *commit),
{
    let ghost start = out@;
    push_str_chars(out, "    <link rel=\"alternate\" href=\"");
    let mut url: Vec<char> = Vec::new();
    push_str_chars(&mut url, base);
    push_str_chars(&mut url, "/");
    push_str_chars(&mut url, seg);
    push_str_chars(&mut url, "/commit/");
    push_str_chars(&mut url, commit.sha.as_str());
    push_escaped(out, url.as_slice());
    push_str_chars(out, "\"/>\n");
    assert(out@ =~= start + entry_link(base@, seg@, *commit));
}

/// Appends the close of an entry (see [`entry_tail`]).
fn render_entry_tail(out: &mut Vec<char>, commit: &CommitInfo)
    ensures
        final(out)@ == old(out)@ + entry_tail(*commit),
{
    let ghost start = out@;
    push_str_chars(out, "    <updated>");
    match &commit.authored_at {
        Some(t) => push_escaped_str(out, t.as_str()),
        None => push_escaped_str(out, EPOCH),
    }
    push_str_chars(out, "</updated>\n");
    push_str_chars(out, "    <author><name>");
    push_escaped_str(out, commit.author.name.as_str());
    push_str_chars(out, "</name></author>\n");
    push_str_chars(out, "  </entry>\n");
    assert(out@ =~= start + entry_tail(*commit));
}

/// Appends one entry of the feed (see [`entry_text`]).
fn render_entry(out: &mut Vec<char>, base: &str, seg: &str, commit: &CommitInfo)
    ensures
        final(out)@ == old(out)@ + entry_text(base@, seg@, *commit),
{
    let ghost start = out@;
    render_entry_head(out, commit);
    render_entry_link(out, base, seg, commit);
    render_entry_tail(out, commit);
    assert(out@ =~= start + entry_text(base@, seg@, *commit));
}

/// Renders the feed of repository `name` (see [`feed_text`]).
pub fn render_feed(base: &str, name: &str, info: &RepoInfo, commits: &[CommitInfo]) -> (r: String)
    ensures
        r@ == feed_text(base@, name@, *info, commits@),
{
    let seg = encode_segment(name);
    let mut self_url: Vec<char> = Vec::new();
    push_str_chars(&mut self_url, base);
    push_str_chars(&mut self_url, "/api/v1/repos/");
    push_str_chars(&mut self_url, seg.as_str());
    push_str_chars(&mut self_url, "/feed.atom");
    let mut out: Vec<char> = Vec::new();
    push_str_chars(&mut out, "<?xml version=\"1.0\" encoding=\"utf-8\"?>\n");
    push_str_chars(&mut out, "<feed xmlns=\"http://www.w3.org/2005/Atom\">\n");
    push_str_chars(&mut out, "  <title>");
    push_escaped_str(&mut out, name);
    push_str_chars(&mut out, "</title>\n");
    let ghost before_sub = out@;
    match &info.description {
        Some(d) => {
            push_str_chars(&mut out, "  <subtitle>");
            push_escaped_str(&mut out, d.as_str());
            push_str_chars(&mut out, "</subtitle>\n");
        },
        None => {},
    }
    let ghost subtitle = feed_subtitle(*info);
    assert(out@ =~= before_sub + subtitle);
    push_str_chars(&mut out, "  <id>");
    push_escaped(&mut out, self_url.as_slice());
    push_str_chars(&mut out, "</id>\n");
    push_str_chars(&mut out, "  <link rel=\"self\" href=\"");
    push_escaped(&mut out, self_url.as_slice());
    push_str_chars(&mut out, "\"/>\n");
    push_str_chars(&mut out, "  <updated>");
    if commits.len() > 0 {
        match &commits[0].authored_at {
            Some(t) => push_escaped_str(&mut out, t.as_str()),
            None => push_escaped_str(&mut out, EPOCH),
        }
    } else {
        push_escaped_str(&mut out, EPOCH);
    }
    push_str_chars(&mut out, "</updated>\n");
    let ghost head = out@;
    let mut i: usize = 0;
    assert(commits@.take(0) == Seq::<CommitInfo>::empty());
    while i < commits.len()
        invariant
            i <= commits@.len(),
            out@ == head + entries_text(base@, seg@, commits@.take(i as int)),
        decreases commits@.len() - i,
    {
        assert(commits@.take(i + 1).drop_last() == commits@.take(i as int));
        assert(commits@.take(i + 1).last() == commits@[i as int]);
        render_entry(&mut out, base, seg.as_str(), &commits[i]);
        i = i + 1;
    }
    assert(commits@.take(i as int) == commits@);
    push_str_chars(&mut out, "</feed>\n");
    assert(out@ =~= feed_text(base@, name@, *info, commits@));
    string_of(out.as_slice())
}

} // verus!
