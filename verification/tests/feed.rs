use axgit::escape::xml_escape;
use axgit::handlers::feed::{base_url, encode_segment, header_value, render_feed, EPOCH};
use axgit::repo::commits::{CommitAuthor, CommitInfo};
use axgit::repo::RepoInfo;

fn bare_info(name: &str) -> RepoInfo {
    RepoInfo {
        name: name.to_owned(),
        section: None,
        owner: None,
        description: None,
        homepage: None,
        default_branch: None,
        last_modified: None,
    }
}

fn commit(sha: &str, summary: Option<&str>, authored_at: Option<&str>) -> CommitInfo {
    CommitInfo {
        sha: sha.to_owned(),
        summary: summary.map(str::to_owned),
        body: None,
        author: CommitAuthor { name: "A <b>".to_owned(), email_hash: "h".to_owned() },
        authored_at: authored_at.map(str::to_owned),
        parents: Vec::new(),
        renamed_from: None,
        stat: None,
    }
}

#[test]
fn escape_xml_escape_should_escape_all_five_specials() {
    assert_eq!(xml_escape(r#"<b> & "it's""#), "&lt;b&gt; &amp; &quot;it&apos;s&quot;");
    assert_eq!(xml_escape("plain"), "plain");
}

#[test]
fn feed_xml_escape_should_escape_all_five_specials() {
    assert_eq!(xml_escape(r#"<b> & "it's""#), "&lt;b&gt; &amp; &quot;it&apos;s&quot;");
    assert_eq!(xml_escape("plain"), "plain");
}

#[test]
fn encode_segment_should_percent_encode_reserved_bytes() {
    assert_eq!(encode_segment("git-compose"), "git-compose");
    assert_eq!(encode_segment("my repo"), "my%20repo");
    assert_eq!(encode_segment("a/b"), "a%2Fb");
    assert_eq!(encode_segment("café"), "caf%C3%A9");
}

#[test]
fn base_url_should_prefer_forwarded_headers() {
    assert_eq!(base_url(None, None, None), "http://localhost");
    assert_eq!(base_url(None, None, Some("direct.example")), "http://direct.example");
    assert_eq!(
        base_url(Some("https, http"), Some("git.example.com"), Some("direct.example")),
        "https://git.example.com"
    );
}

#[test]
fn header_value_should_take_the_first_trimmed_element() {
    assert_eq!(header_value(Some(" a , b")), Some("a".to_owned()));
    assert_eq!(header_value(Some(" , b")), None);
    assert_eq!(header_value(None), None);
    assert_eq!(base_url(Some(""), Some(" "), None), "http://localhost");
}

#[test]
fn render_feed_should_emit_entryless_feed_for_empty_history() {
    let info = bare_info("empty");
    let xml = render_feed("http://localhost", "empty", &info, &[]);
    assert!(xml.contains("<feed xmlns=\"http://www.w3.org/2005/Atom\">"));
    assert!(xml.contains(&format!("<updated>{EPOCH}</updated>")));
    assert!(!xml.contains("<entry>"));
    assert!(!xml.contains("<subtitle>"));
}

#[test]
fn render_feed_should_write_the_whole_document() {
    let mut info = bare_info("my repo");
    info.description = Some("a & b".to_owned());
    let commits = vec![
        commit("abc", Some("fix <x>"), Some("2024-01-02T03:04:05Z")),
        commit("def", None, None),
    ];
    let xml = render_feed("https://h", "my repo", &info, &commits);
    let expected = [
        "<?xml version=\"1.0\" encoding=\"utf-8\"?>\n",
        "<feed xmlns=\"http://www.w3.org/2005/Atom\">\n",
        "  <title>my repo</title>\n",
        "  <subtitle>a &amp; b</subtitle>\n",
        "  <id>https://h/api/v1/repos/my%20repo/feed.atom</id>\n",
        "  <link rel=\"self\" href=\"https://h/api/v1/repos/my%20repo/feed.atom\"/>\n",
        "  <updated>2024-01-02T03:04:05Z</updated>\n",
        "  <entry>\n",
        "    <title>fix &lt;x&gt;</title>\n",
        "    <id>urn:sha1:abc</id>\n",
        "    <link rel=\"alternate\" href=\"https://h/my%20repo/commit/abc\"/>\n",
        "    <updated>2024-01-02T03:04:05Z</updated>\n",
        "    <author><name>A &lt;b&gt;</name></author>\n",
        "  </entry>\n",
        "  <entry>\n",
        "    <title>(no message)</title>\n",
        "    <id>urn:sha1:def</id>\n",
        "    <link rel=\"alternate\" href=\"https://h/my%20repo/commit/def\"/>\n",
        "    <updated>1970-01-01T00:00:00Z</updated>\n",
        "    <author><name>A &lt;b&gt;</name></author>\n",
        "  </entry>\n",
        "</feed>\n",
    ]
    .concat();
    assert_eq!(xml, expected);
}
