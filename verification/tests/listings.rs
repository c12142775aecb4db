use axgit::error::ApiError;
use axgit::repo::blame::{assemble_blame, blame_skipped, BlameRange};
use axgit::repo::blob::{check_blob_path, classify, read_blob, BLOB_CONTENT_LIMIT};
use axgit::repo::commits::CommitAuthor;
use axgit::repo::readme::{candidate_format, no_readme, readme_plan, readme_text};
use axgit::repo::refs::{branch_entry, first_line, sort_by_name, BranchRef, TagRef};
use axgit::repo::scan::repo_name_of_entry;
use axgit::repo::stats::{
    bucket_index, finish_authors, quarter_start_month, stats_scan_stops, StatsTally, MAX_SCANNED_COMMITS,
};
use axgit::repo::tree::{
    kind_of, listing, needs_object_size, reads_target, tree_entry, EntryKind, TreeEntryInfo, MODE_COMMIT, MODE_LINK,
    MODE_TREE,
};

fn author(name: &str, hash: &str) -> CommitAuthor {
    CommitAuthor { name: name.to_owned(), email_hash: hash.to_owned() }
}

fn range(start: usize, count: usize, sha: &str) -> BlameRange {
    BlameRange {
        start_line: start,
        line_count: count,
        sha: sha.to_owned(),
        summary: None,
        author: author("a", "h"),
        authored_at: None,
    }
}

fn entry(name: &str, mode: u32) -> TreeEntryInfo {
    tree_entry(name.to_owned(), mode, "0".repeat(40), Some(1), None)
}

#[test]
fn tree_entries_follow_their_mode() {
    assert_eq!(kind_of(MODE_TREE), EntryKind::Tree);
    assert_eq!(kind_of(MODE_LINK), EntryKind::Symlink);
    assert_eq!(kind_of(MODE_COMMIT), EntryKind::Commit);
    assert_eq!(kind_of(0o100755), EntryKind::Blob);
    assert!(needs_object_size(EntryKind::Symlink));
    assert!(!needs_object_size(EntryKind::Tree));
    assert!(reads_target(EntryKind::Symlink, Some(4096)));
    assert!(!reads_target(EntryKind::Symlink, Some(4097)));

    let blob = tree_entry("a".into(), 0o100644, "s".into(), Some(12), None);
    assert_eq!((blob.mode.as_str(), blob.size, blob.kind), ("100644", Some(12), EntryKind::Blob));
    let dir = tree_entry("d".into(), MODE_TREE, "s".into(), Some(12), None);
    assert_eq!((dir.mode.as_str(), dir.size), ("040000", None));
    let link = tree_entry("l".into(), MODE_LINK, "s".into(), Some(3), Some(b"../x".to_vec()));
    assert_eq!(link.target.as_deref(), Some("../x"));
    let bad = tree_entry("l".into(), MODE_LINK, "s".into(), Some(3), Some(vec![0xff]));
    assert_eq!(bad.target, None);
}

#[test]
fn listing_puts_trees_first_then_names() {
    let l = listing(
        "sha".into(),
        "".into(),
        vec![entry("b.txt", 0o100644), entry("z", MODE_TREE), entry("a.txt", 0o100644), entry("a", MODE_TREE)],
    );
    let names: Vec<&str> = l.entries.iter().map(|e| e.name.as_str()).collect();
    assert_eq!(names, ["a", "z", "a.txt", "b.txt"]);
}

#[test]
fn refs_sort_by_name_and_keep_direct_branches() {
    let mut tags = vec![
        TagRef { name: "v2".into(), target: "b".into(), annotation: None, tagged_at: None },
        TagRef { name: "v10".into(), target: "c".into(), annotation: None, tagged_at: None },
        TagRef { name: "v1".into(), target: "a".into(), annotation: None, tagged_at: None },
    ];
    sort_by_name(&mut tags);
    let names: Vec<&str> = tags.iter().map(|t| t.name.as_str()).collect();
    assert_eq!(names, ["v1", "v10", "v2"]);

    let mut branches: Vec<BranchRef> = Vec::new();
    assert!(branch_entry(false, Some("origin/HEAD".into()), Some("x".into()), None).is_none());
    assert!(branch_entry(true, None, Some("x".into()), None).is_none());
    branches.push(branch_entry(true, Some("main".into()), Some("x".into()), None).unwrap());
    assert_eq!(branches[0].name, "main");
}

#[test]
fn first_line_of_a_tag_message() {
    assert_eq!(first_line("  Release 1.0 \r\nbody"), Some("Release 1.0".to_owned()));
    assert_eq!(first_line("\nbody"), None);
    assert_eq!(first_line(""), None);
}

#[test]
fn blame_orders_ranges_and_counts_lines() {
    let b = assemble_blame("s".into(), "p".into(), vec![range(4, 2, "b"), range(1, 3, "a"), range(6, 0, "z")]);
    let starts: Vec<usize> = b.ranges.iter().map(|r| r.start_line).collect();
    assert_eq!(starts, [1, 4]);
    assert_eq!(b.lines, 5);
    assert!(!b.binary && !b.too_large);

    let empty = assemble_blame("s".into(), "p".into(), vec![range(1, 0, "a")]);
    assert_eq!((empty.lines, empty.ranges.len()), (0, 0));
    let skipped = blame_skipped("s".into(), "p".into(), true, false);
    assert!(skipped.binary && skipped.ranges.is_empty());
}

#[test]
fn blobs_are_inlined_only_as_small_text() {
    assert!(matches!(check_blob_path(""), Err(ApiError::PathNotFound(p)) if p.is_empty()));
    assert!(check_blob_path("a").is_ok());
    assert_eq!(classify(b"text", false), (false, false));
    assert_eq!(classify(b"text", true), (true, false));
    assert_eq!(classify(&vec![0xff; BLOB_CONTENT_LIMIT + 1], false), (false, true));
    let b = read_blob("s".into(), "README".into(), 0o100644, b"hi".to_vec(), false);
    assert_eq!((b.mode.as_str(), b.size, b.content.as_deref()), ("100644", 2, Some("hi")));
    let big = read_blob("s".into(), "big".into(), 0o100644, vec![b'a'; BLOB_CONTENT_LIMIT + 1], false);
    assert!(big.too_large && big.content.is_none());
}

#[test]
fn readme_candidates_are_tried_in_priority_order() {
    let names = vec![Some("readme".to_owned()), None, Some("Readme.MD".to_owned()), Some("README.rst".to_owned())];
    let modes = vec![0o100644, 0o100644, MODE_LINK, 0o100644];
    // README.md only matches a symlink; then README.rst; then the bare README.
    assert_eq!(readme_plan(&names, &modes), vec![(3, 1), (0, 3)]);
    assert_eq!(candidate_format(0), "markdown");
    assert_eq!(candidate_format(3), "plain");
    assert_eq!(readme_text(Some(b"# hi")), Some("# hi".to_owned()));
    assert_eq!(readme_text(Some(&[0xff])), None);
    assert_eq!(readme_text(None), None);
    assert!(matches!(no_readme(), ApiError::PathNotFound(p) if p == "README"));
}

#[test]
fn scan_lists_only_dot_git_directories() {
    assert_eq!(repo_name_of_entry(Some("axgit.git")), Some("axgit".to_owned()));
    assert_eq!(repo_name_of_entry(Some("notes")), None);
    assert_eq!(repo_name_of_entry(None), None);
}

#[test]
fn stats_buckets_and_author_ranking() {
    assert_eq!(quarter_start_month(1), 1);
    assert_eq!(quarter_start_month(6), 4);
    assert_eq!(quarter_start_month(12), 10);
    let starts = [0i128, 10, 20];
    assert_eq!(bucket_index(-1, &starts, 30), None);
    assert_eq!(bucket_index(0, &starts, 30), Some(0));
    assert_eq!(bucket_index(15, &starts, 30), Some(1));
    assert_eq!(bucket_index(25, &starts, 30), Some(2));
    assert_eq!(bucket_index(99, &starts, 30), Some(2));
    assert!(stats_scan_stops(MAX_SCANNED_COMMITS));
    assert!(!stats_scan_stops(MAX_SCANNED_COMMITS - 1));

    let mut t = StatsTally::new();
    t.add(0, author("Bob", "bb"));
    t.add(1, author("Ann", "aa"));
    t.add(2, author("Bob (new name)", "bb"));
    t.add(2, author("Cy", "cc"));
    assert_eq!(t.bucket_totals[2], 2);
    assert_eq!(t.authors.len(), 3);
    let (authors, count, truncated) = finish_authors(t, 2);
    assert_eq!(count, 3);
    assert!(truncated);
    let shape: Vec<(&str, usize)> = authors.iter().map(|a| (a.author.name.as_str(), a.commits)).collect();
    assert_eq!(shape, [("Bob", 2), ("Ann", 1)]);
    assert_eq!(authors[0].buckets[2], 1);
}
