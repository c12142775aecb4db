use axgit::repo::search::{
    blob_scan_full, commit_scan_stops, contains_ignore_case, match_lines, parse_range, scanned_path, search_paths,
    text_matches, truncate_chars, ContentScan, ContentStep, RangeOp, MAX_SCANNED_BLOBS,
};

fn paths(names: &[&str]) -> Vec<String> {
    names.iter().map(|n| n.to_string()).collect()
}

#[test]
fn contains_ignore_case_should_ignore_case() {
    assert!(contains_ignore_case("Hello World", "world"));
    assert!(contains_ignore_case("Hello World", "hello"));
    assert!(!contains_ignore_case("Hello World", "bye"));
    assert!(contains_ignore_case("héllo", "héllo"));
}

#[test]
fn contains_ignore_case_should_fold_non_ascii_text() {
    assert!(contains_ignore_case("HÉLLO", "héllo"));
    assert!(contains_ignore_case("ÀB", "àb"));
}

#[test]
fn truncate_chars_should_respect_char_boundaries() {
    assert_eq!(truncate_chars("hello", 3), "hel");
    assert_eq!(truncate_chars("hello", 10), "hello");
    assert_eq!(truncate_chars("héllo", 2), "hé");
}

#[test]
fn search_path_should_match_full_path_case_insensitively() {
    let (files, truncated) = search_paths(&paths(&["Main.rs", "README.md"]), false, "main", 50);
    assert_eq!(files.len(), 1);
    assert_eq!(files[0].path, "Main.rs");
    assert!(files[0].lines.is_empty());
    assert!(!truncated);
}

#[test]
fn search_path_should_apply_the_limit_and_report_truncation() {
    let (files, truncated) =
        search_paths(&paths(&["match-a.txt", "match-b.txt", "match-c.txt"]), false, "match", 2);
    assert_eq!(files.len(), 2);
    assert!(truncated);
}

#[test]
fn search_path_should_carry_a_truncated_scan() {
    let (files, truncated) = search_paths(&paths(&["a"]), true, "a", 5);
    assert_eq!(files.len(), 1);
    assert!(truncated);
}

#[test]
fn match_lines_should_number_lines_from_one() {
    let lines = match_lines("alpha\nBeta\r\ngamma beta\n", "beta");
    let got: Vec<(usize, &str)> = lines.iter().map(|m| (m.line, m.text.as_str())).collect();
    assert_eq!(got, vec![(2, "Beta"), (3, "gamma beta")]);
}

#[test]
fn match_lines_should_stop_at_ten_matches_per_file() {
    let text = "x\n".repeat(30);
    assert_eq!(match_lines(&text, "x").len(), 10);
}

#[test]
fn search_range_should_reject_a_flag_looking_token() {
    let ops = parse_range("--all");
    assert_eq!(ops.len(), 1);
    assert!(matches!(
        &ops[0],
        RangeOp::Reject(m) if m == "range token '--all' looks like a flag, not a revision"
    ));
}

#[test]
fn parse_range_should_split_each_token_shape() {
    let ops = parse_range("  a...b ..c ^x main ");
    assert_eq!(ops.len(), 4);
    assert!(matches!(&ops[0], RangeOp::Symmetric(a, b) if a == "a" && b == "b"));
    assert!(matches!(&ops[1], RangeOp::Between(a, b) if a == "HEAD" && b == "c"));
    assert!(matches!(&ops[2], RangeOp::Hide(x) if x == "x"));
    assert!(matches!(&ops[3], RangeOp::Push(x) if x == "main"));
}

#[test]
fn scan_budgets() {
    assert!(!blob_scan_full(MAX_SCANNED_BLOBS - 1));
    assert!(blob_scan_full(MAX_SCANNED_BLOBS));
    assert!(commit_scan_stops(3, 0, 3));
    assert!(!commit_scan_stops(2, 0, 3));
    assert_eq!(scanned_path("src/", "lib.rs"), "src/lib.rs");
    assert!(text_matches(Some("Fix Bug"), "bug"));
    assert!(!text_matches(None, "bug"));
}

#[test]
fn content_scan_should_skip_large_and_binary_blobs() {
    let mut scan = ContentScan::start(false);
    assert_eq!(scan.next_step(10, 0o100644, Some(4)), ContentStep::Read);
    scan.add_blob("a.txt".to_owned(), b"one\nTwo\n", false, "two");
    assert_eq!(scan.next_step(10, 0o100644, Some(4)), ContentStep::Read);
    scan.add_blob("b.bin".to_owned(), b"two\0", true, "two");
    assert_eq!(scan.files.len(), 1);
    assert_eq!(scan.files[0].path, "a.txt");
    assert_eq!(scan.files[0].lines[0].line, 2);
}
