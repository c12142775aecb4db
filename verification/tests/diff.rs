use axgit::repo::diff::{
    collect_hunks, delta_paths, diff_status, diffstat_of, file_stat, line_origin, patch_series, push_raw_line,
    rename_source, render_files, rendered_file_count, trim_newline, Delta, DeltaPaths, DiffParams, DiffStatFile,
    DiffStatus, LineOrigin, RawFile, RawHunk, RawLine, DEFAULT_CONTEXT, MAX_DIFF_FILES, MAX_FILE_DIFF_LINES,
};

fn added_hunk(n: usize) -> RawHunk {
    RawHunk {
        header: format!("@@ -0,0 +1,{n} @@\n").into_bytes(),
        old_start: 0,
        old_lines: 0,
        new_start: 1,
        new_lines: n as u32,
        lines: (0..n)
            .map(|i| RawLine {
                origin: '+',
                content: format!("line {i}\n").into_bytes(),
                old_lineno: None,
                new_lineno: Some(i as u32 + 1),
            })
            .collect(),
    }
}

fn stat(path: &str, additions: usize, binary: bool) -> DiffStatFile {
    DiffStatFile {
        path: path.to_owned(),
        old_path: None,
        status: DiffStatus::Added,
        additions,
        deletions: 0,
        binary,
    }
}

#[test]
fn commit_diff_should_drop_whole_hunks_past_line_cap() {
    let files = vec![RawFile {
        stat: stat("big.txt", MAX_FILE_DIFF_LINES + 100, false),
        hunks: Some(vec![added_hunk(MAX_FILE_DIFF_LINES + 100)]),
    }];
    let (rendered, truncated) = render_files(1, files);
    assert!(!truncated);
    let file = &rendered[0];
    let lines: usize = file.hunks.iter().map(|h| h.lines.len()).sum();
    assert_eq!((file.truncated, lines, file.stat.additions), (true, 0, MAX_FILE_DIFF_LINES + 100));
}

#[test]
fn commit_diff_should_keep_hunks_at_exact_line_cap() {
    let (hunks, truncated) = collect_hunks(&vec![added_hunk(MAX_FILE_DIFF_LINES)]);
    let lines: usize = hunks.iter().map(|h| h.lines.len()).sum();
    assert_eq!((truncated, lines), (false, MAX_FILE_DIFF_LINES));
    assert_eq!(hunks[0].header, format!("@@ -0,0 +1,{MAX_FILE_DIFF_LINES} @@"));
}

#[test]
fn commit_diff_should_report_line_numbers_and_origins() {
    let raw = RawHunk {
        header: b"@@ -1,2 +1,2 @@\n".to_vec(),
        old_start: 1,
        old_lines: 2,
        new_start: 1,
        new_lines: 2,
        lines: vec![
            RawLine { origin: ' ', content: b"one\n".to_vec(), old_lineno: Some(1), new_lineno: Some(1) },
            RawLine { origin: '-', content: b"two\n".to_vec(), old_lineno: Some(2), new_lineno: None },
            RawLine { origin: '+', content: b"three\n".to_vec(), old_lineno: None, new_lineno: Some(2) },
            RawLine { origin: '>', content: b"\n\\ No newline at end of file\n".to_vec(), old_lineno: None, new_lineno: None },
        ],
    };
    let (hunks, _) = collect_hunks(&vec![raw]);
    let shape: Vec<_> =
        hunks[0].lines.iter().map(|l| (l.origin, l.content.as_str(), l.old_lineno, l.new_lineno)).collect();
    assert_eq!(
        shape,
        vec![
            (LineOrigin::Context, "one", Some(1), Some(1)),
            (LineOrigin::Deletion, "two", Some(2), None),
            (LineOrigin::Addition, "three", None, Some(2)),
        ]
    );
    assert_eq!(hunks[0].header, "@@ -1,2 +1,2 @@");
}

#[test]
fn collect_hunks_should_keep_the_leading_hunks_that_fit() {
    let (hunks, truncated) = collect_hunks(&vec![added_hunk(600), added_hunk(400), added_hunk(1)]);
    assert_eq!(hunks.len(), 2);
    assert!(truncated);
}

#[test]
fn render_files_should_skip_binary_and_textless_files() {
    let files = vec![
        RawFile { stat: stat("a.bin", 0, true), hunks: Some(vec![added_hunk(1)]) },
        RawFile { stat: stat("b.txt", 0, false), hunks: None },
    ];
    let (rendered, truncated) = render_files(MAX_DIFF_FILES + 1, files);
    assert!(truncated);
    assert!(rendered.iter().all(|f| f.hunks.is_empty() && !f.truncated));
    assert_eq!(rendered[0].stat.path, "a.bin");
    assert_eq!(rendered_file_count(5), 5);
    assert_eq!(rendered_file_count(MAX_DIFF_FILES + 5), MAX_DIFF_FILES);
}

#[test]
fn statuses_and_paths() {
    assert_eq!(diff_status(Delta::Renamed), DiffStatus::Renamed);
    assert_eq!(diff_status(Delta::Untracked), DiffStatus::Modified);
    assert_eq!(delta_paths(Delta::Renamed, Some("new"), Some("old")), ("new".to_owned(), Some("old".to_owned())));
    assert_eq!(delta_paths(Delta::Deleted, None, Some("old")), ("old".to_owned(), None));
    let f = file_stat(Delta::Copied, Some("b"), Some("a"), false, Some((3, 1)));
    assert_eq!((f.path.as_str(), f.old_path.as_deref(), f.status), ("b", Some("a"), DiffStatus::Copied));
    assert_eq!((f.additions, f.deletions, f.binary), (3, 1, false));
    let g = file_stat(Delta::Modified, Some("c"), None, false, None);
    assert!(g.binary);
    assert_eq!((g.additions, g.deletions), (0, 0));
}

#[test]
fn diffstat_should_total_the_files() {
    let s = diffstat_of(vec![stat("a", 2, false), stat("b", 5, false)]);
    assert_eq!((s.files_changed, s.total_additions, s.total_deletions), (2, 7, 0));
}

#[test]
fn line_helpers() {
    assert_eq!(line_origin('+'), Some(LineOrigin::Addition));
    assert_eq!(line_origin('='), None);
    assert_eq!(trim_newline("a\r\n"), "a");
    assert_eq!(trim_newline("a\n\n"), "a\n");
    let mut out = b"x".to_vec();
    push_raw_line(&mut out, '-', b"gone\n");
    push_raw_line(&mut out, 'F', b"diff --git\n");
    assert_eq!(out, b"x-gone\ndiff --git\n".to_vec());
    let p = DiffParams::default();
    assert_eq!((p.path, p.context, p.ignore_whitespace), (None, DEFAULT_CONTEXT, false));
}

#[test]
fn rename_source_should_find_whole_file_renames_only() {
    let deltas = vec![
        DeltaPaths { status: Delta::Copied, new_path: Some("n".to_owned()), old_path: Some("c".to_owned()) },
        DeltaPaths { status: Delta::Renamed, new_path: Some("n".to_owned()), old_path: Some("o".to_owned()) },
    ];
    assert_eq!(rename_source(true, &deltas, "n"), Some("o".to_owned()));
    assert_eq!(rename_source(false, &deltas, "n"), None);
    assert_eq!(rename_source(true, &deltas, "x"), None);
}

#[test]
fn patch_series_should_reverse_and_cap() {
    assert_eq!(patch_series(vec!["c".into(), "b".into(), "a".into()]).unwrap(), vec!["a", "b", "c"]);
    let long: Vec<String> = (0..101).map(|i| i.to_string()).collect();
    assert!(patch_series(long).is_err());
}
