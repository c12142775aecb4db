use axgit::repo::commits::{
    email_hash, log_step, missing_signature_info, next_cursor, note_from_message, signature_info,
    wants_rename_lookup, Cursor, LogParams, LogState, LogVerdict, MAX_OFFSET,
};

fn same(a: &Option<Cursor>, b: &Cursor) -> bool {
    matches!(a, Some(c) if c.start == b.start && c.offset == b.offset)
}

#[test]
fn cursor_round_trips_through_encode_and_parse() {
    let cursor = Cursor { start: "0123456789abcdef0123456789abcdef01234567".to_owned(), offset: 42 };
    assert!(same(&Cursor::parse(&cursor.encode()), &cursor));
}

#[test]
fn cursor_parse_rejects_malformed_input() {
    let sha = "0123456789abcdef0123456789abcdef01234567";
    assert!(Cursor::parse(sha).is_none());
    assert!(Cursor::parse(&format!("{sha}.abc")).is_none());
    assert!(Cursor::parse(&format!("{sha}.-1")).is_none());
    assert!(Cursor::parse(&format!("{sha}.{}", MAX_OFFSET + 1)).is_none());
    assert!(Cursor::parse(&format!("{sha}.{}", MAX_OFFSET)).is_some());
    assert!(Cursor::parse("zzz.0").is_none());
    assert!(Cursor::parse("0123.0").is_none());
}

#[test]
fn cursor_encode_should_join_sha_and_offset() {
    let sha = "0123456789abcdef0123456789abcdef01234567";
    let c = Cursor { start: sha.to_owned(), offset: 7 };
    assert_eq!(c.encode(), format!("{sha}.7"));
    assert!(Cursor::parse(&format!("{}.7", sha.to_uppercase())).is_none());
}

#[test]
fn email_hash_should_normalize_case_and_whitespace() {
    let hash = email_hash(b"author@example.com");
    assert_eq!(hash.len(), 64);
    assert_eq!(email_hash(b" Author@Example.COM "), hash);
}

#[test]
fn email_hash_should_be_the_sha256_of_the_normalized_email() {
    assert_eq!(email_hash(b"  ABC "), "ba7816bf8f01cfea414140de5dae2223b00361a396177a9cb410ff61f20015ad");
    assert_eq!(missing_signature_info().email_hash, email_hash(b""));
    assert_eq!(missing_signature_info().name, "");
}

#[test]
fn signature_info_should_decode_the_name_lossily() {
    let a = signature_info(b"J\xffrg", b"j@x");
    assert_eq!(a.name, "J\u{fffd}rg");
    assert_eq!(a.email_hash, email_hash(b"j@x"));
}

#[test]
fn note_from_message_should_drop_blank_notes_and_trailing_space() {
    assert_eq!(note_from_message("  \n"), None);
    assert_eq!(note_from_message("  note\n\n"), Some("  note".to_owned()));
}

fn params(path: Option<&str>, skip: usize, limit: usize, follow: bool) -> LogParams {
    LogParams { path: path.map(str::to_owned), skip, limit, include_body: false, follow, include_stat: false }
}

#[test]
fn log_step_should_skip_then_collect_then_stop() {
    let p = params(None, 1, 2, false);
    let mut s = LogState::start(&p);
    assert_eq!(log_step(&mut s, &p, true, false, None).0, LogVerdict::Skipped);
    assert_eq!(log_step(&mut s, &p, true, false, None).0, LogVerdict::Collect);
    assert_eq!(log_step(&mut s, &p, true, false, None).0, LogVerdict::Collect);
    assert_eq!(log_step(&mut s, &p, true, false, None).0, LogVerdict::Stop);
    assert!(s.has_more);
    assert_eq!(next_cursor("abc", &p, s.has_more), Some("abc.3".to_owned()));
    assert_eq!(next_cursor("abc", &p, false), None);
}

#[test]
fn log_step_should_filter_and_follow_renames() {
    let p = params(Some("new.rs"), 0, 5, true);
    let mut s = LogState::start(&p);
    assert_eq!(log_step(&mut s, &p, false, false, None).0, LogVerdict::Filtered);
    assert!(wants_rename_lookup(&s, &p, true, true, true));
    assert!(!wants_rename_lookup(&s, &p, true, true, false));
    let (v, renamed) = log_step(&mut s, &p, true, true, Some("old.rs".to_owned()));
    assert_eq!(v, LogVerdict::Collect);
    assert_eq!(renamed, Some("old.rs".to_owned()));
    assert_eq!(s.followed_path, Some("old.rs".to_owned()));
    assert_eq!(s.follow_lookups, 1);
}

#[test]
fn a_path_filtered_page_is_the_matching_commits_after_the_skip() {
    let p = LogParams {
        path: Some("src".to_owned()),
        skip: 1,
        limit: 2,
        include_body: false,
        follow: false,
        include_stat: false,
    };
    let touches = [false, true, true, false, true, true, true];
    let mut s = LogState::start(&p);
    let mut verdicts = Vec::new();
    for t in touches {
        let v = log_step(&mut s, &p, t, false, None).0;
        verdicts.push(v);
        if v == LogVerdict::Stop {
            break;
        }
    }
    assert_eq!(
        verdicts,
        [
            LogVerdict::Filtered,
            LogVerdict::Skipped,
            LogVerdict::Collect,
            LogVerdict::Filtered,
            LogVerdict::Collect,
            LogVerdict::Stop,
        ]
    );
    assert!(s.has_more);
}
