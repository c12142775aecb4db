use axgit::repo::meta::last_modified_text;
use axgit::time::{agefile_time, git_time_instant, git_time_text, rfc3339_text};

fn nanos(text: &str) -> i128 {
    text.parse::<jiff::Timestamp>().unwrap().as_nanosecond()
}

#[test]
fn git_times_keep_their_recorded_offset() {
    assert_eq!(git_time_text(0, 540).as_deref(), Some("1970-01-01T09:00:00+09:00"));
    assert_eq!(git_time_text(1_700_000_000, -300).as_deref(), Some("2023-11-14T17:13:20-05:00"));
    assert_eq!(git_time_text(0, 0).as_deref(), Some("1970-01-01T00:00:00+00:00"));
    // An offset jiff cannot hold writes nothing.
    assert_eq!(git_time_text(0, 100_000), None);
}

#[test]
fn git_time_instants_are_the_seconds_in_nanoseconds() {
    assert_eq!(git_time_instant(1_700_000_000, 60), Some(1_700_000_000_000_000_000));
    assert_eq!(git_time_instant(i64::MAX, 0), None);
}

#[test]
fn agefile_text_is_read_in_every_accepted_form() {
    let hook = agefile_time("2026-07-24 13:06:00 +0900").unwrap();
    assert_eq!(hook, (nanos("2026-07-24T04:06:00Z"), 9 * 3600));
    let rfc = agefile_time("2026-07-24T13:06:00-02:00").unwrap();
    assert_eq!(rfc, (nanos("2026-07-24T15:06:00Z"), -2 * 3600));
    let fractional = agefile_time("2026-07-24T13:06:00.5Z").unwrap();
    assert_eq!(fractional, (nanos("2026-07-24T13:06:00.5Z"), 0));
    assert_eq!(agefile_time("last tuesday"), None);
}

#[test]
fn rfc3339_text_writes_the_offset() {
    assert_eq!(rfc3339_text(nanos("2026-07-24T04:06:00Z"), 9 * 3600).as_deref(), Some("2026-07-24T13:06:00+09:00"));
}

#[test]
fn last_modified_prefers_the_agefile_then_its_mtime_then_head() {
    let mtime = Some(nanos("2026-01-02T03:04:05Z"));
    let head = Some((0i64, 60i32));
    assert_eq!(
        last_modified_text(true, Some("  2026-07-24 13:06:00 +0900\n"), mtime, head).as_deref(),
        Some("2026-07-24T13:06:00+09:00")
    );
    assert_eq!(last_modified_text(true, Some("garbage"), mtime, head).as_deref(), Some("2026-01-02T03:04:05+00:00"));
    assert_eq!(last_modified_text(true, None, mtime, head).as_deref(), Some("2026-01-02T03:04:05+00:00"));
    assert_eq!(last_modified_text(true, Some("garbage"), None, head), None);
    assert_eq!(last_modified_text(false, None, None, head).as_deref(), Some("1970-01-01T01:00:00+01:00"));
    assert_eq!(last_modified_text(false, None, None, None), None);
}
