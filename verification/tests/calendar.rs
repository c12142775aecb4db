use axgit::repo::stats::{period_start, stats_window, StatsPeriod, BUCKET_COUNT};

fn seconds(text: &str) -> i64 {
    text.parse::<jiff::Timestamp>().unwrap().as_second()
}

fn nanos(text: &str) -> i128 {
    text.parse::<jiff::Timestamp>().unwrap().as_nanosecond()
}

#[test]
fn period_start_date_should_align_to_the_expected_boundary() {
    // 2026-07-24 is a Friday.
    let date = (2026, 7, 24);
    assert_eq!(period_start(date, StatsPeriod::Week), Some((2026, 7, 20)));
    assert_eq!(period_start(date, StatsPeriod::Month), Some((2026, 7, 1)));
    assert_eq!(period_start(date, StatsPeriod::Quarter), Some((2026, 7, 1)));
    assert_eq!(period_start(date, StatsPeriod::Year), Some((2026, 1, 1)));
}

#[test]
fn bucket_starts_should_produce_twelve_ascending_boundaries_ending_at_the_anchor_period() {
    let window = stats_window(seconds("2026-07-24T12:00:00Z"), StatsPeriod::Month).unwrap();
    assert_eq!(window.starts.len(), BUCKET_COUNT);
    assert!(window.starts.windows(2).all(|pair| pair[0] < pair[1]));
    assert!(window.labels[11].starts_with("2026-07-01"));
    assert!(window.labels[0].starts_with("2025-08-01"));
}

#[test]
fn stats_window_labels_and_instants_agree() {
    let window = stats_window(seconds("2026-07-24T12:00:00Z"), StatsPeriod::Month).unwrap();
    assert_eq!(window.labels.len(), BUCKET_COUNT);
    assert_eq!(window.labels[11], "2026-07-01T00:00:00+00:00");
    assert_eq!(window.starts[11], nanos("2026-07-01T00:00:00Z"));
    assert_eq!(window.starts[0], nanos("2025-08-01T00:00:00Z"));
    assert_eq!(window.end, nanos("2026-08-01T00:00:00Z"));
}

#[test]
fn stats_window_by_week_starts_on_mondays() {
    let window = stats_window(seconds("2026-07-24T12:00:00Z"), StatsPeriod::Week).unwrap();
    assert_eq!(window.starts[11], nanos("2026-07-20T00:00:00Z"));
    assert_eq!(window.starts[10], nanos("2026-07-13T00:00:00Z"));
    assert_eq!(window.end, nanos("2026-07-27T00:00:00Z"));
}

#[test]
fn stats_window_by_quarter_and_year() {
    let quarters = stats_window(seconds("2026-05-10T00:00:00Z"), StatsPeriod::Quarter).unwrap();
    assert_eq!(quarters.starts[11], nanos("2026-04-01T00:00:00Z"));
    assert_eq!(quarters.starts[0], nanos("2023-07-01T00:00:00Z"));
    assert_eq!(quarters.end, nanos("2026-07-01T00:00:00Z"));
    let years = stats_window(seconds("2026-05-10T00:00:00Z"), StatsPeriod::Year).unwrap();
    assert_eq!(years.labels[0], "2015-01-01T00:00:00+00:00");
    assert_eq!(years.end, nanos("2027-01-01T00:00:00Z"));
}

#[test]
fn stats_window_fails_past_the_calendar_range() {
    // Twelve years before the first representable year does not exist.
    let early = "-009999-03-01T00:00:00Z";
    assert!(stats_window(seconds(early), StatsPeriod::Year).is_none());
}

#[test]
fn period_start_rejects_a_month_out_of_range() {
    assert_eq!(period_start((2026, 13, 1), StatsPeriod::Quarter), None);
    assert_eq!(period_start((2026, 2, 30), StatsPeriod::Week), None);
}
