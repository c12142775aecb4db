use axgit::repo::sort::{compare_str, sort_repos, RepoOrder, RepoSort};
use axgit::repo::RepoInfo;

fn repo(name: &str, desc: Option<&str>, last_modified: Option<&str>) -> RepoInfo {
    RepoInfo {
        name: name.to_owned(),
        section: None,
        owner: None,
        description: desc.map(str::to_owned),
        homepage: None,
        default_branch: None,
        last_modified: last_modified.map(str::to_owned),
    }
}

fn names(repos: &[RepoInfo]) -> Vec<&str> {
    repos.iter().map(|r| r.name.as_str()).collect()
}

#[test]
fn parse_should_default_each_key_ascending_except_idle() {
    assert_eq!(RepoOrder::parse("name").unwrap(), RepoOrder { key: RepoSort::Name, reverse: false });
    assert_eq!(RepoOrder::parse("idle").unwrap(), RepoOrder { key: RepoSort::Idle, reverse: true });
}

#[test]
fn parse_should_flip_the_key_default_on_a_leading_dash() {
    assert_eq!(RepoOrder::parse("-name").unwrap(), RepoOrder { key: RepoSort::Name, reverse: true });
    assert_eq!(RepoOrder::parse("-idle").unwrap(), RepoOrder { key: RepoSort::Idle, reverse: false });
}

#[test]
fn parse_should_reject_unknown_keys() {
    assert!(RepoOrder::parse("bogus").is_err());
    assert!(RepoOrder::parse("-").is_err());
}

#[test]
fn display_should_round_trip_parse() {
    for raw in ["name", "-name", "idle", "-idle", "desc", "-desc"] {
        assert_eq!(RepoOrder::parse(raw).unwrap().to_string(), raw);
    }
}

#[test]
fn from_str_should_agree_with_from_name() {
    assert_eq!("owner".parse::<RepoSort>().unwrap(), RepoSort::Owner);
    assert!("Owner".parse::<RepoSort>().is_err());
    assert_eq!(RepoSort::Section.name(), "section");
    assert_eq!(RepoOrder::default(), RepoOrder { key: RepoSort::Name, reverse: false });
}

#[test]
fn sort_repos_should_place_none_last_regardless_of_direction() {
    let mut repos = vec![repo("b", Some("beta"), None), repo("a", None, None), repo("c", Some("alpha"), None)];
    sort_repos(&mut repos, RepoOrder { key: RepoSort::Desc, reverse: false });
    assert_eq!(names(&repos), ["c", "b", "a"]);

    sort_repos(&mut repos, RepoOrder { key: RepoSort::Desc, reverse: true });
    assert_eq!(names(&repos), ["b", "c", "a"]);
}

#[test]
fn sort_repos_should_break_ties_by_name_ascending() {
    let mut repos = vec![repo("b", None, None), repo("a", None, None)];
    sort_repos(&mut repos, RepoOrder::default());
    assert_eq!(names(&repos), ["a", "b"]);
}

#[test]
fn sort_repos_should_compare_idle_by_parsed_timestamp_not_string() {
    let mut repos = vec![
        repo("early", None, Some("2026-07-24T13:06:00+09:00")),
        repo("late", None, Some("2026-07-24T05:00:00-05:00")),
    ];
    sort_repos(&mut repos, RepoOrder { key: RepoSort::Idle, reverse: false });
    assert_eq!(names(&repos), ["early", "late"]);
}

#[test]
fn sort_repos_idle_descending_puts_the_newest_first_and_unparsed_last() {
    let mut repos = vec![
        repo("none", None, None),
        repo("old", None, Some("2020-01-01T00:00:00Z")),
        repo("bad", None, Some("yesterday")),
        repo("new", None, Some("2024-01-01T00:00:00Z")),
    ];
    sort_repos(&mut repos, RepoOrder::parse("idle").unwrap());
    assert_eq!(names(&repos), ["new", "old", "bad", "none"]);
}

#[test]
fn compare_str_should_order_by_code_points() {
    assert_eq!(compare_str("a", "b"), -1);
    assert_eq!(compare_str("b", "a"), 1);
    assert_eq!(compare_str("ab", "ab"), 0);
    assert_eq!(compare_str("a", "ab"), -1);
    assert_eq!(compare_str("Z", "a"), -1);
}
