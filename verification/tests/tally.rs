use axgit::repo::commits::CommitAuthor;
use axgit::repo::stats::{finish_authors, tally_walk, MAX_SCANNED_COMMITS};

fn who(name: &str) -> CommitAuthor {
    CommitAuthor { name: name.to_owned(), email_hash: format!("{name}-hash") }
}

fn starts() -> Vec<i128> {
    (0..12).map(|i| i * 100).collect()
}

#[test]
fn walk_tallies_each_commit_in_its_bucket() {
    let walked = vec![
        (Some(150), who("alice")),
        (Some(-5), who("bob")),
        (None, who("carol")),
        (Some(1_150), who("alice")),
        (Some(99_999), who("dave")),
        (Some(160), who("alice")),
    ];
    let t = tally_walk(&walked, &starts(), 1_200);
    assert!(!t.truncated);
    assert_eq!(t.bucket_totals[1], 2);
    assert_eq!(t.bucket_totals[11], 2);
    assert_eq!(t.bucket_totals.iter().sum::<usize>(), 4);
    assert_eq!(t.authors.len(), 2);
    assert_eq!(t.authors[0].author.name, "alice");
    assert_eq!(t.authors[0].buckets[1], 2);
    assert_eq!(t.authors[0].buckets[11], 1);
    assert_eq!(t.authors[1].author.name, "dave");
}

#[test]
fn the_first_commit_names_the_author() {
    let walked = vec![(Some(0), who("alice")), (Some(0), CommitAuthor { name: "Alice L.".to_owned(), email_hash: "alice-hash".to_owned() })];
    let t = tally_walk(&walked, &starts(), 1_200);
    assert_eq!(t.authors.len(), 1);
    assert_eq!(t.authors[0].author.name, "alice");
    assert_eq!(t.authors[0].buckets[0], 2);
}

#[test]
fn a_walk_past_the_budget_is_truncated() {
    let walked: Vec<(Option<i128>, CommitAuthor)> =
        (0..=MAX_SCANNED_COMMITS).map(|_| (Some(0), who("alice"))).collect();
    let t = tally_walk(&walked, &starts(), 1_200);
    assert!(t.truncated);
    assert_eq!(t.bucket_totals[0], MAX_SCANNED_COMMITS);
}

#[test]
fn cut_authors_still_count_in_the_bucket_totals() {
    let walked = vec![(Some(500), who("alice")), (Some(500), who("bob")), (Some(500), who("carol"))];
    let t = tally_walk(&walked, &starts(), 1_200);
    let totals = t.bucket_totals.clone();
    let (authors, author_count, truncated) = finish_authors(t, 2);
    assert_eq!(author_count, 3);
    assert_eq!(authors.len(), 2);
    assert!(truncated);
    assert_eq!(totals.iter().sum::<usize>(), 3);
}
