use axgit::repo::readme::ReadmeFormat;
use axgit::site::{effective_title, guess_format, root_readme_too_large, site_readme, ROOT_README_LIMIT};

#[test]
fn effective_title_should_fall_back_to_axgit() {
    assert_eq!(effective_title(None), "Axgit");
    assert_eq!(effective_title(Some("PtCookie Git")), "PtCookie Git");
}

#[test]
fn guess_format_should_key_off_the_extension() {
    assert_eq!(guess_format("/srv/README.md"), ReadmeFormat::Markdown);
    assert_eq!(guess_format("/srv/README.MARKDOWN"), ReadmeFormat::Markdown);
    assert_eq!(guess_format("/srv/README.rst"), ReadmeFormat::Rst);
    assert_eq!(guess_format("/srv/README.txt"), ReadmeFormat::Plain);
    assert_eq!(guess_format("/srv/README"), ReadmeFormat::Plain);
}

#[test]
fn guess_format_should_ignore_a_leading_dot() {
    assert_eq!(guess_format("/srv/.md"), ReadmeFormat::Plain);
    assert_eq!(guess_format("/srv/x.tar.md"), ReadmeFormat::Markdown);
}

#[test]
fn site_readme_should_want_utf8_under_the_cap() {
    assert!(!root_readme_too_large(ROOT_README_LIMIT));
    assert!(root_readme_too_large(ROOT_README_LIMIT + 1));
    let r = site_readme("/srv/README.md", b"# hi\n").expect("expected a readme");
    assert_eq!(r.format, ReadmeFormat::Markdown);
    assert_eq!(r.content, "# hi\n");
    assert!(site_readme("/srv/README.md", b"\xff\xfe").is_none());
}
