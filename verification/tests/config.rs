use axgit::config::{
    merge, parse_repository_sort, resolve_config_path, unknown_keys, CacheSection, Config, ExplicitFields,
    FileConfig, SiteSection, TomlItem, DEFAULT_CONFIG_PATH,
};
use axgit::repo::sort::{RepoOrder, RepoSort};

/// Every field at the value the command line and environment would give
/// when both are empty.
fn default_config() -> Config {
    Config {
        config: None,
        repo_root: "/srv/git".to_owned(),
        static_dir: None,
        listen: "0.0.0.0:8080".to_owned(),
        clone_url_base: None,
        cache_scan_ttl_secs: 60,
        cache_response_ttl_secs: 300,
        cache_response_max_bytes: 32 * 1024 * 1024,
        repository_sort: RepoOrder::default(),
        root_title: None,
        root_desc: None,
        root_readme: None,
        logo: None,
        logo_link: None,
        favicon: None,
    }
}

fn s(v: &str) -> Option<String> {
    Some(v.to_owned())
}

/// The contents of a config file that sets every key.
fn full_file() -> FileConfig {
    FileConfig {
        repo_root: s("/var/git"),
        static_dir: s("/app/dist"),
        listen: s("127.0.0.1:9090"),
        clone_url_base: s("https://git.example.com"),
        repository_sort: s("-idle"),
        site: SiteSection {
            root_title: s("PtCookie Git"),
            root_desc: s("self-hosted git"),
            root_readme: s("/var/git/README.md"),
            logo: s("/var/git/logo.svg"),
            logo_link: s("https://example.com"),
            favicon: s("/var/git/favicon.png"),
        },
        cache: CacheSection { scan_ttl: Some(30), response_ttl: Some(120), response_max_bytes: Some(1048576) },
    }
}

const FULL: &str = r#"
repo-root = "/srv/git"
static-dir = "/app/dist"
listen = "127.0.0.1:9090"
clone-url-base = "https://git.example.com"
repository-sort = "-idle"

[site]
root-title = "PtCookie Git"
root-desc = "self-hosted git"
root-readme = "/srv/git/README.md"
logo = "/srv/git/logo.svg"
logo-link = "https://example.com"
favicon = "/srv/git/favicon.png"

[cache]
scan-ttl = 30
response-ttl = 120
response-max-bytes = 1048576
"#;

fn items_of(text: &str) -> Vec<TomlItem> {
    let table: toml::Table = toml::from_str(text).expect("expected a table");
    table
        .iter()
        .map(|(k, v)| TomlItem {
            key: k.clone(),
            table_keys: v.as_table().map(|t| t.keys().cloned().collect()),
        })
        .collect()
}

#[test]
fn merge_should_fill_every_field_left_at_its_default() {
    let mut config = default_config();
    merge(&mut config, full_file(), &ExplicitFields::default()).expect("expected a merge");

    assert_eq!(config.repo_root, "/var/git");
    assert_eq!(config.static_dir.as_deref(), Some("/app/dist"));
    assert_eq!(config.listen, "127.0.0.1:9090");
    assert_eq!(config.clone_url_base.as_deref(), Some("https://git.example.com"));
    assert_eq!(config.repository_sort, RepoOrder::parse("-idle").expect("expected a sort"));
    assert_eq!(config.root_title.as_deref(), Some("PtCookie Git"));
    assert_eq!(config.root_desc.as_deref(), Some("self-hosted git"));
    assert_eq!(config.root_readme.as_deref(), Some("/var/git/README.md"));
    assert_eq!(config.logo.as_deref(), Some("/var/git/logo.svg"));
    assert_eq!(config.logo_link.as_deref(), Some("https://example.com"));
    assert_eq!(config.favicon.as_deref(), Some("/var/git/favicon.png"));
    assert_eq!(config.cache_scan_ttl_secs, 30);
    assert_eq!(config.cache_response_ttl_secs, 120);
    assert_eq!(config.cache_response_max_bytes, 1048576);
}

#[test]
fn merge_should_leave_flag_and_env_provided_fields_alone() {
    let mut config = default_config();
    config.repo_root = "/from/flag".to_owned();
    config.root_title = Some("From Env".to_owned());

    let explicit = ExplicitFields { repo_root: true, root_title: true, ..ExplicitFields::default() };
    merge(&mut config, full_file(), &explicit).expect("expected a merge");

    assert_eq!(config.repo_root, "/from/flag");
    assert_eq!(config.root_title.as_deref(), Some("From Env"));
    assert_eq!(config.root_desc.as_deref(), Some("self-hosted git"));
    assert_eq!(config.listen, "127.0.0.1:9090");
}

#[test]
fn merge_should_be_a_no_op_for_an_empty_file() {
    let mut config = default_config();
    merge(&mut config, FileConfig::default(), &ExplicitFields::default()).expect("expected a merge");

    assert_eq!(config.repo_root, "/srv/git");
    assert_eq!(config.listen, "0.0.0.0:8080");
    assert_eq!(config.root_title, None);
    assert_eq!(config.cache_scan_ttl_secs, 60);
}

#[test]
fn merge_should_reject_an_invalid_repository_sort() {
    let mut config = default_config();
    let file = FileConfig { repository_sort: s("nonsense"), ..FileConfig::default() };

    let error = merge(&mut config, file, &ExplicitFields::default()).expect_err("expected an error");
    assert!(error.contains("nonsense"), "error should quote the offending value: {error}");
}

#[test]
fn merge_should_stop_at_a_bad_sort_after_the_earlier_settings() {
    let mut config = default_config();
    let mut file = full_file();
    file.repository_sort = s("bogus");
    assert!(merge(&mut config, file, &ExplicitFields::default()).is_err());
    assert_eq!(config.repo_root, "/var/git");
    assert_eq!(config.listen, "127.0.0.1:9090");
    assert_eq!(config.root_title, None);
    assert_eq!(config.cache_scan_ttl_secs, 60);
}

#[test]
fn merge_should_ignore_an_explicit_bad_sort_in_the_file() {
    let mut config = default_config();
    let file = FileConfig { repository_sort: s("bogus"), ..FileConfig::default() };
    let explicit = ExplicitFields { repository_sort: true, ..ExplicitFields::default() };
    assert!(merge(&mut config, file, &explicit).is_ok());
    assert_eq!(config.repository_sort, RepoOrder::default());
}

#[test]
fn resolve_config_path_should_prefer_an_explicit_path() {
    assert_eq!(
        resolve_config_path(Some("/no/such/axgit.toml".to_owned()), true),
        Some("/no/such/axgit.toml".to_owned())
    );
    assert_eq!(
        resolve_config_path(Some("/no/such/axgit.toml".to_owned()), false),
        Some("/no/such/axgit.toml".to_owned())
    );
}

#[test]
fn resolve_config_path_should_fall_back_to_the_default_only_when_it_exists() {
    assert_eq!(resolve_config_path(None, true), Some(DEFAULT_CONFIG_PATH.to_owned()));
    assert_eq!(resolve_config_path(None, false), None);
}

#[test]
fn unknown_keys_should_list_stray_top_level_keys_sections_and_nested_keys() {
    let items = items_of("scan-path = \"/srv/git\"\n[nope]\nwhatever = 1\n[site]\nenable-blame = true\n");
    let mut unknown = unknown_keys(&items);
    unknown.sort();
    assert_eq!(unknown, vec!["nope", "scan-path", "site.enable-blame"]);
}

#[test]
fn unknown_keys_should_be_empty_for_a_fully_known_file() {
    assert!(unknown_keys(&items_of(FULL)).is_empty());
}

#[test]
fn unknown_keys_should_pass_over_a_known_section_that_is_not_a_table() {
    let items = vec![
        TomlItem { key: "site".to_owned(), table_keys: None },
        TomlItem { key: "cache".to_owned(), table_keys: Some(vec!["ttl".to_owned()]) },
    ];
    assert_eq!(unknown_keys(&items), vec!["cache.ttl"]);
}

#[test]
fn parse_repository_sort_should_quote_a_bad_value() {
    assert_eq!(
        parse_repository_sort("-name"),
        Ok(RepoOrder { key: RepoSort::Name, reverse: true })
    );
    assert_eq!(
        parse_repository_sort("x"),
        Err("sort must be one of name, desc, owner, idle, section, optionally prefixed with '-' (got 'x')"
            .to_owned())
    );
}
