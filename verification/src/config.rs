//! Settings and where each one comes from. Precedence is flag, then
//! environment variable, then config file, then built-in default: the file
//! only fills what neither a flag nor a variable set.
use vstd::prelude::*;

use crate::repo::meta::opt_view;
use crate::repo::sort::{parse_order, RepoOrder};
use crate::text::{chars_of, push_str_chars, str_eq, string_of};

verus! {

/// Config file consulted when none is named; its absence is not an error.
pub const DEFAULT_CONFIG_PATH: &'static str = "/etc/axgit/axgit.toml";

/// Every setting, as plain values (paths and the listen address as text).
#[derive(Debug, Clone)]
pub struct Config {
    /// The config file that was applied, if any.
    pub config: Option<String>,
    /// Directory containing bare repositories (`*.git`).
    pub repo_root: String,
    /// Static frontend build to serve at `/`.
    pub static_dir: Option<String>,
    /// Socket address to listen on.
    pub listen: String,
    /// Base URL used when displaying clone URLs.
    pub clone_url_base: Option<String>,
    /// Repository scan cache TTL in seconds.
    pub cache_scan_ttl_secs: u64,
    /// Response cache TTL in seconds.
    pub cache_response_ttl_secs: u64,
    /// Response cache capacity in bytes.
    pub cache_response_max_bytes: u64,
    /// Default repository list order.
    pub repository_sort: RepoOrder,
    /// Site-wide title.
    pub root_title: Option<String>,
    /// Site-wide description.
    pub root_desc: Option<String>,
    /// File rendered on the index page.
    pub root_readme: Option<String>,
    /// Site logo: an `http(s)://` URL or a file path.
    pub logo: Option<String>,
    /// Where the logo links to.
    pub logo_link: Option<String>,
    /// Site favicon: an `http(s)://` URL or a file path.
    pub favicon: Option<String>,
}

/// The config file's `[site]` table.
#[derive(Debug, Default, Clone)]
pub struct SiteSection {
    pub root_title: Option<String>,
    pub root_desc: Option<String>,
    pub root_readme: Option<String>,
    pub logo: Option<String>,
    pub logo_link: Option<String>,
    pub favicon: Option<String>,
}

/// The config file's `[cache]` table.
#[derive(Debug, Default, Clone)]
pub struct CacheSection {
    pub scan_ttl: Option<u64>,
    pub response_ttl: Option<u64>,
    pub response_max_bytes: Option<u64>,
}

/// The config file's contents; every field may be absent.
#[derive(Debug, Default, Clone)]
pub struct FileConfig {
    pub repo_root: Option<String>,
    pub static_dir: Option<String>,
    pub listen: Option<String>,
    pub clone_url_base: Option<String>,
    /// Kept as text so it is validated, error text included, exactly as the
    /// flag is.
    pub repository_sort: Option<String>,
    pub site: SiteSection,
    pub cache: CacheSection,
}

/// Which settings a flag or an environment variable gave explicitly; only
/// the others are open to the config file.
#[derive(Debug, Default, Clone, Copy)]
pub struct ExplicitFields {
    pub repo_root: bool,
    pub static_dir: bool,
    pub listen: bool,
    pub clone_url_base: bool,
    pub repository_sort: bool,
    pub root_title: bool,
    pub root_desc: bool,
    pub root_readme: bool,
    pub logo: bool,
    pub logo_link: bool,
    pub favicon: bool,
    pub cache_scan_ttl_secs: bool,
    pub cache_response_ttl_secs: bool,
    pub cache_response_max_bytes: bool,
}

/// A setting after the merge: the file's value where the setting was not
/// explicit and the file has one, else the current value.
pub open spec fn pick<T>(current: T, explicit: bool, file: Option<T>) -> T {
    match file {
        Some(v) => if explicit {
            current
        } else {
            v
        },
        None => current,
    }
}

/// [`pick`] for an optional setting.
pub open spec fn pick_opt<T>(current: Option<T>, explicit: bool, file: Option<T>) -> Option<T> {
    match file {
        Some(v) => if explicit {
            current
        } else {
            Some(v)
        },
        None => current,
    }
}

/// The error text for a bad sort value, quoting it.
pub open spec fn sort_error_text(raw: Seq<char>) -> Seq<char> {
    "sort must be one of name, desc, owner, idle, section, optionally prefixed with '-' (got '"@
        + raw + "')"@
}

/// Parses a repository sort setting, with the error text every source of
/// it shares.
pub fn parse_repository_sort(raw: &str) -> (r: Result<RepoOrder, String>)
    ensures
        match parse_order(raw@) {
            Some(o) => r matches Ok(p) && p == o,
            None => r matches Err(m) && m@ == sort_error_text(raw@),
        },
{
    match RepoOrder::parse(raw) {
        Ok(o) => Ok(o),
        Err(_) => {
            let mut out: Vec<char> = Vec::new();
            push_str_chars(
                &mut out,
                "sort must be one of name, desc, owner, idle, section, optionally prefixed with '-' (got '",
            );
            push_str_chars(&mut out, raw);
            push_str_chars(&mut out, "')");
            Err(string_of(out.as_slice()))
        },
    }
}

/// Whether applying `file` fails: the file's sort value is open to it and
/// does not parse.
pub open spec fn merge_fails(file: FileConfig, explicit: ExplicitFields) -> bool {
    !explicit.repository_sort && (file.repository_sort matches Some(s) && parse_order(s@) is None)
}

/// `old` with the file's repository root, static directory, listen
/// address and clone URL base applied where open to it.
pub open spec fn head_merged(old: Config, file: FileConfig, ex: ExplicitFields) -> Config {
    Config {
        repo_root: pick(old.repo_root, ex.repo_root, file.repo_root),
        static_dir: pick_opt(old.static_dir, ex.static_dir, file.static_dir),
        listen: pick(old.listen, ex.listen, file.listen),
        clone_url_base: pick_opt(old.clone_url_base, ex.clone_url_base, file.clone_url_base),
        ..old
    }
}

/// `old` with every setting the file may fill taken from it.
pub open spec fn merged(old: Config, file: FileConfig, ex: ExplicitFields) -> Config {
    let h = head_merged(old, file, ex);
    Config {
        repository_sort: if ex.repository_sort {
            old.repository_sort
        } else {
            match file.repository_sort {
                Some(s) => parse_order(s@).unwrap(),
                None => old.repository_sort,
            }
        },
        root_title: pick_opt(old.root_title, ex.root_title, file.site.root_title),
        root_desc: pick_opt(old.root_desc, ex.root_desc, file.site.root_desc),
        root_readme: pick_opt(old.root_readme, ex.root_readme, file.site.root_readme),
        logo: pick_opt(old.logo, ex.logo, file.site.logo),
        logo_link: pick_opt(old.logo_link, ex.logo_link, file.site.logo_link),
        favicon: pick_opt(old.favicon, ex.favicon, file.site.favicon),
        cache_scan_ttl_secs: pick(old.cache_scan_ttl_secs, ex.cache_scan_ttl_secs, file.cache.scan_ttl),
        cache_response_ttl_secs: pick(
            old.cache_response_ttl_secs,
            ex.cache_response_ttl_secs,
            file.cache.response_ttl,
        ),
        cache_response_max_bytes: pick(
            old.cache_response_max_bytes,
            ex.cache_response_max_bytes,
            file.cache.response_max_bytes,
        ),
        ..h
    }
}

/// The file's value unless the setting was explicit.
fn take<T>(current: T, explicit: bool, value: Option<T>) -> (r: T)
    ensures
        r == pick(current, explicit, value),
{
    if explicit {
        current
    } else {
        match value {
            Some(v) => v,
            None => current,
        }
    }
}

/// The file's value for an optional setting unless it was explicit.
fn take_opt<T>(current: Option<T>, explicit: bool, value: Option<T>) -> (r: Option<T>)
    ensures
        r == pick_opt(current, explicit, value),
{
    if explicit {
        current
    } else {
        match value {
            Some(v) => Some(v),
            None => current,
        }
    }
}

/// Moves the settings out of `config`, leaving empty ones behind.
fn take_config(config: &mut Config) -> (r: Config)
    ensures
        r == *old(config),
{
    let mut taken = Config {
        config: None,
        repo_root: String::new(),
        static_dir: None,
        listen: String::new(),
        clone_url_base: None,
        cache_scan_ttl_secs: 0,
        cache_response_ttl_secs: 0,
        cache_response_max_bytes: 0,
        repository_sort: RepoOrder { key: crate::repo::sort::RepoSort::Name, reverse: false },
        root_title: None,
        root_desc: None,
        root_readme: None,
        logo: None,
        logo_link: None,
        favicon: None,
    };
    std::mem::swap(config, &mut taken);
    taken
}

/// Applies `file` to every setting that `explicit` leaves open. A sort
/// value that does not parse stops the merge with its error text; the
/// settings before it (repository root, static directory, listen address,
/// clone URL base) have been applied by then, the rest are untouched.
pub fn merge(config: &mut Config, file: FileConfig, explicit: &ExplicitFields) -> (r: Result<(), String>)
    ensures
        r is Err <==> merge_fails(file, *explicit),
        r matches Err(m) ==> m@ == sort_error_text(file.repository_sort.unwrap()@),
        r is Ok ==> *final(config) == merged(*old(config), file, *explicit),
        r is Err ==> *final(config) == head_merged(*old(config), file, *explicit),
{
    let ghost f = file;
    let ex = *explicit;
    let FileConfig { repo_root, static_dir, listen, clone_url_base, repository_sort, site, cache } =
        file;
    let Config {
        config: applied,
        repo_root: old_root,
        static_dir: old_static,
        listen: old_listen,
        clone_url_base: old_clone,
        cache_scan_ttl_secs,
        cache_response_ttl_secs,
        cache_response_max_bytes,
        repository_sort: old_sort,
        root_title,
        root_desc,
        root_readme,
        logo,
        logo_link,
        favicon,
    } = take_config(config);
    let head = Config {
        config: applied,
        repo_root: take(old_root, ex.repo_root, repo_root),
        static_dir: take_opt(old_static, ex.static_dir, static_dir),
        listen: take(old_listen, ex.listen, listen),
        clone_url_base: take_opt(old_clone, ex.clone_url_base, clone_url_base),
        cache_scan_ttl_secs,
        cache_response_ttl_secs,
        cache_response_max_bytes,
        repository_sort: old_sort,
        root_title,
        root_desc,
        root_readme,
        logo,
        logo_link,
        favicon,
    };
    let sort = if ex.repository_sort {
        old_sort
    } else {
        match &repository_sort {
            Some(s) => match parse_repository_sort(s.as_str()) {
                Ok(o) => o,
                Err(m) => {
                    *config = head;
                    return Err(m);
                },
            },
            None => old_sort,
        }
    };
    let Config {
        config: applied,
        repo_root,
        static_dir,
        listen,
        clone_url_base,
        cache_scan_ttl_secs,
        cache_response_ttl_secs,
        cache_response_max_bytes,
        repository_sort: _,
        root_title,
        root_desc,
        root_readme,
        logo,
        logo_link,
        favicon,
    } = head;
    let SiteSection {
        root_title: f_title,
        root_desc: f_desc,
        root_readme: f_readme,
        logo: f_logo,
        logo_link: f_link,
        favicon: f_favicon,
    } = site;
    *config = Config {
        config: applied,
        repo_root,
        static_dir,
        listen,
        clone_url_base,
        cache_scan_ttl_secs: take(cache_scan_ttl_secs, ex.cache_scan_ttl_secs, cache.scan_ttl),
        cache_response_ttl_secs: take(
            cache_response_ttl_secs,
            ex.cache_response_ttl_secs,
            cache.response_ttl,
        ),
        cache_response_max_bytes: take(
            cache_response_max_bytes,
            ex.cache_response_max_bytes,
            cache.response_max_bytes,
        ),
        repository_sort: sort,
        root_title: take_opt(root_title, ex.root_title, f_title),
        root_desc: take_opt(root_desc, ex.root_desc, f_desc),
        root_readme: take_opt(root_readme, ex.root_readme, f_readme),
        logo: take_opt(logo, ex.logo, f_logo),
        logo_link: take_opt(logo_link, ex.logo_link, f_link),
        favicon: take_opt(favicon, ex.favicon, f_favicon),
    };
    Ok(())
}

/// The config file to read: the one named explicitly (whether or not it
/// exists, a named-but-missing file being an error the reader reports),
/// else the default path when a file is there.
pub fn resolve_config_path(named: Option<String>, default_is_file: bool) -> (r: Option<String>)
    ensures
        opt_view(r) == match named {
            Some(p) => Some(p@),
            None => if default_is_file {
                Some(DEFAULT_CONFIG_PATH@)
            } else {
                None
            },
        },
{
    match named {
        Some(p) => Some(p),
        None => if default_is_file {
            Some(crate::text::owned(DEFAULT_CONFIG_PATH))
        } else {
            None
        },
    }
}

// ---------------------------------------------------------------------------
// Unknown keys
// ---------------------------------------------------------------------------

/// One top-level entry of the config file's table: its key and, when its
/// value is itself a table, that table's keys, in the table's order.
#[derive(Debug, Clone)]
pub struct TomlItem {
    pub key: String,
    pub table_keys: Option<Vec<String>>,
}

/// Top-level keys the config file accepts.
pub open spec fn top_level_keys() -> Seq<Seq<char>> {
    seq!["repo-root"@, "static-dir"@, "listen"@, "clone-url-base"@, "repository-sort"@]
}

/// Keys of the `[site]` table.
pub open spec fn site_keys() -> Seq<Seq<char>> {
    seq!["root-title"@, "root-desc"@, "root-readme"@, "logo"@, "logo-link"@, "favicon"@]
}

/// Keys of the `[cache]` table.
pub open spec fn cache_keys() -> Seq<Seq<char>> {
    seq!["scan-ttl"@, "response-ttl"@, "response-max-bytes"@]
}

/// The unknown keys among `keys` of the table `section`, as
/// `section.key`.
pub open spec fn unknown_in_table(section: Seq<char>, keys: Seq<Seq<char>>, known: Seq<Seq<char>>) -> Seq<
    Seq<char>,
>
    decreases keys.len(),
{
    if keys.len() == 0 {
        Seq::empty()
    } else {
        let rest = unknown_in_table(section, keys.drop_last(), known);
        if known.contains(keys.last()) {
            rest
        } else {
            rest.push(section + seq!['.'] + keys.last())
        }
    }
}

/// The unknown keys one top-level entry contributes: the entry itself when
/// it is neither a known key nor a known table, or the unknown keys inside
/// a known table. A known table name whose value is not a table
/// contributes nothing (the typed parse reports its shape).
pub open spec fn unknown_of_item(key: Seq<char>, table_keys: Option<Seq<Seq<char>>>) -> Seq<Seq<char>> {
    if key == "site"@ {
        match table_keys {
            Some(ks) => unknown_in_table(key, ks, site_keys()),
            None => Seq::empty(),
        }
    } else if key == "cache"@ {
        match table_keys {
            Some(ks) => unknown_in_table(key, ks, cache_keys()),
            None => Seq::empty(),
        }
    } else if top_level_keys().contains(key) {
        Seq::empty()
    } else {
        seq![key]
    }
}

/// The unknown keys of every entry, in order.
pub open spec fn unknown_of(items: Seq<(Seq<char>, Option<Seq<Seq<char>>>)>) -> Seq<Seq<char>>
    decreases items.len(),
{
    if items.len() == 0 {
        Seq::empty()
    } else {
        unknown_of(items.drop_last()) + unknown_of_item(items.last().0, items.last().1)
    }
}

/// The plain view of a table entry.
pub open spec fn item_view(i: TomlItem) -> (Seq<char>, Option<Seq<Seq<char>>>) {
    (
        i.key@,
        match i.table_keys {
            Some(ks) => Some(ks.deep_view()),
            None => None,
        },
    )
}

/// Whether `k` is one of `known`.
fn is_known(k: &str, known: &[&str]) -> (r: bool)
    ensures
        r == known@.map_values(|s: &str| s@).contains(k@),
{
    let ghost ks = known@.map_values(|s: &str| s@);
    let mut i: usize = 0;
    while i < known.len()
        invariant
            i <= known@.len(),
            ks == known@.map_values(|s: &str| s@),
            forall|j: int| 0 <= j < i ==> ks[j] != k@,
        decreases known@.len() - i,
    {
        if str_eq(known[i], k) {
            assert(ks[i as int] == k@);
            return true;
        }
        i = i + 1;
    }
    false
}

/// Appends the unknown keys among `keys` of the table `section`.
fn push_unknown_in_table(out: &mut Vec<String>, section: &str, keys: &Vec<String>, known: &[&str])
    requires
        known@.map_values(|s: &str| s@) == (if section@ == "site"@ {
            site_keys()
        } else {
            cache_keys()
        }),
    ensures
        final(out).deep_view() == old(out).deep_view() + unknown_in_table(
            section@,
            keys.deep_view(),
            known@.map_values(|s: &str| s@),
        ),
{
    let ghost ks = keys.deep_view();
    let ghost kn = known@.map_values(|s: &str| s@);
    let ghost start = out.deep_view();
    let mut i: usize = 0;
    assert(ks.take(0) == Seq::<Seq<char>>::empty());
    while i < keys.len()
        invariant
            i <= keys@.len(),
            ks == keys.deep_view(),
            kn == known@.map_values(|s: &str| s@),
            out.deep_view() == start + unknown_in_table(section@, ks.take(i as int), kn),
        decreases keys@.len() - i,
    {
        assert(ks.take(i + 1).drop_last() == ks.take(i as int));
        assert(ks.take(i + 1).last() == keys@[i as int]@);
        if !is_known(keys[i].as_str(), known) {
            let mut v: Vec<char> = Vec::new();
            push_str_chars(&mut v, section);
            v.push('.');
            push_str_chars(&mut v, keys[i].as_str());
            let ghost before = out.deep_view();
            let sv = string_of(v.as_slice());
            assert(sv@ == section@ + seq!['.'] + keys@[i as int]@);
            out.push(sv);
            assert(out.deep_view() =~= before.push(section@ + seq!['.'] + keys@[i as int]@));
        }
        i = i + 1;
    }
    assert(ks.take(i as int) == ks);
}

/// Keys present in the config file's table that no setting accepts, in
/// `section.key` form for the nested ones, in the table's order.
pub fn unknown_keys(items: &[TomlItem]) -> (r: Vec<String>)
    ensures
        r.deep_view() == unknown_of(items@.map_values(|i: TomlItem| item_view(i))),
{
    let ghost iv = items@.map_values(|i: TomlItem| item_view(i));
    let top: [&str; 5] = ["repo-root", "static-dir", "listen", "clone-url-base", "repository-sort"];
    let site: [&str; 6] = ["root-title", "root-desc", "root-readme", "logo", "logo-link", "favicon"];
    let cache: [&str; 3] = ["scan-ttl", "response-ttl", "response-max-bytes"];
    assert(top@.map_values(|s: &str| s@) == top_level_keys());
    assert(site@.map_values(|s: &str| s@) == site_keys());
    assert(cache@.map_values(|s: &str| s@) == cache_keys());
    let mut out: Vec<String> = Vec::new();
    let mut i: usize = 0;
    assert(iv.take(0) == Seq::<(Seq<char>, Option<Seq<Seq<char>>>)>::empty());
    while i < items.len()
        invariant
            i <= items@.len(),
            iv == items@.map_values(|i: TomlItem| item_view(i)),
            top@.map_values(|s: &str| s@) == top_level_keys(),
            site@.map_values(|s: &str| s@) == site_keys(),
            cache@.map_values(|s: &str| s@) == cache_keys(),
            out.deep_view() == unknown_of(iv.take(i as int)),
        decreases items@.len() - i,
    {
        assert(iv.take(i + 1).drop_last() == iv.take(i as int));
        assert(iv.take(i + 1).last() == item_view(items@[i as int]));
        let item = &items[i];
        let k = item.key.as_str();
        let ghost before = out.deep_view();
        if str_eq(k, "site") || str_eq(k, "cache") {
            let is_site = str_eq(k, "site");
            match &item.table_keys {
                Some(keys) => {
                    if is_site {
                        push_unknown_in_table(&mut out, k, keys, &site);
                    } else {
                        proof {
                            reveal_strlit("site");
                            reveal_strlit("cache");
                            assert(k@ != "site"@);
                        }
                        push_unknown_in_table(&mut out, k, keys, &cache);
                    }
                },
                None => {
                    assert(out.deep_view() == before + Seq::<Seq<char>>::empty());
                },
            }
        } else if is_known(k, &top) {
            assert(out.deep_view() == before + Seq::<Seq<char>>::empty());
        } else {
            out.push(crate::text::owned(k));
            assert(out.deep_view() == before + seq![k@]);
        }
        i = i + 1;
    }
    assert(iv.take(i as int) == iv);
    out
}

} // verus!
