//! Repository-facing logic: everything that turns git data, already read
//! off disk by the caller, into API responses.
use vstd::prelude::*;

pub mod blame;
pub mod blob;
pub mod commits;
pub mod diff;
pub mod meta;
pub mod object;
pub mod open;
pub mod readme;
pub mod refs;
pub mod resolve;
pub mod scan;
pub mod search;
pub mod sort;
pub mod stats;
pub mod submodule;
pub mod tag;
pub mod tree;

verus! {

/// One entry of the repository list.
#[derive(Debug, Clone)]
pub struct RepoInfo {
    /// Repository name without the `.git` suffix.
    pub name: String,
    /// From the repo config's `[axgit]` section, falling back to `[cgit]`.
    pub section: Option<String>,
    /// From the repo config's `[axgit]` section, falling back to `[cgit]`.
    pub owner: Option<String>,
    /// From the repo config's `[axgit]` section, falling back to `[cgit]`.
    pub description: Option<String>,
    /// An `http(s)://` URL, or `None`.
    pub homepage: Option<String>,
    /// `None` for empty repositories (unborn HEAD).
    pub default_branch: Option<String>,
    /// RFC 3339; `None` for empty repositories without an agefile.
    pub last_modified: Option<String>,
}

/// The summary of one repository.
#[derive(Debug)]
pub struct RepoSummary {
    pub name: String,
    pub section: Option<String>,
    pub owner: Option<String>,
    pub description: Option<String>,
    /// An `http(s)://` URL, or `None`.
    pub homepage: Option<String>,
    pub default_branch: Option<String>,
    pub last_modified: Option<String>,
    /// HEAD commit sha; `None` for empty repositories (unborn HEAD).
    pub head: Option<String>,
    pub branch_count: usize,
    pub tag_count: usize,
    /// `{clone_url_base}/{name}.git`; `None` when no base is configured.
    pub clone_url: Option<String>,
}

} // verus!
