//! Axgit's request-independent logic: URL and path shapes, query-parameter
//! parsing, cache validators, markup building, the `.gitmodules` parser,
//! repository ordering, and the bookkeeping that turns git data into API
//! responses. Everything that touches the network, the filesystem or a git
//! repository on disk lives outside this crate and hands plain values in.
use vstd::prelude::*;

pub mod assets;
pub mod branding;
pub mod cache;
pub mod cgit_compat;
pub mod config;
pub mod error;
pub mod escape;
pub mod handlers;
pub mod hex;
pub mod num;
pub mod paths;
pub mod repo;
pub mod shell;
pub mod site;
pub mod smart_http;
pub mod text;
pub mod time;

verus! {

} // verus!
