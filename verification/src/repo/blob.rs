//! Blob reads: which blobs are inlined as text, and the shapes of the blob
//! and raw responses.
use vstd::prelude::*;

use crate::error::ApiError;
use crate::num::{mode_string, octal6};
use crate::text::{is_valid_utf8, lossy_utf8, owned};

verus! {

/// Inline-content cap for blob and readme JSON; larger files are raw-only.
pub const BLOB_CONTENT_LIMIT: usize = 1048576;

/// Response of the blob endpoint.
#[derive(Debug)]
pub struct BlobInfo {
    /// Resolved commit sha the blob was read from.
    pub sha: String,
    pub path: String,
    /// Octal file mode, e.g. `"100644"` (`"120000"` for symlinks).
    pub mode: String,
    pub size: u64,
    pub binary: bool,
    pub too_large: bool,
    /// UTF-8 content; `None` when `binary` or `too_large`.
    pub content: Option<String>,
}

/// Raw blob bytes for the raw endpoint.
#[derive(Debug)]
pub struct RawBlob {
    pub bytes: Vec<u8>,
    pub binary: bool,
}

/// A blob path must name something: the empty path is the root tree, never
/// a blob.
pub fn check_blob_path(path: &str) -> (r: Result<(), ApiError>)
    ensures
        path@.len() == 0 ==> (r matches Err(ApiError::PathNotFound(p)) && p@ == path@),
        path@.len() > 0 ==> r is Ok,
{
    let v = crate::text::chars_of(path);
    if v.len() == 0 {
        Err(ApiError::PathNotFound(owned(path)))
    } else {
        Ok(())
    }
}

/// Whether content is too large to inline.
pub open spec fn is_too_large(content: Seq<u8>) -> bool {
    content.len() > BLOB_CONTENT_LIMIT
}

/// Whether content is binary: git says so, or it is small enough to inline
/// and not UTF-8 (large content is never inlined, so its text-ness does not
/// matter).
pub open spec fn is_binary(content: Seq<u8>, git_binary: bool) -> bool {
    git_binary || (!is_too_large(content) && !vstd::utf8::valid_utf8(content))
}

/// The `(binary, too_large)` classification shared by the blob, raw and
/// blame reads; `git_binary` is git's own binary verdict on the blob.
pub fn classify(content: &[u8], git_binary: bool) -> (r: (bool, bool))
    ensures
        r == (is_binary(content@, git_binary), is_too_large(content@)),
{
    let too_large = content.len() > BLOB_CONTENT_LIMIT;
    let binary = git_binary || (!too_large && !is_valid_utf8(content));
    (binary, too_large)
}

/// The blob response for a blob read at `path` of commit `sha`.
pub fn read_blob(sha: String, path: String, mode: u32, content: Vec<u8>, git_binary: bool) -> (r:
    BlobInfo)
    requires
        content@.len() <= u64::MAX,
    ensures
        r.sha == sha,
        r.path == path,
        r.mode@ == octal6(mode as nat),
        r.size == content@.len(),
        r.binary == is_binary(content@, git_binary),
        r.too_large == is_too_large(content@),
        (r.binary || r.too_large) ==> r.content is None,
        !(r.binary || r.too_large) ==> (r.content matches Some(t) && t@ == vstd::utf8::decode_utf8(
            content@,
        )),
{
    let (binary, too_large) = classify(content.as_slice(), git_binary);
    let text = if !binary && !too_large {
        Some(lossy_utf8(content.as_slice()))
    } else {
        None
    };
    BlobInfo {
        sha,
        path,
        mode: mode_string(mode),
        size: content.len() as u64,
        binary,
        too_large,
        content: text,
    }
}

} // verus!
