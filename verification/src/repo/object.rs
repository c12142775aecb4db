//! Object-by-id lookups: the full-id rule that makes every such response
//! immutable, and the response shapes.
use vstd::prelude::*;

use crate::error::{invalid_param_quoting, ApiError};
use crate::repo::blob::{classify, is_binary, is_too_large};
use crate::repo::commits::CommitAuthor;
use crate::repo::tag::{ObjectKind, TagObject};
use crate::repo::tree::TreeEntryInfo;
use crate::text::{ascii_lower_seq, chars_of, is_hex_char, lossy_utf8, lower_chars, string_of};

verus! {

/// Blob payload of the object endpoint.
#[derive(Debug)]
pub struct ObjectBlob {
    /// Full size in bytes, regardless of `too_large`.
    pub size: u64,
    pub binary: bool,
    pub too_large: bool,
    /// UTF-8 content; `None` when `binary` or `too_large`.
    pub content: Option<String>,
}

/// Tree payload of the object endpoint.
#[derive(Debug)]
pub struct ObjectTree {
    /// Trees first, then by name ascending.
    pub entries: Vec<TreeEntryInfo>,
}

/// Tag payload of the object endpoint.
#[derive(Debug)]
pub struct ObjectTag {
    pub object: TagObject,
    pub target: Option<String>,
    pub message: Option<String>,
    pub tagger: Option<CommitAuthor>,
    pub tagged_at: Option<String>,
}

/// Response of the object endpoint: one envelope, only the payload of the
/// object's kind filled.
#[derive(Debug)]
pub struct ObjectDetail {
    pub sha: String,
    pub kind: ObjectKind,
    pub tree: Option<ObjectTree>,
    pub blob: Option<ObjectBlob>,
    pub tag: Option<ObjectTag>,
}

/// Blob bytes of the raw object endpoint.
#[derive(Debug)]
pub struct RawObject {
    pub bytes: Vec<u8>,
    pub binary: bool,
}

/// A full object id: 40 hex digits, either case.
pub open spec fn is_full_hex_oid(s: Seq<char>) -> bool {
    s.len() == 40 && forall|i: int| 0 <= i < s.len() ==> is_hex_char(#[trigger] s[i])
}

/// Parses a full 40-digit object id (either case) into its canonical
/// lowercase text. An abbreviation, or anything else, is `400
/// invalid_param`: requiring the full id is what lets every by-id response
/// be cached as immutable.
pub fn parse_full_oid(raw: &str) -> (r: Result<String, ApiError>)
    ensures
        is_full_hex_oid(raw@) ==> (r matches Ok(s) && s@ == ascii_lower_seq(raw@)),
        !is_full_hex_oid(raw@) ==> (r matches Err(ApiError::InvalidParam(d)) && d@ == "'"@ + raw@
            + "' is not a full 40-character object id"@),
{
    let v = chars_of(raw);
    let mut ok = v.len() == 40;
    let mut i: usize = 0;
    while i < v.len()
        invariant
            i <= v@.len(),
            v@ == raw@,
            ok == (v@.len() == 40 && forall|k: int| 0 <= k < i ==> is_hex_char(#[trigger] v@[k])),
        decreases v@.len() - i,
    {
        let c = v[i];
        if !(('0' <= c && c <= '9') || ('a' <= c && c <= 'f') || ('A' <= c && c <= 'F')) {
            ok = false;
        }
        i = i + 1;
    }
    if ok {
        Ok(string_of(lower_chars(v.as_slice()).as_slice()))
    } else {
        Err(invalid_param_quoting("'", raw, "' is not a full 40-character object id"))
    }
}

/// The blob payload for a blob's content; `git_binary` is git's own binary
/// verdict on it.
pub fn object_blob(content: &[u8], git_binary: bool) -> (r: ObjectBlob)
    requires
        content@.len() <= u64::MAX,
    ensures
        r.size == content@.len(),
        r.binary == is_binary(content@, git_binary),
        r.too_large == is_too_large(content@),
        (r.binary || r.too_large) ==> r.content is None,
        !(r.binary || r.too_large) ==> (r.content matches Some(t) && t@ == vstd::utf8::decode_utf8(
            content@,
        )),
{
    let (binary, too_large) = classify(content, git_binary);
    let text = if !binary && !too_large {
        Some(lossy_utf8(content))
    } else {
        None
    };
    ObjectBlob { size: content.len() as u64, binary, too_large, content: text }
}


/// The envelope carries exactly the payload of its kind: a tree's entries
/// for a tree, a blob's payload for a blob, a tag's for a tag, none for a
/// commit.
pub open spec fn envelope_matches(d: ObjectDetail) -> bool {
    &&& d.tree is Some <==> d.kind == ObjectKind::Tree
    &&& d.blob is Some <==> d.kind == ObjectKind::Blob
    &&& d.tag is Some <==> d.kind == ObjectKind::Tag
}

impl ObjectDetail {
    /// The envelope of a tree object.
    pub fn tree_object(sha: String, entries: Vec<TreeEntryInfo>) -> (r: ObjectDetail)
        ensures
            envelope_matches(r),
            r.sha == sha,
            r.kind == ObjectKind::Tree,
            r.tree matches Some(t) && t.entries == entries,
    {
        ObjectDetail { sha, kind: ObjectKind::Tree, tree: Some(ObjectTree { entries }), blob: None, tag: None }
    }

    /// The envelope of a blob object, with its payload (see [`object_blob`]).
    pub fn blob_object(sha: String, content: &[u8], git_binary: bool) -> (r: ObjectDetail)
        requires
            content@.len() <= u64::MAX,
        ensures
            envelope_matches(r),
            r.sha == sha,
            r.kind == ObjectKind::Blob,
            r.blob matches Some(b) && {
                &&& b.size == content@.len()
                &&& b.binary == is_binary(content@, git_binary)
                &&& b.too_large == is_too_large(content@)
                &&& (b.binary || b.too_large) ==> b.content is None
                &&& !(b.binary || b.too_large) ==> (b.content matches Some(t) && t@ == vstd::utf8::decode_utf8(
                    content@,
                ))
            },
    {
        let payload = object_blob(content, git_binary);
        ObjectDetail { sha, kind: ObjectKind::Blob, tree: None, blob: Some(payload), tag: None }
    }

    /// The envelope of a commit object: the kind alone.
    pub fn commit_object(sha: String) -> (r: ObjectDetail)
        ensures
            envelope_matches(r),
            r.sha == sha,
            r.kind == ObjectKind::Commit,
    {
        ObjectDetail { sha, kind: ObjectKind::Commit, tree: None, blob: None, tag: None }
    }

    /// The envelope of a tag object, with its payload.
    pub fn tag_object(sha: String, tag: ObjectTag) -> (r: ObjectDetail)
        ensures
            envelope_matches(r),
            r.sha == sha,
            r.kind == ObjectKind::Tag,
            r.tag == Some(tag),
    {
        ObjectDetail { sha, kind: ObjectKind::Tag, tree: None, blob: None, tag: Some(tag) }
    }
}

} // verus!
