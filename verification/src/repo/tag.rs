//! Tag detail: what a tag points at one dereference in, its peeled commit,
//! and its message.
use vstd::prelude::*;

use crate::repo::commits::{note_text, CommitAuthor};
use crate::text::{chars_of, owned, push_str_chars, slice_chars, string_of, strip_both, strip_bounds};

verus! {

/// What kind of object a tag's one-level dereference points at.
#[derive(Debug, Clone, Copy, PartialEq, Eq, Structural)]
pub enum ObjectKind {
    Commit,
    Tree,
    Blob,
    Tag,
}

/// An object's type as git reports it.
#[derive(Debug, Clone, Copy, PartialEq, Eq, Structural)]
pub enum ObjectType {
    Any,
    Commit,
    Tree,
    Blob,
    Tag,
}

/// The kind reported for a git object type; a commit, and the never-peeled
/// `Any`, are commits.
pub open spec fn kind_of_type(t: ObjectType) -> ObjectKind {
    match t {
        ObjectType::Tree => ObjectKind::Tree,
        ObjectType::Blob => ObjectKind::Blob,
        ObjectType::Tag => ObjectKind::Tag,
        _ => ObjectKind::Commit,
    }
}

/// The kind reported for a git object type (see [`kind_of_type`]).
pub fn object_kind(kind: ObjectType) -> (r: ObjectKind)
    ensures
        r == kind_of_type(kind),
{
    match kind {
        ObjectType::Tree => ObjectKind::Tree,
        ObjectType::Blob => ObjectKind::Blob,
        ObjectType::Tag => ObjectKind::Tag,
        _ => ObjectKind::Commit,
    }
}

/// The object a tag points at, one dereference in.
#[derive(Debug)]
pub struct TagObject {
    pub sha: String,
    pub kind: ObjectKind,
}

/// Tag detail.
#[derive(Debug)]
pub struct TagDetail {
    pub name: String,
    /// The annotated tag object's own sha; `None` for a lightweight tag.
    pub tag_object: Option<String>,
    /// One dereference of the tag.
    pub object: TagObject,
    /// Fully peeled commit sha; `None` when the chain never reaches one.
    pub target: Option<String>,
    /// Full message, trailing whitespace trimmed; `None` for a lightweight
    /// tag, a non-UTF-8 message, or an all-whitespace one.
    pub message: Option<String>,
    /// `None` for a lightweight tag, or one with no tagger line.
    pub tagger: Option<CommitAuthor>,
    pub tagged_at: Option<String>,
}

/// A tag name as looked up: surrounding `/`s trimmed.
pub fn tag_name(name: &str) -> (r: String)
    ensures
        r@ == strip_both(name@, '/'),
{
    let v = chars_of(name);
    let (a, b) = strip_bounds(v.as_slice(), '/');
    string_of(slice_chars(v.as_slice(), a, b).as_slice())
}

/// The full ref name of a tag: `refs/tags/{name}`.
pub fn tag_ref_name(name: &str) -> (r: String)
    ensures
        r@ == "refs/tags/"@ + name@,
{
    let mut out: Vec<char> = Vec::new();
    push_str_chars(&mut out, "refs/tags/");
    push_str_chars(&mut out, name);
    string_of(out.as_slice())
}

/// A tag message as shown: trailing whitespace trimmed, and a missing or
/// all-whitespace message is none.
pub fn tag_message(message: Option<&str>) -> (r: Option<String>)
    ensures
        match message {
            Some(m) => match note_text(m@) {
                Some(t) => r matches Some(s) && s@ == t,
                None => r is None,
            },
            None => r is None,
        },
{
    match message {
        Some(m) => crate::repo::commits::note_from_message(m),
        None => None,
    }
}

} // verus!
