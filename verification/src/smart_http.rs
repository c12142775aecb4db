//! Smart HTTP (clone and fetch only): which requests are served, the
//! repository a `{repo}.git` path names, the `Git-Protocol` values passed
//! on, gzip request bodies with their inflation cap, and the exact
//! `git upload-pack` invocation. Receive-pack is never served.
use std::io::Read;

use vstd::prelude::*;

use crate::error::ApiError;
use crate::text::{
    ascii_lower_seq, chars_of, chars_eq, ends_with_chars, is_suffix, lower_chars, owned,
    slice_chars, string_of,
};

verus! {

/// Content type of the ref advertisement.
pub const ADVERTISEMENT_CONTENT_TYPE: &'static str = "application/x-git-upload-pack-advertisement";

/// Content type of the negotiation result.
pub const RESULT_CONTENT_TYPE: &'static str = "application/x-git-upload-pack-result";

/// Upper bound for the (possibly gzipped) upload-pack request body.
pub const MAX_REQUEST_BODY: usize = 8388608;

/// Upper bound for the request body after gzip inflation.
pub const MAX_INFLATED_BODY: u64 = 67108864;

/// The pkt-line service header and flush-pkt that precede the ref
/// advertisement over HTTP: `001e# service=git-upload-pack\n0000`.
pub open spec fn preamble_bytes() -> Seq<u8> {
    seq![
        48u8, 48, 49, 101, 35, 32, 115, 101, 114, 118, 105, 99, 101, 61, 103, 105, 116, 45, 117,
        112, 108, 111, 97, 100, 45, 112, 97, 99, 107, 10, 48, 48, 48, 48,
    ]
}

/// The advertisement preamble (see [`preamble_bytes`]).
pub fn upload_pack_preamble() -> (r: Vec<u8>)
    ensures
        r@ == preamble_bytes(),
{
    let r: Vec<u8> = vec![
        48u8, 48, 49, 101, 35, 32, 115, 101, 114, 118, 105, 99, 101, 61, 103, 105, 116, 45, 117,
        112, 108, 111, 97, 100, 45, 112, 97, 99, 107, 10, 48, 48, 48, 48,
    ];
    assert(r@ =~= preamble_bytes());
    r
}

/// Which `service=` an info/refs request may name: only `git-upload-pack`.
/// `git-receive-pack` is `403 read_only`; anything else, a missing value
/// (the dumb protocol) included, is `400 invalid_param`.
pub fn check_service(service: Option<&str>) -> (r: Result<(), ApiError>)
    ensures
        service matches Some(s) && s@ == "git-upload-pack"@ ==> r is Ok,
        service matches Some(s) && s@ == "git-receive-pack"@ ==> r matches Err(ApiError::ReadOnly),
        !(service matches Some(s) && (s@ == "git-upload-pack"@ || s@ == "git-receive-pack"@)) ==> (r matches Err(
            ApiError::InvalidParam(d),
        ) && d@ == "smart HTTP requires service=git-upload-pack"@),
{
    proof {
        reveal_strlit("git-upload-pack");
        reveal_strlit("git-receive-pack");
        assert("git-upload-pack"@[4] != "git-receive-pack"@[4]);
    }
    match service {
        Some(s) => if crate::text::str_eq(s, "git-upload-pack") {
            Ok(())
        } else if crate::text::str_eq(s, "git-receive-pack") {
            Err(ApiError::ReadOnly)
        } else {
            Err(ApiError::InvalidParam(owned("smart HTTP requires service=git-upload-pack")))
        },
        None => Err(ApiError::InvalidParam(owned("smart HTTP requires service=git-upload-pack"))),
    }
}

/// `GET /{repo}.git/info/refs`: `?service=`.
#[derive(Debug, Clone, Default)]
pub struct InfoRefsQuery {
    pub service: Option<String>,
}

impl InfoRefsQuery {
    /// Whether the request may be answered (see [`check_service`]).
    pub fn check(&self) -> (r: Result<(), ApiError>)
        ensures
            self.service matches Some(s) && s@ == "git-upload-pack"@ ==> r is Ok,
            self.service matches Some(s) && s@ == "git-receive-pack"@ ==> r matches Err(ApiError::ReadOnly),
            !(self.service matches Some(s) && (s@ == "git-upload-pack"@ || s@ == "git-receive-pack"@)) ==> (r matches Err(
                ApiError::InvalidParam(d),
            ) && d@ == "smart HTTP requires service=git-upload-pack"@),
    {
        match &self.service {
            Some(s) => check_service(Some(s.as_str())),
            None => check_service(None),
        }
    }
}

/// The repository a `{repo}.git` path segment names: the segment without
/// its mandatory `.git` suffix, which must leave something.
pub open spec fn repo_name_of(repo_git: Seq<char>) -> Option<Seq<char>> {
    if is_suffix(".git"@, repo_git) && repo_git.len() > 4 {
        Some(repo_git.subrange(0, repo_git.len() - 4))
    } else {
        None
    }
}

/// The repository a `{repo}.git` path segment names (see
/// [`repo_name_of`]); anything else is reported as a missing repository.
pub fn repo_name(repo_git: &str) -> (r: Result<String, ApiError>)
    ensures
        match repo_name_of(repo_git@) {
            Some(n) => r matches Ok(s) && s@ == n,
            None => r matches Err(ApiError::RepoNotFound(x)) && x@ == repo_git@,
        },
{
    let v = chars_of(repo_git);
    let suffix = chars_of(".git");
    proof {
        reveal_strlit(".git");
    }
    if ends_with_chars(v.as_slice(), suffix.as_slice()) && v.len() > 4 {
        Ok(string_of(slice_chars(v.as_slice(), 0, v.len() - 4).as_slice()))
    } else {
        Err(ApiError::RepoNotFound(owned(repo_git)))
    }
}

/// A character a `Git-Protocol` value may hold: ASCII alphanumerics and
/// `=`, `:`, `_`, `-`.
pub open spec fn protocol_char(c: char) -> bool {
    ('a' <= c && c <= 'z') || ('A' <= c && c <= 'Z') || ('0' <= c && c <= '9') || c == '=' || c
        == ':' || c == '_' || c == '-'
}

/// Whether a `Git-Protocol` value is passed on to git: a protocol wish
/// list of 1 to 64 such characters.
pub open spec fn sane_protocol(v: Seq<char>) -> bool {
    1 <= v.len() <= 64 && forall|i: int| 0 <= i < v.len() ==> protocol_char(#[trigger] v[i])
}

/// The `Git-Protocol` value passed to git as `GIT_PROTOCOL`, from the
/// request header's value (`None` when absent or not visible ASCII);
/// anything unexpected is dropped rather than exported.
pub fn git_protocol(header: Option<&str>) -> (r: Option<String>)
    ensures
        match header {
            Some(v) => if sane_protocol(v@) {
                r matches Some(s) && s@ == v@
            } else {
                r is None
            },
            None => r is None,
        },
{
    match header {
        Some(v) => {
            let c = chars_of(v);
            if c.len() == 0 || c.len() > 64 {
                return None;
            }
            let mut i: usize = 0;
            while i < c.len()
                invariant
                    i <= c@.len(),
                    c@ == v@,
                    header == Some(v),
                    1 <= c@.len() <= 64,
                    forall|k: int| 0 <= k < i ==> protocol_char(#[trigger] c@[k]),
                decreases c@.len() - i,
            {
                let ch = c[i];
                if !(('a' <= ch && ch <= 'z') || ('A' <= ch && ch <= 'Z') || ('0' <= ch && ch <= '9')
                    || ch == '=' || ch == ':' || ch == '_' || ch == '-') {
                    assert(!protocol_char(v@[i as int]));
                    return None;
                }
                i = i + 1;
            }
            Some(owned(v))
        },
        None => None,
    }
}

/// At most the first `limit` bytes of what `flate2`'s gzip decoder reads
/// out of `body`, or `None` when it reports the data malformed.
pub uninterp spec fn gunzip_prefix(body: Seq<u8>, limit: u64) -> Option<Seq<u8>>;

/// Reads `flate2::read::GzDecoder` over `body`, taking at most `limit`
/// bytes (`Read::take`). The contract names the result and states the
/// documented cap on its length.
#[verifier::external_body]
fn gunzip(body: &[u8], limit: u64) -> (r: Option<Vec<u8>>)
    ensures
        match r {
            Some(v) => gunzip_prefix(body@, limit) == Some(v@) && v@.len() <= limit,
            None => gunzip_prefix(body@, limit) is None,
        },
{
    let mut inflated = Vec::new();
    match flate2::read::GzDecoder::new(body).take(limit).read_to_end(&mut inflated) {
        Ok(_) => Some(inflated),
        Err(_) => None,
    }
}

/// An upload-pack request ready for git: its body and the protocol value
/// to pass on.
#[derive(Debug)]
pub struct UploadPackRequest {
    pub body: Vec<u8>,
    pub protocol: Option<String>,
}

/// Whether a `Content-Encoding` value says gzip (in any ASCII case).
pub open spec fn is_gzip(encoding: Option<Seq<char>>) -> bool {
    encoding matches Some(e) && ascii_lower_seq(e) == "gzip"@
}

/// Prepares an upload-pack request: a gzip body (by `Content-Encoding`) is
/// inflated up to [`MAX_INFLATED_BODY`], a larger one rejected; malformed
/// gzip is rejected too; any other body passes through. The protocol value
/// is [`git_protocol`]'s.
pub fn inflate_if_gzip(content_encoding: Option<&str>, protocol_header: Option<&str>, body: Vec<u8>) -> (r:
    Result<UploadPackRequest, ApiError>)
    ensures
        !is_gzip(
            match content_encoding {
                Some(e) => Some(e@),
                None => None,
            },
        ) ==> (r matches Ok(req) && req.body@ == body@),
        is_gzip(
            match content_encoding {
                Some(e) => Some(e@),
                None => None,
            },
        ) ==> match gunzip_prefix(body@, (MAX_INFLATED_BODY + 1) as u64) {
            Some(b) => if b.len() > MAX_INFLATED_BODY {
                r matches Err(ApiError::InvalidParam(d)) && d@
                    == "request body too large after inflation"@
            } else {
                r matches Ok(req) && req.body@ == b
            },
            None => r matches Err(ApiError::InvalidParam(d)) && d@ == "malformed gzip request body"@,
        },
        r matches Ok(req) ==> match git_protocol_spec(protocol_header) {
            Some(p) => req.protocol matches Some(s) && s@ == p,
            None => req.protocol is None,
        },
{
    let protocol = git_protocol(protocol_header);
    let gzipped = match content_encoding {
        Some(e) => {
            let l = lower_chars(chars_of(e).as_slice());
            chars_eq(l.as_slice(), chars_of("gzip").as_slice())
        },
        None => false,
    };
    if gzipped {
        match gunzip(body.as_slice(), MAX_INFLATED_BODY + 1) {
            Some(inflated) => {
                if inflated.len() as u64 > MAX_INFLATED_BODY {
                    Err(ApiError::InvalidParam(owned("request body too large after inflation")))
                } else {
                    Ok(UploadPackRequest { body: inflated, protocol })
                }
            },
            None => Err(ApiError::InvalidParam(owned("malformed gzip request body"))),
        }
    } else {
        Ok(UploadPackRequest { body, protocol })
    }
}

/// [`git_protocol`]'s result as text.
pub open spec fn git_protocol_spec(header: Option<&str>) -> Option<Seq<char>> {
    match header {
        Some(v) => if sane_protocol(v@) {
            Some(v@)
        } else {
            None
        },
        None => None,
    }
}

/// The arguments of the `git` invocation: `upload-pack --stateless-rpc`,
/// `--advertise-refs` for the ref advertisement, then the git directory.
pub fn upload_pack_args(git_dir: &str, advertise: bool) -> (r: Vec<String>)
    ensures
        advertise ==> r.deep_view() == seq![
            "upload-pack"@,
            "--stateless-rpc"@,
            "--advertise-refs"@,
            git_dir@,
        ],
        !advertise ==> r.deep_view() == seq!["upload-pack"@, "--stateless-rpc"@, git_dir@],
{
    let mut args: Vec<String> = Vec::new();
    args.push(owned("upload-pack"));
    args.push(owned("--stateless-rpc"));
    if advertise {
        args.push(owned("--advertise-refs"));
    }
    args.push(owned(git_dir));
    proof {
        if advertise {
            assert(args.deep_view() =~= seq![
                "upload-pack"@,
                "--stateless-rpc"@,
                "--advertise-refs"@,
                git_dir@,
            ]);
        } else {
            assert(args.deep_view() =~= seq!["upload-pack"@, "--stateless-rpc"@, git_dir@]);
        }
    }
    args
}

} // verus!
