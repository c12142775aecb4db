//! Which `{repo}` names may be opened at all, and where they live under the
//! repository root.
use vstd::prelude::*;

use crate::error::{invalid_param_quoting, ApiError};
use crate::text::{chars_of, owned, push_str_chars, string_of};

verus! {

/// Whether a `{repo}` name is acceptable: not empty, not starting with `.`,
/// and free of `/` and `\`, so that it cannot leave the repository root.
pub open spec fn valid_repo_name(name: Seq<char>) -> bool {
    name.len() > 0 && name[0] != '.' && forall|i: int|
        0 <= i < name.len() ==> #[trigger] name[i] != '/' && name[i] != '\\'
}

/// Checks a `{repo}` name (untrusted input) before anything is opened.
pub fn check_repo_name(name: &str) -> (r: Result<(), ApiError>)
    ensures
        valid_repo_name(name@) ==> r is Ok,
        !valid_repo_name(name@) ==> (r matches Err(ApiError::InvalidParam(d)) && d@
            == "invalid repository name '"@ + name@ + "'"@),
{
    let v = chars_of(name);
    let mut ok = v.len() > 0 && v[0] != '.';
    let mut i: usize = 0;
    while i < v.len()
        invariant
            i <= v@.len(),
            v@ == name@,
            ok == (v@.len() > 0 && v@[0] != '.' && forall|k: int|
                0 <= k < i ==> #[trigger] v@[k] != '/' && v@[k] != '\\'),
        decreases v@.len() - i,
    {
        if v[i] == '/' || v[i] == '\\' {
            ok = false;
        }
        i = i + 1;
    }
    if ok {
        Ok(())
    } else {
        Err(invalid_param_quoting("invalid repository name '", name, "'"))
    }
}

/// The directory of a repository under the root: `{name}.git`.
pub fn repo_dir_name(name: &str) -> (r: String)
    ensures
        r@ == name@ + ".git"@,
{
    let mut out: Vec<char> = Vec::new();
    push_str_chars(&mut out, name);
    push_str_chars(&mut out, ".git");
    string_of(out.as_slice())
}

/// The outcome of opening a named repository: a repository that did not
/// open, or that is `ignore`d, is reported missing.
pub fn open_outcome(name: &str, opened: bool, ignored: bool) -> (r: Result<(), ApiError>)
    ensures
        (opened && !ignored) ==> r is Ok,
        !(opened && !ignored) ==> (r matches Err(ApiError::RepoNotFound(n)) && n@ == name@),
{
    if opened && !ignored {
        Ok(())
    } else {
        Err(ApiError::RepoNotFound(owned(name)))
    }
}

} // verus!
