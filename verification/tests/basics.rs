use axgit::error::{invalid_param_quoting, ApiError};
use axgit::num::{decimal_string, mode_string, parse_u32, parse_usize};
use axgit::paths::{extension, file_name};
use axgit::text::{lines_of, words_of};

fn chars(s: &str) -> Vec<char> {
    s.chars().collect()
}

#[test]
fn errors_map_to_status_code_and_message() {
    let cases = [
        (ApiError::RepoNotFound("r".into()), 404, "repo_not_found", "repository 'r' not found"),
        (ApiError::RefNotFound("x".into()), 404, "ref_not_found", "ref 'x' not found"),
        (ApiError::PathNotFound("p".into()), 404, "path_not_found", "path 'p' not found"),
        (ApiError::ObjectNotFound("o".into()), 404, "object_not_found", "object 'o' not found"),
        (ApiError::NotFound, 404, "not_found", "not found"),
        (ApiError::InvalidParam("bad".into()), 400, "invalid_param", "invalid parameter: bad"),
        (ApiError::ReadOnly, 403, "read_only", "repository is read-only over HTTP; push via SSH"),
        (ApiError::Internal("secret".into()), 500, "internal", "internal server error"),
    ];
    for (e, status, code, message) in cases {
        assert_eq!(e.status_and_code(), (status, code));
        assert_eq!(e.client_message(), message);
    }
    assert!(matches!(invalid_param_quoting("a '", "v", "'"), ApiError::InvalidParam(d) if d == "a 'v'"));
}

#[test]
fn numbers_parse_and_print() {
    assert_eq!(parse_usize(&chars("42")), Some(42));
    assert_eq!(parse_usize(&chars("+7")), Some(7));
    assert_eq!(parse_usize(&chars("")), None);
    assert_eq!(parse_usize(&chars("-1")), None);
    assert_eq!(parse_u32(&chars("4294967295")), Some(u32::MAX));
    assert_eq!(parse_u32(&chars("4294967296")), None);
    assert_eq!(decimal_string(0), "0");
    assert_eq!(decimal_string(1_753_000_000), "1753000000");
    assert_eq!(mode_string(0o100644), "100644");
    assert_eq!(mode_string(0o40000), "040000");
    assert_eq!(mode_string(0o160000), "160000");
}

#[test]
fn path_names_and_extensions() {
    assert_eq!(file_name("/srv/README.md"), Some("README.md".to_owned()));
    assert_eq!(file_name("/srv/dir/"), Some("dir".to_owned()));
    assert_eq!(file_name("a/.."), None);
    assert_eq!(file_name("/"), None);
    assert_eq!(extension("a/b.tar.gz"), Some("gz".to_owned()));
    assert_eq!(extension("a/.bashrc"), None);
    assert_eq!(extension("a/b"), None);
    assert_eq!(extension("a/b."), Some("".to_owned()));
}

#[test]
fn text_helpers_split_lines_and_words() {
    let lines: Vec<String> = lines_of(&chars("a\r\nb\n\nc")).iter().map(|l| l.iter().collect()).collect();
    assert_eq!(lines, ["a", "b", "", "c"]);
    let words: Vec<String> = words_of(&chars("  x\ty  z ")).iter().map(|w| w.iter().collect()).collect();
    assert_eq!(words, ["x", "y", "z"]);
}
