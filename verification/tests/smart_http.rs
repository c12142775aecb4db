use std::io::Write;

use axgit::error::ApiError;
use axgit::smart_http::{
    check_service, git_protocol, inflate_if_gzip, repo_name, upload_pack_args, upload_pack_preamble,
};

#[test]
fn preamble_length_matches_pkt_line_header() {
    let line_len = "# service=git-upload-pack\n".len() + 4;
    assert_eq!(line_len, 0x1e);
    let preamble = upload_pack_preamble();
    assert!(preamble.starts_with(b"001e"));
    assert!(preamble.ends_with(b"0000"));
    assert_eq!(preamble, b"001e# service=git-upload-pack\n0000".to_vec());
}

#[test]
fn repo_name_should_require_git_suffix() {
    assert_eq!(repo_name("alpha.git").unwrap(), "alpha");
    for invalid in ["alpha", ".git", "alpha.GIT", ""] {
        assert!(matches!(repo_name(invalid), Err(ApiError::RepoNotFound(_))), "{invalid:?} was not rejected");
    }
}

#[test]
fn git_protocol_should_pass_only_sane_values() {
    assert_eq!(git_protocol(None), None);
    assert_eq!(git_protocol(Some("version=2")), Some("version=2".to_owned()));
    for bad in ["version 2", "a".repeat(65).as_str(), "", "x;y"] {
        assert_eq!(git_protocol(Some(bad)), None, "{bad:?} was not dropped");
    }
}

#[test]
fn check_service_should_allow_only_upload_pack() {
    assert!(check_service(Some("git-upload-pack")).is_ok());
    assert!(matches!(check_service(Some("git-receive-pack")), Err(ApiError::ReadOnly)));
    assert!(matches!(
        check_service(None),
        Err(ApiError::InvalidParam(d)) if d == "smart HTTP requires service=git-upload-pack"
    ));
}

#[test]
fn inflate_if_gzip_should_pass_plain_bodies_through() {
    let request = inflate_if_gzip(None, None, b"0000".to_vec()).expect("plain body");
    assert_eq!(request.body, b"0000");
    assert_eq!(request.protocol, None);
}

#[test]
fn inflate_if_gzip_should_inflate_gzip_bodies() {
    let mut encoder = flate2::write::GzEncoder::new(Vec::new(), flate2::Compression::default());
    encoder.write_all(b"0009done\n").unwrap();
    let gzipped = encoder.finish().unwrap();

    let request = inflate_if_gzip(Some("gzip"), Some("version=2"), gzipped).expect("gzip body");
    assert_eq!(request.body, b"0009done\n");
    assert_eq!(request.protocol, Some("version=2".to_owned()));
}

#[test]
fn inflate_if_gzip_should_reject_malformed_gzip() {
    let result = inflate_if_gzip(Some("gzip"), None, b"not gzip".to_vec());
    assert!(matches!(result, Err(ApiError::InvalidParam(_))));
}

#[test]
fn upload_pack_args_should_name_the_git_dir_last() {
    assert_eq!(upload_pack_args("/r.git", true), vec!["upload-pack", "--stateless-rpc", "--advertise-refs", "/r.git"]);
    assert_eq!(upload_pack_args("/r.git", false), vec!["upload-pack", "--stateless-rpc", "/r.git"]);
}
