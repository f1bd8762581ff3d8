use axum::http::Uri;
use git_read_only_proxy::filter::is_outgoing_write;
use git_read_only_proxy::filter::is_write_operation;
use git_read_only_proxy::filter::is_write_target;

fn uri(s: &str) -> Uri {
    s.parse().expect("valid URI")
}

#[test]
fn fetch_info_refs_is_allowed() {
    assert!(!is_write_operation(&uri(
        "/repo.git/info/refs?service=git-upload-pack"
    )));
}

#[test]
fn upload_pack_post_is_allowed() {
    assert!(!is_write_operation(&uri("/repo.git/git-upload-pack")));
}

#[test]
fn static_file_get_is_allowed() {
    assert!(!is_write_operation(&uri("/repo.git/HEAD")));
}

#[test]
fn receive_pack_post_is_blocked() {
    assert!(is_write_operation(&uri("/repo.git/git-receive-pack")));
}

#[test]
fn receive_pack_info_refs_is_blocked() {
    assert!(is_write_operation(&uri(
        "/repo.git/info/refs?service=git-receive-pack"
    )));
}

#[test]
fn receive_pack_with_multiple_params_is_blocked() {
    assert!(is_write_operation(&uri(
        "/repo.git/info/refs?foo=bar&service=git-receive-pack"
    )));
}

#[test]
fn upload_pack_service_in_path_is_allowed() {
    // Path contains "git-receive-pack" only as a repo name prefix, not as
    // the final path segment → must NOT be blocked.
    assert!(!is_write_operation(&uri(
        "/git-receive-pack-mirror.git/info/refs?service=git-upload-pack"
    )));
}

#[test]
fn root_path_is_allowed() {
    assert!(!is_write_operation(&uri("/")));
}

#[test]
fn absolute_uris_are_judged_by_their_path_and_query() {
    assert!(is_write_operation(&uri("http://host/repo.git/git-receive-pack")));
    assert!(is_write_operation(&uri("http://host?service=git-receive-pack")));
    assert!(!is_write_operation(&uri("http://host/repo.git/HEAD")));
}

#[test]
fn a_uri_without_a_path_is_allowed() {
    assert!(!is_write_operation(&uri("git-receive-pack:443")));
    assert!(!is_write_operation(&uri("*")));
}

#[test]
fn fragments_are_not_part_of_the_query() {
    assert!(is_write_operation(&uri("/a/info/refs?service=git-receive-pack#x")));
    assert!(is_write_operation(&uri("/a/git-receive-pack#x")));
}

#[test]
fn outgoing_urls_are_judged_as_the_client_makes_them() {
    assert!(is_outgoing_write("http://up/r.git/git-receive-pack"));
    assert!(is_outgoing_write(r"http://up/r.git\git-receive-pack"));
    assert!(is_outgoing_write(r"https://up\git-receive-pack?a#b"));
    assert!(is_outgoing_write("http://up/a/../git-receive-pack"));
    assert!(is_outgoing_write("http://up/x?service=git-receive-pack#y"));
    assert!(!is_outgoing_write("http://up/git-receive-pack/../HEAD"));
    assert!(!is_outgoing_write("http://up/x?service=git-upload-pack"));
    assert!(!is_outgoing_write("/r.git/git-receive-pack"));
}

#[test]
fn only_the_last_segment_of_the_path_counts() {
    assert!(is_write_target("/git-receive-pack", None));
    assert!(is_write_target("/a/b/git-receive-pack", Some("x=y")));
    assert!(!is_write_target("git-receive-pack", None));
    assert!(!is_write_target("/a/my-git-receive-pack", None));
    assert!(!is_write_target("/git-receive-pack/", None));
    assert!(!is_write_target("/GIT-RECEIVE-PACK", None));
    assert!(!is_write_target("", None));
}

#[test]
fn only_a_whole_parameter_counts() {
    assert!(is_write_target("/", Some("service=git-receive-pack")));
    assert!(is_write_target("/", Some("service=git-receive-pack&a=b")));
    assert!(is_write_target("/", Some("&&service=git-receive-pack&")));
    assert!(!is_write_target("/", Some("service=git-receive-packs")));
    assert!(!is_write_target("/", Some("xservice=git-receive-pack")));
    assert!(!is_write_target("/", Some("service=git-receive-pack;a=b")));
    assert!(!is_write_target("/", Some("service=git-receive&-pack")));
    assert!(!is_write_target("/", Some("")));
}

#[test]
fn a_query_may_be_cut_at_any_ampersand() {
    let push = "service=git-receive-pack";
    for (a, b) in [("a=b", "c"), ("a=b", push), (push, "c"), ("", push), ("x&y", "z")] {
        let whole = format!("{}&{}", a, b);
        assert_eq!(
            is_write_target("/", Some(whole.as_str())),
            is_write_target("/", Some(a)) || is_write_target("/", Some(b))
        );
    }
}
