use axum::http::HeaderMap;
use axum::http::HeaderName;
use axum::http::HeaderValue;
use axum::http::Method;
use axum::http::Uri;
use git_read_only_proxy::config::parse_upstream;
use git_read_only_proxy::filter::is_write_operation;
use git_read_only_proxy::filter::is_write_target;
use git_read_only_proxy::message::Header;
use git_read_only_proxy::message::IncomingRequest;
use git_read_only_proxy::message::OutgoingRequest;
use git_read_only_proxy::message::PlainResponse;
use git_read_only_proxy::message::Upstream;
use git_read_only_proxy::proxy::internal_error;
use git_read_only_proxy::proxy::is_hop_by_hop;
use git_read_only_proxy::proxy::keep_end_to_end;
use git_read_only_proxy::proxy::keep_forwarded;
use git_read_only_proxy::proxy::on_body;
use git_read_only_proxy::proxy::on_request;
use git_read_only_proxy::proxy::on_upstream;
use git_read_only_proxy::proxy::plain_response;
use git_read_only_proxy::proxy::plan_decided;
use git_read_only_proxy::proxy::plan_request;
use git_read_only_proxy::proxy::read_request;
use git_read_only_proxy::proxy::read_upstream;
use git_read_only_proxy::proxy::relay_head;
use git_read_only_proxy::proxy::ProxyState;
use git_read_only_proxy::proxy::Reply;
use git_read_only_proxy::proxy::Step;
use git_read_only_proxy::proxy::MAX_REQUEST_BODY;

fn state(upstream: &str) -> ProxyState {
    ProxyState {
        upstream: parse_upstream(upstream).expect("valid URL"),
        client: reqwest::Client::new(),
    }
}

fn headers(fields: &[(&str, &str)]) -> HeaderMap {
    let mut map = HeaderMap::new();
    for (name, value) in fields {
        map.append(
            HeaderName::from_bytes(name.as_bytes()).unwrap(),
            HeaderValue::from_str(value).unwrap(),
        );
    }
    map
}

fn list(fields: &[(&str, &str)]) -> Vec<Header> {
    fields
        .iter()
        .map(|(name, value)| Header {
            name: name.to_string(),
            value: value.as_bytes().to_vec(),
        })
        .collect()
}

fn pairs(headers: &[Header]) -> Vec<(String, String)> {
    headers
        .iter()
        .map(|h| (h.name.clone(), String::from_utf8(h.value.clone()).unwrap()))
        .collect()
}

fn owned(fields: &[(&str, &str)]) -> Vec<(String, String)> {
    fields
        .iter()
        .map(|(name, value)| (name.to_string(), value.to_string()))
        .collect()
}

fn request(upstream: &str, method: &str, uri: &str, fields: &[(&str, &str)]) -> Step {
    let method = Method::from_bytes(method.as_bytes()).unwrap();
    let uri: Uri = uri.parse().unwrap();
    on_request(&state(upstream), &method, &uri, &headers(fields))
}

fn proceeds(step: Step) -> OutgoingRequest {
    match step {
        Step::Proceed(out) => out,
        Step::Respond(r) => panic!("{} {}", r.status, r.body),
    }
}

fn responds(step: Step) -> PlainResponse {
    match step {
        Step::Respond(r) => r,
        Step::Proceed(out) => panic!("{}", out.url),
    }
}

fn plain(method: &str, target: &str) -> IncomingRequest {
    IncomingRequest {
        method: method.to_string(),
        path: target.to_string(),
        query: None,
        path_and_query: Some(target.to_string()),
        headers: Vec::new(),
    }
}

fn upstream() -> Upstream {
    Upstream {
        url: "http://up/".to_string(),
        host: Some("up".to_string()),
        port: None,
    }
}

#[test]
fn hop_by_hop_headers_are_detected() {
    assert!(is_hop_by_hop("connection"));
    assert!(is_hop_by_hop("transfer-encoding"));
    assert!(is_hop_by_hop("keep-alive"));
    assert!(!is_hop_by_hop("content-type"));
    assert!(!is_hop_by_hop("authorization"));
    assert!(!is_hop_by_hop("content-length"));
}

#[test]
fn all_hop_by_hop_headers_are_known() {
    for name in [
        "connection",
        "keep-alive",
        "proxy-authenticate",
        "proxy-authorization",
        "te",
        "trailers",
        "transfer-encoding",
        "upgrade",
    ] {
        assert!(is_hop_by_hop(name));
    }
    assert!(!is_hop_by_hop("host"));
    assert!(!is_hop_by_hop(""));
    assert!(!is_hop_by_hop("Connection"));
    assert!(!is_hop_by_hop("connections"));
}

#[test]
fn pushes_are_refused_whatever_the_method() {
    for method in ["GET", "POST", "BREW"] {
        for uri in ["/r.git/git-receive-pack", "/r.git/info/refs?service=git-receive-pack"] {
            let r = responds(request("http://up", method, uri, &[("accept", "*/*")]));
            assert_eq!(r.status, 403);
            assert_eq!(r.content_type, "text/plain; charset=utf-8");
            assert_eq!(r.body, "Push operations are not supported by this read-only proxy\n");
        }
    }
}

#[test]
fn what_goes_out_as_a_push_is_refused() {
    for base in ["http://up/", "https://up/git/"] {
        for uri in [
            r"/repo.git\git-receive-pack?x=y",
            "/repo.git/x/../git-receive-pack",
            "/repo.git/git-receive-pack/x/../../git-receive-pack",
            r"/\git-receive-pack",
        ] {
            assert_eq!(responds(request(base, "GET", uri, &[])).status, 403);
        }
        let r = responds(request(base, "POST", r"/repo.git\git-receive-pack", &[]));
        assert_eq!(r.status, 403);
        assert_eq!(r.body, "Push operations are not supported by this read-only proxy\n");
        proceeds(request(base, "POST", r"/repo.git\git-upload-pack", &[]));
    }
}

#[test]
fn a_base_may_make_a_push_of_a_target() {
    responds(request("http://up/r.git/git-receive-pack", "GET", "http://host?x", &[]));
    responds(request("http://up/?service=git-receive-pack&x=", "GET", "/HEAD", &[]));
    proceeds(request("http://up/r.git/git-upload-pack", "GET", "http://host?x", &[]));
}

#[test]
fn fetches_proceed_to_the_upstream() {
    let out = proceeds(request(
        "http://127.0.0.1:8080/",
        "GET",
        "/r.git/info/refs?service=git-upload-pack",
        &[("host", "proxy"), ("accept", "*/*"), ("te", "trailers"), ("git-protocol", "version=2")],
    ));
    assert_eq!(out.method, "GET");
    assert_eq!(out.url, "http://127.0.0.1:8080/r.git/info/refs?service=git-upload-pack");
    assert_eq!(
        pairs(&out.headers),
        owned(&[("accept", "*/*"), ("git-protocol", "version=2"), ("host", "127.0.0.1:8080")])
    );
    assert!(out.body.is_none());
}

#[test]
fn every_method_is_handed_on() {
    for method in ["GET", "POST", "OPTIONS", "BREW", "a!#$%&'*+-.^_`|~9"] {
        assert_eq!(proceeds(request("http://up", method, "/x", &[])).method, method);
    }
}

#[test]
fn the_upstream_may_have_a_path_and_slashes() {
    for base in ["http://up/git", "http://up/git/", "http://up/git///"] {
        assert_eq!(proceeds(request(base, "GET", "/r?q", &[])).url, "http://up/git/r?q");
    }
    let bare = proceeds(request("http://up", "GET", "/r?q", &[]));
    assert_eq!(bare.url, "http://up/r?q");
}

#[test]
fn a_target_without_a_path_goes_to_the_root() {
    assert_eq!(proceeds(request("http://up", "CONNECT", "host:443", &[])).url, "http://up/");
    assert_eq!(proceeds(request("http://up", "GET", "http://host", &[])).url, "http://up/");
}

#[test]
fn a_target_is_sent_as_it_was_written() {
    assert_eq!(proceeds(request("http://up", "GET", "http://host?a=b", &[])).url, "http://up?a=b");
    assert_eq!(proceeds(request("http://up", "GET", "http://host/x?a", &[])).url, "http://up/x?a");
    assert_eq!(proceeds(request("https://h/base/", "OPTIONS", "*", &[])).url, "https://h/base*");
    assert_eq!(proceeds(request("http://up/?a", "OPTIONS", "*", &[])).url, "http://up/?a*");
    assert_eq!(proceeds(request("http://up/#a", "OPTIONS", "*", &[])).url, "http://up/#a*");
    assert_eq!(proceeds(request("http://up", "GET", "/%41/../b?", &[])).url, "http://up/%41/../b?");
}

#[test]
fn a_target_does_not_change_the_name_of_the_server() {
    for base in ["http://up", "http://up/", "http://up///"] {
        assert_eq!(proceeds(request(base, "OPTIONS", "*", &[])).url, "http://up/*");
    }
    let url = proceeds(request("https://u:p@h:81", "OPTIONS", "*", &[])).url;
    assert_eq!(url, "https://u:p@h:81/*");
    assert_eq!(parse_upstream(&url).unwrap().host_str(), Some("h"));
}

#[test]
fn what_is_known_to_go_out_as_a_push_is_refused() {
    let read = plain("GET", "/r.git/HEAD");
    assert_eq!(responds(plan_decided(&upstream(), &read, true)).status, 403);
    let out = proceeds(plan_decided(&upstream(), &read, false));
    assert_eq!(out.method, "GET");
    assert_eq!(out.url, "http://up/r.git/HEAD");
    assert_eq!(pairs(&out.headers), owned(&[("host", "up")]));
    assert!(out.body.is_none());
    let push = plain("GET", "/r.git/git-receive-pack");
    assert_eq!(responds(plan_decided(&upstream(), &push, false)).status, 403);
    assert_eq!(responds(plan_decided(&upstream(), &plain("", "/x"), false)).status, 400);
    assert_eq!(responds(plan_decided(&upstream(), &plain("", "/x"), true)).status, 403);
}

#[test]
fn the_host_is_the_upstreams() {
    let host = |base: &str| {
        let out = proceeds(request(base, "GET", "/", &[("host", "a"), ("host", "b")]));
        pairs(&out.headers)
    };
    assert_eq!(host("https://github.com"), owned(&[("host", "github.com")]));
    assert_eq!(host("http://h:80/"), owned(&[("host", "h")]));
    assert_eq!(host("http://h:443/"), owned(&[("host", "h:443")]));
    assert_eq!(host("http://h:0/"), owned(&[("host", "h:0")]));
    assert_eq!(host("http://h:65535/"), owned(&[("host", "h:65535")]));
    assert_eq!(host("http://[::1]:7/"), owned(&[("host", "[::1]:7")]));
    assert_eq!(host("unix:/run/git.socket"), owned(&[]));
}

#[test]
fn an_upstream_is_read_as_its_parts() {
    let up = read_upstream(&parse_upstream("HTTP://User@Example.ORG:81").unwrap());
    assert_eq!(up.url, "http://User@example.org:81/");
    assert_eq!(up.host, Some("example.org".to_string()));
    assert_eq!(up.port, Some(81));
}

#[test]
fn a_request_is_read_as_its_parts() {
    let uri: Uri = "/a/b?c=d&e".parse().unwrap();
    let r = read_request(&Method::PUT, &uri, &headers(&[("x", "1"), ("y", "2"), ("x", "3")]));
    assert_eq!(r.method, "PUT");
    assert_eq!(r.path, "/a/b");
    assert_eq!(r.query, Some("c=d&e".to_string()));
    assert_eq!(r.path_and_query, Some("/a/b?c=d&e".to_string()));
    assert_eq!(pairs(&r.headers), owned(&[("x", "1"), ("x", "3"), ("y", "2")]));
}

#[test]
fn the_readings_of_a_uri_go_together() {
    let read = |s: &str| {
        let uri: Uri = s.parse().unwrap();
        let r = read_request(&Method::GET, &uri, &HeaderMap::new());
        (r.path, r.query, r.path_and_query)
    };
    let some = |s: &str| Some(s.to_string());
    assert_eq!(read("/a?b?c"), ("/a".to_string(), some("b?c"), some("/a?b?c")));
    assert_eq!(read("http://h?q"), ("/".to_string(), some("q"), some("?q")));
    assert_eq!(read("http://h#f"), ("/".to_string(), None, some("/")));
    assert_eq!(read("h:1"), ("".to_string(), None, None));
    let nothing = Uri::builder().build().unwrap();
    let r = read_request(&Method::GET, &nothing, &HeaderMap::new());
    assert_eq!((r.path, r.query, r.path_and_query), ("".to_string(), None, some("/")));
}

#[test]
fn a_request_is_judged_as_its_target_is_written() {
    for text in [
        "/r.git/info/refs?service=git-upload-pack",
        "/r.git/info/refs?service=git-receive-pack",
        "/r.git/info/refs?a?service=git-receive-pack",
        "/r.git/git-receive-pack",
        "/r.git/git-receive-pack?x",
        "/r.git/x?/git-receive-pack",
        "http://host?service=git-receive-pack",
        "http://host?a",
        "http://host",
        "host:443",
        "*",
    ] {
        let uri: Uri = text.parse().unwrap();
        let read = read_request(&Method::GET, &uri, &HeaderMap::new());
        let target = read.path_and_query.unwrap_or("/".to_string());
        let as_written = match target.split_once('?') {
            Some((path, query)) => is_write_target(path, Some(query)),
            None => is_write_target(&target, None),
        };
        assert_eq!(is_write_operation(&uri), as_written);
        let step = on_request(&state("http://up"), &Method::GET, &uri, &HeaderMap::new());
        assert_eq!(matches!(step, Step::Respond(_)), as_written);
    }
}

#[test]
fn a_method_that_is_no_token_is_answered_with_400() {
    for method in ["", "G T", "GET\n", "GÉT", "(GET)"] {
        let r = responds(plan_request(&upstream(), &plain(method, "/x")));
        assert_eq!(r.status, 400);
        assert_eq!(r.body, "Invalid HTTP method: invalid HTTP method\n");
    }
    let push = responds(plan_request(&upstream(), &plain("G T", "/x/git-receive-pack")));
    assert_eq!(push.status, 403);
}

#[test]
fn headers_are_filtered_in_any_case() {
    let all = list(&[
        ("Host", "a"),
        ("Accept", "1"),
        ("CONNECTION", "close"),
        ("accept", "2"),
        ("Keep-Alive", "x"),
        ("Transfer-Encoding", "chunked"),
        ("Content-Length", "3"),
        ("Upgrade", "h2c"),
    ]);
    assert_eq!(
        pairs(&keep_forwarded(&all)),
        owned(&[("Accept", "1"), ("accept", "2"), ("Content-Length", "3")])
    );
    let relayed = keep_end_to_end(&all);
    assert_eq!(
        pairs(&relayed),
        owned(&[("Host", "a"), ("Accept", "1"), ("accept", "2"), ("Content-Length", "3")])
    );
    assert_eq!(pairs(&keep_end_to_end(&relayed)), pairs(&relayed));
}

#[test]
fn a_body_is_sent_unless_it_is_empty() {
    let out = || proceeds(plan_request(&upstream(), &plain("POST", "/r/git-upload-pack")));
    let full = proceeds(on_body(out(), Ok(b"0000".to_vec())));
    assert_eq!(full.body, Some(b"0000".to_vec()));
    assert_eq!(full.url, "http://up/r/git-upload-pack");
    assert_eq!(full.method, "POST");
    assert_eq!(pairs(&full.headers), owned(&[("host", "up")]));
    assert_eq!(proceeds(on_body(out(), Ok(Vec::new()))).body, None);
}

#[test]
fn a_body_that_cannot_be_read_is_answered_with_400() {
    let out = proceeds(plan_request(&upstream(), &plain("POST", "/x")));
    let r = responds(on_body(out, Err("length limit exceeded".to_string())));
    assert_eq!(r.status, 400);
    assert_eq!(r.body, "Failed to read request body: length limit exceeded\n");
}

#[test]
fn the_body_limit_is_fifty_mebibytes() {
    assert_eq!(MAX_REQUEST_BODY, 52_428_800);
    let out = || proceeds(plan_request(&upstream(), &plain("POST", "/x")));
    let most = proceeds(on_body(out(), Ok(vec![0; MAX_REQUEST_BODY])));
    assert_eq!(most.body.map(|b| b.len()), Some(MAX_REQUEST_BODY));
    let r = responds(on_body(out(), Ok(vec![0; MAX_REQUEST_BODY + 1])));
    assert_eq!(r.status, 400);
    assert_eq!(r.body, "Failed to read request body: length limit exceeded\n");
}

#[test]
fn slashes_at_the_end_of_the_base_change_nothing() {
    let send = |base: &str| {
        let step = request(base, "POST", "/r?q", &[("accept", "x")]);
        let out = proceeds(on_body(proceeds(step), Ok(b"0".to_vec())));
        (out.method, out.url, pairs(&out.headers), out.body)
    };
    assert_eq!(send("http://up:81/git"), send("http://up:81/git//"));
    assert_eq!(send("http://up:81"), send("http://up:81/"));
    assert_eq!(send("https://u:p@[::1]:8443"), send("https://u:p@[::1]:8443////"));
}

#[test]
fn the_state_can_be_cloned() {
    let original = state("http://up:81/");
    assert_eq!(original.clone().upstream.as_str(), "http://up:81/");
}

#[test]
fn an_upstream_answer_is_handed_on() {
    let map = headers(&[("content-type", "x"), ("connection", "close"), ("etag", "\"1\"")]);
    match on_upstream(Ok((304, &map))) {
        Reply::Relay(head) => {
            assert_eq!(head.status, 304);
            assert_eq!(pairs(&head.headers), owned(&[("content-type", "x"), ("etag", "\"1\"")]));
        }
        Reply::Plain(r) => panic!("{}", r.body),
    }
}

#[test]
fn an_upstream_failure_is_answered_with_502() {
    match on_upstream(Err("connection refused".to_string())) {
        Reply::Plain(r) => {
            assert_eq!(r.status, 502);
            assert_eq!(r.content_type, "text/plain; charset=utf-8");
            assert_eq!(r.body, "Upstream request failed: connection refused\n");
        }
        Reply::Relay(head) => panic!("{}", head.status),
    }
}

#[test]
fn a_status_out_of_range_becomes_500() {
    let status = |code: u16| relay_head(code, &Vec::new()).status;
    assert_eq!(status(100), 100);
    assert_eq!(status(200), 200);
    assert_eq!(status(999), 999);
    assert_eq!(status(99), 500);
    assert_eq!(status(1000), 500);
    assert_eq!(status(0), 500);
    assert_eq!(status(status(1000)), 500);
}

#[test]
fn plain_responses_are_text() {
    let r = plain_response(418, "short\n".to_string());
    assert_eq!(r.status, 418);
    assert_eq!(r.content_type, "text/plain; charset=utf-8");
    assert_eq!(r.body, "short\n");
    let e = internal_error();
    assert_eq!(e.status, 500);
    assert_eq!(e.body, "Internal server error\n");
}
