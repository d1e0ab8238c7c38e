use evmcrispr_api::cors::{append_cors_headers, has_readable_origin, request_origin};
use evmcrispr_api::cors_proxy::{
    get_allowed_targets, is_target_allowed, CorsProxyRequest, CorsProxyStep, Relaying,
};
use evmcrispr_api::fetch_proxy::{
    count_chunk, cut_chunk, forward_headers, https_origin, relay_headers, rewrite_location, FetchRequest,
    FetchStep, Fetching, MAX_RESPONSE_BYTES,
};
use evmcrispr_api::http::Method;
use evmcrispr_api::path::tidy;
use evmcrispr_api::proxy::{ProxyReply, RelayStep, UpstreamHead};
use evmcrispr_api::{cors_proxy, fetch_proxy};

fn header(name: &str, value: &str) -> (String, Vec<u8>) {
    (name.to_string(), value.as_bytes().to_vec())
}

fn sorted(mut headers: Vec<(String, Vec<u8>)>) -> Vec<(String, Vec<u8>)> {
    headers.sort();
    headers
}

fn simple_fields(origin: &str) -> Vec<(String, Vec<u8>)> {
    sorted(vec![
        header("access-control-allow-origin", origin),
        header("access-control-allow-credentials", "false"),
    ])
}

fn cors_request(method: Method, path: &str, targets: &str) -> CorsProxyRequest {
    CorsProxyRequest {
        method,
        path: Some(path.to_string()),
        headers: vec![header("accept", "*/*"), header("origin", "https://app.example")],
        allowed_targets: targets.to_string(),
        allowed_origins: None,
    }
}

fn fetch_request(method: Method, path: &str) -> FetchRequest {
    FetchRequest {
        method,
        path: Some(path.to_string()),
        headers: vec![
            header("Host", "api"),
            header("origin", "https://app.example"),
            header("Referer", "https://app.example/x"),
            header("Authorization", "Bearer t"),
            header("COOKIE", "a=b"),
            header("X-Api-Key", "k"),
            header("spin-client-addr", "1.2.3.4"),
            header("accept", "text/html"),
            header("accept-language", "en"),
        ],
        allowed_origins: None,
    }
}

fn refused(step: CorsProxyStep) -> ProxyReply {
    match step {
        CorsProxyStep::Respond(reply) => reply,
        CorsProxyStep::Forward { .. } => panic!("forwarded"),
    }
}

fn unread(step: FetchStep) -> ProxyReply {
    match step {
        FetchStep::Respond(reply) => reply,
        FetchStep::Forward { .. } => panic!("forwarded"),
    }
}

fn streamed(step: RelayStep) -> UpstreamHead {
    match step {
        RelayStep::Stream(head) => head,
        RelayStep::Respond(_) => panic!("answered"),
    }
}

fn failed(step: RelayStep) -> ProxyReply {
    match step {
        RelayStep::Respond(reply) => reply,
        RelayStep::Stream(_) => panic!("streamed"),
    }
}

#[test]
fn cors_fields_of_a_simple_request() {
    let mut headers = vec![header("etag", "1")];
    append_cors_headers(&mut headers, &Method::Get, "https://a.example", &None);
    assert_eq!(headers[0], header("etag", "1"));
    assert_eq!(sorted(headers[1..].to_vec()), simple_fields("https://a.example"));
}

#[test]
fn cors_fields_of_a_preflight_request() {
    let mut headers = Vec::new();
    append_cors_headers(&mut headers, &Method::Options, "https://a.example", &None);
    assert_eq!(
        sorted(headers),
        sorted(vec![
            header("access-control-allow-origin", "https://a.example"),
            header("access-control-allow-credentials", "false"),
            header("access-control-max-age", "3600"),
            header("access-control-allow-methods", "*"),
            header("access-control-allow-headers", "*"),
        ])
    );
}

#[test]
fn cors_fields_need_an_origin() {
    let mut headers = Vec::new();
    append_cors_headers(&mut headers, &Method::Get, "", &None);
    assert!(headers.is_empty());
}

#[test]
fn cors_fields_for_listed_origins() {
    let list = Some("https://a.example, https://b.example".to_string());
    let mut headers = Vec::new();
    append_cors_headers(&mut headers, &Method::Get, "https://b.example", &list);
    assert!(headers.contains(&header("access-control-allow-origin", "https://b.example")));
    assert!(headers.contains(&header("access-control-allow-credentials", "false")));
    assert!(headers.contains(&header("vary", "Origin")));
    assert_eq!(headers.len(), 3);
    let mut others = Vec::new();
    append_cors_headers(&mut others, &Method::Get, "https://c.example", &list);
    assert_eq!(others, vec![header("vary", "Origin")]);
    let mut preflight = Vec::new();
    append_cors_headers(&mut preflight, &Method::Options, "https://c.example", &list);
    assert_eq!(
        sorted(preflight),
        sorted(vec![
            header("vary", "Origin"),
            header("access-control-max-age", "3600"),
            header("access-control-allow-methods", "*"),
            header("access-control-allow-headers", "*"),
        ])
    );
    for (name, _) in headers.iter().chain(others.iter()) {
        assert!(name.starts_with("access-control-") || name == "vary");
    }
}

#[test]
fn cors_only_listed_origins_are_let_in() {
    let let_in = |list: &str, origin: &str| {
        let mut headers = Vec::new();
        append_cors_headers(&mut headers, &Method::Get, origin, &Some(list.to_string()));
        headers
            .into_iter()
            .find(|(name, _)| name == "access-control-allow-origin")
            .map(|(_, value)| String::from_utf8(value).unwrap())
    };
    let list = "https://A.example,\thttps://b.example ";
    assert_eq!(let_in(list, "https://b.example"), Some("https://b.example".to_string()));
    assert_eq!(let_in(list, "https://a.example"), Some("null".to_string()));
    assert_eq!(let_in(list, "https://c.example"), None);
    assert_eq!(let_in("*", "https://c.example"), Some("https://c.example".to_string()));
    assert_eq!(let_in("null", "https://c.example"), None);
    assert_eq!(let_in("null", "null"), None);
    assert_eq!(let_in("", "https://c.example"), None);
    assert_eq!(let_in("*", ""), None);
}

#[test]
fn cors_origin_of_a_request() {
    let headers = vec![header("Origin", "no"), header("origin", "é"), header("origin", "x")];
    assert!(has_readable_origin(&headers));
    assert_eq!(request_origin(&headers), "é");
    assert_eq!(request_origin(&vec![header("accept", "x")]), "");
    assert!(!has_readable_origin(&vec![("origin".to_string(), vec![0xff])]));
}

#[test]
fn cors_proxy_targets() {
    assert_eq!(
        cors_proxy::get_target(Some("/cors-proxy/https://a.b/c?d=e")),
        Some("https://a.b/c?d=e".to_string())
    );
    assert_eq!(
        cors_proxy::get_target(Some("/cors-proxy/http://a.b")),
        Some("http://a.b".to_string())
    );
    assert_eq!(cors_proxy::get_target(Some("/cors-proxy/")), None);
    assert_eq!(cors_proxy::get_target(Some("/cors-proxy/ftp://a")), None);
    assert_eq!(cors_proxy::get_target(Some("/other/https://a")), None);
    assert_eq!(cors_proxy::get_target(None), None);
}

#[test]
fn cors_proxy_allowlist() {
    assert_eq!(get_allowed_targets(" https://a.b , https://c"), vec!["https://a.b", "https://c"]);
    assert!(is_target_allowed("https://a.b/x", "https://z, https://a.b"));
    assert!(!is_target_allowed("https://a.c", "https://z,https://a.b"));
}

#[test]
fn cors_proxy_empty_allowlist_allows_everything() {
    assert_eq!(get_allowed_targets(""), vec![""]);
    assert!(is_target_allowed("https://any.where", ""));
}

#[test]
fn cors_proxy_malformed_target() {
    let reply = refused(cors_request(Method::Get, "/cors-proxy/a.b", "").cors_proxy());
    assert_eq!(reply.status, 400);
    assert_eq!(
        String::from_utf8(reply.body).unwrap(),
        "Malformed or missing target URL. Usage: /cors-proxy/https://<target>"
    );
    assert_eq!(sorted(reply.headers), simple_fields("https://app.example"));
}

#[test]
fn cors_proxy_only_allowed_targets_are_asked() {
    let reply = refused(
        cors_request(Method::Post, "/cors-proxy/https://evil", "https://a.b , https://c")
            .cors_proxy(),
    );
    assert_eq!(reply.status, 403);
    assert_eq!(
        String::from_utf8(reply.body).unwrap(),
        "Target domain not allowed. Allowed domains: https://a.b, https://c"
    );
}

#[test]
fn cors_proxy_allowed_targets_are_asked() {
    let path = "/cors-proxy/https://mainnet.serve.giveth.io/graphql";
    let request = cors_request(Method::Post, path, "https://mainnet.serve.giveth.io");
    let headers = request.headers.clone();
    match request.cors_proxy() {
        CorsProxyStep::Forward { request, next } => {
            assert!(matches!(request.method, Method::Post));
            assert_eq!(request.uri, "https://mainnet.serve.giveth.io/graphql");
            assert_eq!(request.headers, headers);
            assert!(matches!(next.method, Method::Post));
            assert_eq!(next.origin, "https://app.example");
        }
        CorsProxyStep::Respond(reply) => panic!("{}", reply.status),
    }
}

#[test]
fn cors_proxy_relays_with_fields() {
    let relaying = Relaying {
        method: Method::Other("PURGE".to_string()),
        origin: "https://o".to_string(),
        allowed_origins: None,
    };
    let head = streamed(relaying.resume(Some(UpstreamHead {
        status: 207,
        headers: vec![header("set-cookie", "a"), header("content-type", "x")],
    })));
    assert_eq!(head.status, 207);
    assert_eq!(
        head.headers[..2].to_vec(),
        vec![header("set-cookie", "a"), header("content-type", "x")]
    );
    assert_eq!(sorted(head.headers[2..].to_vec()), simple_fields("https://o"));
}

#[test]
fn cors_proxy_unreachable_target() {
    let relaying =
        Relaying { method: Method::Get, origin: "".to_string(), allowed_origins: None };
    let reply = failed(relaying.resume(None));
    assert_eq!(reply.status, 502);
    assert_eq!(reply.body, b"Error sending upstream request".to_vec());
    assert!(reply.headers.is_empty());
}

#[test]
fn fetch_proxy_targets() {
    assert_eq!(
        fetch_proxy::get_target(Some("/fetch/https://a.b/c?d")),
        Some("https://a.b/c?d".to_string())
    );
    assert_eq!(fetch_proxy::get_target(Some("/fetch/http://a.b")), None);
    assert_eq!(fetch_proxy::get_target(Some("/fetch/")), None);
    assert_eq!(fetch_proxy::get_target(None), None);
}

#[test]
fn fetch_proxy_origins_of_urls() {
    assert_eq!(https_origin("https://a.b:8080/c"), Some("https://a.b:8080".to_string()));
    assert_eq!(https_origin("https://a.b?x"), Some("https://a.b".to_string()));
    assert_eq!(https_origin("https://a.b#x"), Some("https://a.b".to_string()));
    assert_eq!(https_origin("https://a.b"), Some("https://a.b".to_string()));
    assert_eq!(
        https_origin("https://u:p@h.example:8443/x"),
        Some("https://h.example:8443".to_string())
    );
    assert_eq!(https_origin("https://a@b@c/x@y"), Some("https://c".to_string()));
    assert_eq!(https_origin("https://u:p@/x"), None);
    assert_eq!(https_origin("https:///x"), None);
    assert_eq!(https_origin("http://a.b"), None);
}

#[test]
fn fetch_proxy_https_redirects_come_back() {
    let location = rewrite_location("https://a.b/c", "https://d.e/f");
    assert_eq!(location, "/fetch/https://d.e/f");
    assert_eq!(
        fetch_proxy::get_target(Some(location.as_str())),
        Some("https://d.e/f".to_string())
    );
}

#[test]
fn fetch_proxy_path_redirects_come_back() {
    let location = rewrite_location("https://a.b/c?d", "/x/y?z");
    assert_eq!(location, "/fetch/https://a.b/x/y?z");
    assert_eq!(
        fetch_proxy::get_target(Some(location.as_str())),
        Some("https://a.b/x/y?z".to_string())
    );
}

#[test]
fn fetch_proxy_host_redirects_come_back() {
    assert_eq!(
        rewrite_location("https://a.example/x", "//b.example/y"),
        "/fetch/https://b.example/y"
    );
}

#[test]
fn fetch_proxy_sibling_redirects_come_back() {
    assert_eq!(
        rewrite_location("https://a.example/x/y", "z"),
        "/fetch/https://a.example/x/z"
    );
    assert_eq!(
        rewrite_location("https://a.example/x/y?q=/r#/s", "z?t"),
        "/fetch/https://a.example/x/z?t"
    );
    assert_eq!(rewrite_location("https://a.example/x/", "z"), "/fetch/https://a.example/x/z");
    assert_eq!(rewrite_location("https://a.example", "z"), "/fetch/https://a.example/z");
    assert_eq!(rewrite_location("https://a.example?q", "z"), "/fetch/https://a.example/z");
    assert_eq!(
        rewrite_location("https://a.example/x/y", "z/a:b"),
        "/fetch/https://a.example/x/z/a:b"
    );
}

#[test]
fn fetch_proxy_redirects_lose_their_dot_segments() {
    let target = "https://a.example/x/y";
    for (location, wanted) in [
        ("../z", "/z"),
        ("../../../z", "/z"),
        ("./z", "/x/z"),
        (".", "/x/"),
        ("..", "/"),
        ("z/..", "/x/"),
        ("z/./w/../v?p=../q#../r", "/x/z/v?p=../q#../r"),
        ("/a/b/c/./../../g", "/a/g"),
        ("/../../z", "/z"),
        ("/a//../b", "/a/b"),
        ("/a/..b/...", "/a/..b/..."),
    ] {
        assert_eq!(
            rewrite_location(target, location),
            format!("/fetch/https://a.example{}", wanted)
        );
    }
    assert_eq!(
        rewrite_location(target, "//b.example/p/../../q?s"),
        "/fetch/https://b.example/q?s"
    );
    assert_eq!(rewrite_location(target, "//b.example"), "/fetch/https://b.example");
    assert_eq!(
        rewrite_location("https://u:p@a.example/x/y?q", "z"),
        "/fetch/https://a.example/x/z"
    );
}

#[test]
fn fetch_proxy_tidied_paths() {
    assert_eq!(tidy("/a/./b/../c"), "/a/c");
    assert_eq!(tidy("/a/b/"), "/a/b/");
    assert_eq!(tidy("/"), "/");
    assert_eq!(tidy("/.."), "/");
    assert_eq!(tidy(""), "");
    assert_eq!(tidy("../a"), "../a");
    for path in ["/a//b", "/...", "/a/.b"] {
        assert_eq!(tidy(path), path);
    }
}

#[test]
fn fetch_proxy_redirects_within_the_target_come_back() {
    assert_eq!(
        rewrite_location("https://a.example/x/y?q#f", "?p=2"),
        "/fetch/https://a.example/x/y?p=2"
    );
    assert_eq!(
        rewrite_location("https://a.example/x/y?q#f", "#g"),
        "/fetch/https://a.example/x/y?q#g"
    );
    assert_eq!(
        rewrite_location("https://a.example/x/y?q#f", ""),
        "/fetch/https://a.example/x/y?q"
    );
}

#[test]
fn fetch_proxy_other_redirects_stay() {
    assert_eq!(rewrite_location("https://a.b", "mailto:x@y"), "mailto:x@y");
    assert_eq!(rewrite_location("https://a.b", "web+x-1.0:y"), "web+x-1.0:y");
    assert_eq!(rewrite_location("http://a.b/c", "z"), "z");
    assert_eq!(rewrite_location("https://a.b", "http://c.d"), "http://c.d");
    assert_eq!(rewrite_location("https:///", "/x"), "/x");
}

#[test]
fn fetch_proxy_withheld_headers_are_not_forwarded() {
    let headers = forward_headers(&fetch_request(Method::Get, "").headers);
    assert_eq!(headers, vec![header("accept", "text/html"), header("accept-language", "en")]);
}

#[test]
fn fetch_proxy_only_https_targets_are_read() {
    match fetch_request(Method::Get, "/fetch/https://a.b/c").fetch_proxy() {
        FetchStep::Forward { request, next } => {
            assert!(matches!(request.method, Method::Get));
            assert_eq!(request.uri, "https://a.b/c");
            assert_eq!(
                request.headers,
                vec![header("accept", "text/html"), header("accept-language", "en")]
            );
            assert_eq!(next.target, "https://a.b/c");
            assert_eq!(next.origin, "https://app.example");
        }
        FetchStep::Respond(reply) => panic!("{}", reply.status),
    }
    let reply = unread(fetch_request(Method::Get, "/fetch/http://a.b/c").fetch_proxy());
    assert_eq!(reply.status, 400);
    assert_eq!(
        String::from_utf8(reply.body).unwrap(),
        "Malformed or missing target URL. Usage: /fetch/https://<target>"
    );
}

#[test]
fn fetch_proxy_methods() {
    let reply = unread(fetch_request(Method::Post, "/fetch/https://a.b").fetch_proxy());
    assert_eq!(reply.status, 405);
    assert_eq!(reply.body, b"Only GET is supported".to_vec());
    let reply = unread(fetch_request(Method::Options, "/fetch/https://a.b").fetch_proxy());
    assert_eq!(reply.status, 204);
    assert!(reply.body.is_empty());
    assert_eq!(reply.headers.len(), 5);
}

#[test]
fn fetch_proxy_upstream_cors_and_cookies_are_dropped() {
    let headers = vec![
        header("Access-Control-Allow-Origin", "x"),
        header("Set-Cookie", "a=b"),
        header("Location", "/next"),
        header("content-type", "text/html"),
    ];
    assert_eq!(
        relay_headers("https://a.b/c", &headers),
        vec![header("Location", "/fetch/https://a.b/next"), header("content-type", "text/html")]
    );
    let fetching = Fetching {
        target: "https://a.b/c".to_string(),
        method: Method::Get,
        origin: "https://o".to_string(),
        allowed_origins: None,
    };
    let head = streamed(fetching.resume(Some(UpstreamHead { status: 302, headers })));
    assert_eq!(head.status, 302);
    assert_eq!(head.headers.len(), 4);
    assert_eq!(sorted(head.headers[2..].to_vec()), simple_fields("https://o"));
}

#[test]
fn fetch_proxy_locations_that_are_no_text() {
    let headers = vec![("location".to_string(), vec![b'/', 0xff])];
    assert_eq!(
        relay_headers("https://a.b", &headers),
        vec![header("location", "/fetch/https://a.b/\u{fffd}")]
    );
}

#[test]
fn fetch_proxy_unreachable_target() {
    let fetching = Fetching {
        target: "https://a.b/c".to_string(),
        method: Method::Get,
        origin: "https://o".to_string(),
        allowed_origins: None,
    };
    let reply = failed(fetching.resume(None));
    assert_eq!(reply.status, 502);
    assert_eq!(reply.body, b"Error sending upstream request".to_vec());
    assert_eq!(sorted(reply.headers), simple_fields("https://o"));
}

#[test]
fn fetch_proxy_bodies_are_cut_off_at_the_cap() {
    assert_eq!(MAX_RESPONSE_BYTES, 2 * 1024 * 1024);
    assert_eq!(count_chunk(0, 100), (100, false));
    assert_eq!(count_chunk(MAX_RESPONSE_BYTES - 1, 0), (0, false));
    assert_eq!(count_chunk(MAX_RESPONSE_BYTES - 1, 1), (1, true));
    assert_eq!(count_chunk(1, MAX_RESPONSE_BYTES), (MAX_RESPONSE_BYTES - 1, true));
    assert_eq!(count_chunk(MAX_RESPONSE_BYTES - 1, 2), (1, true));
    assert_eq!(count_chunk(MAX_RESPONSE_BYTES, 2), (0, true));
    assert_eq!(count_chunk(usize::MAX, usize::MAX), (0, true));
    assert_eq!(cut_chunk(0, vec![1, 2, 3]), (vec![1, 2, 3], false));
    assert_eq!(cut_chunk(MAX_RESPONSE_BYTES - 2, vec![1, 2, 3]), (vec![1, 2], true));
    for size in [1, 1000, 65536, MAX_RESPONSE_BYTES - 1] {
        let body: Vec<u8> = (0..MAX_RESPONSE_BYTES + 70000).map(|i| i as u8).collect();
        let mut passed: Vec<u8> = Vec::new();
        for chunk in body.chunks(size) {
            let (kept, last) = cut_chunk(passed.len(), chunk.to_vec());
            passed.extend(kept);
            if last {
                break;
            }
        }
        assert_eq!(passed, body[..MAX_RESPONSE_BYTES].to_vec());
    }
}
