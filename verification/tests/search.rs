use evmcrispr_api::http::{text_response, Method, Outgoing, Reply, Upstream};
use evmcrispr_api::search::{
    answered_response, found_response, get_search, handle, is_decodable, preflight_response,
    query_param, raw_param, refused_response, search_for, try_handle, url_decode, SearchStep,
    Searching,
};

fn json(text: &str) -> serde_json::Value {
    serde_json::from_str(text).unwrap()
}

fn body(reply: &Reply) -> serde_json::Value {
    serde_json::from_slice(&reply.body).unwrap()
}

fn sent(step: SearchStep) -> (Outgoing, Searching) {
    match step {
        SearchStep::Send { request, next } => (request, next),
        SearchStep::Respond(reply) => panic!("{:?}", reply),
    }
}

fn answered(step: SearchStep) -> Reply {
    match step {
        SearchStep::Respond(reply) => reply,
        SearchStep::Send { request, .. } => panic!("{:?}", request),
    }
}

fn key() -> Option<String> {
    Some("secret".to_string())
}

fn searching() -> Searching {
    Searching { query: "a b".to_string() }
}

fn upstream(status: u16, body: &str) -> Upstream {
    Upstream::Answered { status, body: body.as_bytes().to_vec() }
}

#[test]
fn search_url_decode() {
    assert_eq!(url_decode("a+b%20c"), "a b c");
    assert_eq!(url_decode("%E2%82%AC"), "€");
    assert_eq!(url_decode("%e2%82%ac%2B"), "€+");
    assert_eq!(url_decode("100%"), "100%");
    assert_eq!(url_decode("%4"), "%4");
    assert_eq!(url_decode("%zz%41"), "%zzA");
    assert_eq!(url_decode("%+f"), "% f");
    assert_eq!(url_decode("%+1"), "% 1");
    assert_eq!(url_decode("%-1"), "%-1");
    assert_eq!(url_decode("%%41"), "%A");
    assert_eq!(url_decode("plain€"), "plain€");
}

#[test]
fn search_url_decode_replaces_what_is_no_text() {
    assert_eq!(url_decode("a%FFb"), "a\u{fffd}b");
}

#[test]
fn search_decoding_undoes_encoding() {
    let text = "ñ+%&= 😀";
    let mut encoded = String::new();
    for b in text.bytes() {
        encoded.push_str(format!("%{:02X}", b).as_str());
    }
    assert_eq!(url_decode(encoded.as_str()), text);
    assert_eq!(url_decode(encoded.to_lowercase().as_str()), text);
}

#[test]
fn search_plain_text_is_decoded_apart() {
    let end = "%e2%82%ac+%zz";
    assert_eq!(url_decode(format!("ñ+b{}", end).as_str()), format!("ñ b{}", url_decode(end)));
    assert_eq!(url_decode("ñ€😀"), "ñ€😀");
    let broken = "%e2%82z%ff";
    assert_eq!(
        url_decode(format!("ñ+b{}", broken).as_str()),
        format!("ñ b{}", url_decode(broken))
    );
}

#[test]
fn search_decodable_texts() {
    assert!(is_decodable("%"));
    assert!(is_decodable("%4"));
    assert!(!is_decodable("%€"));
    assert!(!is_decodable("%4ñ"));
    assert!(is_decodable("%ñ"));
    assert!(is_decodable("ñ%41"));
}

#[test]
fn search_query_param() {
    assert_eq!(query_param("q=%+1", "q"), Some("% 1".to_string()));
    let query = "x&q=a%20b&q=c&count=3";
    assert_eq!(query_param(query, "q"), Some("a b".to_string()));
    assert_eq!(query_param(query, "count"), Some("3".to_string()));
    assert_eq!(query_param(query, "x"), None);
    assert_eq!(query_param("", "q"), None);
    assert_eq!(raw_param(query, "q"), Some("a%20b".to_string()));
    assert_eq!(raw_param("q=a=b", "q"), Some("a=b".to_string()));
}

#[test]
fn search_is_sent_to_the_service() {
    let (request, next) = sent(get_search("q=+hello%20world+&count=3", key()));
    assert!(matches!(request.method, Method::Post));
    assert_eq!(request.uri, "https://api.tavily.com/search");
    assert_eq!(
        request.headers,
        vec![
            ("authorization".to_string(), "Bearer secret".to_string()),
            ("content-type".to_string(), "application/json".to_string()),
        ]
    );
    let sent_body: serde_json::Value = serde_json::from_slice(&request.body).unwrap();
    assert_eq!(
        sent_body,
        json("{\"query\":\"hello world\",\"max_results\":3,\"search_depth\":\"basic\"}")
    );
    assert_eq!(next.query, "hello world");
}

#[test]
fn search_count_is_bounded() {
    for (count, wanted) in
        [("0", 1), ("1", 1), ("10", 10), ("11", 10), ("99999999999999999999", 5), ("x", 5)]
    {
        let (request, _) = sent(get_search(format!("q=a&count={}", count).as_str(), key()));
        let sent_body: serde_json::Value = serde_json::from_slice(&request.body).unwrap();
        assert_eq!(sent_body["max_results"].as_u64(), Some(wanted));
    }
    let (request, _) = sent(get_search("q=a", key()));
    let sent_body: serde_json::Value = serde_json::from_slice(&request.body).unwrap();
    assert_eq!(sent_body["max_results"].as_u64(), Some(5));
}

#[test]
fn search_without_query_is_refused() {
    for query in ["", "q=", "q=+%20", "count=3"] {
        let reply = answered(get_search(query, key()));
        assert_eq!(reply.status, 400);
        assert_eq!(
            body(&reply),
            json("{\"error\":\"missing query. Usage: /search?q=<query>&count=<1-10>\"}")
        );
    }
}

#[test]
fn search_without_key_is_not_configured() {
    let reply = answered(get_search("q=a", None));
    assert_eq!(reply.status, 500);
    assert_eq!(body(&reply), json("{\"error\":\"search service is not configured\"}"));
}

#[test]
fn search_key_stays_on_the_server() {
    let (a, m) = sent(get_search("q=a", Some("one".to_string())));
    let (b, n) = sent(get_search("q=a", Some("two".to_string())));
    assert_eq!(a.body, b.body);
    assert_eq!(a.headers[1], b.headers[1]);
    assert_eq!(a.headers[0].1, "Bearer one");
    assert_eq!(b.headers[0].1, "Bearer two");
    assert_eq!(m.query, n.query);
}

#[test]
fn search_methods() {
    let reply = answered(handle(&Method::Options, "", None));
    assert_eq!(reply.status, 204);
    assert_eq!(reply.body, Vec::<u8>::new());
    assert_eq!(reply.headers, preflight_response().headers);
    assert_eq!(reply.headers[1].1, "GET, OPTIONS");
    assert_eq!(reply.headers.len(), 4);
    let reply = answered(handle(&Method::Post, "q=a", key()));
    assert_eq!(reply.status, 405);
    assert_eq!(body(&reply), json("{\"error\":\"method not allowed; use GET /search?q=...\"}"));
    let (request, _) = sent(handle(&Method::Get, "q=a", key()));
    assert_eq!(request.uri, "https://api.tavily.com/search");
}

#[test]
fn search_is_not_started_on_what_cannot_be_decoded() {
    assert!(try_handle(&Method::Get, "q=%€", key()).is_none());
    assert!(try_handle(&Method::Get, "q=a&count=%€", key()).is_none());
    assert!(try_handle(&Method::Get, "q=&count=%€", key()).is_some());
    assert!(try_handle(&Method::Post, "q=%€", key()).is_some());
    assert!(try_handle(&Method::Get, "q=a", key()).is_some());
}

#[test]
fn search_results_are_trimmed() {
    let reply = searching().resume(upstream(
        200,
        "{\"results\":[{\"title\":\"T\",\"url\":\"U\",\"content\":\"C\",\"score\":1.5},{}]}",
    ));
    assert_eq!(reply.status, 200);
    assert_eq!(
        reply.headers,
        vec![
            ("content-type".to_string(), "application/json".to_string()),
            ("access-control-allow-origin".to_string(), "*".to_string()),
        ]
    );
    assert_eq!(
        body(&reply),
        json(
            "{\"query\":\"a b\",\"results\":[{\"title\":\"T\",\"url\":\"U\",\"description\":\"C\"},
             {\"title\":null,\"url\":null,\"description\":null}]}"
        )
    );
}

#[test]
fn search_answer_without_results() {
    for text in ["{}", "[]", "{\"results\":3}"] {
        let reply = found_response("q", &json(text));
        assert_eq!(body(&reply), json("{\"query\":\"q\",\"results\":[]}"));
    }
}

#[test]
fn search_quota_is_reported() {
    for status in [429, 432] {
        let reply = searching().resume(upstream(status, ""));
        assert_eq!(reply.status, 429);
        assert_eq!(body(&reply), json("{\"error\":\"search quota or rate limit exceeded\"}"));
    }
}

#[test]
fn search_failure_carries_the_beginning_of_the_answer() {
    let long = "ñ".repeat(400);
    let reply = searching().resume(upstream(503, long.as_str()));
    assert_eq!(reply.status, 502);
    let b = body(&reply);
    assert_eq!(b["error"].as_str(), Some("upstream search failed"));
    assert_eq!(b["status"].as_u64(), Some(503));
    assert_eq!(b["details"].as_str(), Some("ñ".repeat(300).as_str()));
}

#[test]
fn search_unreachable_service() {
    let reply = searching().resume(Upstream::Failed("no \"route\"\n".to_string()));
    assert_eq!(reply.status, 502);
    assert_eq!(
        body(&reply),
        json("{\"error\":\"upstream request failed\",\"details\":\"no route\"}")
    );
}

#[test]
fn search_answer_that_is_no_json() {
    let reply = searching().resume(upstream(200, "<html>"));
    assert_eq!(reply.status, 502);
    let b = body(&reply);
    assert_eq!(b["error"].as_str(), Some("invalid upstream json"));
    assert!(b["details"].as_str().unwrap().contains("expected value"));
}

#[test]
fn search_with_parameters() {
    let (request, next) = sent(search_for(Some(" x ".to_string()), Some("7".to_string()), key()));
    assert_eq!(next.query, "x");
    let sent_body: serde_json::Value = serde_json::from_slice(&request.body).unwrap();
    assert_eq!(sent_body["max_results"].as_u64(), Some(7));
    assert_eq!(answered(search_for(None, None, key())).status, 400);
    assert_eq!(answered(search_for(Some("x".to_string()), None, None)).status, 500);
}

#[test]
fn search_answers_by_what_was_read() {
    let reply = answered_response("q", Ok(json("{\"results\":[]}")));
    assert_eq!(body(&reply), json("{\"query\":\"q\",\"results\":[]}"));
    let reply = answered_response("q", Err("a\rb".to_string()));
    assert_eq!(body(&reply), json("{\"error\":\"invalid upstream json\",\"details\":\"ab\"}"));
    let reply = refused_response(500, "oops");
    assert_eq!(
        body(&reply),
        json("{\"error\":\"upstream search failed\",\"status\":500,\"details\":\"oops\"}")
    );
}

#[test]
fn search_answers_are_json_text() {
    let reply = text_response(203, "[1]");
    assert_eq!(reply.status, 203);
    assert_eq!(reply.body, b"[1]".to_vec());
    assert_eq!(reply.headers[0].1, "application/json");
    assert_eq!(reply.headers[1].1, "*");
}
