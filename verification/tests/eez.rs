use evmcrispr_api::chains::Chain;
use evmcrispr_api::eez::{
    block_number, estimate_gas, handle, is_execution_not_found, json_response, rpc_error, rpc_post,
    rpc_response, send_upstream, Awaiting, Forwarding, Pending, Poll, Question, RpcStep, Waiting,
    CROSS_CHAIN_GAS, FRONT_SYNC_MAX_SECS,
};
use evmcrispr_api::http::{Method, Outgoing, Reply, Upstream};

const CONFIG: &str = "eezL1=1,https://rpc,https://front;eezL2=2,https://rpc2,https://front2";
const PATH: &str = "/experimental-eez-rpc/eezL1";
const RAW: &str = "0xf86c098504a817c800825208943535353535353535353535353535353535353535880de0b6b3a76400008025a028ef61340bd939bc2195fe537567866003e1a15d3c71ff63e1590620aa636276a067cbe9d8997f761aecb703304b3800ccf555c9f3dc64214b297fb1966a3b6d83";
const NOT_FOUND: &str = "{\"error\":{\"code\":3,\"data\":\"0xED6BC750\"}}";

fn json(text: &str) -> serde_json::Value {
    serde_json::from_str(text).unwrap()
}

fn body(reply: &Reply) -> serde_json::Value {
    serde_json::from_slice(&reply.body).unwrap()
}

fn post(text: &str) -> RpcStep {
    handle(&Method::Post, PATH, CONFIG, text.as_bytes().to_vec())
}

fn answered(step: RpcStep) -> Reply {
    match step {
        RpcStep::Respond(reply) => reply,
        RpcStep::Send { request, .. } => panic!("sent to {}", request.uri),
        RpcStep::Sleep { .. } => panic!("asleep"),
    }
}

fn sent(step: RpcStep) -> (Outgoing, Awaiting) {
    match step {
        RpcStep::Send { request, next } => {
            assert!(matches!(request.method, Method::Post));
            assert_eq!(
                request.headers,
                vec![("content-type".to_string(), "application/json".to_string())]
            );
            (request, next)
        }
        RpcStep::Respond(reply) => panic!("{:?}", reply),
        RpcStep::Sleep { .. } => panic!("asleep"),
    }
}

fn slept(step: RpcStep) -> (u64, Waiting) {
    match step {
        RpcStep::Sleep { secs, next } => (secs, next),
        _ => panic!("awake"),
    }
}

fn upstream(status: u16, text: &str) -> Upstream {
    Upstream::Answered { status, body: text.as_bytes().to_vec() }
}

fn raw_request() -> String {
    format!("{{\"jsonrpc\":\"2.0\",\"id\":9,\"method\":\"eth_sendRawTransaction\",\"params\":[\"{}\"]}}", RAW)
}

fn error(reply: &Reply) -> (serde_json::Value, i64, String) {
    assert_eq!(reply.status, 200);
    let b = body(reply);
    assert_eq!(b["jsonrpc"].as_str(), Some("2.0"));
    (
        b["id"].clone(),
        b["error"]["code"].as_i64().unwrap(),
        b["error"]["message"].as_str().unwrap().to_string(),
    )
}

fn pending() -> Pending {
    Pending {
        chain: Chain {
            chain_id: 1,
            execution_rpc: "https://rpc".to_string(),
            front: "https://front".to_string(),
        },
        id: json("9"),
        body: b"tx".to_vec(),
    }
}

fn poll(target: u64, waited: u64) -> Poll {
    Poll { pending: pending(), target, waited }
}

fn forwarded_to(step: RpcStep, url: &str, text: &str) {
    let (request, next) = sent(step);
    assert_eq!(request.uri, url);
    assert_eq!(request.body, text.as_bytes().to_vec());
    match next {
        Awaiting::Forwarded(f) => assert_eq!(f.url, url),
        Awaiting::Asked(_) => panic!("asked"),
    }
}

#[test]
fn eez_preflight() {
    let reply = answered(handle(&Method::Options, "/anything", "", Vec::new()));
    assert_eq!(reply.status, 204);
    assert!(reply.body.is_empty());
    assert_eq!(reply.headers.len(), 4);
    assert_eq!(reply.headers[1].1, "GET, POST, OPTIONS");
}

#[test]
fn eez_unknown_chain() {
    let reply = answered(handle(
        &Method::Post,
        "/experimental-eez-rpc/eezL3/",
        CONFIG,
        Vec::new(),
    ));
    assert_eq!(reply.status, 404);
    assert_eq!(body(&reply), json("{\"error\":\"unknown EEZ chain 'eezL3'; known: eezL1, eezL2\"}"));
    let reply = answered(handle(&Method::Get, "/other/eezL1", "", Vec::new()));
    assert_eq!(body(&reply), json("{\"error\":\"unknown EEZ chain ''; known: \"}"));
}

#[test]
fn eez_other_methods() {
    let reply = answered(handle(&Method::Get, PATH, CONFIG, Vec::new()));
    assert_eq!(reply.status, 405);
    assert_eq!(
        body(&reply),
        json("{\"error\":\"method not allowed; POST a JSON-RPC 2.0 request\"}")
    );
}

#[test]
fn eez_malformed_request() {
    let (id, code, message) = error(&answered(post("{")));
    assert_eq!(id, serde_json::Value::Null);
    assert_eq!(code, -32600);
    assert!(message.starts_with("invalid JSON-RPC request: EOF"));
}

#[test]
fn eez_other_requests_pass_through() {
    for text in [
        "{\"id\":1,\"method\":\"eth_chainId\"}",
        "[{\"method\":\"eth_estimateGas\"}]",
        "{ \"method\" : 3 }",
        "7",
    ] {
        let (request, next) = sent(post(text));
        assert_eq!(request.uri, "https://rpc");
        assert_eq!(request.body, text.as_bytes().to_vec());
        let reply = answered(next.resume(upstream(404, "not { json")));
        assert_eq!(reply.status, 404);
        assert_eq!(reply.body, b"not { json".to_vec());
        assert_eq!(reply.headers[0].0, "content-type");
    }
}

#[test]
fn eez_second_chain_with_slash() {
    let step = handle(
        &Method::Post,
        "/experimental-eez-rpc/eezL2//",
        CONFIG,
        b"{}".to_vec(),
    );
    forwarded_to(step, "https://rpc2", "{}");
}

#[test]
fn eez_fill_transaction_is_declined() {
    let reply = answered(post("{\"id\":\"x\",\"method\":\"eth_fillTransaction\"}"));
    assert_eq!(error(&reply), (json("\"x\""), -32601, "Method not found".to_string()));
    let reply = answered(post("{\"method\":\"eth_fillTransaction\"}"));
    assert_eq!(error(&reply).0, serde_json::Value::Null);
}

#[test]
fn eez_cross_chain_gas_is_fixed() {
    let text = "{\"id\":4,\"method\":\"eth_estimateGas\",\"params\":[]}";
    let (request, next) = sent(post(text));
    assert_eq!(request.uri, "https://rpc");
    assert_eq!(request.body, text.as_bytes().to_vec());
    let reply = answered(next.resume(upstream(200, NOT_FOUND)));
    assert_eq!(reply.status, 200);
    assert_eq!(body(&reply), json("{\"jsonrpc\":\"2.0\",\"id\":4,\"result\":\"0xaae60\"}"));
    assert_eq!(CROSS_CHAIN_GAS, "0xaae60");
    assert_eq!(u64::from_str_radix("aae60", 16), Ok(700000));
    let (_, next) = sent(post(text));
    let reply = answered(next.resume(upstream(400, "{\"id\":4,\"result\":\"0x5208\"}")));
    assert_eq!(reply.status, 200);
    assert_eq!(body(&reply), json("{\"id\":4,\"result\":\"0x5208\"}"));
}

#[test]
fn eez_estimate_without_execution_rpc() {
    let reply = estimate_gas(json("4"), Err("down".to_string()));
    assert_eq!(
        error(&reply),
        (json("4"), -32603, "execution RPC unreachable: down".to_string())
    );
}

#[test]
fn eez_execution_not_found() {
    assert!(is_execution_not_found(&json(NOT_FOUND)));
    assert!(is_execution_not_found(&json("{\"error\":{\"data\":\"0xed6bc7500000\"}}")));
    assert!(is_execution_not_found(&json("{\"error\":{\"data\":{\"data\":\"0xEd6bC750\"}}}")));
    assert!(!is_execution_not_found(&json("{\"error\":{\"data\":\"0xed6bc75\"}}")));
    assert!(!is_execution_not_found(&json("{\"error\":{\"message\":\"0xed6bc750\"}}")));
    assert!(!is_execution_not_found(&json("{\"result\":\"0xed6bc750\"}")));
    assert!(!is_execution_not_found(&json("[]")));
}

#[test]
fn eez_undecodable_transactions_reach_the_execution_rpc() {
    for text in [
        "{\"method\":\"eth_sendRawTransaction\",\"params\":[\"0x1234\"]}",
        "{\"method\":\"eth_sendRawTransaction\",\"params\":[]}",
        "{\"method\":\"eth_sendRawTransaction\"}",
    ] {
        forwarded_to(post(text), "https://rpc", text);
    }
}

#[test]
fn eez_ordinary_transactions_reach_the_execution_rpc() {
    let text = raw_request();
    let (request, next) = sent(post(text.as_str()));
    assert_eq!(request.uri, "https://rpc");
    let simulation: serde_json::Value = serde_json::from_slice(&request.body).unwrap();
    assert_eq!(
        simulation,
        json(
            "{\"jsonrpc\":\"2.0\",\"id\":1,\"method\":\"eth_call\",\"params\":[
              {\"from\":\"0x9d8A62f656a8d1615C1294fd71e9CFb3E4855A4F\",
               \"to\":\"0x3535353535353535353535353535353535353535\",
               \"data\":\"0x\",\"value\":\"0xde0b6b3a7640000\"},\"latest\"]}"
        )
    );
    let step = next.resume(upstream(200, "{\"result\":\"0x\"}"));
    forwarded_to(step, "https://rpc", text.as_str());
}

#[test]
fn eez_cross_chain_transactions_reach_the_front() {
    let text = raw_request();
    let (_, next) = sent(post(text.as_str()));
    let (request, next) = sent(next.resume(upstream(200, NOT_FOUND)));
    assert_eq!(request.uri, "https://rpc");
    let asked: serde_json::Value = serde_json::from_slice(&request.body).unwrap();
    assert_eq!(
        asked,
        json("{\"jsonrpc\":\"2.0\",\"id\":1,\"method\":\"eth_blockNumber\",\"params\":[]}")
    );
    let (request, next) = sent(next.resume(upstream(200, "{\"result\":\"0x10\"}")));
    assert_eq!(request.uri, "https://front");
    let (secs, waiting) = slept(next.resume(upstream(200, "{\"result\":\"0xf\"}")));
    assert_eq!(secs, 1);
    let (request, next) = sent(waiting.resume());
    assert_eq!(request.uri, "https://front");
    assert_eq!(request.body, serde_json::to_vec(&asked).unwrap());
    let step = next.resume(upstream(200, "{\"result\":\"0x10\"}"));
    forwarded_to(step, "https://front", text.as_str());
}

#[test]
fn eez_waiting_for_the_front_ends() {
    let mut current = poll(10, 0);
    let mut asked: u64 = 1;
    loop {
        assert_eq!(current.waited, asked - 1);
        match current.wait_for_front_sync(Ok(9)) {
            RpcStep::Sleep { secs, next } => {
                assert_eq!(secs, 1);
                current = next.poll;
                asked += 1;
            }
            step => {
                let reply = answered(step);
                assert_eq!(
                    error(&reply),
                    (
                        json("9"),
                        -32603,
                        "front not in sync with execution RPC: front at block 9, execution RPC at 10 after 30s"
                            .to_string()
                    )
                );
                break;
            }
        }
    }
    assert_eq!(asked, FRONT_SYNC_MAX_SECS + 1);
    forwarded_to(poll(10, 30).wait_for_front_sync(Ok(11)), "https://front", "tx");
}

#[test]
fn eez_transactions_are_routed_by_what_was_answered() {
    forwarded_to(pending().route_transaction(Ok(json("{}"))), "https://rpc", "tx");
    forwarded_to(pending().simulate(None), "https://rpc", "tx");
    forwarded_to(poll(5, 0).wait_for_front_sync(Ok(5)), "https://front", "tx");
    let (request, next) = sent(pending().await_front(Ok(5)));
    assert_eq!(request.uri, "https://front");
    match next {
        Awaiting::Asked(Question::Front(p)) => {
            assert_eq!(p.target, 5);
            assert_eq!(p.waited, 0);
        }
        _ => panic!("not asked"),
    }
}

#[test]
fn eez_failures_are_answered_with_an_error() {
    let reply = answered(pending().route_transaction(Err("e".to_string())));
    assert_eq!(error(&reply), (json("9"), -32603, "execution RPC unreachable: e".to_string()));
    let reply = answered(pending().await_front(Err("e".to_string())));
    assert_eq!(
        error(&reply),
        (json("9"), -32603, "front not in sync with execution RPC: e".to_string())
    );
    let reply = answered(poll(1, 0).wait_for_front_sync(Err("e".to_string())));
    assert_eq!(
        error(&reply),
        (json("9"), -32603, "front not in sync with execution RPC: e".to_string())
    );
    let forwarding = Forwarding { url: "https://rpc".to_string() };
    let reply = forwarding.forward(upstream(503, "busy"));
    assert_eq!(
        error(&reply),
        (
            serde_json::Value::Null,
            -32603,
            "upstream unreachable: upstream https://rpc answered HTTP 503".to_string()
        )
    );
    let asked = Awaiting::Asked(Question::Target(pending()));
    let reply = answered(asked.resume(Upstream::Failed("no route".to_string())));
    assert_eq!(
        error(&reply),
        (json("9"), -32603, "front not in sync with execution RPC: no route".to_string())
    );
    let asked = Awaiting::Asked(Question::Gas { url: "https://rpc".to_string(), id: json("3") });
    let reply = answered(asked.resume(upstream(500, "{}")));
    assert_eq!(
        error(&reply),
        (
            json("3"),
            -32603,
            "execution RPC unreachable: upstream https://rpc answered HTTP 500".to_string()
        )
    );
}

#[test]
fn eez_answers_of_servers() {
    assert_eq!(send_upstream("u", upstream(499, "b")), Ok((499, b"b".to_vec())));
    assert_eq!(
        send_upstream("u", upstream(500, "b")),
        Err("upstream u answered HTTP 500".to_string())
    );
    assert_eq!(send_upstream("u", Upstream::Failed("x".to_string())), Err("x".to_string()));
    assert_eq!(rpc_post("u", upstream(400, "[1]")), Ok(json("[1]")));
    assert!(rpc_post("u", upstream(200, "[")).is_err());
}

#[test]
fn eez_block_numbers() {
    assert_eq!(block_number("u", Ok(json("{\"result\":\"0x1F\"}"))), Ok(31));
    assert_eq!(block_number("u", Ok(json("{\"result\":\"ffffffffffffffff\"}"))), Ok(u64::MAX));
    assert_eq!(
        block_number("u", Ok(json("{\"a\":1}"))),
        Err("no result from u: {\"a\":1}".to_string())
    );
    assert_eq!(
        block_number("u", Ok(json("{\"result\":\"0x\"}"))),
        Err("cannot parse integer from empty string".to_string())
    );
    assert!(block_number("u", Ok(json("{\"result\":\"0x10000000000000000\"}"))).is_err());
    assert_eq!(block_number("u", Err("e".to_string())), Err("e".to_string()));
}

#[test]
fn eez_answers_are_readable() {
    let reply = rpc_error(json("1"), -5, "m");
    assert_eq!(
        reply.headers,
        vec![
            ("content-type".to_string(), "application/json".to_string()),
            ("access-control-allow-origin".to_string(), "*".to_string()),
            ("access-control-allow-methods".to_string(), "GET, POST, OPTIONS".to_string()),
            ("access-control-allow-headers".to_string(), "*".to_string()),
            ("access-control-max-age".to_string(), "3600".to_string()),
        ]
    );
    assert_eq!(
        body(&reply),
        json("{\"jsonrpc\":\"2.0\",\"id\":1,\"error\":{\"code\":-5,\"message\":\"m\"}}")
    );
    assert_eq!(json_response(201, &json("[]")).body, b"[]".to_vec());
    assert_eq!(rpc_response(202, b"x".to_vec()).body, b"x".to_vec());
    assert_eq!(rpc_response(202, Vec::new()).headers, reply.headers);
}
