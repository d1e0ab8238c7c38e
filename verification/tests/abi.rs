use evmcrispr_api::abi::{
    blockscout_abi_url, blockscout_base_url, etherscan_abi_url, get_abi, is_valid_address,
    is_valid_chain_id, miss_json, AbiLookup, AbiMiss, AbiStep, AfterCache, AfterExplorer,
    AfterStale, Contract, ExplorerAbiResponse, ExplorerReply, ABI_TTL_MS,
};
use evmcrispr_api::cache::{set_cached, CacheEntry};
use evmcrispr_api::http::{build_response, Reply};

const ADDRESS: &str = "0xAbCdEf0123456789aBcDeF0123456789ABCDEF01";
const LOWER: &str = "0xabcdef0123456789abcdef0123456789abcdef01";

fn json(text: &str) -> serde_json::Value {
    serde_json::from_str(text).unwrap()
}

fn body(reply: &Reply) -> serde_json::Value {
    serde_json::from_slice(&reply.body).unwrap()
}

fn contract(chain_id: &str) -> Contract {
    Contract::new(chain_id, ADDRESS).unwrap()
}

fn explorer(status: &str, message: &str, result: &str) -> ExplorerReply {
    ExplorerReply::Answer(ExplorerAbiResponse {
        status: status.to_string(),
        message: message.to_string(),
        result: result.to_string(),
    })
}

fn etherscan(chain_id: &str) -> AfterExplorer {
    AfterExplorer::Etherscan { contract: contract(chain_id) }
}

fn miss() -> AbiMiss {
    AbiMiss {
        provider: "etherscan",
        message: "NOTOK".to_string(),
        details: "not verified".to_string(),
    }
}

fn blockscout() -> AfterExplorer {
    AfterExplorer::Blockscout { contract: contract("1"), etherscan: miss() }
}

fn started(chain_id: &str, address: &str) -> (String, AfterCache) {
    match get_abi(chain_id, address) {
        AbiStep::ReadCache { key, next } => (key, next),
        _ => panic!("no contract"),
    }
}

fn answered(step: AbiStep) -> Reply {
    match step {
        AbiStep::Respond(reply) => reply,
        _ => panic!("no answer"),
    }
}

fn asked(step: AbiStep) -> (String, AfterExplorer) {
    match step {
        AbiStep::Ask { url, next } => (url, next),
        _ => panic!("nobody asked"),
    }
}

fn failed(step: AbiStep) -> (String, AfterStale) {
    match step {
        AbiStep::ReadStale { key, next } => (key, next),
        _ => panic!("no failure"),
    }
}

#[test]
fn abi_addresses() {
    assert!(is_valid_address(ADDRESS));
    assert!(is_valid_address("0x0x00000000000000000000000000000000000000"));
    assert!(!is_valid_address("0xAbCdEf0123456789aBcDeF0123456789ABCDEF0"));
    assert!(!is_valid_address("0xAbCdEf0123456789aBcDeF0123456789ABCDEF012"));
    assert!(!is_valid_address("0xgbCdEf0123456789aBcDeF0123456789ABCDEF01"));
    assert!(!is_valid_address("00AbCdEf0123456789aBcDeF0123456789ABCDEF01"));
    assert!(!is_valid_address("0xñbCdEf0123456789aBcDeF0123456789ABCDEF0"));
    assert!(!is_valid_address(""));
}

#[test]
fn abi_chain_ids() {
    assert!(is_valid_chain_id("1"));
    assert!(is_valid_chain_id("0"));
    assert!(is_valid_chain_id("18446744073709551615"));
    assert!(!is_valid_chain_id("18446744073709551616"));
    assert!(!is_valid_chain_id(""));
    assert!(!is_valid_chain_id("0x1"));
}

#[test]
fn abi_urls() {
    assert_eq!(
        etherscan_abi_url("10", "0xab", None),
        "https://api.etherscan.io/v2/api?chainId=10&module=contract&action=getabi&address=0xab"
    );
    assert_eq!(
        blockscout_abi_url("https://eth.blockscout.com", "0xab"),
        "https://eth.blockscout.com/api?module=contract&action=getabi&address=0xab"
    );
}

#[test]
fn abi_keys_add_letters_and_digits() {
    assert_eq!(
        etherscan_abi_url("10", "0xab", Some("K-e&y=1\n".to_string())),
        "https://api.etherscan.io/v2/api?chainId=10&module=contract&action=getabi&address=0xab&apikey=Key1"
    );
}

#[test]
fn abi_blockscout_explorers() {
    assert_eq!(blockscout_base_url("1"), Some("https://eth.blockscout.com"));
    assert_eq!(blockscout_base_url("10"), Some("https://optimism.blockscout.com"));
    assert_eq!(blockscout_base_url("100"), Some("https://gnosis.blockscout.com"));
    assert_eq!(blockscout_base_url("42161"), Some("https://arbitrum.blockscout.com"));
    assert_eq!(blockscout_base_url("8453"), Some("https://base.blockscout.com"));
    assert_eq!(blockscout_base_url("137"), None);
    assert_eq!(blockscout_base_url("01"), None);
}

#[test]
fn abi_keys_tell_contracts_apart() {
    assert_eq!(contract("10").cache_key(), format!("abi_10_{}", LOWER));
    assert_eq!(contract("10").cache_key(), Contract::new("10", LOWER).unwrap().cache_key());
    assert_ne!(contract("10").cache_key(), contract("1").cache_key());
    let other = "0xAbCdEf0123456789aBcDeF0123456789ABCDEF02";
    assert_ne!(contract("10").cache_key(), Contract::new("10", other).unwrap().cache_key());
}

#[test]
fn abi_invalid_requests_are_refused() {
    for (chain_id, address) in [("x", ADDRESS), ("1", "0x12")] {
        let reply = answered(get_abi(chain_id, address));
        assert_eq!(reply.status, 400);
        let wanted = format!(
            "{{\"error\":\"invalid address or chain id\",\"chainId\":\"{}\",\"address\":\"{}\"}}",
            chain_id, address
        );
        assert_eq!(body(&reply), json(wanted.as_str()));
        assert!(Contract::new(chain_id, address).is_none());
    }
}

#[test]
fn abi_in_the_cache_is_the_answer() {
    let (key, next) = started("1", ADDRESS);
    assert_eq!(key, format!("abi_1_{}", LOWER));
    let reply = answered(next.resume(Some(set_cached(json("[1]"), 1000)), 2000, None));
    assert_eq!(reply.status, 200);
    assert_eq!(body(&reply), json("[1]"));
}

#[test]
fn abi_not_in_the_cache_is_asked_for() {
    let (_, next) = started("1", ADDRESS);
    let (url, next) = asked(next.resume(None, 5, Some("k".to_string())));
    assert_eq!(url, etherscan_abi_url("1", ADDRESS, Some("k".to_string())));
    assert!(matches!(next, AfterExplorer::Etherscan { .. }));
    let (_, next) = started("1", ADDRESS);
    let old = CacheEntry { data: json("[1]"), timestamp_ms: 0 };
    let (url, _) = asked(next.resume(Some(old), ABI_TTL_MS, None));
    assert_eq!(url, etherscan_abi_url("1", ADDRESS, None));
    assert_eq!(ABI_TTL_MS, 365 * 24 * 60 * 60 * 1000);
}

#[test]
fn abi_found_is_served_from_the_cache() {
    for asking in [etherscan("1"), blockscout()] {
        match asking.resume(explorer("1", "OK", "[{\"type\":\"fallback\"}]")) {
            AbiStep::StoreAndRespond { key, abi, reply } => {
                assert_eq!(reply.status, 200);
                assert_eq!(body(&reply), json("[{\"type\":\"fallback\"}]"));
                let (read_key, next) = started("1", LOWER);
                assert_eq!(key, read_key);
                let later = answered(next.resume(Some(set_cached(abi, 7)), 8, None));
                assert_eq!(later.body, reply.body);
            }
            _ => panic!("not found"),
        }
    }
}

#[test]
fn abi_blockscout_is_asked_after_etherscan() {
    let (url, next) = asked(etherscan("100").resume(explorer("0", "NOTOK", "not verified")));
    assert_eq!(url, blockscout_abi_url("https://gnosis.blockscout.com", ADDRESS));
    match next {
        AfterExplorer::Blockscout { etherscan, .. } => {
            assert_eq!(etherscan.provider, "etherscan");
            assert_eq!(etherscan.message, "NOTOK");
            assert_eq!(etherscan.details, "not verified");
        }
        AfterExplorer::Etherscan { .. } => panic!("asked again"),
    }
}

#[test]
fn abi_not_found_where_no_other_explorer_is_known() {
    let reply = answered(etherscan("137").resume(explorer("0", "NOTOK", "not verified")));
    assert_eq!(reply.status, 404);
    let wanted = format!(
        "{{\"error\":\"NOTOK\",\"details\":\"not verified\",\"chainId\":\"137\",\"address\":\"{}\",
          \"sources\":[{{\"provider\":\"etherscan\",\"error\":\"NOTOK\",\"details\":\"not verified\"}}]}}",
        ADDRESS
    );
    assert_eq!(body(&reply), json(wanted.as_str()));
}

#[test]
fn abi_not_found_anywhere() {
    let reply = answered(blockscout().resume(explorer("0", "No", "nothing")));
    assert_eq!(reply.status, 404);
    let wanted = format!(
        "{{\"error\":\"abi not found\",\"chainId\":\"1\",\"address\":\"{}\",\"sources\":[
          {{\"provider\":\"etherscan\",\"error\":\"NOTOK\",\"details\":\"not verified\"}},
          {{\"provider\":\"blockscout\",\"error\":\"No\",\"details\":\"nothing\"}}]}}",
        ADDRESS
    );
    assert_eq!(body(&reply), json(wanted.as_str()));
}

#[test]
fn abi_failures_are_reported() {
    let wanted = |error: &str, provider: &str, details: &str| {
        json(
            format!(
                "{{\"error\":\"{}\",\"provider\":\"{}\",\"chainId\":\"1\",\"address\":\"{}\",\"details\":\"{}\"}}",
                error, provider, ADDRESS, details
            )
            .as_str(),
        )
    };
    let (key, next) = failed(etherscan("1").resume(ExplorerReply::Failed("a \"b\"\n".to_string())));
    assert_eq!(key, format!("abi_1_{}", LOWER));
    let reply = next.response_or_stale(None);
    assert_eq!(reply.status, 502);
    assert_eq!(body(&reply), wanted("upstream request failed", "etherscan", "a b"));
    let (_, next) = failed(blockscout().resume(ExplorerReply::Malformed("bad".to_string())));
    let reply = next.response_or_stale(None);
    assert_eq!(reply.status, 502);
    assert_eq!(body(&reply), wanted("invalid upstream json", "blockscout", "bad"));
}

#[test]
fn abi_that_is_no_json() {
    let (_, next) = failed(etherscan("1").resume(explorer("1", "OK", "oops")));
    let reply = next.response_or_stale(None);
    assert_eq!(reply.status, 502);
    let b = body(&reply);
    assert_eq!(b["error"].as_str(), Some("invalid abi json"));
    assert!(b["details"].as_str().unwrap().contains("expected value"));
}

#[test]
fn abi_stale_is_better_than_an_error() {
    let (_, next) = failed(etherscan("1").resume(ExplorerReply::Failed("x".to_string())));
    let stale = CacheEntry { data: json("[2]"), timestamp_ms: 0 };
    let reply = next.response_or_stale(Some(stale));
    assert_eq!(reply.status, 200);
    assert_eq!(body(&reply), json("[2]"));
}

#[test]
fn abi_lookup_of_one_explorer() {
    let c = contract("5");
    match c.fetch_explorer_abi("other", explorer("1", "OK", "[]")) {
        Ok(AbiLookup::Found(abi)) => assert_eq!(abi, json("[]")),
        _ => panic!("not found"),
    }
    match c.fetch_explorer_abi("other", explorer("2", "M", "D")) {
        Ok(AbiLookup::NotFound(m)) => {
            assert_eq!(
                miss_json(&m),
                json("{\"provider\":\"other\",\"error\":\"M\",\"details\":\"D\"}")
            );
        }
        _ => panic!("found"),
    }
    match c.fetch_explorer_abi("other", ExplorerReply::Failed("x".to_string())) {
        Err(reply) => assert_eq!(body(&reply)["provider"].as_str(), Some("other")),
        Ok(_) => panic!("no failure"),
    }
}

#[test]
fn abi_answers_are_json_for_any_page() {
    let reply = build_response(418, &json("{\"a\":1}"));
    assert_eq!(reply.status, 418);
    assert_eq!(
        reply.headers,
        vec![
            ("content-type".to_string(), "application/json".to_string()),
            ("access-control-allow-origin".to_string(), "*".to_string()),
        ]
    );
    assert_eq!(reply.body, b"{\"a\":1}".to_vec());
}

#[test]
fn abi_text_that_was_read() {
    match contract("1").read_abi("p", Ok(json("[3]"))) {
        Ok(AbiLookup::Found(abi)) => assert_eq!(abi, json("[3]")),
        _ => panic!("not found"),
    }
    match contract("1").read_abi("p", Err("bad \"x\"".to_string())) {
        Err(reply) => {
            assert_eq!(reply.status, 502);
            assert_eq!(body(&reply)["error"].as_str(), Some("invalid abi json"));
            assert_eq!(body(&reply)["provider"].as_str(), Some("p"));
            assert_eq!(body(&reply)["details"].as_str(), Some("bad x"));
        }
        Ok(_) => panic!("found"),
    }
}
