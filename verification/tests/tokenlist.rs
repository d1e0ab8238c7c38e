use evmcrispr_api::cache::{set_cached, CacheEntry};
use evmcrispr_api::http::{Reply, Upstream};
use evmcrispr_api::timestamps::{last_timestamp, later_time, time_or_epoch, timestamp_to_iso};
use evmcrispr_api::tokenlist::{
    build_response, fetch_json, get_token_list, stale_or_error, token_list, AfterFailure, AfterList,
    AfterPlatforms, FetchingPlatforms, Gathering, Opening, Source, SourceStep, TokenListStep,
    UncachedGathering, PLATFORMS_TTL_MS, PLATFORMS_URL, SUPERFLUID_URL, TOKEN_LIST_TTL_MS,
};
use evmcrispr_api::tokens::{AssetPlatform, SourceTokenList, Token, TokenListResponse};
use std::collections::HashMap;

fn json(text: &str) -> serde_json::Value {
    serde_json::from_str(text).unwrap()
}

fn body(reply: &Reply) -> serde_json::Value {
    serde_json::from_slice(&reply.body).unwrap()
}

fn token(address: &str, chain_id: u64) -> Token {
    Token {
        address: address.to_string(),
        chain_id,
        name: address.to_string(),
        symbol: String::new(),
        decimals: 0,
        logo_uri: None,
        extra: HashMap::new(),
    }
}

fn source(addresses: &[&str], timestamp: Option<&str>) -> SourceTokenList {
    SourceTokenList {
        tokens: addresses.iter().map(|a| token(a, 10)).collect(),
        timestamp: timestamp.map(|t| t.to_string()),
    }
}

fn addresses(list: &TokenListResponse) -> Vec<String> {
    list.tokens.iter().map(|t| t.address.clone()).collect()
}

fn platforms() -> Vec<AssetPlatform> {
    vec![AssetPlatform {
        id: "optimistic-ethereum".to_string(),
        chain_identifier: Some(10),
        name: "Optimism".to_string(),
    }]
}

fn list() -> TokenListResponse {
    token_list("Optimism", 10, source(&["0xA"], None), source(&["0xB"], None))
}

fn answered(step: TokenListStep) -> Reply {
    match step {
        TokenListStep::Respond(reply) => reply,
        _ => panic!("no answer"),
    }
}

fn listed(step: TokenListStep) -> TokenListResponse {
    match step {
        TokenListStep::RespondList { status, list } => {
            assert_eq!(status, 200);
            list
        }
        _ => panic!("no list"),
    }
}

fn served(step: TokenListStep) -> (String, TokenListResponse) {
    match step {
        TokenListStep::StoreAndRespondList { key, status, list } => {
            assert_eq!(status, 200);
            (key, list)
        }
        _ => panic!("no list"),
    }
}

fn stale(step: TokenListStep) -> (String, AfterFailure) {
    match step {
        TokenListStep::ReadStaleList { key, next } => (key, next),
        _ => panic!("no failure"),
    }
}

fn gathering() -> Gathering {
    match (FetchingPlatforms::Cached { chain_id: 10 }).resume(Some(platforms())) {
        TokenListStep::StorePlatforms { key, platforms, next } => {
            assert_eq!(key, "platforms");
            assert_eq!(platforms.len(), 1);
            next
        }
        _ => panic!("no network"),
    }
}

fn is_for_optimism(g: &Gathering) {
    assert_eq!(g.chain_id, 10);
    assert_eq!(g.network_name, "Optimism");
    assert_eq!(g.coingecko.url, "https://tokens.coingecko.com/optimistic-ethereum/all.json");
    assert_eq!(g.coingecko.key, "coingecko_optimistic-ethereum");
    assert_eq!(g.superfluid.url, SUPERFLUID_URL);
    assert_eq!(g.superfluid.key, "superfluid");
}

#[test]
fn timestamps_are_written() {
    assert_eq!(timestamp_to_iso(0), "1970-01-01T00:00:00.000Z");
    assert_eq!(timestamp_to_iso(1_700_000_000), "2023-11-14T22:13:20.000Z");
    assert_eq!(timestamp_to_iso(-1), "1969-12-31T23:59:59.000Z");
    assert_eq!(timestamp_to_iso(i64::MAX), "1970-01-01T00:00:00.000Z");
    assert_eq!(time_or_epoch(None), "1970-01-01T00:00:00.000Z");
    assert_eq!(time_or_epoch(Some("x".to_string())), "x");
}

#[test]
fn timestamps_later_time() {
    assert_eq!(later_time(Some(-3), Some(-2)), -2);
    assert_eq!(later_time(Some(5), Some(4)), 5);
    assert_eq!(later_time(Some(-3), None), -3);
    assert_eq!(later_time(None, Some(-3)), -3);
    assert_eq!(later_time(None, None), 0);
}

#[test]
fn timestamps_last_of_two() {
    let early = Some("2023-11-14T22:13:20Z".to_string());
    let late = Some("2023-11-15T00:13:20.999+01:00".to_string());
    assert_eq!(last_timestamp(&early, &late), 1_700_003_600);
    assert_eq!(last_timestamp(&late, &early), 1_700_003_600);
    assert_eq!(last_timestamp(&early, &Some("yesterday".to_string())), 1_700_000_000);
    assert_eq!(last_timestamp(&None, &None), 0);
}

#[test]
fn tokenlist_of_two_sources() {
    let made = token_list(
        "Optimism",
        10,
        source(&["0xA", "0xB"], Some("2023-11-14T22:13:20+00:00")),
        source(&["0xb", "0xC"], Some("2020-01-01T00:00:00Z")),
    );
    assert_eq!(made.name, "EVMcrispr Token List (Optimism)");
    assert_eq!(made.logo_uri, "https://evmcrispr.com/favicon.ico");
    assert_eq!(made.timestamp, "2023-11-14T22:13:20.000Z");
    assert_eq!(addresses(&made), vec!["0xA", "0xB", "0xC"]);
    assert_eq!((made.version.major, made.version.minor, made.version.patch), (1, 0, 0));
}

#[test]
fn tokenlist_invalid_chain() {
    for chain_id in ["", "0", "-1", "abc", "18446744073709551616"] {
        let reply = answered(get_token_list(chain_id));
        assert_eq!(reply.status, 400);
        let wanted = format!("{{\"error\":\"invalid chainId\",\"chainId\":\"{}\"}}", chain_id);
        assert_eq!(body(&reply), json(wanted.as_str()));
    }
}

#[test]
fn tokenlist_opens_the_cache() {
    match get_token_list("10") {
        TokenListStep::OpenStore { next } => assert_eq!(next.chain_id, 10),
        _ => panic!("no chain"),
    }
    match (Opening { chain_id: 10 }).resume(true) {
        TokenListStep::ReadList { key, next } => {
            assert_eq!(key, "tokenlist_10");
            assert_eq!(next.chain_id, 10);
        }
        _ => panic!("not read"),
    }
    match (Opening { chain_id: 10 }).resume(false) {
        TokenListStep::FetchPlatforms { url, next } => {
            assert_eq!(url, "https://api.coingecko.com/api/v3/asset_platforms");
            assert_eq!(url, PLATFORMS_URL);
            assert!(matches!(next, FetchingPlatforms::Uncached { chain_id: 10 }));
        }
        _ => panic!("not fetched"),
    }
}

#[test]
fn tokenlist_keys_tell_chains_apart() {
    let keys: Vec<String> = [1, 10, 100]
        .iter()
        .map(|id| match (Opening { chain_id: *id }).resume(true) {
            TokenListStep::ReadList { key, .. } => key,
            _ => panic!("not read"),
        })
        .collect();
    assert_eq!(keys, vec!["tokenlist_1", "tokenlist_10", "tokenlist_100"]);
}

#[test]
fn tokenlist_served_is_served_again() {
    let (key, made) =
        served(gathering().build_and_cache_token_list(
            Some(source(&["0xA"], None)),
            Some(source(&["0xB"], None)),
        ));
    assert_eq!(key, "tokenlist_10");
    assert_eq!(addresses(&made), vec!["0xA", "0xB"]);
    let entry = Some(set_cached(made, 1000));
    let again = listed((AfterList { chain_id: 10 }).resume(entry, 1000 + TOKEN_LIST_TTL_MS - 1));
    assert_eq!(addresses(&again), vec!["0xA", "0xB"]);
}

#[test]
fn tokenlist_reads_networks_where_there_is_no_fresh_list() {
    let entry = Some(set_cached(list(), 1000));
    for step in [
        (AfterList { chain_id: 10 }).resume(entry, 1000 + TOKEN_LIST_TTL_MS),
        (AfterList { chain_id: 10 }).resume(None, 0),
    ] {
        match step {
            TokenListStep::ReadPlatforms { key, next } => {
                assert_eq!(key, "platforms");
                assert_eq!(next.chain_id, 10);
            }
            _ => panic!("not read"),
        }
    }
    assert_eq!(TOKEN_LIST_TTL_MS, 12 * 60 * 60 * 1000);
    assert_eq!(PLATFORMS_TTL_MS, 5 * 24 * 60 * 60 * 1000);
}

#[test]
fn tokenlist_cached_networks() {
    let fresh = Some(set_cached(platforms(), 1000));
    match (AfterPlatforms { chain_id: 10 }).resolve_network(fresh, 1001) {
        TokenListStep::Gather(g) => is_for_optimism(&g),
        _ => panic!("no network"),
    }
    let unknown = Some(set_cached(platforms(), 1000));
    let old = Some(CacheEntry { data: platforms(), timestamp_ms: 0 });
    for (chain_id, entry) in [(11, unknown), (10, old), (10, None)] {
        match (AfterPlatforms { chain_id }).resolve_network(entry, PLATFORMS_TTL_MS) {
            TokenListStep::FetchPlatforms { url, next } => {
                assert_eq!(url, PLATFORMS_URL);
                assert!(matches!(next, FetchingPlatforms::Cached { chain_id: id } if id == chain_id));
            }
            _ => panic!("not fetched"),
        }
    }
}

#[test]
fn tokenlist_fetched_networks() {
    is_for_optimism(&gathering());
    match (FetchingPlatforms::Uncached { chain_id: 10 }).resume(Some(platforms())) {
        TokenListStep::GatherUncached(g) => {
            assert_eq!(g.network_name, "Optimism");
            assert_eq!(
                g.coingecko_url,
                "https://tokens.coingecko.com/optimistic-ethereum/all.json"
            );
            assert_eq!(g.superfluid_url, SUPERFLUID_URL);
        }
        _ => panic!("no network"),
    }
}

#[test]
fn tokenlist_failures_fall_back_on_the_cache() {
    for step in [
        (FetchingPlatforms::Cached { chain_id: 10 }).resume(None),
        gathering().build_and_cache_token_list(None, Some(source(&[], None))),
        gathering().build_and_cache_token_list(Some(source(&[], None)), None),
    ] {
        let (key, next) = stale(step);
        assert_eq!(key, "tokenlist_10");
        let old = CacheEntry { data: list(), timestamp_ms: 0 };
        assert_eq!(addresses(&listed(next.resume(Some(old)))), vec!["0xA", "0xB"]);
    }
}

#[test]
fn tokenlist_failure_without_cached_list() {
    let (_, next) = stale((FetchingPlatforms::Cached { chain_id: 11 }).resume(Some(platforms())));
    let reply = answered(next.resume(None));
    assert_eq!(reply.status, 502);
    assert_eq!(
        body(&reply),
        json("{\"error\":\"failed to fetch token lists and no cache available\"}")
    );
}

#[test]
fn tokenlist_unsupported_chain_without_cache() {
    for fetched in [None, Some(platforms())] {
        let reply = answered((FetchingPlatforms::Uncached { chain_id: 11 }).resume(fetched));
        assert_eq!(reply.status, 400);
        assert_eq!(body(&reply), json("{\"error\":\"unsupported chainId: 11\"}"));
    }
}

#[test]
fn tokenlist_without_cache_takes_what_there_is() {
    let uncached = || UncachedGathering {
        chain_id: 10,
        network_name: "N".to_string(),
        coingecko_url: String::new(),
        superfluid_url: String::new(),
    };
    let (key, made) =
        served(uncached().build_token_list_without_cache(None, Some(source(&["0xB"], None))));
    assert_eq!(key, "tokenlist_10");
    assert_eq!(addresses(&made), vec!["0xB"]);
    let (_, made) = served(uncached().build_token_list_without_cache(None, None));
    assert_eq!(made.tokens.len(), 0);
    assert_eq!(made.timestamp, "1970-01-01T00:00:00.000Z");
    assert_eq!(made.name, "EVMcrispr Token List (N)");
}

#[test]
fn tokenlist_fetched_lists_are_kept() {
    let source_of = || Source { url: "https://u".to_string(), key: "k".to_string() };
    let fresh = Some(set_cached(source(&["0xA"], None), 1000));
    match source_of().fetch_with_cache(fresh, 1001) {
        SourceStep::Done(data) => assert_eq!(data.tokens.len(), 1),
        _ => panic!("not fresh"),
    }
    match source_of().fetch_with_cache(None, 0) {
        SourceStep::Fetch { url, next } => {
            assert_eq!(url, "https://u");
            match next.resume(Some(source(&["0xA"], None))) {
                SourceStep::StoreAndDone { key, data } => {
                    assert_eq!(key, "k");
                    assert_eq!(data.tokens.len(), 1);
                }
                _ => panic!("not stored"),
            }
        }
        _ => panic!("not fetched"),
    }
    let old = Some(CacheEntry { data: source(&[], None), timestamp_ms: 0 });
    match source_of().fetch_with_cache(old, TOKEN_LIST_TTL_MS) {
        SourceStep::Fetch { next, .. } => match next.resume(None) {
            SourceStep::ReadStale { key } => assert_eq!(key, "k"),
            _ => panic!("not stale"),
        },
        _ => panic!("not fetched"),
    }
}

#[test]
fn tokenlist_failed_download_ends_with_the_cache_or_the_error() {
    let old = CacheEntry { data: source(&["0xA"], None), timestamp_ms: 0 };
    let kept = stale_or_error(Some(old), "HTTP 500 from u".to_string());
    assert_eq!(kept.unwrap().tokens.len(), 1);
    let none = stale_or_error(None, "HTTP 500 from u".to_string());
    assert_eq!(none.unwrap_err(), "HTTP 500 from u");
}

#[test]
fn tokenlist_answers_of_servers() {
    let ok = Upstream::Answered { status: 200, body: b"[]".to_vec() };
    assert_eq!(fetch_json("https://u", ok), Ok(b"[]".to_vec()));
    let not_ok = Upstream::Answered { status: 204, body: Vec::new() };
    assert_eq!(fetch_json("https://u", not_ok), Err("HTTP 204 from https://u".to_string()));
    assert_eq!(fetch_json("https://u", Upstream::Failed("x".to_string())), Err("x".to_string()));
}

#[test]
fn tokenlist_answers() {
    let reply = build_response(200, Some("{\"name\":1}".to_string()));
    assert_eq!(reply.status, 200);
    assert_eq!(reply.body, b"{\"name\":1}".to_vec());
    assert_eq!(
        reply.headers,
        vec![
            ("content-type".to_string(), "application/json".to_string()),
            ("access-control-allow-origin".to_string(), "*".to_string()),
            ("cache-control".to_string(), "public, max-age=300, s-maxage=300".to_string()),
        ]
    );
    assert_eq!(build_response(200, None).body, b"{\"error\":\"serialization failed\"}".to_vec());
}
