use evmcrispr_api::tokens::{
    add_new_tokens, find_network, merge_tokens, AssetPlatform, Token,
};
use std::collections::HashMap;

fn platform(id: &str, chain: Option<i64>) -> AssetPlatform {
    AssetPlatform { id: id.to_string(), chain_identifier: chain, name: id.to_uppercase() }
}

fn token(address: &str, chain_id: u64, name: &str) -> Token {
    Token {
        address: address.to_string(),
        chain_id,
        name: name.to_string(),
        symbol: String::new(),
        decimals: 18,
        logo_uri: None,
        extra: HashMap::new(),
    }
}

fn names(tokens: &Vec<Token>) -> Vec<String> {
    tokens.iter().map(|t| t.name.clone()).collect()
}

fn coingecko() -> Vec<Token> {
    vec![token("0xAA", 1, "c1"), token("0xaa", 1, "c2"), token("0xBB", 5, "c3")]
}

fn superfluid() -> Vec<Token> {
    vec![
        token("0xaA", 1, "listed"),
        token("0xCC", 2, "other chain"),
        token("0xCC", 1, "s1"),
        token("0xcc", 1, "again"),
        token("", 1, "no address"),
        token("0xDD", 1, "s2"),
        token("0xbb", 1, "taken"),
    ]
}

#[test]
fn tokens_networks_are_found() {
    let list =
        [platform("a", None), platform("b", Some(10)), platform("c", Some(10)), platform("d", Some(-1))];
    assert_eq!(find_network(&list, 10), Some(("B".to_string(), "b".to_string())));
    assert_eq!(find_network(&list, 11), None);
    assert_eq!(find_network(&list, u64::MAX), Some(("D".to_string(), "d".to_string())));
    assert_eq!(find_network(&[], 10), None);
}

#[test]
fn tokens_coingecko_comes_first() {
    let merged = merge_tokens(coingecko(), superfluid(), 1);
    assert_eq!(names(&merged), vec!["c1", "c2", "c3", "s1", "s2"]);
}

#[test]
fn tokens_added_tokens_are_new() {
    let merged = merge_tokens(coingecko(), superfluid(), 1);
    for i in 3..merged.len() {
        assert_eq!(merged[i].chain_id, 1);
        for k in 0..i {
            assert_ne!(merged[k].address.to_lowercase(), merged[i].address.to_lowercase());
        }
    }
}

#[test]
fn tokens_superfluid_tokens_are_listed() {
    let merged = merge_tokens(coingecko(), superfluid(), 1);
    for t in superfluid() {
        if t.chain_id == 1 && !t.address.is_empty() {
            assert!(merged.iter().any(|m| m.address.to_lowercase() == t.address.to_lowercase()));
        }
    }
}

#[test]
fn tokens_merging_again_adds_nothing() {
    let merged = merge_tokens(coingecko(), superfluid(), 1);
    let twice = merge_tokens(merged.clone(), superfluid(), 1);
    assert_eq!(names(&twice), names(&merged));
}

#[test]
fn tokens_keep_what_else_is_said_of_them() {
    let mut t = token("0xEE", 1, "s");
    t.extra.insert("tags".to_string(), serde_json::Value::Bool(true));
    let merged = merge_tokens(Vec::new(), vec![t], 1);
    assert_eq!(merged[0].extra.get("tags"), Some(&serde_json::Value::Bool(true)));
}

#[test]
fn tokens_lower_case_beyond_ascii() {
    let merged = merge_tokens(vec![token("Ñ", 1, "a")], vec![token("ñ", 1, "b")], 1);
    assert_eq!(names(&merged), vec!["a"]);
}

#[test]
fn tokens_are_added_by_the_given_addresses() {
    let mut list = vec![token("x", 1, "a")];
    add_new_tokens(
        &mut list,
        vec!["k".to_string()],
        vec![
            (token("x", 1, "b"), "m".to_string()),
            (token("y", 1, "c"), "k".to_string()),
            (token("z", 1, "d"), "m".to_string()),
            (token("z", 1, "e"), "".to_string()),
            (token("z", 2, "f"), "n".to_string()),
            (token("z", 1, "g"), "n".to_string()),
        ],
        1,
    );
    assert_eq!(names(&list), vec!["a", "b", "g"]);
}
