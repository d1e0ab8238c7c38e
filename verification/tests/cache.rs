use evmcrispr_api::cache::{get_cached, get_stale, now_ms, set_cached, CacheEntry};

#[test]
fn cache_stored_data_is_given_back() {
    assert_eq!(get_cached(Some(set_cached(7, 1000)), 1000, 50), Some(7));
    assert_eq!(get_cached(Some(set_cached(7, 1000)), 1049, 50), Some(7));
    assert_eq!(get_cached(Some(set_cached(7, 1000)), 1050, 50), None);
    assert_eq!(get_stale(Some(set_cached(7, 1000))), Some(7));
}

#[test]
fn cache_stale_entries_stay_stale() {
    for now in [1050, 2000, u64::MAX] {
        assert_eq!(get_cached(Some(CacheEntry { data: 'x', timestamp_ms: 1000 }), now, 50), None);
    }
}

#[test]
fn cache_entries_from_the_future_are_fresh() {
    assert_eq!(get_cached(Some(CacheEntry { data: 'x', timestamp_ms: 5000 }), 10, 1), Some('x'));
    assert_eq!(get_cached(Some(CacheEntry { data: 'x', timestamp_ms: 5000 }), 10, 0), None);
}

#[test]
fn cache_without_entry_gives_nothing() {
    assert_eq!(get_cached::<u8>(None, 0, 1), None);
    assert_eq!(get_stale::<u8>(None), None);
}

#[test]
fn cache_entry_keeps_data_and_time() {
    let entry = set_cached("abi".to_string(), 42);
    assert_eq!(entry.data, "abi");
    assert_eq!(entry.timestamp_ms, 42);
}

#[test]
fn cache_clock() {
    assert_eq!(now_ms(Some(1_700_000_000_123)), 1_700_000_000_123);
    assert_eq!(now_ms(None), 0);
    assert_eq!(now_ms(Some((1u128 << 64) + 5)), 5);
}
