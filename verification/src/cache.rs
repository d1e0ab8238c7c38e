//! Entries of a cache: data with the time at which it was stored.

use vstd::prelude::*;

verus! {

/// Data with the time at which it was stored, in milliseconds since the epoch.
#[derive(Debug)]
pub struct CacheEntry<T> {
    pub data: T,
    pub timestamp_ms: u64,
}

/// Whether an entry is younger than `ttl_ms`. One from the future is of no age.
pub open spec fn is_fresh(timestamp_ms: u64, now_ms: u64, ttl_ms: u64) -> bool {
    if now_ms <= timestamp_ms {
        0 < ttl_ms
    } else {
        now_ms - timestamp_ms < ttl_ms
    }
}

/// The milliseconds since the epoch that a clock counts, in sixty-four bits; none where the
/// clock stands before the epoch.
pub open spec fn clock_ms(since_epoch_ms: Option<u128>) -> nat {
    match since_epoch_ms {
        Some(ms) => ms as nat % 0x1_0000_0000_0000_0000,
        None => 0,
    }
}

/// The time in milliseconds since the epoch, from what the clock says of it; the epoch where
/// the clock stands before it.
pub fn now_ms(since_epoch_ms: Option<u128>) -> (r: u64)
    ensures
        r == clock_ms(since_epoch_ms),
{
    match since_epoch_ms {
        Some(ms) => (ms % 0x1_0000_0000_0000_0000) as u64,
        None => 0,
    }
}

/// What an entry gives while it is fresh.
pub open spec fn fresh_data<T>(entry: Option<CacheEntry<T>>, now_ms: u64, ttl_ms: u64) -> Option<
    T,
> {
    match entry {
        Some(e) => if is_fresh(e.timestamp_ms, now_ms, ttl_ms) {
            Some(e.data)
        } else {
            None
        },
        None => None,
    }
}

/// What an entry gives however old it is.
pub open spec fn any_data<T>(entry: Option<CacheEntry<T>>) -> Option<T> {
    match entry {
        Some(e) => Some(e.data),
        None => None,
    }
}

/// The entry for data that is stored at a time.
pub open spec fn entry_of<T>(data: T, now_ms: u64) -> CacheEntry<T> {
    CacheEntry { data, timestamp_ms: now_ms }
}

/// The data of an entry, if there is one and it is younger than `ttl_ms`.
pub fn get_cached<T>(entry: Option<CacheEntry<T>>, now_ms: u64, ttl_ms: u64) -> (r: Option<T>)
    ensures
        r == fresh_data(entry, now_ms, ttl_ms),
{
    match entry {
        Some(e) => if now_ms.saturating_sub(e.timestamp_ms) < ttl_ms {
            Some(e.data)
        } else {
            None
        },
        None => None,
    }
}

/// The data of an entry, if there is one, however old.
pub fn get_stale<T>(entry: Option<CacheEntry<T>>) -> (r: Option<T>)
    ensures
        r == any_data(entry),
{
    match entry {
        Some(e) => Some(e.data),
        None => None,
    }
}

/// The entry for data that is stored now.
pub fn set_cached<T>(data: T, now_ms: u64) -> (r: CacheEntry<T>)
    ensures
        r == entry_of(data, now_ms),
{
    CacheEntry { data, timestamp_ms: now_ms }
}

/// What was stored is given back until its time is over and not afterwards; as stale data it
/// is given back at any time.
pub proof fn stored_data_is_given_back<T>(data: T, stored_ms: u64, now_ms: u64, ttl_ms: u64)
    requires
        ttl_ms > 0,
    ensures
        fresh_data(Some(entry_of(data, stored_ms)), now_ms, ttl_ms) == if now_ms < stored_ms
            + ttl_ms {
            Some(data)
        } else {
            None
        },
        any_data(Some(entry_of(data, stored_ms))) == Some(data),
{
}

/// An entry that is no longer fresh never becomes fresh again.
pub proof fn stale_entries_stay_stale<T>(
    entry: CacheEntry<T>,
    now_ms: u64,
    later_ms: u64,
    ttl_ms: u64,
)
    requires
        fresh_data(Some(entry), now_ms, ttl_ms) is None,
        now_ms <= later_ms,
    ensures
        fresh_data(Some(entry), later_ms, ttl_ms) is None,
{
}

} // verus!
