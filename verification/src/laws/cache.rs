//! What a cache promises: data is served while it is fresh, and is never lost.

use vstd::prelude::*;
use crate::cache::{any_data, clock_ms, entry_of, fresh_data, CacheEntry};

verus! {

/// An entry is served as long as less time has passed than it may stay fresh, and not
/// afterwards; however old it is, it is there to fall back on. It says when it was stored.
pub proof fn entries_are_served_while_fresh<T>(
    data: T,
    stored_ms: u64,
    passed_ms: u64,
    ttl_ms: u64,
)
    requires
        stored_ms + passed_ms <= u64::MAX,
    ensures
        entry_of(data, stored_ms).data == data,
        entry_of(data, stored_ms).timestamp_ms == stored_ms,
        passed_ms < ttl_ms ==> fresh_data(
            Some(CacheEntry { data, timestamp_ms: stored_ms }),
            (stored_ms + passed_ms) as u64,
            ttl_ms,
        ) == Some(data),
        passed_ms >= ttl_ms ==> fresh_data(
            Some(CacheEntry { data, timestamp_ms: stored_ms }),
            (stored_ms + passed_ms) as u64,
            ttl_ms,
        ) is None,
        any_data(Some(CacheEntry { data, timestamp_ms: stored_ms })) == Some(data),
        fresh_data(None::<CacheEntry<T>>, stored_ms, ttl_ms) is None,
        any_data(None::<CacheEntry<T>>) is None,
{
}

/// An entry from the future is of no age, however far ahead its time lies.
pub proof fn entries_from_the_future_are_fresh<T>(data: T, stored_ms: u64, now_ms: u64, ttl_ms: u64)
    requires
        now_ms <= stored_ms,
        ttl_ms > 0,
    ensures
        fresh_data(Some(CacheEntry { data, timestamp_ms: stored_ms }), now_ms, ttl_ms) == Some(
            data,
        ),
{
}

/// The clock is read to the millisecond; before the epoch it reads nothing, and what does not
/// fit into sixty-four bits is counted from the start again.
pub proof fn clocks_count_milliseconds(ms: u128)
    ensures
        ms <= 0xffff_ffff_ffff_ffff ==> clock_ms(Some(ms)) == ms,
        ms > 0xffff_ffff_ffff_ffff ==> clock_ms(Some(ms)) == clock_ms(
            Some((ms - 0x1_0000_0000_0000_0000) as u128),
        ),
        clock_ms(None) == 0,
{
}

} // verus!
