//! The system clock, read as whole UNIX seconds.

use vstd::prelude::*;
use std::time::{Duration, SystemTime, UNIX_EPOCH};

verus! {

#[verifier::external_type_specification]
#[verifier::external_body]
pub struct ExSystemTime(SystemTime);

/// `SystemTime::now()`.  Trusted only to return; what time it reads is not
/// stated.
#[verifier::external_body]
fn system_time_now() -> SystemTime {
    SystemTime::now()
}

/// The time from the UNIX epoch to `t` (`SystemTime::duration_since`),
/// none when `t` lies before the epoch.  Nothing is stated of the value:
/// the time is opaque to the library.
#[verifier::external_body]
fn duration_since_epoch(t: SystemTime) -> Option<Duration> {
    match t.duration_since(UNIX_EPOCH) {
        Ok(d) => Some(d),
        Err(_) => None,
    }
}

/// The whole seconds of a duration (`Duration::as_secs`).  Nothing is
/// stated of the value: the duration is opaque to the library.
#[verifier::external_body]
fn whole_seconds(d: Duration) -> u64 {
    d.as_secs()
}

/// The current time in whole UNIX seconds; 0 when the clock reads a time
/// before the epoch.
pub fn now_unix_seconds() -> u64 {
    match duration_since_epoch(system_time_now()) {
        Some(d) => whole_seconds(d),
        None => 0,
    }
}

/// Whether something cached at `cached_at_unix` is younger than
/// `ttl_seconds` at the time `now` (an entry from the future counts as new).
pub open spec fn fresh_at(cached_at_unix: u64, ttl_seconds: u64, now: u64) -> bool {
    (if now >= cached_at_unix {
        now - cached_at_unix
    } else {
        0
    }) < ttl_seconds
}

/// Whether something cached at `cached_at_unix` is still fresh at `now`.
pub fn is_cache_fresh_at(cached_at_unix: u64, ttl_seconds: u64, now: u64) -> (fresh: bool)
    ensures
        fresh == fresh_at(cached_at_unix, ttl_seconds, now),
{
    now.saturating_sub(cached_at_unix) < ttl_seconds
}

/// Whether something cached at `cached_at_unix` is still fresh now: its
/// freshness at the time the clock reads.  What the clock reads is not known
/// here; whatever it reads, with no time to live nothing is fresh, and an
/// entry cached at the largest time is fresh for any positive time to live.
pub fn is_cache_fresh(cached_at_unix: u64, ttl_seconds: u64) -> (fresh: bool)
    ensures
        exists|now: u64| fresh == #[trigger] fresh_at(cached_at_unix, ttl_seconds, now),
        ttl_seconds == 0 ==> !fresh,
        cached_at_unix == u64::MAX && ttl_seconds > 0 ==> fresh,
{
    is_cache_fresh_at(cached_at_unix, ttl_seconds, now_unix_seconds())
}

/// A cache entry is fresh from the moment it is cached until `ttl_seconds`
/// later, and no longer.
pub proof fn cache_entries_are_fresh_for_their_time_to_live(cached_at_unix: u64, ttl_seconds: u64, now: u64)
    requires
        cached_at_unix <= now,
    ensures
        fresh_at(cached_at_unix, ttl_seconds, now) <==> now < cached_at_unix + ttl_seconds,
{
}

/// Freshness only wears off: an entry fresh at some time was fresh at every
/// earlier time.
pub proof fn freshness_only_wears_off(cached_at_unix: u64, ttl_seconds: u64, earlier: u64, later: u64)
    requires
        earlier <= later,
        fresh_at(cached_at_unix, ttl_seconds, later),
    ensures
        fresh_at(cached_at_unix, ttl_seconds, earlier),
{
}

} // verus!
