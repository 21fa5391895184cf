use vstd::prelude::*;

use std::time::{Instant, SystemTime, UNIX_EPOCH};

verus! {

#[verifier::external_type_specification]
#[verifier::external_body]
pub struct ExInstant(Instant);

/// The current instant of the monotonic clock, through `Instant::now`.
#[verifier::external_body]
pub(crate) fn instant_now() -> (r: Instant) {
    Instant::now()
}

/// Whole milliseconds elapsed since `start`, through `Instant::elapsed`
/// (truncated to 64 bits). It depends on the time: nothing is stated.
#[verifier::external_body]
pub(crate) fn elapsed_ms(start: &Instant) -> (r: u64) {
    start.elapsed().as_millis() as u64
}

#[verifier::external_type_specification]
#[verifier::external_body]
pub struct ExSystemTime(SystemTime);

/// The current wall-clock time, through `SystemTime::now`. Nothing is
/// stated: it is the time.
#[verifier::external_body]
pub fn system_now() -> (r: SystemTime) {
    SystemTime::now()
}

/// The most whole milliseconds a `Duration` holds: its seconds are a `u64`,
/// so `Duration::as_millis` is at most `u64::MAX * 1000 + 999`.
pub open spec fn clock_limit() -> int {
    18446744073709551615999
}

/// `now` is a reading of the wall clock in milliseconds since the epoch: the
/// milliseconds that `millis_since_epoch` gave for an instant that
/// `system_now` gave, or 0 when that instant was before the epoch.
pub open spec fn clock_read(now: u128) -> bool {
    exists|t: SystemTime|
        #[trigger] call_ensures(system_now, (), t) && (call_ensures(millis_since_epoch, (t,), Some(now))
            || (call_ensures(millis_since_epoch, (t,), None::<u128>) && now == 0))
}

/// A clock reading `now` (see `clock_read`, at most `clock_limit()`) at
/// which the answer to "is `target` reached?" is `r`.
pub open spec fn reading_gives(now: u128, target: u128, r: bool) -> bool {
    &&& clock_read(now)
    &&& now <= clock_limit()
    &&& r == (now >= target)
}

/// Whole milliseconds from the Unix epoch to `t`, through
/// `SystemTime::duration_since(UNIX_EPOCH)` and `Duration::as_millis`;
/// `None` when `t` is before the epoch (the error arm). Of the value only the
/// bound of every `Duration` (`clock_limit()`) is stated.
#[verifier::external_body]
pub fn millis_since_epoch(t: SystemTime) -> (r: Option<u128>)
    ensures
        r matches Some(n) ==> n <= clock_limit(),
{
    match t.duration_since(UNIX_EPOCH) {
        Ok(d) => Some(d.as_millis()),
        Err(_) => None,
    }
}

/// `r` is the deadline `delay_ms` milliseconds after a clock reading `now`
/// (see `clock_read`, at most `clock_limit()`).
pub open spec fn deadline_from_reading(now: u128, delay_ms: u64, r: u128) -> bool {
    &&& clock_read(now)
    &&& now <= clock_limit()
    &&& r == deadline(now, delay_ms)
}

/// The instant `delay_ms` milliseconds after `now`, clamped to the largest
/// representable instant.
pub open spec fn deadline(now: u128, delay_ms: u64) -> u128 {
    if now + delay_ms <= u128::MAX {
        (now + delay_ms) as u128
    } else {
        u128::MAX
    }
}

/// The deadline `delay_ms` milliseconds after the instant `now` (both in
/// milliseconds since the epoch).
pub fn deadline_after(now: u128, delay_ms: u64) -> (r: u128)
    ensures
        r == deadline(now, delay_ms),
        now + delay_ms <= u128::MAX ==> r == now + delay_ms,
{
    let d: u128 = delay_ms as u128;
    if now <= u128::MAX - d {
        now + d
    } else {
        u128::MAX
    }
}

/// Whether the instant `now` is at or after `target`.
pub fn is_reached(now: u128, target: u128) -> (r: bool)
    ensures
        r == (now >= target),
{
    now >= target
}

/// The current time in milliseconds since the epoch; a clock that reads
/// before the epoch counts as the epoch.
pub fn current_time_ms() -> (r: u128)
    ensures
        clock_read(r),
        r <= clock_limit(),
{
    let t = system_now();
    let m = millis_since_epoch(t);
    let r = match m {
        Some(n) => n,
        None => 0,
    };
    assert(call_ensures(system_now, (), t));
    r
}

/// The instant `time_ms` milliseconds from now, in milliseconds since the
/// epoch. A clock that reads before the epoch counts as the epoch.
pub fn calculate_time_until_next_ms(time_ms: u64) -> (r: u128)
    ensures
        exists|now: u128| #[trigger] deadline_from_reading(now, time_ms, r),
        r >= time_ms,
{
    let now = current_time_ms();
    let r = deadline_after(now, time_ms);
    assert(deadline_from_reading(now, time_ms, r));
    r
}

/// Whether the current time is at or after `target_time` (milliseconds since
/// the epoch). A clock that reads before the epoch counts as the epoch.
pub fn is_now_after(target_time: u128) -> (r: bool)
    ensures
        exists|now: u128| #[trigger] reading_gives(now, target_time, r),
        target_time == 0 ==> r,
        target_time > clock_limit() ==> !r,
{
    let now = current_time_ms();
    let r = is_reached(now, target_time);
    assert(reading_gives(now, target_time, r));
    r
}

} // verus!
