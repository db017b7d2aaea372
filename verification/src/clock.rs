//! Wall-clock times and the rule that decides when a host counts as offline.
//!
//! An instant is a number of nanoseconds after the Unix epoch, negative before
//! it. A timestamp is a whole number of seconds after the epoch. The system
//! clock counts seconds in a signed 64-bit number, which bounds both.

use vstd::prelude::*;

verus! {

/// Nanoseconds in one second.
pub const NANOS_PER_SEC: i128 = 1_000_000_000;

/// Seconds without a report after which a host counts as offline.
pub const MAX_SILENCE_SECS: u64 = 180;

/// The last timestamp that the system clock can represent.
pub const MAX_TIMESTAMP: u64 = 0x7fff_ffff_ffff_ffff;

/// The first instant that the system clock can represent.
pub const EARLIEST_INSTANT: i128 = -9_223_372_036_854_775_808_000_000_000;

/// The longest span between two instants, in nanoseconds.
pub const MAX_SPAN_NANOS: i128 = 18_446_744_073_709_551_615_999_999_999;

/// The instant `MAX_SILENCE_SECS` before `now`, where the clock can represent it.
pub open spec fn threshold(now: int) -> Option<int> {
    let t = now - MAX_SILENCE_SECS * NANOS_PER_SEC;
    if t >= EARLIEST_INSTANT {
        Some(t)
    } else {
        None
    }
}

/// A host last heard from at `timestamp` counts as online at `now`.
pub open spec fn active_at(timestamp: int, now: int) -> bool {
    match threshold(now) {
        Some(t) => timestamp * NANOS_PER_SEC >= t,
        None => false,
    }
}

/// An instant within the range of the system clock's spans.
pub open spec fn clock_range(now: int) -> bool {
    -MAX_SPAN_NANOS <= now <= MAX_SPAN_NANOS
}

/// The instant that a reading of the clock stands for: `Ok` is a distance after
/// the epoch, `Err` one before it.
pub open spec fn instant_read(reading: Result<u128, u128>) -> int {
    match reading {
        Ok(n) => n as int,
        Err(n) => -(n as int),
    }
}

/// The whole seconds from the epoch to `now`, if `now` is not before the epoch.
pub open spec fn seconds_at(now: int) -> Option<int> {
    if now < 0 {
        None
    } else {
        Some(now / (NANOS_PER_SEC as int))
    }
}

/// The timestamp that a report received at `now` is given: the whole seconds
/// from the epoch, held to what the clock can represent as a timestamp.
pub open spec fn receipt_at(now: int) -> int {
    match seconds_at(now) {
        None => 0,
        Some(s) => if s > MAX_TIMESTAMP {
            MAX_TIMESTAMP as int
        } else {
            s
        },
    }
}

/// Reads the system clock: `std::time::SystemTime::now`, handed back as its
/// distance from `std::time::UNIX_EPOCH` in nanoseconds, `Ok` at or after the
/// epoch and `Err` before it. Of the reading itself nothing is claimed but that
/// the distance is one that a `std::time::Duration` holds.
#[verifier::external_body]
fn read_clock() -> (r: Result<u128, u128>)
    ensures
        r matches Ok(n) ==> n <= MAX_SPAN_NANOS,
        r matches Err(n) ==> n <= MAX_SPAN_NANOS,
{
    match std::time::SystemTime::now().duration_since(std::time::UNIX_EPOCH) {
        Ok(since) => Ok(since.as_nanos()),
        Err(before) => Err(before.duration().as_nanos()),
    }
}

/// `reading` is one that the system clock gave.
pub closed spec fn clock_reading(reading: Result<u128, u128>) -> bool {
    call_ensures(read_clock, (), reading)
}

/// Nothing but what `read_clock` returned is a reading of the system clock.
proof fn readings_come_from_the_clock(reading: Result<u128, u128>)
    ensures
        clock_reading(reading) <==> call_ensures(read_clock, (), reading),
{
}

/// The instant that a reading of the clock stands for.
pub fn instant_of(reading: Result<u128, u128>) -> (r: i128)
    requires
        clock_range(instant_read(reading)),
    ensures
        r == instant_read(reading),
{
    match reading {
        Ok(n) => n as i128,
        Err(n) => -(n as i128),
    }
}

/// The current instant, by the system clock.
pub fn current_instant() -> (r: i128)
    ensures
        clock_range(r as int),
        exists|reading: Result<u128, u128>| #[trigger]
            clock_reading(reading) && r == instant_read(reading),
{
    let reading = read_clock();
    proof {
        readings_come_from_the_clock(reading);
    }
    instant_of(reading)
}

/// Whether a host last heard from at `host_timestamp` is online at `now`: its
/// timestamp is at most three minutes old.
pub fn is_active_at(host_timestamp: u64, now: i128) -> (r: bool)
    requires
        host_timestamp <= MAX_TIMESTAMP,
    ensures
        r == active_at(host_timestamp as int, now as int),
{
    if now < EARLIEST_INSTANT + MAX_SILENCE_SECS as i128 * NANOS_PER_SEC {
        return false;
    }
    let host_time: i128 = host_timestamp as i128 * NANOS_PER_SEC;
    host_time >= now - MAX_SILENCE_SECS as i128 * NANOS_PER_SEC
}

/// Whether a host last heard from at `host_timestamp` is online now.
pub fn is_host_active(host_timestamp: u64) -> (r: bool)
    requires
        host_timestamp <= MAX_TIMESTAMP,
    ensures
        exists|now: i128| #[trigger]
            call_ensures(current_instant, (), now) && clock_range(now as int) && r == active_at(
                host_timestamp as int,
                now as int,
            ),
{
    let now: i128 = current_instant();
    is_active_at(host_timestamp, now)
}

/// The whole seconds from the epoch to `now`; `None` before the epoch.
pub fn seconds_since_epoch(now: i128) -> (r: Option<u64>)
    requires
        clock_range(now as int),
    ensures
        match r {
            Some(s) => seconds_at(now as int) == Some(s as int),
            None => seconds_at(now as int) is None,
        },
{
    if now < 0 {
        None
    } else {
        Some((now / NANOS_PER_SEC) as u64)
    }
}

/// The timestamp for a report received at `now`.
pub fn receipt_timestamp(now: i128) -> (r: u64)
    requires
        clock_range(now as int),
    ensures
        r == receipt_at(now as int),
        r <= MAX_TIMESTAMP,
{
    match seconds_since_epoch(now) {
        None => 0,
        Some(s) => if s > MAX_TIMESTAMP {
            MAX_TIMESTAMP
        } else {
            s
        },
    }
}

/// A reading lies as far from the epoch as the clock said, on the side that it
/// said.
pub proof fn instant_lies_where_the_clock_said(n: u128)
    ensures
        instant_read(Ok(n)) == n,
        instant_read(Err(n)) == 0 - n,
{
}

/// A host is online exactly while its timestamp is no more than three minutes
/// old; a timestamp in the future is online too. Only where the clock cannot
/// represent the time three minutes ago is no host online.
pub proof fn online_means_heard_within_three_minutes(timestamp: int, now: int)
    ensures
        now >= -9_223_372_036_854_775_628_000_000_000 ==> (active_at(timestamp, now) <==> now
            - timestamp * 1_000_000_000 <= 180_000_000_000),
        now < -9_223_372_036_854_775_628_000_000_000 ==> !active_at(timestamp, now),
        now >= -9_223_372_036_854_775_628_000_000_000 && timestamp * 1_000_000_000 >= now
            ==> active_at(timestamp, now),
{
}

/// A host that is online stays so with a later timestamp, and was so at every
/// earlier instant whose threshold the clock can represent.
pub proof fn online_is_monotone(t1: int, t2: int, now1: int, now2: int)
    requires
        t1 <= t2,
        now1 <= now2,
        threshold(now1) is Some,
        active_at(t1, now2),
    ensures
        active_at(t2, now1),
{
}

/// Being online depends on the age of the timestamp alone: it is the same when
/// both times are put off by the same number of seconds.
pub proof fn online_depends_on_age(timestamp: int, now: int, seconds: int)
    requires
        now >= -9_223_372_036_854_775_628_000_000_000,
        now + seconds * 1_000_000_000 >= -9_223_372_036_854_775_628_000_000_000,
    ensures
        active_at(timestamp, now) == active_at(timestamp + seconds, now + seconds * 1_000_000_000),
{
}

/// The whole seconds from the epoch to an instant are those that have passed by
/// then, and there are some exactly if the epoch has.
pub proof fn seconds_have_passed(now: int)
    ensures
        seconds_at(now) is Some <==> now >= 0,
        seconds_at(now) matches Some(s) ==> 0 <= s && s * 1_000_000_000 <= now < (s + 1)
            * 1_000_000_000,
{
}

/// A report is stamped with the second in which it was received. Before the
/// epoch that is the first timestamp, and after the last timestamp the last.
pub proof fn receipt_is_the_second_received(received: int)
    ensures
        0 <= received < 9_223_372_036_854_775_808_000_000_000 ==> receipt_at(received)
            * 1_000_000_000 <= received < (receipt_at(received) + 1) * 1_000_000_000,
        received < 0 ==> receipt_at(received) == 0,
        received >= 9_223_372_036_854_775_808_000_000_000 ==> receipt_at(received)
            == 9_223_372_036_854_775_807,
{
}

/// A report that is received later is stamped no earlier.
pub proof fn receipt_is_monotone(earlier: int, later: int)
    requires
        earlier <= later,
    ensures
        receipt_at(earlier) <= receipt_at(later),
{
}

/// A host stays online for at least three minutes less a second after its last
/// report was received, and is offline once more than three minutes have passed.
pub proof fn online_after_receipt(received: int, now: int)
    requires
        0 <= received <= now,
        received < 9_223_372_036_854_775_808_000_000_000,
    ensures
        now - received <= 179_000_000_000 ==> active_at(receipt_at(received), now),
        now - received > 180_000_000_000 ==> !active_at(receipt_at(received), now),
{
}

} // verus!
