//! The validity window of a lock: what is left of the time to live once the
//! time that the round took and the allowance for clock drift are taken off.

use vstd::prelude::*;

verus! {

/// One million: the clock drift factor is held in parts per million.
pub const PPM: u64 = 1_000_000;

/// Milliseconds added to every allowance, for rounding to whole milliseconds.
pub const DRIFT_SLACK: u64 = 2;

/// The least time, in milliseconds, that a single node is given to answer.
pub const MIN_NODE_TIMEOUT: u64 = 50;

/// The time in milliseconds that a single node is given to answer, so that a
/// dead node cannot use up the time to live: a hundredth of the time to
/// live, and never less than fifty milliseconds.
pub open spec fn node_timeout_of(ttl: int) -> int {
    if ttl > 0 && ttl / 100 > 50 {
        ttl / 100
    } else {
        50
    }
}

/// The allowance for clock drift in milliseconds: the time to live times the
/// drift factor, rounded down, and two more.
pub open spec fn drift_of(ttl: int, ppm: int) -> int {
    ttl * ppm / 1_000_000 + 2
}

/// The validity in milliseconds of a lock whose round began when the clock
/// read `t0` and ended when it read `t1`. There is none where the time to
/// live is not positive, the clock ran backwards or nothing positive is left.
pub open spec fn window_of(ttl: int, ppm: int, t0: int, t1: int) -> Option<int> {
    let validity = ttl - (t1 - t0) - drift_of(ttl, ppm);
    if ttl > 0 && t0 <= t1 && validity > 0 {
        Some(validity)
    } else {
        None
    }
}

/// A validity is positive and at most the time to live less the allowance for
/// clock drift.
pub proof fn lemma_window_bounds(ttl: int, ppm: int, t0: int, t1: int)
    requires
        window_of(ttl, ppm, t0, t1) is Some,
    ensures
        0 < window_of(ttl, ppm, t0, t1)->0 <= ttl - ttl * ppm / 1_000_000 - 2,
{
}

/// A lock that still stands has not outlived the time to live, counted from
/// the start of its round, less the allowance for clock drift.
pub proof fn lemma_window_ends_early(ttl: int, ppm: int, t0: int, t1: int, now: int)
    requires
        window_of(ttl, ppm, t0, t1) is Some,
        now - t1 < window_of(ttl, ppm, t0, t1)->0,
    ensures
        now < t0 + ttl - drift_of(ttl, ppm),
{
}

/// The time that a single node is given to answer.
pub fn node_timeout(ttl: i32) -> (millis: u64)
    ensures
        millis == node_timeout_of(ttl as int),
{
    if ttl <= 0 {
        return MIN_NODE_TIMEOUT;
    }
    let share: u64 = (ttl / 100) as u64;
    if share > MIN_NODE_TIMEOUT {
        share
    } else {
        MIN_NODE_TIMEOUT
    }
}

/// The allowance for clock drift for a positive time to live.
pub fn drift(ttl: i32, ppm: u32) -> (d: u64)
    requires
        ttl > 0,
    ensures
        d == drift_of(ttl as int, ppm as int),
{
    let t: u64 = ttl as u64;
    let f: u64 = ppm as u64;
    assert(t * f <= 0x7fff_ffff * 0xffff_ffff) by (nonlinear_arith)
        requires
            t <= 0x7fff_ffff,
            f <= 0xffff_ffff,
    ;
    t * f / PPM + DRIFT_SLACK
}

/// The validity of a lock whose round began at `t0` and ended at `t1`, if
/// there is any.
pub fn window(ttl: i32, ppm: u32, t0: u64, t1: u64) -> (validity: Option<i32>)
    ensures
        validity matches Some(v) ==> window_of(ttl as int, ppm as int, t0 as int, t1 as int)
            == Some(v as int),
        validity is None ==> window_of(ttl as int, ppm as int, t0 as int, t1 as int) is None,
{
    if ttl <= 0 || t1 < t0 {
        return None;
    }
    let elapsed: u64 = t1 - t0;
    let allowance: u64 = drift(ttl, ppm);
    let t: u64 = ttl as u64;
    if elapsed >= t || allowance >= t - elapsed {
        None
    } else {
        Some((t - elapsed - allowance) as i32)
    }
}

} // verus!
