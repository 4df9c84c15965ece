//! Points in time and spans of time, in milliseconds.
use vstd::prelude::*;

verus! {

/// The span between two points in time, whichever comes first.
pub open spec fn gap(a: i64, b: i64) -> nat {
    if a >= b {
        (a - b) as nat
    } else {
        (b - a) as nat
    }
}

/// The point in time `ms` after `t`, or the last point there is if that lies earlier.
pub open spec fn later(t: i64, ms: u16) -> i64 {
    if t + ms > i64::MAX {
        i64::MAX
    } else {
        (t + ms) as i64
    }
}

/// Whether more than `ms` have passed at `now` since `then`.
pub open spec fn more_than_since(ms: u16, now: i64, then: i64) -> bool {
    now - ms > then
}

/// The whole seconds in a number of milliseconds, rounded towards zero.
pub open spec fn whole_secs(ms: i64) -> int {
    if ms >= 0 {
        ms / 1000
    } else {
        -((-ms) / 1000)
    }
}

/// The span between two points in time.
pub fn millis_between(a: i64, b: i64) -> (r: u64)
    ensures
        r == gap(a, b),
{
    let (hi, lo) = if a >= b {
        (a, b)
    } else {
        (b, a)
    };
    if lo >= 0 || hi < 0 {
        (hi - lo) as u64
    } else {
        let below: u64 = (-(lo + 1)) as u64;
        hi as u64 + below + 1
    }
}

/// The point in time `ms` after `t`, held at the last point there is.
pub fn add_millis(t: i64, ms: u16) -> (r: i64)
    ensures
        r == later(t, ms),
{
    if t > i64::MAX - ms as i64 {
        i64::MAX
    } else {
        t + ms as i64
    }
}

/// Whether more than `ms` have passed at `now` since `then`.
pub fn is_more_than_since(ms: u16, now: i64, then: i64) -> (r: bool)
    ensures
        r == more_than_since(ms, now, then),
{
    if now < i64::MIN + ms as i64 {
        false
    } else {
        now - ms as i64 > then
    }
}

/// The whole seconds in a number of milliseconds.
pub fn secs(ms: i64) -> (r: i64)
    ensures
        r == whole_secs(ms),
{
    if ms >= 0 {
        ms / 1000
    } else if ms == i64::MIN {
        -9223372036854775
    } else {
        -((-ms) / 1000)
    }
}

} // verus!
