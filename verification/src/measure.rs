//! Quantities as whole numbers of millionths: points, seconds, fractions.
use vstd::prelude::*;

verus! {

/// One point, one second, or the fraction one.
pub const UNIT: i64 = 1_000_000;

/// A number given from outside: a quantity in millionths, or an infinity or
/// something that is no number.
#[derive(Debug, Clone, Copy, PartialEq, Eq, Structural)]
pub enum Number {
    Finite(i64),
    NotFinite,
}

/// A number brought into a range; what is not finite becomes `default`.
pub open spec fn clamped(number: Number, low: u64, high: u64, default: u64) -> u64 {
    match number {
        Number::Finite(value) => if value < low {
            low
        } else if value > high {
            high
        } else {
            value as u64
        },
        Number::NotFinite => default,
    }
}

pub fn clamp(number: Number, low: u64, high: u64, default: u64) -> (value: u64)
    requires
        low <= high <= i64::MAX,
    ensures
        value == clamped(number, low, high, default),
{
    match number {
        Number::Finite(value) => if value < low as i64 {
            low
        } else if value > high as i64 {
            high
        } else {
            value as u64
        },
        Number::NotFinite => default,
    }
}

/// The moment `seconds` after `now`; the ends of the time scale stay where they are.
pub open spec fn later(now: i64, seconds: i64) -> i64 {
    if now + seconds > i64::MAX {
        i64::MAX
    } else if now + seconds < i64::MIN {
        i64::MIN
    } else {
        (now + seconds) as i64
    }
}

pub fn moment_after(now: i64, seconds: i64) -> (moment: i64)
    ensures
        moment == later(now, seconds),
{
    let sum: i128 = now as i128 + seconds as i128;
    if sum > i64::MAX as i128 {
        i64::MAX
    } else if sum < i64::MIN as i128 {
        i64::MIN
    } else {
        sum as i64
    }
}

/// The number after another, going round at the end.
pub open spec fn following(number: u64) -> u64 {
    if number < u64::MAX {
        (number + 1) as u64
    } else {
        0
    }
}

pub fn next_number(number: u64) -> (next: u64)
    ensures
        next == following(number),
{
    if number < u64::MAX {
        number + 1
    } else {
        0
    }
}

/// Clamping keeps what lies in the range, takes what lies beside it to the nearer end,
/// and gives the default for what is not finite.
pub proof fn clamping_keeps_what_lies_in_the_range(value: i64, low: u64, high: u64, default: u64)
    requires
        low <= high,
    ensures
        low <= value <= high ==> clamped(Number::Finite(value), low, high, default) == value,
        value < low ==> clamped(Number::Finite(value), low, high, default) == low,
        value > high ==> clamped(Number::Finite(value), low, high, default) == high,
        clamped(Number::NotFinite, low, high, default) == default,
{
}

/// A moment some time from now is the sum of both, as long as the time scale reaches.
pub proof fn later_moments_add_up(now: i64, seconds: i64)
    ensures
        i64::MIN <= now + seconds <= i64::MAX ==> later(now, seconds) == now + seconds,
        now + seconds > i64::MAX ==> later(now, seconds) == i64::MAX,
        now + seconds < i64::MIN ==> later(now, seconds) == i64::MIN,
{
}

/// The numbers of sessions count up and differ from one to the next, also at the end of
/// the scale, where they begin again.
pub proof fn the_next_number_differs(number: u64)
    ensures
        following(number) != number,
        number < u64::MAX ==> following(number) == number + 1,
        number == u64::MAX ==> following(number) == 0,
{
}

} // verus!
