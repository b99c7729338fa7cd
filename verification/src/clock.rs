//! Saturating arithmetic on signed times.
use vstd::prelude::*;

verus! {

/// The `i64` nearest to an integer.
pub open spec fn clamp_i64(x: int) -> i64 {
    if x > i64::MAX {
        i64::MAX
    } else if x < i64::MIN {
        i64::MIN
    } else {
        x as i64
    }
}

/// `a + b`, held at the bounds of `i64`.
pub fn saturating_add(a: i64, b: i64) -> (r: i64)
    ensures
        r == clamp_i64(a + b),
{
    let x: i128 = a as i128 + b as i128;
    if x > i64::MAX as i128 {
        i64::MAX
    } else if x < i64::MIN as i128 {
        i64::MIN
    } else {
        x as i64
    }
}

/// `a - b`, held at the bounds of `i64`.
pub fn saturating_sub(a: i64, b: i64) -> (r: i64)
    ensures
        r == clamp_i64(a - b),
{
    let x: i128 = a as i128 - b as i128;
    if x > i64::MAX as i128 {
        i64::MAX
    } else if x < i64::MIN as i128 {
        i64::MIN
    } else {
        x as i64
    }
}

/// Times add up and subtract as numbers do, as far as there are numbers; beyond
/// that they stop at the last one.
pub proof fn law_times_stop_at_their_bounds(a: i64, b: i64, sum: i64, difference: i64)
    requires
        call_ensures(saturating_add, (a, b), sum),
        call_ensures(saturating_sub, (a, b), difference),
    ensures
        i64::MIN <= a + b <= i64::MAX ==> sum == a + b,
        a + b > i64::MAX ==> sum == i64::MAX,
        a + b < i64::MIN ==> sum == i64::MIN,
        i64::MIN <= a - b <= i64::MAX ==> difference == a - b,
        a - b > i64::MAX ==> difference == i64::MAX,
        a - b < i64::MIN ==> difference == i64::MIN,
{
}

} // verus!
