//! Integer facts shared by the contracts' arithmetic.
use vstd::prelude::*;

verus! {

/// Rust's `/` on signed integers: the quotient rounded toward zero.
pub open spec fn trunc_div(x: int, d: int) -> int {
    if x == 0 {
        0
    } else if x > 0 && d > 0 {
        x / d
    } else if x < 0 && d < 0 {
        (-x) / (-d)
    } else if x < 0 {
        -((-x) / d)
    } else {
        -(x / (-d))
    }
}

/// `i128` division as the contracts write it (`a / b`), for a divisor that is
/// not zero and a quotient that fits.
pub fn div_i128(a: i128, b: i128) -> (q: i128)
    requires
        b != 0,
        i128::MIN <= trunc_div(a as int, b as int) <= i128::MAX,
    ensures
        q == trunc_div(a as int, b as int),
{
    match a.checked_div(b) {
        Some(q) => q,
        None => 0,
    }
}

} // verus!
