//! Arithmetic on token amounts.
use vstd::prelude::*;

verus! {

/// Whether `x` is the value of an `i128`.
pub open spec fn fits(x: int) -> bool {
    i128::MIN <= x <= i128::MAX
}

/// The absolute value of `x`.
pub open spec fn abs(x: int) -> int {
    if x < 0 {
        -x
    } else {
        x
    }
}

/// The quotient of `x` and `d`, rounded toward zero.
pub open spec fn trunc_div(x: int, d: int) -> int {
    if (x < 0) == (d < 0) {
        abs(x) / abs(d)
    } else {
        -(abs(x) / abs(d))
    }
}

/// `x`, or the bound of `i128` that it lies beyond.
pub open spec fn clamp(x: int) -> i128 {
    if x < i128::MIN {
        i128::MIN
    } else if x > i128::MAX {
        i128::MAX
    } else {
        x as i128
    }
}

/// `a * b / c` rounded toward zero, where `c` is not zero and neither the
/// product nor the quotient leaves `i128`.
pub open spec fn mul_div(a: int, b: int, c: int) -> Option<i128> {
    if c != 0 && fits(a * b) && fits(trunc_div(a * b, c)) {
        Some(trunc_div(a * b, c) as i128)
    } else {
        None
    }
}

/// The quotient rounded toward zero, or `None` where there is none.
pub fn checked_div(x: i128, d: i128) -> (r: Option<i128>)
    ensures
        r == (if d != 0 && fits(trunc_div(x as int, d as int)) {
            Some(trunc_div(x as int, d as int) as i128)
        } else {
            None
        }),
{
    proof {
        if d != 0 {
            let n = abs(d as int);
            assert(0int / n == 0) by (nonlinear_arith)
                requires
                    n > 0,
            ;
        }
    }
    x.checked_div(d)
}

/// `a * b / c` rounded toward zero, with every step checked.
pub fn checked_mul_div(a: i128, b: i128, c: i128) -> (r: Option<i128>)
    ensures
        r == mul_div(a as int, b as int, c as int),
{
    match a.checked_mul(b) {
        Some(product) => checked_div(product, c),
        None => None,
    }
}

/// The difference of `a` and `b`, held at the bounds of `i128`.
pub fn saturating_sub(a: i128, b: i128) -> (r: i128)
    ensures
        r == clamp(a - b),
{
    match a.checked_sub(b) {
        Some(d) => d,
        None => if b > 0 {
            i128::MIN
        } else {
            i128::MAX
        },
    }
}

} // verus!
