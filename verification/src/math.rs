//! Overflow-checked 128-bit arithmetic and the integer square root used by
//! the share and pricing computations.

use crate::error::ErrorCode;
use vstd::arithmetic::div_mod::{
    lemma_div_is_ordered, lemma_div_is_ordered_by_denominator, lemma_fundamental_div_mod,
};
use vstd::prelude::*;

verus! {

/// Checked 128-bit addition: wrapping or truncating silently is never
/// acceptable in the accounting core.
pub fn checked_add_u128(a: u128, b: u128) -> (r: Result<u128, ErrorCode>)
    ensures
        a + b <= u128::MAX ==> r == Ok::<u128, ErrorCode>((a + b) as u128),
        a + b > u128::MAX ==> r == Err::<u128, ErrorCode>(ErrorCode::ArithmeticOverflow),
{
    match a.checked_add(b) {
        Some(v) => Ok(v),
        None => Err(ErrorCode::ArithmeticOverflow),
    }
}

/// Checked 128-bit subtraction.
pub fn checked_sub_u128(a: u128, b: u128) -> (r: Result<u128, ErrorCode>)
    ensures
        b <= a ==> r == Ok::<u128, ErrorCode>((a - b) as u128),
        b > a ==> r == Err::<u128, ErrorCode>(ErrorCode::ArithmeticUnderflow),
{
    match a.checked_sub(b) {
        Some(v) => Ok(v),
        None => Err(ErrorCode::ArithmeticUnderflow),
    }
}

/// Checked 128-bit multiplication.
pub fn checked_mul_u128(a: u128, b: u128) -> (r: Result<u128, ErrorCode>)
    ensures
        a * b <= u128::MAX ==> r == Ok::<u128, ErrorCode>((a * b) as u128),
        a * b > u128::MAX ==> r == Err::<u128, ErrorCode>(ErrorCode::ArithmeticOverflow),
{
    match a.checked_mul(b) {
        Some(v) => Ok(v),
        None => Err(ErrorCode::ArithmeticOverflow),
    }
}

/// Checked 128-bit division (truncating toward zero on these non-negative
/// operands, i.e. the floor).
pub fn checked_div_u128(a: u128, b: u128) -> (r: Result<u128, ErrorCode>)
    ensures
        b > 0 ==> r == Ok::<u128, ErrorCode>((a / b) as u128),
        b == 0 ==> r == Err::<u128, ErrorCode>(ErrorCode::DivisionByZero),
{
    if b == 0 {
        Err(ErrorCode::DivisionByZero)
    } else {
        Ok(a / b)
    }
}

/// `r` is the integer square root of `n`: the largest integer whose square
/// does not exceed `n`.
pub open spec fn is_integer_sqrt(n: int, r: int) -> bool {
    &&& 0 <= r
    &&& r * r <= n
    &&& n < (r + 1) * (r + 1)
}

/// The integer square root, as a total function on the naturals.
pub open spec fn sqrt_floor(n: nat) -> nat
    decreases n,
{
    if n == 0 {
        0
    } else {
        let r = sqrt_floor((n - 1) as nat);
        if (r + 1) * (r + 1) <= n {
            r + 1
        } else {
            r
        }
    }
}

/// `sqrt_floor` deserves its name: its square is the largest square that
/// does not exceed the argument.
pub proof fn lemma_sqrt_floor_is_sqrt(n: nat)
    ensures
        is_integer_sqrt(n as int, sqrt_floor(n) as int),
    decreases n,
{
    if n == 0 {
        assert(is_integer_sqrt(0, 0)) by (nonlinear_arith);
    } else {
        let p = (n - 1) as nat;
        lemma_sqrt_floor_is_sqrt(p);
        let r = sqrt_floor(p);
        if (r + 1) * (r + 1) <= n {
            assert(n < (r + 2) * (r + 2)) by (nonlinear_arith)
                requires
                    p < (r + 1) * (r + 1),
                    n == p + 1,
            ;
        }
    }
}

/// Two integer square roots of the same number are equal.
pub proof fn lemma_integer_sqrt_unique(n: int, r1: int, r2: int)
    by (nonlinear_arith)
    requires
        is_integer_sqrt(n, r1),
        is_integer_sqrt(n, r2),
    ensures
        r1 == r2,
{
}

/// One Newton step from any positive `x` lands at or above the root:
/// `(x + n/x) / 2` rounds down to no less than the integer square root.
proof fn lemma_newton_step_above(n: int, x: int, y: int)
    requires
        x >= 1,
        n >= 0,
        y == (x + n / x) / 2,
    ensures
        n < (y + 1) * (y + 1),
{
    let q = n / x;
    lemma_fundamental_div_mod(n, x);
    assert(n < x * (q + 1)) by (nonlinear_arith)
        requires
            n == x * q + n % x,
            n % x < x,
    ;
    lemma_fundamental_div_mod(x + q, 2);
    assert(2 * (y + 1) >= x + q + 1);
    assert((x + q + 1) * (x + q + 1) >= 4 * (x * (q + 1))) by (nonlinear_arith);
    assert(4 * ((y + 1) * (y + 1)) >= (x + q + 1) * (x + q + 1)) by (nonlinear_arith)
        requires
            2 * (y + 1) >= x + q + 1 >= 0,
    ;
}

/// When a Newton step fails to decrease, the current iterate is already at
/// or below the root.
proof fn lemma_newton_stop_below(n: int, x: int, y: int)
    requires
        x >= 1,
        n >= 0,
        y == (x + n / x) / 2,
        y >= x,
    ensures
        x * x <= n,
{
    let q = n / x;
    lemma_fundamental_div_mod(x + q, 2);
    assert(q >= x);
    lemma_fundamental_div_mod(n, x);
    assert(x * x <= n) by (nonlinear_arith)
        requires
            n == x * q + n % x,
            n % x >= 0,
            q >= x >= 1,
    ;
}

/// A positive iterate never lands at zero: `x + n/x` is at least 2 whenever
/// the bracketing invariant holds, so halving it keeps the iterate positive;
/// and the sum stays clear of the 128-bit range.
proof fn lemma_newton_step_bounds(n: int, x: int)
    requires
        1 <= x,
        x <= n / 2 + 1,
        2 <= n <= u128::MAX,
        n < (x + 1) * (x + 1),
    ensures
        x + n / x <= u128::MAX,
        (x + n / x) / 2 >= 1,
        (x + n / x) / 2 <= n / 2 + 1,
{
    let q = n / x;
    lemma_fundamental_div_mod(n, x);
    lemma_fundamental_div_mod(n, 2);
    if x == 1 {
        assert(n < 4) by (nonlinear_arith)
            requires
                n < (x + 1) * (x + 1),
                x == 1,
        ;
    } else {
        lemma_div_is_ordered_by_denominator(n, 2, x);
        assert(q <= n / 2);
    }
    assert(x <= n);
    assert(x + q <= n + 1) by (nonlinear_arith)
        requires
            1 <= x <= n,
            q >= 0,
            x * q <= n,
    ;
    lemma_fundamental_div_mod(x + q, 2);
}

/// Newton's method for the integer square root of an unsigned 128-bit
/// integer: exact for perfect squares, rounded down otherwise.
pub fn integer_sqrt(n: u128) -> (r: u128)
    ensures
        is_integer_sqrt(n as int, r as int),
        r == sqrt_floor(n as nat),
{
    proof {
        lemma_sqrt_floor_is_sqrt(n as nat);
    }
    if n < 2 {
        proof {
            assert(is_integer_sqrt(n as int, n as int)) by (nonlinear_arith)
                requires
                    n < 2,
            ;
            lemma_integer_sqrt_unique(n as int, n as int, sqrt_floor(n as nat) as int);
        }
        return n;
    }
    let mut x: u128 = n;
    let mut y: u128 = (n - 1) / 2 + 1;
    proof {
        assert(n < (x + 1) * (x + 1)) by (nonlinear_arith)
            requires
                x == n,
                n >= 2,
        ;
        lemma_fundamental_div_mod(n as int - 1, 2);
        assert(n <= 2 * y);
        assert(n < (y + 1) * (y + 1)) by (nonlinear_arith)
            requires
                y >= 1,
                n <= 2 * y,
        ;
        lemma_div_is_ordered(n as int - 1, n as int, 2);
    }
    while y < x
        invariant
            2 <= n <= u128::MAX,
            1 <= x <= n,
            n < (x + 1) * (x + 1),
            1 <= y,
            y <= n / 2 + 1,
            n < (y + 1) * (y + 1),
            y >= x ==> x * x <= n,
        decreases x,
    {
        x = y;
        proof {
            lemma_newton_step_bounds(n as int, x as int);
        }
        let q = n / x;
        y = (x + q) / 2;
        proof {
            lemma_newton_step_above(n as int, x as int, y as int);
            if y >= x {
                lemma_newton_stop_below(n as int, x as int, y as int);
            }
        }
    }
    proof {
        lemma_integer_sqrt_unique(n as int, x as int, sqrt_floor(n as nat) as int);
    }
    x
}

} // verus!
