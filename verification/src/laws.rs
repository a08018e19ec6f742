//! Laws of the pool's accounting, each stated and proved over the same
//! spec functions that the operations' contracts use.

use crate::error::ErrorCode;
use crate::math::lemma_sqrt_floor_is_sqrt;
use crate::pool::{
    deposit_outcome, initial_deposit_shares, proportional_shares, swap_outcome,
    withdraw_outcome, FEE_DENOMINATOR, FEE_NUMERATOR,
};
use vstd::arithmetic::div_mod::{
    lemma_div_is_ordered, lemma_div_multiples_vanish, lemma_fundamental_div_mod,
};
use vstd::arithmetic::mul::{lemma_mul_inequality, lemma_mul_is_commutative};
use vstd::prelude::*;

verus! {

/// A deposit that succeeds against a positive slippage bound mints at
/// least that many shares, so the count of shares outstanding strictly
/// increases.  (With a slippage bound of zero, a subsequent deposit of
/// amounts too small for one whole share succeeds and mints nothing.)
pub proof fn lemma_deposit_strictly_increases_shares(
    total: u64,
    reserve_a: u64,
    reserve_b: u64,
    amount_a: u64,
    amount_b: u64,
    min_shares: u64,
    shares: u64,
)
    requires
        min_shares >= 1,
        deposit_outcome(total, reserve_a, reserve_b, amount_a, amount_b, min_shares)
            == Ok::<u64, ErrorCode>(shares),
    ensures
        shares >= min_shares,
        total + shares > total,
{
}

/// A first deposit of two positive amounts mints at least one share: the
/// geometric mean of two positive integers never rounds to zero.  The
/// degenerate-first-deposit failure could only accompany a zero amount,
/// and a zero amount is already rejected as invalid, so the guard is
/// purely defensive.
pub proof fn lemma_first_deposit_mints_at_least_one(amount_a: u64, amount_b: u64)
    requires
        amount_a >= 1,
        amount_b >= 1,
    ensures
        initial_deposit_shares(amount_a, amount_b) >= 1,
{
    lemma_sqrt_floor_is_sqrt((amount_a * amount_b) as nat);
    let s = initial_deposit_shares(amount_a, amount_b);
    assert(amount_a * amount_b >= 1) by (nonlinear_arith)
        requires
            amount_a >= 1,
            amount_b >= 1,
    ;
    if s == 0 {
        assert((s + 1) * (s + 1) == 1) by (nonlinear_arith)
            requires
                s == 0,
        ;
    }
}

/// A subsequent deposit never over-mints: the shares credited are those
/// the limiting side justifies, so on both sides the minted fraction of
/// the share supply stays within the contributed fraction of the reserve,
/// `shares * reserve <= amount * total`.  An asymmetric deposit is thus
/// credited as if it had been sized to the live ratio; the excess on the
/// other side earns nothing.
pub proof fn lemma_deposit_never_overmints(
    total: u64,
    reserve_a: u64,
    reserve_b: u64,
    amount_a: u64,
    amount_b: u64,
    min_shares: u64,
    shares: u64,
)
    requires
        total >= 1,
        reserve_a >= 1,
        reserve_b >= 1,
        deposit_outcome(total, reserve_a, reserve_b, amount_a, amount_b, min_shares)
            == Ok::<u64, ErrorCode>(shares),
    ensures
        shares * reserve_a <= amount_a * total,
        shares * reserve_b <= amount_b * total,
{
    let qa = proportional_shares(amount_a, total, reserve_a);
    let qb = proportional_shares(amount_b, total, reserve_b);
    lemma_fundamental_div_mod(amount_a * total, reserve_a as int);
    lemma_fundamental_div_mod(amount_b * total, reserve_b as int);
    lemma_mul_inequality(shares as int, qa, reserve_a as int);
    lemma_mul_inequality(shares as int, qb, reserve_b as int);
    lemma_mul_is_commutative(reserve_a as int, qa);
    lemma_mul_is_commutative(reserve_b as int, qb);
}

/// Closing step of the constant-product law, over plain integers.
proof fn lemma_product_step(
    reserve_in: int,
    reserve_out: int,
    amount_in: int,
    out: int,
    in_with_fee: int,
)
    by (nonlinear_arith)
    requires
        amount_in >= 1,
        reserve_in >= 0,
        0 <= out < reserve_out,
        in_with_fee == amount_in * 997,
        out * (reserve_in * 1000 + in_with_fee) <= in_with_fee * reserve_out,
    ensures
        (reserve_in + amount_in) * (reserve_out - out) > reserve_in * reserve_out,
{
    assert(1000 * (out * (reserve_in + amount_in)) <= in_with_fee * reserve_out + 3 * (out
        * amount_in));
    assert(3 * (out * amount_in) < 3 * (reserve_out * amount_in));
}

/// Constant product: a successful swap strictly grows the product of the
/// two reserves.  With input reserve `reserve_in` and output reserve
/// `reserve_out` before the swap, the reserves after it are
/// `reserve_in + amount_in` and `reserve_out - out`, and their product
/// exceeds the old one, because 0.3% of the input is kept back as fee.
pub proof fn lemma_swap_grows_product(
    reserve_in: u64,
    reserve_out: u64,
    amount_in: u64,
    min_amount_out: u64,
    out: u64,
)
    requires
        swap_outcome(reserve_in, reserve_out, amount_in, min_amount_out)
            == Ok::<u64, ErrorCode>(out),
    ensures
        (reserve_in + amount_in) * (reserve_out - out) > reserve_in * reserve_out,
{
    let in_with_fee = amount_in * (FEE_DENOMINATOR - FEE_NUMERATOR);
    let denominator = reserve_in * FEE_DENOMINATOR + in_with_fee;
    lemma_fundamental_div_mod(in_with_fee * reserve_out, denominator);
    lemma_mul_is_commutative(denominator, out as int);
    lemma_product_step(
        reserve_in as int,
        reserve_out as int,
        amount_in as int,
        out as int,
        in_with_fee,
    );
}

/// Round trip: depositing `(amount_a, amount_b)` and immediately
/// withdrawing every share minted returns at most `amount_a` of the one
/// asset and at most `amount_b` of the other — rounding never pays out
/// more than was put in.  On a first deposit the round trip is exact.
///
/// The law asks the reserves to be genuinely empty while no shares are
/// outstanding: a drained pool still holding rounding dust would pay that
/// dust out on top of the deposit.
pub proof fn lemma_deposit_withdraw_round_trip(
    total: u64,
    reserve_a: u64,
    reserve_b: u64,
    amount_a: u64,
    amount_b: u64,
    min_shares: u64,
    shares: u64,
)
    requires
        min_shares >= 1,
        total == 0 ==> reserve_a == 0 && reserve_b == 0,
        total > 0 ==> reserve_a >= 1 && reserve_b >= 1,
        reserve_a + amount_a <= u64::MAX,
        reserve_b + amount_b <= u64::MAX,
        deposit_outcome(total, reserve_a, reserve_b, amount_a, amount_b, min_shares)
            == Ok::<u64, ErrorCode>(shares),
    ensures
        withdraw_outcome(
            (total + shares) as u64,
            (reserve_a + amount_a) as u64,
            (reserve_b + amount_b) as u64,
            shares,
            0,
            0,
        ) matches Ok(w) && w.0 <= amount_a && w.1 <= amount_b,
{
    let new_total = (total + shares) as u64;
    let new_ra = (reserve_a + amount_a) as u64;
    let new_rb = (reserve_b + amount_b) as u64;
    assert(shares >= 1);
    if total == 0 {
        assert(new_ra == amount_a && new_rb == amount_b);
        lemma_mul_is_commutative(amount_a as int, shares as int);
        lemma_mul_is_commutative(amount_b as int, shares as int);
        lemma_div_multiples_vanish(amount_a as int, shares as int);
        lemma_div_multiples_vanish(amount_b as int, shares as int);
        assert(new_ra * shares / (new_total as int) == amount_a);
        assert(new_rb * shares / (new_total as int) == amount_b);
    } else {
        lemma_deposit_never_overmints(
            total,
            reserve_a,
            reserve_b,
            amount_a,
            amount_b,
            min_shares,
            shares,
        );
        lemma_round_trip_side(total as int, reserve_a as int, amount_a as int, shares as int);
        lemma_round_trip_side(total as int, reserve_b as int, amount_b as int, shares as int);
    }
}

/// Withdrawing every outstanding share pays out both reserves whole:
/// `floor(reserve * total / total)` loses nothing to rounding.
pub proof fn lemma_withdraw_all_returns_reserves(total: u64, reserve_a: u64, reserve_b: u64)
    requires
        total >= 1,
    ensures
        withdraw_outcome(total, reserve_a, reserve_b, total, 0, 0)
            == Ok::<(u64, u64), ErrorCode>((reserve_a, reserve_b)),
{
    lemma_mul_is_commutative(reserve_a as int, total as int);
    lemma_mul_is_commutative(reserve_b as int, total as int);
    lemma_div_multiples_vanish(reserve_a as int, total as int);
    lemma_div_multiples_vanish(reserve_b as int, total as int);
}

/// One side of the round trip: shares covered by the contribution pay
/// back at most the contribution once the deposit is in the reserve.
proof fn lemma_round_trip_side(total: int, reserve: int, amount: int, shares: int)
    requires
        total >= 1,
        reserve >= 0,
        amount >= 0,
        shares >= 1,
        shares * reserve <= amount * total,
    ensures
        (reserve + amount) * shares / (total + shares) <= amount,
{
    assert((reserve + amount) * shares == shares * reserve + amount * shares) by (nonlinear_arith);
    assert(amount * total + amount * shares == amount * (total + shares)) by (nonlinear_arith);
    lemma_div_is_ordered(
        (reserve + amount) * shares,
        amount * (total + shares),
        total + shares,
    );
    lemma_mul_is_commutative(amount, total + shares);
    lemma_div_multiples_vanish(amount, total + shares);
}

} // verus!
