use simple_amm::error::ErrorCode;
use simple_amm::pool::{
    deposit_liquidity, initialize_pool, swap, withdraw_liquidity, Pool,
};

fn fresh_pool() -> Pool {
    initialize_pool(1, 2, 3, 4, 5, 6).unwrap()
}

#[test]
fn initialize_distinct_assets() {
    let p = fresh_pool();
    assert_eq!(p.asset_a_id, 1);
    assert_eq!(p.asset_b_id, 2);
    assert_eq!(p.share_mint_id, 3);
    assert_eq!(p.reserve_a_account, 4);
    assert_eq!(p.reserve_b_account, 5);
    assert_eq!(p.total_shares, 0);
}

#[test]
fn initialize_duplicate_assets_fails() {
    let r = initialize_pool(7, 7, 3, 4, 5, 6);
    assert_eq!(r.unwrap_err(), ErrorCode::DuplicateAssets);
}

#[test]
fn first_deposit_mints_geometric_mean() {
    let mut p = fresh_pool();
    let shares = deposit_liquidity(&mut p, 0, 0, 1000, 1000, 0).unwrap();
    assert_eq!(shares, 1000);
    assert_eq!(p.total_shares, 1000);
}

#[test]
fn first_deposit_of_one_and_one_mints_one_share() {
    let mut p = fresh_pool();
    let shares = deposit_liquidity(&mut p, 0, 0, 1, 1, 0).unwrap();
    assert_eq!(shares, 1);
    assert_eq!(p.total_shares, 1);
}

#[test]
fn deposit_zero_amount_fails_invalid_amount() {
    let mut p = fresh_pool();
    assert_eq!(
        deposit_liquidity(&mut p, 0, 0, 0, 100, 0).unwrap_err(),
        ErrorCode::InvalidAmount
    );
    assert_eq!(
        deposit_liquidity(&mut p, 0, 0, 100, 0, 0).unwrap_err(),
        ErrorCode::InvalidAmount
    );
    assert_eq!(p.total_shares, 0);
}

#[test]
fn subsequent_deposit_credits_limiting_side() {
    let mut p = fresh_pool();
    deposit_liquidity(&mut p, 0, 0, 1000, 1000, 0).unwrap();
    // Off-ratio deposit: only the smaller proportional count is minted.
    let shares = deposit_liquidity(&mut p, 1000, 1000, 500, 100, 0).unwrap();
    assert_eq!(shares, 100);
    assert_eq!(p.total_shares, 1100);
}

#[test]
fn deposit_strictly_increases_total_shares() {
    let mut p = fresh_pool();
    deposit_liquidity(&mut p, 0, 0, 1000, 1000, 0).unwrap();
    let before = p.total_shares;
    let shares = deposit_liquidity(&mut p, 1000, 1000, 250, 250, 1).unwrap();
    assert!(shares >= 1);
    assert!(p.total_shares > before);
    assert_eq!(p.total_shares, before + shares);
}

#[test]
fn deposit_slippage_failure_changes_nothing() {
    let mut p = fresh_pool();
    deposit_liquidity(&mut p, 0, 0, 1000, 1000, 0).unwrap();
    let before = p.total_shares;
    let r = deposit_liquidity(&mut p, 1000, 1000, 100, 100, 101);
    assert_eq!(r.unwrap_err(), ErrorCode::SlippageExceeded);
    assert_eq!(p.total_shares, before);
}

#[test]
fn deposit_overflowing_share_supply_fails() {
    let mut p = Pool {
        total_shares: u64::MAX,
        ..fresh_pool()
    };
    let r = deposit_liquidity(&mut p, 10, 10, 10, 10, 0);
    assert_eq!(r.unwrap_err(), ErrorCode::ArithmeticOverflow);
    assert_eq!(p.total_shares, u64::MAX);
}

#[test]
fn withdraw_returns_proportional_amounts() {
    let mut p = fresh_pool();
    deposit_liquidity(&mut p, 0, 0, 1000, 1000, 0).unwrap();
    let (a, b) = withdraw_liquidity(&mut p, 1000, 1000, 500, 0, 0).unwrap();
    assert_eq!((a, b), (500, 500));
    assert_eq!(p.total_shares, 500);
}

#[test]
fn withdraw_zero_shares_fails_invalid_amount() {
    let mut p = fresh_pool();
    deposit_liquidity(&mut p, 0, 0, 1000, 1000, 0).unwrap();
    assert_eq!(
        withdraw_liquidity(&mut p, 1000, 1000, 0, 0, 0).unwrap_err(),
        ErrorCode::InvalidAmount
    );
}

#[test]
fn withdraw_from_empty_pool_fails_insufficient_liquidity() {
    let mut p = fresh_pool();
    assert_eq!(
        withdraw_liquidity(&mut p, 0, 0, 10, 0, 0).unwrap_err(),
        ErrorCode::InsufficientLiquidity
    );
}

#[test]
fn withdraw_slippage_failure_changes_nothing() {
    let mut p = fresh_pool();
    deposit_liquidity(&mut p, 0, 0, 1000, 1000, 0).unwrap();
    let before = p.total_shares;
    let r = withdraw_liquidity(&mut p, 1000, 1000, 500, 501, 0);
    assert_eq!(r.unwrap_err(), ErrorCode::SlippageExceeded);
    assert_eq!(p.total_shares, before);
}

#[test]
fn withdraw_more_shares_than_outstanding_fails() {
    let mut p = fresh_pool();
    deposit_liquidity(&mut p, 0, 0, 4, 4, 0).unwrap();
    // 4 shares outstanding; burning 100 against small reserves passes the
    // narrowing and slippage checks but trips the checked subtraction.
    let r = withdraw_liquidity(&mut p, 4, 4, 100, 0, 0);
    assert_eq!(r.unwrap_err(), ErrorCode::ArithmeticOverflow);
    assert_eq!(p.total_shares, 4);
}

#[test]
fn round_trip_returns_no_more_than_deposited() {
    let mut p = fresh_pool();
    deposit_liquidity(&mut p, 0, 0, 1000, 1000, 0).unwrap();
    let shares = deposit_liquidity(&mut p, 1000, 1000, 500, 100, 1).unwrap();
    let (a, b) = withdraw_liquidity(&mut p, 1500, 1100, shares, 0, 0).unwrap();
    assert!(a <= 500);
    assert!(b <= 100);
}

#[test]
fn swap_prices_constant_product_with_fee() {
    let mut p = fresh_pool();
    deposit_liquidity(&mut p, 0, 0, 1000, 1000, 0).unwrap();
    // amount_in_with_fee = 99_700; numerator = 99_700_000;
    // denominator = 1_099_700; floor is 90.
    let out = swap(&p, 1000, 1000, 100, 0, true).unwrap();
    assert_eq!(out, 90);
}

#[test]
fn swap_never_shrinks_reserve_product() {
    let p = Pool {
        total_shares: 1000,
        ..fresh_pool()
    };
    let (ra, rb) = (1000u64, 1000u64);
    let amount_in = 100u64;
    let out = swap(&p, ra, rb, amount_in, 0, true).unwrap();
    let before = (ra as u128) * (rb as u128);
    let after = ((ra + amount_in) as u128) * ((rb - out) as u128);
    assert!(after > before);
}

#[test]
fn swap_direction_selects_reserves() {
    let p = Pool {
        total_shares: 1000,
        ..fresh_pool()
    };
    // Asymmetric reserves: the two directions price differently.
    let out_a_to_b = swap(&p, 2000, 500, 100, 0, true).unwrap();
    let out_b_to_a = swap(&p, 2000, 500, 100, 0, false).unwrap();
    assert_eq!(out_a_to_b, 23);
    assert_eq!(out_b_to_a, 332);
}

#[test]
fn swap_zero_input_fails_invalid_amount() {
    let p = fresh_pool();
    assert_eq!(
        swap(&p, 1000, 1000, 0, 0, true).unwrap_err(),
        ErrorCode::InvalidAmount
    );
}

#[test]
fn swap_below_minimum_out_fails_slippage() {
    let p = Pool {
        total_shares: 1000,
        ..fresh_pool()
    };
    assert_eq!(
        swap(&p, 1000, 1000, 100, 91, true).unwrap_err(),
        ErrorCode::SlippageExceeded
    );
}

#[test]
fn swap_rounding_to_zero_fails_insufficient_liquidity() {
    let p = Pool {
        total_shares: 1000,
        ..fresh_pool()
    };
    // One unit in against deep reserves rounds the output down to zero.
    assert_eq!(
        swap(&p, 1_000_000, 1_000_000, 1, 0, true).unwrap_err(),
        ErrorCode::InsufficientLiquidity
    );
}

#[test]
fn swap_huge_operands_fail_arithmetic_overflow() {
    let p = fresh_pool();
    assert_eq!(
        swap(&p, u64::MAX, u64::MAX, u64::MAX, 0, true).unwrap_err(),
        ErrorCode::ArithmeticOverflow
    );
}

#[test]
fn scenario_deposit_swap_withdraw() {
    // Pool initialized empty; deposit (1000, 1000) mints 1000 shares.
    let mut p = fresh_pool();
    let shares = deposit_liquidity(&mut p, 0, 0, 1000, 1000, 0).unwrap();
    assert_eq!(shares, 1000);
    let (mut ra, mut rb) = (1000u64, 1000u64);

    // Swap 100 of asset a for asset b: 90 units of b come out.
    let out = swap(&p, ra, rb, 100, 0, true).unwrap();
    assert_eq!(out, 90);
    ra += 100;
    rb -= out;
    assert_eq!((ra, rb), (1100, 910));

    // Withdraw all 1000 shares: the post-swap reserves come back whole.
    let (a, b) = withdraw_liquidity(&mut p, ra, rb, 1000, 0, 0).unwrap();
    assert_eq!((a, b), (1100, 910));
    assert_eq!(p.total_shares, 0);
}
