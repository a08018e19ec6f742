//! The pool ledger and its four operations: initialize, deposit, withdraw
//! and swap.
//!
//! Reserve balances are owned by an external ledger and are read fresh at
//! the start of each operation; the caller hands them in and performs the
//! asset transfers that a successful result calls for.  The functions here
//! are the complete accounting: which share or asset amounts an operation
//! yields, on which inputs it fails, and how the share counter moves.

use crate::error::ErrorCode;
use crate::math::{checked_mul_u128, integer_sqrt, sqrt_floor};
use vstd::arithmetic::mul::lemma_mul_upper_bound;
use vstd::prelude::*;

verus! {

/// Fee charged on every swap, as the integer ratio
/// `FEE_NUMERATOR / FEE_DENOMINATOR` (0.3%).
pub const FEE_NUMERATOR: u64 = 3;

/// See `FEE_NUMERATOR`.
pub const FEE_DENOMINATOR: u64 = 1000;

/// The persistent record of one trading pair: its configuration and the
/// cumulative count of shares outstanding.
///
/// The two reserve balances are not fields: they belong to the external
/// ledger and change on every deposit, withdrawal and swap.  `authority_token`
/// is an opaque credential that lets the pool authorize outbound transfers
/// from its own reserve accounts; the library never interprets it.
#[derive(Debug)]
pub struct Pool {
    /// Identifier of the first pooled asset type.  Fixed at creation.
    pub asset_a_id: u64,
    /// Identifier of the second pooled asset type.  Fixed at creation;
    /// always distinct from `asset_a_id`.
    pub asset_b_id: u64,
    /// Identifier of the fungible share type this pool issues.
    pub share_mint_id: u64,
    /// Reference to the custody location holding the pooled `a` balance.
    pub reserve_a_account: u64,
    /// Reference to the custody location holding the pooled `b` balance.
    pub reserve_b_account: u64,
    /// Shares outstanding.  Starts at 0, rises on deposit, falls on
    /// withdrawal, and never moves on a failed call.
    pub total_shares: u64,
    /// Opaque capability for authorizing outbound reserve transfers.
    pub authority_token: u64,
}

impl Pool {
    /// The pool's fixed identity is well formed: the two pooled asset
    /// types are distinct.
    pub open spec fn wf(self) -> bool {
        self.asset_a_id != self.asset_b_id
    }
}

/// Shares minted by the first deposit: the floor of the geometric mean of
/// the two contributed amounts.
pub open spec fn initial_deposit_shares(amount_a: u64, amount_b: u64) -> nat {
    sqrt_floor((amount_a * amount_b) as nat)
}

/// Shares that `amount` of one asset justifies against `reserve` of it,
/// with `total` shares outstanding: `floor(amount * total / reserve)`.
pub open spec fn proportional_shares(amount: u64, total: u64, reserve: u64) -> int {
    amount * total / (reserve as int)
}

/// Shares minted by a deposit of `(amount_a, amount_b)` against live
/// reserves `(reserve_a, reserve_b)`.  A subsequent deposit is credited
/// only for the limiting side: the lower of the two proportional counts.
pub open spec fn deposit_shares(
    total: u64,
    reserve_a: u64,
    reserve_b: u64,
    amount_a: u64,
    amount_b: u64,
) -> int {
    if total == 0 {
        initial_deposit_shares(amount_a, amount_b) as int
    } else {
        let from_a = proportional_shares(amount_a, total, reserve_a);
        let from_b = proportional_shares(amount_b, total, reserve_b);
        if from_a <= from_b {
            from_a
        } else {
            from_b
        }
    }
}

/// The complete outcome of a deposit: the shares minted on success, and
/// the exact failure on every other input.
pub open spec fn deposit_outcome(
    total: u64,
    reserve_a: u64,
    reserve_b: u64,
    amount_a: u64,
    amount_b: u64,
    min_shares: u64,
) -> Result<u64, ErrorCode> {
    if amount_a == 0 || amount_b == 0 {
        Err(ErrorCode::InvalidAmount)
    } else {
        let s = deposit_shares(total, reserve_a, reserve_b, amount_a, amount_b);
        if total == 0 && s == 0 {
            Err(ErrorCode::InsufficientLiquidity)
        } else if s < min_shares {
            Err(ErrorCode::SlippageExceeded)
        } else if total + s > u64::MAX {
            Err(ErrorCode::ArithmeticOverflow)
        } else {
            Ok(s as u64)
        }
    }
}

/// The complete outcome of a withdrawal: the pair of asset amounts paid
/// out on success, and the exact failure on every other input.
pub open spec fn withdraw_outcome(
    total: u64,
    reserve_a: u64,
    reserve_b: u64,
    share_amount: u64,
    min_amount_a: u64,
    min_amount_b: u64,
) -> Result<(u64, u64), ErrorCode> {
    if share_amount == 0 {
        Err(ErrorCode::InvalidAmount)
    } else if total == 0 {
        Err(ErrorCode::InsufficientLiquidity)
    } else {
        let amount_a = reserve_a * share_amount / (total as int);
        let amount_b = reserve_b * share_amount / (total as int);
        if amount_a > u64::MAX || amount_b > u64::MAX {
            Err(ErrorCode::ArithmeticOverflow)
        } else if amount_a < min_amount_a || amount_b < min_amount_b {
            Err(ErrorCode::SlippageExceeded)
        } else if share_amount > total {
            Err(ErrorCode::ArithmeticOverflow)
        } else {
            Ok((amount_a as u64, amount_b as u64))
        }
    }
}

/// The input amount after the proportional fee is kept back:
/// `amount_in * (FEE_DENOMINATOR - FEE_NUMERATOR)`, still scaled by
/// `FEE_DENOMINATOR`.
pub open spec fn amount_in_with_fee(amount_in: u64) -> int {
    amount_in * (FEE_DENOMINATOR - FEE_NUMERATOR)
}

/// Constant-product output amount for a swap of `amount_in` against the
/// live reserves, fee already kept back, rounded down.
pub open spec fn swap_amount_out(reserve_in: u64, reserve_out: u64, amount_in: u64) -> int {
    amount_in_with_fee(amount_in) * reserve_out / (
    reserve_in * FEE_DENOMINATOR + amount_in_with_fee(amount_in))
}

/// The complete outcome of a swap: the output amount on success, and the
/// exact failure on every other input.
pub open spec fn swap_outcome(
    reserve_in: u64,
    reserve_out: u64,
    amount_in: u64,
    min_amount_out: u64,
) -> Result<u64, ErrorCode> {
    if amount_in == 0 {
        Err(ErrorCode::InvalidAmount)
    } else if amount_in_with_fee(amount_in) * reserve_out > u128::MAX {
        Err(ErrorCode::ArithmeticOverflow)
    } else {
        let out = swap_amount_out(reserve_in, reserve_out, amount_in);
        if out < min_amount_out {
            Err(ErrorCode::SlippageExceeded)
        } else if out == 0 || out >= reserve_out {
            Err(ErrorCode::InsufficientLiquidity)
        } else {
            Ok(out as u64)
        }
    }
}

/// Creates the pool record for a pair of distinct asset types, with no
/// shares outstanding.  The share-mint identity, the two reserve custody
/// accounts and the authority credential are allocated by the external
/// account layer and handed in here.
pub fn initialize_pool(
    asset_a_id: u64,
    asset_b_id: u64,
    share_mint_id: u64,
    reserve_a_account: u64,
    reserve_b_account: u64,
    authority_token: u64,
) -> (r: Result<Pool, ErrorCode>)
    ensures
        asset_a_id == asset_b_id <==> r == Err::<Pool, ErrorCode>(ErrorCode::DuplicateAssets),
        asset_a_id != asset_b_id ==> r is Ok,
        r matches Ok(p) ==> p == (Pool {
            asset_a_id,
            asset_b_id,
            share_mint_id,
            reserve_a_account,
            reserve_b_account,
            total_shares: 0u64,
            authority_token,
        }),
        r matches Ok(p) ==> p.wf(),
{
    if asset_a_id == asset_b_id {
        return Err(ErrorCode::DuplicateAssets);
    }
    Ok(
        Pool {
            asset_a_id,
            asset_b_id,
            share_mint_id,
            reserve_a_account,
            reserve_b_account,
            total_shares: 0,
            authority_token,
        },
    )
}

/// Deposits `(amount_a, amount_b)` against the live reserve balances and
/// mints the proportional share count.
///
/// On success the caller owes the pool both transfers in full: the excess
/// of a deposit sized off the current ratio is still transferred but earns
/// no extra shares.  On failure the pool record is unchanged and no
/// transfer may be made.
pub fn deposit_liquidity(
    pool: &mut Pool,
    reserve_a: u64,
    reserve_b: u64,
    amount_a: u64,
    amount_b: u64,
    min_shares: u64,
) -> (r: Result<u64, ErrorCode>)
    requires
        old(pool).total_shares > 0 ==> reserve_a > 0 && reserve_b > 0,
    ensures
        r == deposit_outcome(
            old(pool).total_shares,
            reserve_a,
            reserve_b,
            amount_a,
            amount_b,
            min_shares,
        ),
        old(pool).total_shares == 0 && amount_a > 0 && amount_b > 0
            && initial_deposit_shares(amount_a, amount_b) == 0 ==> r == Err::<u64, ErrorCode>(
            ErrorCode::InsufficientLiquidity,
        ),
        r matches Ok(s) ==> *final(pool) == (Pool {
            total_shares: (old(pool).total_shares + s) as u64,
            ..*old(pool)
        }),
        r is Err ==> *final(pool) == *old(pool),
{
    if amount_a == 0 || amount_b == 0 {
        return Err(ErrorCode::InvalidAmount);
    }

    let shares_wide: u128 = if pool.total_shares == 0 {
        proof {
            lemma_mul_upper_bound(amount_a as int, u64::MAX as int, amount_b as int, u64::MAX as int);
        }
        let product = (amount_a as u128) * (amount_b as u128);
        let s = integer_sqrt(product);
        if s == 0 {
            return Err(ErrorCode::InsufficientLiquidity);
        }
        s
    } else {
        let total = pool.total_shares as u128;
        proof {
            lemma_mul_upper_bound(
                amount_a as int,
                u64::MAX as int,
                pool.total_shares as int,
                u64::MAX as int,
            );
            lemma_mul_upper_bound(
                amount_b as int,
                u64::MAX as int,
                pool.total_shares as int,
                u64::MAX as int,
            );
        }
        let from_a = (amount_a as u128) * total / (reserve_a as u128);
        let from_b = (amount_b as u128) * total / (reserve_b as u128);
        if from_a <= from_b {
            from_a
        } else {
            from_b
        }
    };

    if shares_wide < min_shares as u128 {
        return Err(ErrorCode::SlippageExceeded);
    }
    if shares_wide > (u64::MAX - pool.total_shares) as u128 {
        return Err(ErrorCode::ArithmeticOverflow);
    }
    let shares = shares_wide as u64;
    pool.total_shares = pool.total_shares + shares;
    Ok(shares)
}

/// Burns `share_amount` shares and pays out the proportional slice of each
/// live reserve, rounded down.
///
/// On success the caller owes the holder both payouts in full; on failure
/// the pool record is unchanged and no transfer may be made.
pub fn withdraw_liquidity(
    pool: &mut Pool,
    reserve_a: u64,
    reserve_b: u64,
    share_amount: u64,
    min_amount_a: u64,
    min_amount_b: u64,
) -> (r: Result<(u64, u64), ErrorCode>)
    ensures
        r == withdraw_outcome(
            old(pool).total_shares,
            reserve_a,
            reserve_b,
            share_amount,
            min_amount_a,
            min_amount_b,
        ),
        r is Ok ==> *final(pool) == (Pool {
            total_shares: (old(pool).total_shares - share_amount) as u64,
            ..*old(pool)
        }),
        r is Err ==> *final(pool) == *old(pool),
{
    if share_amount == 0 {
        return Err(ErrorCode::InvalidAmount);
    }
    if pool.total_shares == 0 {
        return Err(ErrorCode::InsufficientLiquidity);
    }

    let total = pool.total_shares as u128;
    proof {
        lemma_mul_upper_bound(reserve_a as int, u64::MAX as int, share_amount as int, u64::MAX as int);
        lemma_mul_upper_bound(reserve_b as int, u64::MAX as int, share_amount as int, u64::MAX as int);
    }
    let amount_a_wide = (reserve_a as u128) * (share_amount as u128) / total;
    let amount_b_wide = (reserve_b as u128) * (share_amount as u128) / total;
    if amount_a_wide > u64::MAX as u128 || amount_b_wide > u64::MAX as u128 {
        return Err(ErrorCode::ArithmeticOverflow);
    }
    let amount_a = amount_a_wide as u64;
    let amount_b = amount_b_wide as u64;
    if amount_a < min_amount_a || amount_b < min_amount_b {
        return Err(ErrorCode::SlippageExceeded);
    }
    if share_amount > pool.total_shares {
        return Err(ErrorCode::ArithmeticOverflow);
    }
    pool.total_shares = pool.total_shares - share_amount;
    Ok((amount_a, amount_b))
}

/// Prices a swap of `amount_in` of one asset for the other at the
/// constant-product rate, a 0.3% fee kept back in the input reserve.
///
/// `is_a_to_b` selects the input side: with it set, `reserve_a` is the
/// input reserve and the output is paid from `reserve_b`.  The pool record
/// itself never changes on a swap; on success the caller owes the pool the
/// input transfer and the trader the output transfer.
pub fn swap(
    pool: &Pool,
    reserve_a: u64,
    reserve_b: u64,
    amount_in: u64,
    min_amount_out: u64,
    is_a_to_b: bool,
) -> (r: Result<u64, ErrorCode>)
    ensures
        is_a_to_b ==> r == swap_outcome(reserve_a, reserve_b, amount_in, min_amount_out),
        !is_a_to_b ==> r == swap_outcome(reserve_b, reserve_a, amount_in, min_amount_out),
{
    if amount_in == 0 {
        return Err(ErrorCode::InvalidAmount);
    }
    let (reserve_in, reserve_out) = if is_a_to_b {
        (reserve_a, reserve_b)
    } else {
        (reserve_b, reserve_a)
    };

    proof {
        lemma_mul_upper_bound(
            amount_in as int,
            u64::MAX as int,
            (FEE_DENOMINATOR - FEE_NUMERATOR) as int,
            (FEE_DENOMINATOR - FEE_NUMERATOR) as int,
        );
        lemma_mul_upper_bound(reserve_in as int, u64::MAX as int, FEE_DENOMINATOR as int, FEE_DENOMINATOR as int);
    }
    let in_with_fee = (amount_in as u128) * ((FEE_DENOMINATOR - FEE_NUMERATOR) as u128);
    let numerator = match checked_mul_u128(in_with_fee, reserve_out as u128) {
        Ok(v) => v,
        Err(e) => {
            return Err(e);
        },
    };
    let denominator = (reserve_in as u128) * (FEE_DENOMINATOR as u128) + in_with_fee;
    let out_wide = numerator / denominator;

    if out_wide < min_amount_out as u128 {
        return Err(ErrorCode::SlippageExceeded);
    }
    if out_wide == 0 || out_wide >= reserve_out as u128 {
        return Err(ErrorCode::InsufficientLiquidity);
    }
    Ok(out_wide as u64)
}

} // verus!
