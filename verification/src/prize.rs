//! Prize arithmetic: the share of the prize pool allotted to each winner
//! pool and the per-winner payout, both rounded down and overflow-safe.

use vstd::prelude::*;

use crate::types::WinnerPool;

verus! {

/// Percentage of the prize pool allotted to a winner pool. Smaller pools
/// (fewer winners) carry a larger share.
pub open spec fn pool_percentage_spec(pool: WinnerPool) -> int {
    match pool {
        WinnerPool::Pool1 => 20,
        WinnerPool::Pool2 => 25,
        WinnerPool::Pool3 => 30,
        WinnerPool::Pool4 => 25,
        WinnerPool::Complete => 0,
    }
}

/// Share of the prize pool allotted to a winner pool:
/// `floor(prize_pool * percentage / 100)`.
pub open spec fn prize_for_pool_spec(prize_pool: u128, pool: WinnerPool) -> int {
    prize_pool * pool_percentage_spec(pool) / 100
}

/// Payout owed to each winner of a pool: the pool's share divided evenly,
/// rounded down; zero when the pool has no winners.
pub open spec fn prize_per_winner_spec(prize_pool: u128, pool: WinnerPool, winners: u64) -> int {
    if winners == 0 {
        0
    } else {
        prize_for_pool_spec(prize_pool, pool) / winners as int
    }
}

fn pool_percentage(pool: WinnerPool) -> (r: u128)
    ensures
        r == pool_percentage_spec(pool),
{
    match pool {
        WinnerPool::Pool1 => 20,
        WinnerPool::Pool2 => 25,
        WinnerPool::Pool3 => 30,
        WinnerPool::Pool4 => 25,
        WinnerPool::Complete => 0,
    }
}

/// Relies on num_bigint's `BigUint` multiplication and division and on
/// num_traits' `ToPrimitive::to_u128`: computes `floor(a * b / c)` with an
/// unbounded-precision intermediate, saturating at `u128::MAX` when the
/// quotient does not fit.
#[verifier::external_body]
fn mul_div(a: u128, b: u128, c: u128) -> (r: u128)
    requires
        c != 0,
    ensures
        r as int == if a * b / (c as int) > u128::MAX { u128::MAX as int } else { a * b / (c as int) },
{
    let product = num_bigint::BigUint::from(a) * num_bigint::BigUint::from(b);
    let quotient = product / num_bigint::BigUint::from(c);
    num_traits::cast::ToPrimitive::to_u128(&quotient).unwrap_or(u128::MAX)
}

/// Share of the prize pool paid out through one winner pool.
pub fn calculate_prize_for_pool(prize_pool: u128, pool: WinnerPool) -> (r: u128)
    ensures
        r == prize_for_pool_spec(prize_pool, pool),
        r <= prize_pool,
{
    let pct = pool_percentage(pool);
    proof {
        crate::pools::lemma_pct_bound(prize_pool as int, pct as int);
    }
    mul_div(prize_pool, pct, 100)
}

/// Payout owed to each single winner of a pool.
pub fn calculate_prize_per_winner(prize_pool: u128, pool: WinnerPool, winners_in_pool: u64) -> (r:
    u128)
    ensures
        r == prize_per_winner_spec(prize_pool, pool, winners_in_pool),
        r <= prize_pool,
{
    if winners_in_pool == 0 {
        return 0;
    }
    let pool_prize = calculate_prize_for_pool(prize_pool, pool);
    let r = pool_prize / (winners_in_pool as u128);
    proof {
        assert(pool_prize as int / winners_in_pool as int <= pool_prize as int) by (nonlinear_arith)
            requires
                winners_in_pool >= 1 && pool_prize >= 0,
        ;
    }
    r
}

} // verus!
