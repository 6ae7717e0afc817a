//! Winner-pool sizing: how many winners each of the four pools of a closed
//! round gets, as a function of the tickets sold.

use vstd::prelude::*;

verus! {

/// Size of one winner pool at close time: `floor(total * pct / 100)`, bumped
/// to one when that floor is zero but more than `threshold` tickets were sold.
pub open spec fn sized_pool_spec(total: u64, pct: int, threshold: int) -> int {
    let f = total * pct / 100;
    if f == 0 && total > threshold {
        1
    } else {
        f
    }
}

/// 15% of tickets win in the first pool; at least one winner once a ticket
/// was sold.
pub open spec fn pool1_count_spec(total: u64) -> int {
    sized_pool_spec(total, 15, 0)
}

/// 7% of tickets win in the second pool; at least one winner above one ticket.
pub open spec fn pool2_count_spec(total: u64) -> int {
    sized_pool_spec(total, 7, 1)
}

/// 5% of tickets win in the third pool; at least one winner above two tickets.
pub open spec fn pool3_count_spec(total: u64) -> int {
    sized_pool_spec(total, 5, 2)
}

/// 3% of tickets win in the fourth pool; at least one winner above three
/// tickets.
pub open spec fn pool4_count_spec(total: u64) -> int {
    sized_pool_spec(total, 3, 3)
}

/// Winners drawn over all four pools together.
pub open spec fn pool_sum_spec(total: u64) -> int {
    pool1_count_spec(total) + pool2_count_spec(total) + pool3_count_spec(total) + pool4_count_spec(
        total,
    )
}

/// A percentage of a quantity never exceeds the quantity itself.
pub proof fn lemma_pct_bound(a: int, pct: int)
    requires
        0 <= a,
        0 <= pct <= 100,
    ensures
        0 <= a * pct / 100 <= a,
{
    assert(a * pct <= a * 100) by (nonlinear_arith)
        requires
            0 <= a && pct <= 100,
    ;
    assert(0 <= a * pct) by (nonlinear_arith)
        requires
            0 <= a && 0 <= pct,
    ;
    assert(a * pct / 100 <= a * 100 / 100) by (nonlinear_arith)
        requires
            0 <= a * pct && a * pct <= a * 100,
    ;
    assert(a * 100 / 100 == a) by (nonlinear_arith);
    assert(0 <= a * pct / 100) by (nonlinear_arith)
        requires
            0 <= a * pct,
    ;
}

/// At most a quarter of the tickets sold fall to any one pool: each pool's
/// percentage is at most 25, and the bump to one stays below a quarter of
/// any closable total.
proof fn lemma_pool_le_quarter(total: u64, pct: int, threshold: int)
    requires
        4 <= total,
        0 <= pct <= 25,
        0 <= threshold,
    ensures
        sized_pool_spec(total, pct, threshold) <= total as int / 4,
{
    let t = total as int;
    let q = t / 4;
    let r = t % 4;
    vstd::arithmetic::div_mod::lemma_fundamental_div_mod(t, 4);
    assert(t == 4 * q + r && 0 <= r < 4);
    assert(q >= 1);
    if sized_pool_spec(total, pct, threshold) == 1 && t * pct / 100 == 0 {
        assert(sized_pool_spec(total, pct, threshold) <= q);
    } else {
        // floor(pct * t / 100) <= floor(25 t / 100) == q
        assert(t * pct <= t * 25) by (nonlinear_arith)
            requires
                0 <= t && pct <= 25,
        ;
        assert(0 <= t * pct) by (nonlinear_arith)
            requires
                0 <= t && 0 <= pct,
        ;
        assert(t * pct / 100 <= t * 25 / 100) by (nonlinear_arith)
            requires
                0 <= t * pct && t * pct <= t * 25,
        ;
        assert(t * 25 == 100 * q + 25 * r) by (nonlinear_arith)
            requires
                t == 4 * q + r,
        ;
        assert((100 * q + 25 * r) / 100 == q) by (nonlinear_arith)
            requires
                0 <= q && 0 <= 25 * r < 100,
        ;
    }
}

/// The four pool sizes of a closable round (at least four tickets sold) are
/// each at least one and together never exceed the tickets sold, so a free
/// ticket always remains while draws are outstanding.
pub proof fn lemma_pool_counts_fit(total: u64)
    requires
        4 <= total,
    ensures
        1 <= pool1_count_spec(total),
        1 <= pool2_count_spec(total),
        1 <= pool3_count_spec(total),
        1 <= pool4_count_spec(total),
        pool_sum_spec(total) <= total,
{
    let t = total as int;
    lemma_pct_bound(t, 15);
    lemma_pct_bound(t, 7);
    lemma_pct_bound(t, 5);
    lemma_pct_bound(t, 3);
    lemma_pool_le_quarter(total, 15, 0);
    lemma_pool_le_quarter(total, 7, 1);
    lemma_pool_le_quarter(total, 5, 2);
    lemma_pool_le_quarter(total, 3, 3);
    vstd::arithmetic::div_mod::lemma_fundamental_div_mod(t, 4);
    assert(4 * (t / 4) <= t);
}

/// One pool size, computed without overflow through a 128-bit intermediate.
fn sized_pool(total: u64, pct: u64, threshold: u64) -> (r: u64)
    requires
        pct <= 100,
    ensures
        r == sized_pool_spec(total, pct as int, threshold as int),
{
    proof {
        lemma_pct_bound(total as int, pct as int);
    }
    let f = ((total as u128) * (pct as u128) / 100) as u64;
    if f == 0 && total > threshold {
        1
    } else {
        f
    }
}

/// The four pool sizes for a round closing with `total` tickets sold.
pub fn compute_pool_counts(total: u64) -> (r: (u64, u64, u64, u64))
    ensures
        r.0 == pool1_count_spec(total),
        r.1 == pool2_count_spec(total),
        r.2 == pool3_count_spec(total),
        r.3 == pool4_count_spec(total),
{
    (sized_pool(total, 15, 0), sized_pool(total, 7, 1), sized_pool(total, 5, 2), sized_pool(
        total,
        3,
        3,
    ))
}

} // verus!
