//! Laws of the ledger: properties that relate several operations, stated and
//! proved over the spec-level transitions that the executable methods are
//! proved to implement.

use vstd::prelude::*;

use crate::pools::lemma_pool_counts_fit;
use crate::state::{
    close_spec, count_total, create_spec, draw_mid_state, draw_spec, drawn_ticket_set,
    drawn_total, lemma_create_wf, lemma_draw_mid_wf, lemma_search_props, lemma_search_succeeds,
    purchases_tile, record_spec, StateView,
};
use crate::types::{AccountId, AppRef, LotteryError, PurchaseView};

verus! {

/// Ranges earlier in a round's purchase list end before later ones begin.
proof fn lemma_chain_ordered(total: u64, ps: Seq<PurchaseView>, j: int, k: int)
    requires
        purchases_tile(total, ps),
        0 <= j <= k < ps.len(),
    ensures
        ps[j].last_ticket <= ps[k].last_ticket,
        ps[j].first_ticket <= ps[k].first_ticket,
    decreases k - j,
{
    if j < k {
        lemma_chain_ordered(total, ps, j, k - 1);
        assert(ps[k].first_ticket == ps[k - 1].last_ticket + 1);
    }
}

/// Every ticket of a tiled range lies in some purchase's range.
proof fn lemma_tile_covers(total: u64, ps: Seq<PurchaseView>, t: int)
    requires
        purchases_tile(total, ps),
        1 <= t <= total,
    ensures
        exists|j: int|
            0 <= j < ps.len() && (#[trigger] ps[j]).first_ticket <= t <= ps[j].last_ticket,
    decreases ps.len(),
{
    let n = ps.len() as int;
    assert(n > 0);
    if ps[n - 1].first_ticket <= t {
        assert(ps[n - 1].first_ticket <= t <= ps[n - 1].last_ticket);
    } else {
        assert(n >= 2) by {
            if n == 1 {
                assert(ps[0].first_ticket == 1);
            }
        }
        let total2 = (ps[n - 1].first_ticket - 1) as u64;
        let prefix = ps.drop_last();
        assert(purchases_tile(total2, prefix)) by {
            assert(forall|j: int| 0 <= j < n - 1 ==> prefix[j] == ps[j]);
            assert(prefix[n - 2].last_ticket == total2);
            assert forall|j: int| 0 <= j < prefix.len() implies (#[trigger] prefix[j]).last_ticket
                <= total2 by {
                lemma_chain_ordered(total, ps, j, n - 2);
            }
        }
        lemma_tile_covers(total2, prefix, t);
        let w = choose|j: int|
            0 <= j < prefix.len() && (#[trigger] prefix[j]).first_ticket <= t
                <= prefix[j].last_ticket;
        assert(ps[w].first_ticket <= t <= ps[w].last_ticket);
    }
}

/// For any ledger the library can produce, the assigned ticket ranges of
/// every round exactly tile `[1, total_tickets_sold]`: each sold ticket lies
/// in the range of exactly one recorded purchase — no gaps, no overlaps.
pub proof fn lemma_ranges_exactly_tile(s: StateView, rid: u64, t: int)
    requires
        s.wf(),
        s.has_round(rid),
        1 <= t <= s.round(rid).total_tickets_sold,
    ensures
        exists|j: int|
            0 <= j < s.purchases_of(rid).len() && ((#[trigger] s.purchases_of(rid)[j]).first_ticket
                <= t <= s.purchases_of(rid)[j].last_ticket),
        forall|j: int, k: int|
            0 <= j < s.purchases_of(rid).len() && 0 <= k < s.purchases_of(rid).len()
                && (#[trigger] s.purchases_of(rid)[j]).first_ticket <= t
                <= s.purchases_of(rid)[j].last_ticket && (#[trigger] s.purchases_of(
                rid,
            )[k]).first_ticket <= t <= s.purchases_of(rid)[k].last_ticket ==> j == k,
{
    let i = rid - 1;
    assert(s.round_data_wf(i));
    let total = s.round(rid).total_tickets_sold;
    let ps = s.purchases_of(rid);
    lemma_tile_covers(total, ps, t);
    assert forall|j: int, k: int|
        0 <= j < ps.len() && 0 <= k < ps.len() && (#[trigger] ps[j]).first_ticket <= t
            <= ps[j].last_ticket && (#[trigger] ps[k]).first_ticket <= t <= ps[k].last_ticket
        implies j == k by {
        if j < k {
            lemma_chain_ordered(total, ps, j, k - 1);
            assert(ps[k].first_ticket == ps[k - 1].last_ticket + 1);
            assert(false);
        }
        if k < j {
            lemma_chain_ordered(total, ps, k, j - 1);
            assert(ps[j].first_ticket == ps[j - 1].last_ticket + 1);
            assert(false);
        }
    }
}

/// An amount below the ticket price is rejected as too small; an amount that
/// is exactly `k` times the ticket price buys exactly `k` tickets, paid in
/// full into the prize pool.
pub proof fn lemma_purchase_amounts(
    s: StateView,
    owner: AccountId,
    amount: u128,
    src: Option<Seq<char>>,
    k: u128,
)
    requires
        s.wf(),
        s.active_round is Some,
        s.round(s.active_round->0).ticket_price > 0,
    ensures
        amount < s.round(s.active_round->0).ticket_price ==> record_spec(s, owner, amount, src)
            == Err::<(StateView, PurchaseView), LotteryError>(LotteryError::AmountTooSmall),
        (amount == k * s.round(s.active_round->0).ticket_price && 1 <= k && s.round(
            s.active_round->0,
        ).total_tickets_sold + k < u64::MAX) ==> record_spec(s, owner, amount, src) is Ok
            && record_spec(s, owner, amount, src)->Ok_0.1.total_tickets == k,
{
    let rid = s.active_round->0;
    let r = s.round(rid);
    let p = r.ticket_price as int;
    if amount < r.ticket_price {
        vstd::arithmetic::div_mod::lemma_basic_div(amount as int, p);
    }
    if amount == k * r.ticket_price && 1 <= k && r.total_tickets_sold + k < u64::MAX {
        assert(amount as int / p == k) by {
            vstd::arithmetic::div_mod::lemma_fundamental_div_mod_converse(
                (k * r.ticket_price) as int,
                p,
                k as int,
                0,
            );
        }
    }
}

/// The prize pool never shrinks and never wraps: a recorded purchase adds
/// its amount, saturating at the largest representable amount.
pub proof fn lemma_prize_pool_monotonic(
    s: StateView,
    owner: AccountId,
    amount: u128,
    src: Option<Seq<char>>,
)
    requires
        s.active_round is Some,
        record_spec(s, owner, amount, src) is Ok,
    ensures
        ({
            let s2 = record_spec(s, owner, amount, src)->Ok_0.0;
            let rid = s.active_round->0;
            s2.round(rid).prize_pool >= s.round(rid).prize_pool
        }),
{
}

/// Closing the active round fails with `InsufficientTickets` exactly below
/// four tickets sold, and succeeds from four on.
pub proof fn lemma_close_threshold(s: StateView, ts: u64)
    requires
        s.wf(),
        s.active_round is Some,
    ensures
        s.round(s.active_round->0).total_tickets_sold < 4 <==> close_spec(s, ts) == Err::<
            (StateView, u64),
            LotteryError,
        >(LotteryError::InsufficientTickets),
        s.round(s.active_round->0).total_tickets_sold >= 4 ==> close_spec(s, ts) is Ok,
{
}

/// Drawing on a well-formed closed round always succeeds: it never repeats a
/// ticket already recorded as a winner, raises the round's drawn total by
/// exactly one, and completes the round exactly when the last outstanding
/// winner is drawn — creating, at that moment, exactly one Active successor
/// round with the same ticket price.
pub proof fn lemma_draw_drains(s: StateView, vrf: u64, rid: u64, ts: u64)
    requires
        s.wf(),
        s.active_round is None,
        s.round_counter < u64::MAX,
        s.has_round(rid),
        s.round(rid).status is Closed,
    ensures
        draw_spec(s, vrf, rid, ts) is Ok,
        ({
            let s2 = draw_spec(s, vrf, rid, ts)->Ok_0.0;
            let out = draw_spec(s, vrf, rid, ts)->Ok_0.1;
            &&& s2.wf()
            &&& !drawn_ticket_set(s.winners_of(rid)).contains(out.1 as int)
            &&& s2.winners_of(rid) == s.winners_of(rid).push(s2.winners_of(rid).last())
            &&& drawn_total(s2.round(rid)) == drawn_total(s.round(rid)) + 1
            &&& (s2.round(rid).status is Complete <==> drawn_total(s.round(rid)) + 1
                == count_total(s.round(rid)))
            &&& (out.4 <==> s2.round(rid).status is Complete)
            &&& (out.4 ==> {
                &&& s2.rounds.len() == s.rounds.len() + 1
                &&& s2.round_counter == s.round_counter + 1
                &&& s2.active_round == Some((s.round_counter + 1) as u64)
                &&& s2.round((s.round_counter + 1) as u64).status is Active
                &&& s2.round((s.round_counter + 1) as u64).ticket_price == s.round(
                    rid,
                ).ticket_price
            })
            &&& (!out.4 ==> {
                &&& s2.rounds.len() == s.rounds.len()
                &&& s2.round_counter == s.round_counter
                &&& s2.active_round is None
                &&& s2.round(rid).status is Closed
            })
            &&& s2.round(rid).ticket_price == s.round(rid).ticket_price
            &&& count_total(s2.round(rid)) == count_total(s.round(rid))
        }),
{
    let i = rid - 1;
    assert(s.round_data_wf(i));
    let r = s.round(rid);
    let total = r.total_tickets_sold;
    let ws = s.winners_of(rid);
    lemma_pool_counts_fit(total);
    assert(ws.len() == drawn_total(r));
    assert(drawn_total(r) < count_total(r));
    assert(count_total(r) <= total);
    lemma_search_succeeds(vrf, total, ws);
    lemma_search_props(vrf, total, ws, 0);
    assert(s.owners_of(rid).len() == total);
    assert(draw_spec(s, vrf, rid, ts) is Ok);
    lemma_draw_mid_wf(s, vrf, rid, ts);
    let mid = draw_mid_state(s, vrf, rid);
    if mid.round(rid).status is Complete {
        lemma_create_wf(mid, r.ticket_price, ts);
    }
}

/// Once a round is `Complete` it is frozen: no operation — not a purchase,
/// not a close, not another draw — ever changes its record, its purchases or
/// its winners again, and a draw addressed to it fails `RoundNotClosed`.
pub proof fn lemma_complete_round_frozen(s: StateView, rid: u64, op: OpView)
    requires
        s.wf(),
        s.has_round(rid),
        s.round(rid).status is Complete,
    ensures
        step_spec(s, op).round(rid) == s.round(rid),
        step_spec(s, op).purchases_of(rid) == s.purchases_of(rid),
        step_spec(s, op).winners_of(rid) == s.winners_of(rid),
        op matches OpView::Draw { round_id, vrf_value, timestamp } ==> (round_id == rid
            ==> draw_spec(s, vrf_value, rid, timestamp) == Err::<
            (StateView, crate::state::DrawOutcome),
            LotteryError,
        >(LotteryError::RoundNotClosed)),
{
    let i = rid - 1;
    assert(s.round_data_wf(i));
    match op {
        OpView::Create { ticket_price, timestamp } => {},
        OpView::Record { owner, amount, source_chain_id } => {
            if record_spec(s, owner, amount, source_chain_id) is Ok {
                let a = s.active_round->0;
                assert(s.round(a).status is Active);
                assert(a != rid);
            }
        },
        OpView::Close { timestamp } => {
            if close_spec(s, timestamp) is Ok {
                let a = s.active_round->0;
                assert(s.round(a).status is Active);
                assert(a != rid);
            }
        },
        OpView::Draw { vrf_value, round_id, timestamp } => {
            if round_id != rid && s.active_round is None && s.round_counter < u64::MAX
                && draw_spec(s, vrf_value, round_id, timestamp) is Ok {
                let s2 = draw_spec(s, vrf_value, round_id, timestamp)->Ok_0.0;
                assert(s2.rounds[i] == s.rounds[i]);
                assert(s2.ticket_purchases[i] == s.ticket_purchases[i]);
                assert(s2.winning_tickets[i] == s.winning_tickets[i]);
            }
        },
        OpView::SetApp { app } => {},
    }
}

/// One host-visible operation together with the external inputs the host
/// feeds it: timestamps and the draw seed ride inside the operation.
pub ghost enum OpView {
    Create { ticket_price: u128, timestamp: u64 },
    Record { owner: AccountId, amount: u128, source_chain_id: Option<Seq<char>> },
    Close { timestamp: u64 },
    Draw { vrf_value: u64, round_id: u64, timestamp: u64 },
    SetApp { app: AppRef },
}

/// The ledger after one operation; an operation the host may not issue in
/// the current state, or one that fails, leaves the ledger unchanged.
pub open spec fn step_spec(s: StateView, op: OpView) -> StateView {
    match op {
        OpView::Create { ticket_price, timestamp } => if s.active_round is None
            && s.round_counter < u64::MAX {
            create_spec(s, ticket_price, timestamp).0
        } else {
            s
        },
        OpView::Record { owner, amount, source_chain_id } => match record_spec(
            s,
            owner,
            amount,
            source_chain_id,
        ) {
            Ok((s2, _)) => s2,
            Err(_) => s,
        },
        OpView::Close { timestamp } => match close_spec(s, timestamp) {
            Ok((s2, _)) => s2,
            Err(_) => s,
        },
        OpView::Draw { vrf_value, round_id, timestamp } => if s.active_round is None
            && s.round_counter < u64::MAX {
            match draw_spec(s, vrf_value, round_id, timestamp) {
                Ok((s2, _)) => s2,
                Err(_) => s,
            }
        } else {
            s
        },
        OpView::SetApp { app } => StateView { lottery_app_id: Some(app), ..s },
    }
}

/// The ledger after a whole sequence of operations.
pub open spec fn run_spec(s: StateView, ops: Seq<OpView>) -> StateView
    decreases ops.len(),
{
    if ops.len() == 0 {
        s
    } else {
        run_spec(step_spec(s, ops[0]), ops.drop_first())
    }
}

/// The operation sequence that draws one winner per seed for round `rid`.
pub open spec fn draws_spec(rid: u64, seeds: Seq<u64>, ts: u64) -> Seq<OpView> {
    Seq::new(
        seeds.len(),
        |i: int| OpView::Draw { vrf_value: seeds[i], round_id: rid, timestamp: ts },
    )
}

/// Exactly as many draws as the four pools still owe winners drain a closed
/// round: whatever the seeds, after `count_total - drawn_total` calls the
/// round is `Complete` and exactly one Active successor round with the same
/// ticket price has been created; no earlier call completes it.
pub proof fn lemma_exact_calls_drain(s: StateView, rid: u64, seeds: Seq<u64>, ts: u64)
    requires
        s.wf(),
        s.active_round is None,
        s.round_counter < u64::MAX,
        s.has_round(rid),
        s.round(rid).status is Closed,
        seeds.len() == count_total(s.round(rid)) - drawn_total(s.round(rid)),
    ensures
        ({
            let sf = run_spec(s, draws_spec(rid, seeds, ts));
            &&& sf.wf()
            &&& sf.round(rid).status is Complete
            &&& sf.round_counter == s.round_counter + 1
            &&& sf.active_round == Some((s.round_counter + 1) as u64)
            &&& sf.round((s.round_counter + 1) as u64).status is Active
            &&& sf.round((s.round_counter + 1) as u64).ticket_price == s.round(rid).ticket_price
        }),
    decreases seeds.len(),
{
    assert(s.round_data_wf(rid - 1));
    assert(drawn_total(s.round(rid)) < count_total(s.round(rid)));
    lemma_draw_drains(s, seeds[0], rid, ts);
    let ops = draws_spec(rid, seeds, ts);
    assert(ops[0] == OpView::Draw { vrf_value: seeds[0], round_id: rid, timestamp: ts });
    let s1 = step_spec(s, ops[0]);
    assert(s1 == draw_spec(s, seeds[0], rid, ts)->Ok_0.0);
    assert(run_spec(s, ops) == run_spec(s1, ops.drop_first()));
    if seeds.len() == 1 {
        assert(s1.round(rid).status is Complete);
        assert(ops.drop_first().len() == 0);
        assert(run_spec(s1, ops.drop_first()) == s1);
    } else {
        assert(drawn_total(s1.round(rid)) + 1 <= count_total(s1.round(rid)));
        assert(!(s1.round(rid).status is Complete));
        assert(s1.round(rid).status is Closed);
        assert(ops.drop_first() =~= draws_spec(rid, seeds.drop_first(), ts));
        lemma_exact_calls_drain(s1, rid, seeds.drop_first(), ts);
    }
}

/// Determinism: every operation's outcome is a function of the ledger and
/// the operation's inputs alone, so two runs from equal ledgers through the
/// same operations with the same timestamps and seeds end in equal ledgers.
pub proof fn lemma_deterministic(s1: StateView, s2: StateView, ops: Seq<OpView>)
    requires
        s1 == s2,
    ensures
        run_spec(s1, ops) == run_spec(s2, ops),
{
}

} // verus!
