//! The lottery ledger and its operations: round creation, ticket purchases,
//! closing, and winner draws. Every operation is a deterministic transition,
//! stated as a spec-level function and proved of the executable method.

use vstd::prelude::*;

use crate::pools::{
    compute_pool_counts, lemma_pool_counts_fit, pool1_count_spec, pool2_count_spec,
    pool3_count_spec, pool4_count_spec,
};
use crate::prize::calculate_prize_per_winner;
use crate::types::{
    AccountId, AppRef, LotteryError, LotteryRound, PurchaseView, RoundStatus, TicketPurchase,
    WinnerPool, WinningTicket,
};

verus! {

/// Mathematical model of the whole ledger: the four mappings and the two
/// scalar registers, with round `i + 1` stored at index `i` of each sequence.
#[verifier::ext_equal]
pub ghost struct StateView {
    /// Highest round id handed out so far.
    pub round_counter: u64,
    /// The round currently accepting purchases, if any.
    pub active_round: Option<u64>,
    /// The controller application allowed to record purchases, once linked.
    pub lottery_app_id: Option<AppRef>,
    /// Round records, in id order.
    pub rounds: Seq<LotteryRound>,
    /// Each round's purchases, in purchase order.
    pub ticket_purchases: Seq<Seq<PurchaseView>>,
    /// Each round's ticket index: the owner of ticket `t` sits at `t - 1`.
    pub ticket_to_owner: Seq<Seq<AccountId>>,
    /// Each round's recorded winners, in draw order.
    pub winning_tickets: Seq<Seq<WinningTicket>>,
}

impl StateView {
    /// Whether `rid` names a round that exists.
    pub open spec fn has_round(self, rid: u64) -> bool {
        1 <= rid <= self.rounds.len()
    }

    /// The stored record of round `rid`.
    pub open spec fn round(self, rid: u64) -> LotteryRound {
        self.rounds[rid - 1]
    }

    /// The purchases recorded for round `rid`.
    pub open spec fn purchases_of(self, rid: u64) -> Seq<PurchaseView> {
        self.ticket_purchases[rid - 1]
    }

    /// The ticket index of round `rid`.
    pub open spec fn owners_of(self, rid: u64) -> Seq<AccountId> {
        self.ticket_to_owner[rid - 1]
    }

    /// The winners recorded for round `rid`.
    pub open spec fn winners_of(self, rid: u64) -> Seq<WinningTicket> {
        self.winning_tickets[rid - 1]
    }

    /// Everything that must hold of the data of the round stored at index `i`.
    pub open spec fn round_data_wf(self, i: int) -> bool {
        &&& round_core_wf(self.rounds[i], i)
        &&& purchases_tile(self.rounds[i].total_tickets_sold, self.ticket_purchases[i])
        &&& self.ticket_to_owner[i].len() == self.rounds[i].total_tickets_sold
        &&& index_matches_purchases(self.ticket_purchases[i], self.ticket_to_owner[i])
        &&& winners_wf(self.rounds[i], self.winning_tickets[i], self.ticket_to_owner[i])
    }

    /// Well-formedness of the whole ledger: ids are dense, the four mappings
    /// agree in length, every round's data is well-formed, and the active
    /// pointer marks exactly the rounds in the `Active` state.
    pub open spec fn wf(self) -> bool {
        &&& self.rounds.len() == self.round_counter
        &&& self.ticket_purchases.len() == self.round_counter
        &&& self.ticket_to_owner.len() == self.round_counter
        &&& self.winning_tickets.len() == self.round_counter
        &&& forall|i: int| 0 <= i < self.rounds.len() ==> #[trigger] self.round_data_wf(i)
        &&& match self.active_round {
            Some(rid) => self.has_round(rid) && self.round(rid).status is Active,
            None => true,
        }
        &&& forall|i: int|
            0 <= i < self.rounds.len() && (#[trigger] self.rounds[i]).status is Active
                ==> self.active_round == Some((i + 1) as u64)
    }
}

/// A single purchase covers a non-empty range and counts it correctly.
pub open spec fn purchase_entry_wf(p: PurchaseView) -> bool {
    &&& 1 <= p.first_ticket <= p.last_ticket
    &&& p.total_tickets == p.last_ticket - p.first_ticket + 1
}

/// The purchase ranges of a round tile `[1, total]` in order: the first
/// starts at ticket one, each next starts right after the previous one ends,
/// and the last ends at the last ticket sold. No gaps, no overlaps.
pub open spec fn purchases_tile(total: u64, ps: Seq<PurchaseView>) -> bool {
    &&& forall|j: int| 0 <= j < ps.len() ==> purchase_entry_wf(#[trigger] ps[j])
    &&& forall|j: int| 0 <= j < ps.len() ==> (#[trigger] ps[j]).last_ticket <= total
    &&& (ps.len() == 0 ==> total == 0)
    &&& (ps.len() > 0 ==> ps[0].first_ticket == 1 && ps[ps.len() - 1].last_ticket == total)
    &&& forall|j: int|
        0 < j < ps.len() ==> (#[trigger] ps[j]).first_ticket == ps[j - 1].last_ticket + 1
}

/// Every ticket of every purchase is indexed to the purchase's owner.
pub open spec fn index_matches_purchases(ps: Seq<PurchaseView>, owners: Seq<AccountId>) -> bool {
    forall|j: int, t: int|
        #![trigger ps[j], owners[t - 1]]
        0 <= j < ps.len() && ps[j].first_ticket <= t <= ps[j].last_ticket ==> owners[t - 1]
            == ps[j].owner
}

/// Winners drawn so far over all four pools together.
pub open spec fn drawn_total(r: LotteryRound) -> int {
    r.pool1_winners_drawn + r.pool2_winners_drawn + r.pool3_winners_drawn + r.pool4_winners_drawn
}

/// Winner pools of a closed round together, as sized at close time.
pub open spec fn count_total(r: LotteryRound) -> int {
    r.pool1_count + r.pool2_count + r.pool3_count + r.pool4_count
}

/// The pool sizes a closed round carries are exactly the sizing formula
/// applied to its tickets sold.
pub open spec fn counts_sized(r: LotteryRound) -> bool {
    &&& r.pool1_count == pool1_count_spec(r.total_tickets_sold)
    &&& r.pool2_count == pool2_count_spec(r.total_tickets_sold)
    &&& r.pool3_count == pool3_count_spec(r.total_tickets_sold)
    &&& r.pool4_count == pool4_count_spec(r.total_tickets_sold)
}

/// Draw progress of a closed round: pools before the cursor are fully drawn,
/// the cursor pool still has a winner outstanding, pools after it are
/// untouched. A closed round's cursor never reads `Complete`; completing the
/// last pool also completes the round.
pub open spec fn cursor_progress(r: LotteryRound) -> bool {
    match r.current_winner_pool {
        WinnerPool::Pool1 => {
            &&& r.pool1_winners_drawn < r.pool1_count
            &&& r.pool2_winners_drawn == 0
            &&& r.pool3_winners_drawn == 0
            &&& r.pool4_winners_drawn == 0
        },
        WinnerPool::Pool2 => {
            &&& r.pool1_winners_drawn == r.pool1_count
            &&& r.pool2_winners_drawn < r.pool2_count
            &&& r.pool3_winners_drawn == 0
            &&& r.pool4_winners_drawn == 0
        },
        WinnerPool::Pool3 => {
            &&& r.pool1_winners_drawn == r.pool1_count
            &&& r.pool2_winners_drawn == r.pool2_count
            &&& r.pool3_winners_drawn < r.pool3_count
            &&& r.pool4_winners_drawn == 0
        },
        WinnerPool::Pool4 => {
            &&& r.pool1_winners_drawn == r.pool1_count
            &&& r.pool2_winners_drawn == r.pool2_count
            &&& r.pool3_winners_drawn == r.pool3_count
            &&& r.pool4_winners_drawn < r.pool4_count
        },
        WinnerPool::Complete => false,
    }
}

/// Everything that must hold of one round record, at its index in the ledger.
pub open spec fn round_core_wf(r: LotteryRound, idx: int) -> bool {
    &&& r.id == idx + 1
    &&& r.next_ticket_number == r.total_tickets_sold + 1
    &&& match r.status {
        RoundStatus::Active => {
            &&& r.pool1_count == 0
            &&& r.pool2_count == 0
            &&& r.pool3_count == 0
            &&& r.pool4_count == 0
            &&& r.pool1_winners_drawn == 0
            &&& r.pool2_winners_drawn == 0
            &&& r.pool3_winners_drawn == 0
            &&& r.pool4_winners_drawn == 0
            &&& r.current_winner_pool is Pool1
            &&& r.closed_at is None
        },
        RoundStatus::Closed => {
            &&& 4 <= r.total_tickets_sold
            &&& counts_sized(r)
            &&& cursor_progress(r)
            &&& r.closed_at is Some
        },
        RoundStatus::Complete => {
            &&& 4 <= r.total_tickets_sold
            &&& counts_sized(r)
            &&& r.current_winner_pool is Complete
            &&& r.pool1_winners_drawn == r.pool1_count
            &&& r.pool2_winners_drawn == r.pool2_count
            &&& r.pool3_winners_drawn == r.pool3_count
            &&& r.pool4_winners_drawn == r.pool4_count
            &&& r.closed_at is Some
        },
    }
}

/// The recorded winners of a round: one per drawn counter, every ticket sold
/// and never repeated, resolved to the indexed owner, created claimed.
pub open spec fn winners_wf(r: LotteryRound, ws: Seq<WinningTicket>, owners: Seq<AccountId>) -> bool {
    &&& ws.len() == drawn_total(r)
    &&& forall|j: int|
        0 <= j < ws.len() ==> 1 <= (#[trigger] ws[j]).ticket_number <= r.total_tickets_sold
    &&& forall|j: int, k: int|
        0 <= j < k < ws.len() ==> (#[trigger] ws[j]).ticket_number != (#[trigger] ws[k]).ticket_number
    &&& forall|j: int| 0 <= j < ws.len() ==> (#[trigger] ws[j]).claimed == true
    &&& forall|j: int|
        0 <= j < ws.len() ==> (#[trigger] ws[j]).owner == owners[ws[j].ticket_number - 1]
}

/// The least tickets a round must have sold before it can close.
pub const MIN_TICKETS_TO_CLOSE: u64 = 4;

/// Addition that sticks at the largest representable amount, as the prize
/// pool demands.
pub open spec fn sat_add_spec(a: u128, b: u128) -> u128 {
    if a + b > u128::MAX {
        u128::MAX
    } else {
        (a + b) as u128
    }
}

/// A freshly created round: all counters zero, tickets starting at one.
pub open spec fn new_round_spec(round_id: u64, ticket_price: u128, timestamp: u64) -> LotteryRound {
    LotteryRound {
        id: round_id,
        created_at: timestamp,
        closed_at: None,
        status: RoundStatus::Active,
        ticket_price,
        total_tickets_sold: 0,
        next_ticket_number: 1,
        prize_pool: 0,
        current_winner_pool: WinnerPool::Pool1,
        pool1_count: 0,
        pool2_count: 0,
        pool3_count: 0,
        pool4_count: 0,
        pool1_winners_drawn: 0,
        pool2_winners_drawn: 0,
        pool3_winners_drawn: 0,
        pool4_winners_drawn: 0,
    }
}

/// Creating a round: the next id is handed out, an all-zero `Active` round is
/// appended to every mapping, and the active pointer moves to it.
pub open spec fn create_spec(s: StateView, ticket_price: u128, timestamp: u64) -> (StateView, u64) {
    let rid = (s.round_counter + 1) as u64;
    (
        StateView {
            round_counter: rid,
            active_round: Some(rid),
            lottery_app_id: s.lottery_app_id,
            rounds: s.rounds.push(new_round_spec(rid, ticket_price, timestamp)),
            ticket_purchases: s.ticket_purchases.push(Seq::empty()),
            ticket_to_owner: s.ticket_to_owner.push(Seq::empty()),
            winning_tickets: s.winning_tickets.push(Seq::empty()),
        },
        rid,
    )
}

/// Creating a round from a well-formed ledger with no active round yields a
/// well-formed ledger again.
pub proof fn lemma_create_wf(s: StateView, ticket_price: u128, timestamp: u64)
    requires
        s.wf(),
        s.active_round is None,
        s.round_counter < u64::MAX,
    ensures
        create_spec(s, ticket_price, timestamp).0.wf(),
{
    let s2 = create_spec(s, ticket_price, timestamp).0;
    let n = s.rounds.len() as int;
    assert forall|i: int| 0 <= i < s2.rounds.len() implies #[trigger] s2.round_data_wf(i) by {
        if i < n {
            assert(s.round_data_wf(i));
            assert(s2.rounds[i] == s.rounds[i]);
            assert(s2.ticket_purchases[i] == s.ticket_purchases[i]);
            assert(s2.ticket_to_owner[i] == s.ticket_to_owner[i]);
            assert(s2.winning_tickets[i] == s.winning_tickets[i]);
        } else {
            assert(s2.rounds[i] == new_round_spec((s.round_counter + 1) as u64, ticket_price, timestamp));
        }
    }
    assert forall|i: int|
        0 <= i < s2.rounds.len() && (#[trigger] s2.rounds[i]).status is Active implies
        s2.active_round == Some((i + 1) as u64) by {
        if i < n {
            assert(s.rounds[i].status is Active ==> s.active_round == Some((i + 1) as u64));
        }
    }
}

/// The view of an optional source-chain label.
pub open spec fn opt_string_view(o: Option<String>) -> Option<Seq<char>> {
    match o {
        Some(s) => Some(s@),
        None => None,
    }
}

/// Recording a purchase against the active round: the paid amount buys
/// `floor(amount / ticket_price)` tickets, numbered contiguously from the
/// round's next ticket number; the index maps each of them to the buyer and
/// the amount is added, saturating, to the prize pool.
pub open spec fn record_spec(
    s: StateView,
    owner: AccountId,
    amount: u128,
    source_chain_id: Option<Seq<char>>,
) -> Result<(StateView, PurchaseView), LotteryError> {
    match s.active_round {
        None => Err(LotteryError::NoActiveRound),
        Some(rid) => if !s.has_round(rid) {
            Err(LotteryError::RoundNotFound)
        } else {
            let r = s.round(rid);
            if !(r.status is Active) {
                Err(LotteryError::RoundNotActive)
            } else if r.ticket_price == 0 {
                Err(LotteryError::InvalidTicketPrice)
            } else {
                let k = amount as int / r.ticket_price as int;
                if k == 0 {
                    Err(LotteryError::AmountTooSmall)
                } else {
                    let first = r.next_ticket_number;
                    let last = first + k - 1;
                    let pv = PurchaseView {
                        owner,
                        first_ticket: first,
                        last_ticket: last as u64,
                        total_tickets: k as u64,
                        amount_paid: amount,
                        source_chain_id,
                    };
                    let r2 = LotteryRound {
                        next_ticket_number: (last + 1) as u64,
                        total_tickets_sold: (r.total_tickets_sold + k) as u64,
                        prize_pool: sat_add_spec(r.prize_pool, amount),
                        ..r
                    };
                    let s2 = StateView {
                        rounds: s.rounds.update(rid - 1, r2),
                        ticket_purchases: s.ticket_purchases.update(
                            rid - 1,
                            s.ticket_purchases[rid - 1].push(pv),
                        ),
                        ticket_to_owner: s.ticket_to_owner.update(
                            rid - 1,
                            s.ticket_to_owner[rid - 1] + Seq::new(k as nat, |x: int| owner),
                        ),
                        ..s
                    };
                    Ok((s2, pv))
                }
            }
        },
    }
}

/// The machine bound a purchase must respect: the tickets bought must leave
/// the round's ticket counters below the largest 64-bit value.
pub open spec fn round_record_fits(r: LotteryRound, amount: u128) -> bool {
    (r.status is Active && r.ticket_price > 0) ==> r.total_tickets_sold + (amount as int
        / r.ticket_price as int) < u64::MAX
}

pub open spec fn record_fits(s: StateView, amount: u128) -> bool {
    match s.active_round {
        Some(rid) => s.has_round(rid) ==> round_record_fits(s.round(rid), amount),
        None => true,
    }
}

/// A successful purchase against a well-formed ledger leaves it well-formed.
pub proof fn lemma_record_wf(
    s: StateView,
    owner: AccountId,
    amount: u128,
    source_chain_id: Option<Seq<char>>,
)
    requires
        s.wf(),
        record_fits(s, amount),
        record_spec(s, owner, amount, source_chain_id) is Ok,
    ensures
        record_spec(s, owner, amount, source_chain_id)->Ok_0.0.wf(),
{
    let rid = s.active_round->0;
    let i = rid - 1;
    let r = s.round(rid);
    let k = amount as int / r.ticket_price as int;
    let (s2, pv) = record_spec(s, owner, amount, source_chain_id)->Ok_0;
    assert(s.round_data_wf(i));
    let ps = s.ticket_purchases[i];
    let ps2 = s2.ticket_purchases[i];
    let os = s.ticket_to_owner[i];
    let os2 = s2.ticket_to_owner[i];
    assert forall|j: int| 0 <= j < s2.rounds.len() implies #[trigger] s2.round_data_wf(j) by {
        assert(s.round_data_wf(j));
        if j == i {
            let r2 = s2.rounds[i];
            assert(purchases_tile(r2.total_tickets_sold, ps2)) by {
                assert(forall|j2: int| 0 <= j2 < ps.len() ==> ps2[j2] == ps[j2]);
                assert(ps2[ps.len() as int] == pv);
            }
            assert(os2.len() == r2.total_tickets_sold);
            assert(index_matches_purchases(ps2, os2)) by {
                assert forall|j2: int, t: int|
                    #![trigger ps2[j2], os2[t - 1]]
                    0 <= j2 < ps2.len() && ps2[j2].first_ticket <= t <= ps2[j2].last_ticket implies
                    os2[t - 1] == ps2[j2].owner by {
                    if j2 < ps.len() {
                        assert(ps2[j2] == ps[j2]);
                        assert(t - 1 < os.len());
                        assert(os2[t - 1] == os[t - 1]);
                    } else {
                        assert(ps2[j2] == pv);
                        assert(os2[t - 1] == owner);
                    }
                }
            }
            assert(winners_wf(s2.rounds[i], s2.winning_tickets[i], os2)) by {
                assert(s2.winning_tickets[i].len() == 0);
            }
        } else {
            assert(s2.rounds[j] == s.rounds[j]);
            assert(s2.ticket_purchases[j] == s.ticket_purchases[j]);
            assert(s2.ticket_to_owner[j] == s.ticket_to_owner[j]);
            assert(s2.winning_tickets[j] == s.winning_tickets[j]);
        }
    }
    assert forall|j: int|
        0 <= j < s2.rounds.len() && (#[trigger] s2.rounds[j]).status is Active implies
        s2.active_round == Some((j + 1) as u64) by {
        if j != i {
            assert(s2.rounds[j] == s.rounds[j]);
        }
    }
}

/// Closing the active round: possible only once at least four tickets were
/// sold. The four pools are sized from the tickets sold, the status moves to
/// `Closed`, and the active pointer is cleared.
pub open spec fn close_spec(s: StateView, timestamp: u64) -> Result<(StateView, u64), LotteryError> {
    match s.active_round {
        None => Err(LotteryError::NoActiveRound),
        Some(rid) => if !s.has_round(rid) {
            Err(LotteryError::RoundNotFound)
        } else {
            let r = s.round(rid);
            if !(r.status is Active) {
                Err(LotteryError::RoundNotActive)
            } else if r.total_tickets_sold < MIN_TICKETS_TO_CLOSE {
                Err(LotteryError::InsufficientTickets)
            } else {
                let t = r.total_tickets_sold;
                let r2 = LotteryRound {
                    status: RoundStatus::Closed,
                    closed_at: Some(timestamp),
                    current_winner_pool: WinnerPool::Pool1,
                    pool1_count: pool1_count_spec(t) as u64,
                    pool2_count: pool2_count_spec(t) as u64,
                    pool3_count: pool3_count_spec(t) as u64,
                    pool4_count: pool4_count_spec(t) as u64,
                    ..r
                };
                let s2 = StateView {
                    active_round: None,
                    rounds: s.rounds.update(rid - 1, r2),
                    ..s
                };
                Ok((s2, rid))
            }
        },
    }
}

/// Closing a well-formed ledger's active round leaves the ledger well-formed.
pub proof fn lemma_close_wf(s: StateView, timestamp: u64)
    requires
        s.wf(),
        close_spec(s, timestamp) is Ok,
    ensures
        close_spec(s, timestamp)->Ok_0.0.wf(),
{
    let rid = s.active_round->0;
    let i = rid - 1;
    let r = s.round(rid);
    let s2 = close_spec(s, timestamp)->Ok_0.0;
    assert(s.round_data_wf(i));
    lemma_pool_counts_fit(r.total_tickets_sold);
    assert forall|j: int| 0 <= j < s2.rounds.len() implies #[trigger] s2.round_data_wf(j) by {
        assert(s.round_data_wf(j));
        if j != i {
            assert(s2.rounds[j] == s.rounds[j]);
        }
    }
    assert forall|j: int|
        0 <= j < s2.rounds.len() && (#[trigger] s2.rounds[j]).status is Active implies
        s2.active_round == Some((j + 1) as u64) by {
        if j != i {
            assert(s2.rounds[j] == s.rounds[j]);
            assert(s.active_round == Some((j + 1) as u64));
        }
    }
}

/// What a successful draw hands back: round id, winning ticket number, its
/// owner, the prize owed, and whether a successor round was created.
pub type DrawOutcome = (u64, u64, AccountId, u128, bool);

/// The candidate ticket for one attempt: the seed plus the attempt number,
/// wrapped to 64 bits, reduced modulo the tickets sold, one-based.
pub open spec fn candidate_spec(seed: u64, attempt: int, total: u64) -> u64
    recommends
        total > 0,
{
    ((((seed + attempt) % 0x1_0000_0000_0000_0000) % (total as int)) + 1) as u64
}

/// The ticket numbers already recorded as winners.
pub open spec fn drawn_ticket_set(ws: Seq<WinningTicket>) -> Set<int> {
    ws.map_values(|w: WinningTicket| w.ticket_number as int).to_set()
}

/// The first candidate from `attempt` on that has not won yet, giving up
/// after twice the tickets sold.
pub open spec fn search_spec(seed: u64, total: u64, ws: Seq<WinningTicket>, attempt: int) -> Option<
    u64,
>
    recommends
        total > 0,
        0 <= attempt,
    decreases 2 * total - attempt,
{
    if attempt < 0 || attempt >= 2 * total {
        None
    } else {
        let t = candidate_spec(seed, attempt, total);
        if drawn_ticket_set(ws).contains(t as int) {
            search_spec(seed, total, ws, attempt + 1)
        } else {
            Some(t)
        }
    }
}

/// A found candidate is a real ticket of the round and has not won before.
pub proof fn lemma_search_props(seed: u64, total: u64, ws: Seq<WinningTicket>, attempt: int)
    requires
        total > 0,
        0 <= attempt,
        search_spec(seed, total, ws, attempt) is Some,
    ensures
        1 <= search_spec(seed, total, ws, attempt)->0 <= total,
        !drawn_ticket_set(ws).contains(search_spec(seed, total, ws, attempt)->0 as int),
    decreases 2 * total - attempt,
{
    let t = candidate_spec(seed, attempt, total);
    if drawn_ticket_set(ws).contains(t as int) {
        lemma_search_props(seed, total, ws, attempt + 1);
    }
}

/// When the search gives up, every candidate within the attempt bound was
/// already drawn.
proof fn lemma_search_none(seed: u64, total: u64, ws: Seq<WinningTicket>, attempt: int)
    requires
        total > 0,
        0 <= attempt,
        search_spec(seed, total, ws, attempt) is None,
    ensures
        forall|a: int|
            attempt <= a < 2 * total ==> drawn_ticket_set(ws).contains(
                #[trigger] candidate_spec(seed, a, total) as int,
            ),
    decreases 2 * total - attempt,
{
    if attempt < 2 * total {
        lemma_search_none(seed, total, ws, attempt + 1);
        assert(drawn_ticket_set(ws).contains(candidate_spec(seed, attempt, total) as int));
    }
}

/// For every ticket of the round some attempt within twice the tickets sold
/// produces exactly that ticket: a window of `total` consecutive attempt
/// values avoids the 64-bit wrap, and such a window covers all residues.
proof fn lemma_candidate_hits(seed: u64, total: u64, t0: u64)
    requires
        total > 0,
        1 <= t0 <= total,
    ensures
        exists|a: int| 0 <= a < 2 * total && candidate_spec(seed, a, total) == t0,
{
    let m: int = 0x1_0000_0000_0000_0000;
    let t = total as int;
    let target = t0 - 1;
    vstd::arithmetic::div_mod::lemma_mod_bound(target - seed, t);
    vstd::arithmetic::div_mod::lemma_small_mod(target as nat, t as nat);
    if seed + t <= m {
        let a = (target - seed) % t;
        assert(0 <= a < t);
        assert(seed + a < m);
        vstd::arithmetic::div_mod::lemma_small_mod((seed + a) as nat, m as nat);
        assert((seed + a) % m == seed + a);
        vstd::arithmetic::div_mod::lemma_add_mod_noop_right(seed as int, target - seed, t);
        assert((seed + a) % t == (seed + (target - seed)) % t);
        assert((seed + a) % t == target);
        assert(candidate_spec(seed, a, total) == t0);
        assert(0 <= a < 2 * total);
    } else {
        let a = (m - seed) + target;
        assert(0 <= a < 2 * t);
        assert(seed + a == m + target);
        vstd::arithmetic::div_mod::lemma_mod_multiples_vanish(1, target as int, m);
        assert((m + target) % m == target % m);
        vstd::arithmetic::div_mod::lemma_small_mod(target as nat, m as nat);
        assert((seed + a) % m == target);
        assert(candidate_spec(seed, a, total) == t0);
    }
}

/// A round whose winner list is shorter than its ticket count still has a
/// ticket that has not won.
proof fn lemma_free_ticket_exists(total: u64, ws: Seq<WinningTicket>)
    requires
        ws.len() < total,
    ensures
        exists|x: int| 1 <= x <= total && !drawn_ticket_set(ws).contains(x),
{
    broadcast use vstd::seq_lib::seq_to_set_is_finite;

    if !(exists|x: int| 1 <= x <= total && !drawn_ticket_set(ws).contains(x)) {
        let mapped = ws.map_values(|w: WinningTicket| w.ticket_number as int);
        let range = vstd::set_lib::set_int_range(1, total as int + 1);
        vstd::set_lib::lemma_int_range(1, total as int + 1);
        assert(range.subset_of(drawn_ticket_set(ws)));
        mapped.lemma_cardinality_of_set();
        vstd::set_lib::lemma_len_subset(range, drawn_ticket_set(ws));
        assert(false);
    }
}

/// Whenever fewer winners are recorded than tickets were sold, the bounded
/// search is guaranteed to find a free ticket.
pub proof fn lemma_search_succeeds(seed: u64, total: u64, ws: Seq<WinningTicket>)
    requires
        total > 0,
        ws.len() < total,
    ensures
        search_spec(seed, total, ws, 0) is Some,
{
    if search_spec(seed, total, ws, 0) is None {
        lemma_search_none(seed, total, ws, 0);
        lemma_free_ticket_exists(total, ws);
        let x = choose|x: int| 1 <= x <= total && !drawn_ticket_set(ws).contains(x);
        lemma_candidate_hits(seed, total, x as u64);
        let a = choose|a: int| 0 <= a < 2 * total && candidate_spec(seed, a, total) == x as u64;
        assert(drawn_ticket_set(ws).contains(candidate_spec(seed, a, total) as int));
        assert(false);
    }
}

/// The capacity of the pool the cursor points at.
pub open spec fn cursor_count(r: LotteryRound) -> u64 {
    match r.current_winner_pool {
        WinnerPool::Pool1 => r.pool1_count,
        WinnerPool::Pool2 => r.pool2_count,
        WinnerPool::Pool3 => r.pool3_count,
        WinnerPool::Pool4 => r.pool4_count,
        WinnerPool::Complete => 0,
    }
}

/// The winners drawn so far in the pool the cursor points at.
pub open spec fn cursor_drawn(r: LotteryRound) -> u64 {
    match r.current_winner_pool {
        WinnerPool::Pool1 => r.pool1_winners_drawn,
        WinnerPool::Pool2 => r.pool2_winners_drawn,
        WinnerPool::Pool3 => r.pool3_winners_drawn,
        WinnerPool::Pool4 => r.pool4_winners_drawn,
        WinnerPool::Complete => 0,
    }
}

/// One more winner drawn in the cursor's pool.
pub open spec fn bump_drawn_spec(r: LotteryRound) -> LotteryRound {
    match r.current_winner_pool {
        WinnerPool::Pool1 => LotteryRound {
            pool1_winners_drawn: (r.pool1_winners_drawn + 1) as u64,
            ..r
        },
        WinnerPool::Pool2 => LotteryRound {
            pool2_winners_drawn: (r.pool2_winners_drawn + 1) as u64,
            ..r
        },
        WinnerPool::Pool3 => LotteryRound {
            pool3_winners_drawn: (r.pool3_winners_drawn + 1) as u64,
            ..r
        },
        WinnerPool::Pool4 => LotteryRound {
            pool4_winners_drawn: (r.pool4_winners_drawn + 1) as u64,
            ..r
        },
        WinnerPool::Complete => r,
    }
}

/// The cursor moves to the next pool; leaving the fourth pool completes the
/// round.
pub open spec fn advance_pool_spec(r: LotteryRound) -> LotteryRound {
    match r.current_winner_pool {
        WinnerPool::Pool1 => LotteryRound { current_winner_pool: WinnerPool::Pool2, ..r },
        WinnerPool::Pool2 => LotteryRound { current_winner_pool: WinnerPool::Pool3, ..r },
        WinnerPool::Pool3 => LotteryRound { current_winner_pool: WinnerPool::Pool4, ..r },
        WinnerPool::Pool4 => LotteryRound {
            current_winner_pool: WinnerPool::Complete,
            status: RoundStatus::Complete,
            ..r
        },
        WinnerPool::Complete => r,
    }
}

/// One draw against a closed round: the first undrawn candidate derived from
/// the seed wins the current pool's per-winner prize; the pool's counter
/// advances, a finished pool moves the cursor on, and finishing the fourth
/// pool completes the round and creates the successor round with the same
/// ticket price.
pub open spec fn draw_spec(s: StateView, vrf_value: u64, rid: u64, timestamp: u64) -> Result<
    (StateView, DrawOutcome),
    LotteryError,
> {
    if !s.has_round(rid) {
        Err(LotteryError::RoundNotFound)
    } else {
        let r = s.round(rid);
        if !(r.status is Closed) {
            Err(LotteryError::RoundNotClosed)
        } else if r.current_winner_pool is Complete {
            Err(LotteryError::AllWinnersDrawn)
        } else if cursor_drawn(r) >= cursor_count(r) {
            Err(LotteryError::PoolAlreadyComplete)
        } else {
            let ws = s.winners_of(rid);
            match search_spec(vrf_value, r.total_tickets_sold, ws, 0) {
                None => Err(LotteryError::WinnerSelectionExhausted),
                Some(ticket) => if !(1 <= ticket <= s.owners_of(rid).len()) {
                    Err(LotteryError::TicketOwnerMissing)
                } else {
                    let owner = s.owners_of(rid)[ticket - 1];
                    let prize = crate::prize::prize_per_winner_spec(
                        r.prize_pool,
                        r.current_winner_pool,
                        cursor_count(r),
                    ) as u128;
                    let w = WinningTicket { ticket_number: ticket, owner, prize_amount: prize, claimed: true };
                    let r1 = bump_drawn_spec(r);
                    let completed = cursor_drawn(r1) >= cursor_count(r1);
                    let r2 = if completed {
                        advance_pool_spec(r1)
                    } else {
                        r1
                    };
                    let s1 = StateView {
                        rounds: s.rounds.update(rid - 1, r2),
                        winning_tickets: s.winning_tickets.update(rid - 1, ws.push(w)),
                        ..s
                    };
                    if r2.status is Complete {
                        Ok(
                            (
                                create_spec(s1, r.ticket_price, timestamp).0,
                                (rid, ticket, owner, prize, true),
                            ),
                        )
                    } else {
                        Ok((s1, (rid, ticket, owner, prize, false)))
                    }
                },
            }
        }
    }
}

/// The intermediate ledger of a successful draw, before any successor round.
pub open spec fn draw_mid_state(s: StateView, vrf_value: u64, rid: u64) -> StateView {
    let r = s.round(rid);
    let ws = s.winners_of(rid);
    let ticket = search_spec(vrf_value, r.total_tickets_sold, ws, 0)->0;
    let owner = s.owners_of(rid)[ticket - 1];
    let prize = crate::prize::prize_per_winner_spec(
        r.prize_pool,
        r.current_winner_pool,
        cursor_count(r),
    ) as u128;
    let w = WinningTicket { ticket_number: ticket, owner, prize_amount: prize, claimed: true };
    let r1 = bump_drawn_spec(r);
    let r2 = if cursor_drawn(r1) >= cursor_count(r1) {
        advance_pool_spec(r1)
    } else {
        r1
    };
    StateView {
        rounds: s.rounds.update(rid - 1, r2),
        winning_tickets: s.winning_tickets.update(rid - 1, ws.push(w)),
        ..s
    }
}

/// A successful draw leaves the ledger well-formed just before the successor
/// round is considered.
pub proof fn lemma_draw_mid_wf(s: StateView, vrf_value: u64, rid: u64, timestamp: u64)
    requires
        s.wf(),
        draw_spec(s, vrf_value, rid, timestamp) is Ok,
    ensures
        draw_mid_state(s, vrf_value, rid).wf(),
{
    let i = rid - 1;
    let r = s.round(rid);
    let ws = s.winners_of(rid);
    let os = s.owners_of(rid);
    assert(s.round_data_wf(i));
    let total = r.total_tickets_sold;
    lemma_search_props(vrf_value, total, ws, 0);
    let ticket = search_spec(vrf_value, total, ws, 0)->0;
    let s2 = draw_mid_state(s, vrf_value, rid);
    let r2 = s2.rounds[i];
    let ws2 = s2.winning_tickets[i];
    lemma_pool_counts_fit(total);
    assert forall|j: int| 0 <= j < s2.rounds.len() implies #[trigger] s2.round_data_wf(j) by {
        assert(s.round_data_wf(j));
        if j == i {
            assert(round_core_wf(r2, i));
            assert(winners_wf(r2, ws2, os)) by {
                assert(forall|j2: int| 0 <= j2 < ws.len() ==> ws2[j2] == ws[j2]);
                assert(ws2[ws.len() as int].ticket_number == ticket);
                assert forall|j2: int, k2: int| 0 <= j2 < k2 < ws2.len() implies (
                #[trigger] ws2[j2]).ticket_number != (#[trigger] ws2[k2]).ticket_number by {
                    if k2 == ws.len() {
                        let mapped = ws.map_values(|w: WinningTicket| w.ticket_number as int);
                        assert(mapped[j2] == ws[j2].ticket_number as int);
                        assert(mapped.contains(ws[j2].ticket_number as int));
                        assert(drawn_ticket_set(ws).contains(ws[j2].ticket_number as int));
                    }
                }
            }
        } else {
            assert(s2.rounds[j] == s.rounds[j]);
            assert(s2.ticket_purchases[j] == s.ticket_purchases[j]);
            assert(s2.ticket_to_owner[j] == s.ticket_to_owner[j]);
            assert(s2.winning_tickets[j] == s.winning_tickets[j]);
        }
    }
    assert forall|j: int|
        0 <= j < s2.rounds.len() && (#[trigger] s2.rounds[j]).status is Active implies
        s2.active_round == Some((j + 1) as u64) by {
        if j != i {
            assert(s2.rounds[j] == s.rounds[j]);
        }
    }
}

/// The persisted lottery ledger: four mappings and two scalar registers.
/// Round `i + 1`'s data lives at index `i` of each of the four vectors.
#[derive(PartialEq, Debug)]
pub struct LotteryRoundsState {
    /// Counter for generating unique round ids.
    pub round_counter: u64,
    /// The currently active round, accepting ticket purchases.
    pub active_round: Option<u64>,
    /// The controller application allowed to record purchases, once linked.
    pub lottery_app_id: Option<AppRef>,
    /// All lottery rounds, in id order.
    pub rounds: Vec<LotteryRound>,
    /// Ticket purchases per round, in purchase order.
    pub ticket_purchases: Vec<Vec<TicketPurchase>>,
    /// Mapping from ticket number to owner, per round.
    pub ticket_to_owner: Vec<Vec<AccountId>>,
    /// Winning tickets with prize info, per round, in draw order.
    pub winning_tickets: Vec<Vec<WinningTicket>>,
}

impl View for LotteryRoundsState {
    type V = StateView;

    open spec fn view(&self) -> StateView {
        StateView {
            round_counter: self.round_counter,
            active_round: self.active_round,
            lottery_app_id: self.lottery_app_id,
            rounds: self.rounds@,
            ticket_purchases: self.ticket_purchases@.map_values(
                |v: Vec<TicketPurchase>| v@.map_values(|p: TicketPurchase| p@),
            ),
            ticket_to_owner: self.ticket_to_owner@.map_values(|v: Vec<AccountId>| v@),
            winning_tickets: self.winning_tickets@.map_values(|v: Vec<WinningTicket>| v@),
        }
    }
}

impl LotteryRoundsState {
    /// An empty ledger: no rounds yet, nothing active, no controller linked.
    pub fn new() -> (s: Self)
        ensures
            s@.wf(),
            s@.round_counter == 0,
            s@.active_round is None,
            s@.lottery_app_id is None,
            s@.rounds.len() == 0,
    {
        LotteryRoundsState {
            round_counter: 0,
            active_round: None,
            lottery_app_id: None,
            rounds: Vec::new(),
            ticket_purchases: Vec::new(),
            ticket_to_owner: Vec::new(),
            winning_tickets: Vec::new(),
        }
    }

    /// Link the controller application allowed to record purchases.
    pub fn set_lottery_app_id(&mut self, app: AppRef)
        ensures
            final(self)@ == (StateView { lottery_app_id: Some(app), ..old(self)@ }),
            old(self)@.wf() ==> final(self)@.wf(),
    {
        self.lottery_app_id = Some(app);
        proof {
            assert forall|i: int|
                0 <= i < self@.rounds.len() && old(self)@.round_data_wf(i) implies
                self@.round_data_wf(i) by {}
        }
    }

    /// Creates a new lottery round with the given ticket price, hands out the
    /// next round id and points the active pointer at it.
    pub fn create_lottery_round(&mut self, ticket_price: u128, timestamp: u64) -> (r: Result<
        u64,
        LotteryError,
    >)
        requires
            old(self)@.wf(),
            old(self)@.active_round is None,
            old(self)@.round_counter < u64::MAX,
        ensures
            final(self)@.wf(),
            r == Ok::<u64, LotteryError>((old(self)@.round_counter + 1) as u64),
            final(self)@ == create_spec(old(self)@, ticket_price, timestamp).0,
    {
        let round_id = self.round_counter + 1;
        self.round_counter = round_id;
        let round = LotteryRound {
            id: round_id,
            created_at: timestamp,
            closed_at: None,
            status: RoundStatus::Active,
            ticket_price,
            total_tickets_sold: 0,
            next_ticket_number: 1,
            prize_pool: 0,
            current_winner_pool: WinnerPool::Pool1,
            pool1_count: 0,
            pool2_count: 0,
            pool3_count: 0,
            pool4_count: 0,
            pool1_winners_drawn: 0,
            pool2_winners_drawn: 0,
            pool3_winners_drawn: 0,
            pool4_winners_drawn: 0,
        };
        self.rounds.push(round);
        self.ticket_purchases.push(Vec::new());
        self.ticket_to_owner.push(Vec::new());
        self.winning_tickets.push(Vec::new());
        self.active_round = Some(round_id);
        proof {
            let (target, _) = create_spec(old(self)@, ticket_price, timestamp);
            assert(self@.ticket_purchases =~~= target.ticket_purchases);
            assert(self@.ticket_to_owner =~~= target.ticket_to_owner);
            assert(self@.winning_tickets =~~= target.winning_tickets);
            assert(self@.rounds =~= target.rounds);
            assert(self@ =~~= target);
            lemma_create_wf(old(self)@, ticket_price, timestamp);
        }
        Ok(round_id)
    }

    /// Record a ticket purchase against the active round, called by the
    /// controller after escrow confirmed the funds. Validates the amount
    /// against the ticket price, issues a contiguous block of tickets, and
    /// indexes each of them to the buyer.
    pub fn record_ticket_purchase(
        &mut self,
        owner: AccountId,
        amount: u128,
        source_chain_id: Option<String>,
    ) -> (r: Result<TicketPurchase, LotteryError>)
        requires
            old(self)@.wf(),
            record_fits(old(self)@, amount),
        ensures
            final(self)@.wf(),
            match r {
                Ok(p) => {
                    &&& record_spec(old(self)@, owner, amount, opt_string_view(source_chain_id))
                        is Ok
                    &&& p@ == record_spec(
                        old(self)@,
                        owner,
                        amount,
                        opt_string_view(source_chain_id),
                    )->Ok_0.1
                    &&& final(self)@ == record_spec(
                        old(self)@,
                        owner,
                        amount,
                        opt_string_view(source_chain_id),
                    )->Ok_0.0
                },
                Err(e) => {
                    &&& record_spec(old(self)@, owner, amount, opt_string_view(source_chain_id))
                        == Err::<(StateView, PurchaseView), LotteryError>(e)
                    &&& final(self)@ == old(self)@
                },
            },
    {
        let ghost src = opt_string_view(source_chain_id);
        match self.active_round {
            None => Err(LotteryError::NoActiveRound),
            Some(round_id) => {
                if round_id == 0 || round_id > self.rounds.len() as u64 {
                    return Err(LotteryError::RoundNotFound);
                }
                let idx = (round_id - 1) as usize;
                proof {
                    assert(old(self)@.round_data_wf(idx as int));
                }
                let round = self.rounds[idx];
                if round.status != RoundStatus::Active {
                    return Err(LotteryError::RoundNotActive);
                }
                if round.ticket_price == 0 {
                    return Err(LotteryError::InvalidTicketPrice);
                }
                let ticket_count = amount / round.ticket_price;
                if ticket_count == 0 {
                    return Err(LotteryError::AmountTooSmall);
                }
                let ticket_count_u64 = ticket_count as u64;
                let first_ticket = round.next_ticket_number;
                let last_ticket = first_ticket + ticket_count_u64 - 1;
                let purchase = TicketPurchase {
                    owner,
                    first_ticket,
                    last_ticket,
                    total_tickets: ticket_count_u64,
                    amount_paid: amount,
                    source_chain_id,
                };
                let result = purchase.clone();
                let ghost pv = purchase@;
                self.ticket_purchases[idx].push(purchase);
                proof {
                    assert(self@.ticket_purchases =~~= old(self)@.ticket_purchases.update(
                        idx as int,
                        old(self)@.ticket_purchases[idx as int].push(pv),
                    ));
                    assert(old(self)@.ticket_to_owner[idx as int] + Seq::new(
                        0nat,
                        |x: int| owner,
                    ) =~= old(self)@.ticket_to_owner[idx as int]);
                    assert(self@.ticket_to_owner =~~= old(self)@.ticket_to_owner.update(
                        idx as int,
                        old(self)@.ticket_to_owner[idx as int] + Seq::new(0nat, |x: int| owner),
                    ));
                }
                let mut i: u64 = 0;
                while i < ticket_count_u64
                    invariant
                        i <= ticket_count_u64,
                        old(self)@.wf(),
                        idx < old(self)@.rounds.len(),
                        idx < self.ticket_to_owner@.len(),
                        self@.round_counter == old(self)@.round_counter,
                        self@.active_round == old(self)@.active_round,
                        self@.lottery_app_id == old(self)@.lottery_app_id,
                        self@.rounds == old(self)@.rounds,
                        self@.ticket_purchases == old(self)@.ticket_purchases.update(
                            idx as int,
                            old(self)@.ticket_purchases[idx as int].push(pv),
                        ),
                        self@.winning_tickets == old(self)@.winning_tickets,
                        self@.ticket_to_owner == old(self)@.ticket_to_owner.update(
                            idx as int,
                            old(self)@.ticket_to_owner[idx as int] + Seq::new(
                                i as nat,
                                |x: int| owner,
                            ),
                        ),
                    decreases ticket_count_u64 - i,
                {
                    let ghost mid = self@;
                    self.ticket_to_owner[idx].push(owner);
                    i = i + 1;
                    proof {
                        let o = old(self)@.ticket_to_owner[idx as int];
                        assert(self@.ticket_to_owner =~~= mid.ticket_to_owner.update(
                            idx as int,
                            mid.ticket_to_owner[idx as int].push(owner),
                        ));
                        assert(mid.ticket_to_owner[idx as int] =~= o + Seq::new(
                            (i - 1) as nat,
                            |x: int| owner,
                        ));
                        assert(mid.ticket_to_owner[idx as int].push(owner) =~= o + Seq::new(
                            i as nat,
                            |x: int| owner,
                        ));
                        assert(self@.ticket_to_owner =~~= old(self)@.ticket_to_owner.update(
                            idx as int,
                            o + Seq::new(i as nat, |x: int| owner),
                        ));
                    }
                }
                let updated_round = LotteryRound {
                    next_ticket_number: last_ticket + 1,
                    total_tickets_sold: round.total_tickets_sold + ticket_count_u64,
                    prize_pool: sat_add(round.prize_pool, amount),
                    ..round
                };
                self.rounds[idx] = updated_round;
                proof {
                    let target = record_spec(old(self)@, owner, amount, src)->Ok_0.0;
                    assert(self@.rounds =~= target.rounds);
                    assert(self@.ticket_purchases =~~= target.ticket_purchases);
                    assert(self@.ticket_to_owner =~~= target.ticket_to_owner);
                    assert(self@.winning_tickets =~~= target.winning_tickets);
                    assert(self@ =~~= target);
                    lemma_record_wf(old(self)@, owner, amount, src);
                }
                Ok(result)
            },
        }
    }

    /// Close the active lottery round: needs at least four tickets sold,
    /// sizes the four winner pools, and stops further purchases.
    pub fn close_lottery_round(&mut self, timestamp: u64) -> (r: Result<u64, LotteryError>)
        requires
            old(self)@.wf(),
        ensures
            final(self)@.wf(),
            match r {
                Ok(rid) => {
                    &&& close_spec(old(self)@, timestamp) is Ok
                    &&& rid == close_spec(old(self)@, timestamp)->Ok_0.1
                    &&& final(self)@ == close_spec(old(self)@, timestamp)->Ok_0.0
                },
                Err(e) => {
                    &&& close_spec(old(self)@, timestamp) == Err::<(StateView, u64), LotteryError>(
                        e,
                    )
                    &&& final(self)@ == old(self)@
                },
            },
    {
        match self.active_round {
            None => Err(LotteryError::NoActiveRound),
            Some(round_id) => {
                if round_id == 0 || round_id > self.rounds.len() as u64 {
                    return Err(LotteryError::RoundNotFound);
                }
                let idx = (round_id - 1) as usize;
                proof {
                    assert(old(self)@.round_data_wf(idx as int));
                }
                let round = self.rounds[idx];
                if round.status != RoundStatus::Active {
                    return Err(LotteryError::RoundNotActive);
                }
                if round.total_tickets_sold < MIN_TICKETS_TO_CLOSE {
                    return Err(LotteryError::InsufficientTickets);
                }
                let (c1, c2, c3, c4) = compute_pool_counts(round.total_tickets_sold);
                let updated_round = LotteryRound {
                    status: RoundStatus::Closed,
                    closed_at: Some(timestamp),
                    current_winner_pool: WinnerPool::Pool1,
                    pool1_count: c1,
                    pool2_count: c2,
                    pool3_count: c3,
                    pool4_count: c4,
                    ..round
                };
                self.rounds[idx] = updated_round;
                self.active_round = None;
                proof {
                    let target = close_spec(old(self)@, timestamp)->Ok_0.0;
                    assert(self@.rounds =~= target.rounds);
                    assert(self@ =~~= target);
                    lemma_close_wf(old(self)@, timestamp);
                }
                Ok(round_id)
            },
        }
    }

    /// Draw one winner for a closed round from an externally supplied seed.
    /// Records the winning ticket with its prize, advances the pool cursor,
    /// and on completing the last pool marks the round `Complete` and creates
    /// the successor round with the same ticket price.
    #[verifier::rlimit(100)]
    pub fn generate_winner(
        &mut self,
        vrf_value: u64,
        round_id: u64,
        current_timestamp: u64,
    ) -> (r: Result<DrawOutcome, LotteryError>)
        requires
            old(self)@.wf(),
            old(self)@.active_round is None,
            old(self)@.round_counter < u64::MAX,
        ensures
            final(self)@.wf(),
            old(self)@.has_round(round_id) && old(self)@.round(round_id).status is Closed ==> r
                is Ok,
            match r {
                Ok(out) => {
                    &&& draw_spec(old(self)@, vrf_value, round_id, current_timestamp) is Ok
                    &&& out == draw_spec(old(self)@, vrf_value, round_id, current_timestamp)->Ok_0.1
                    &&& final(self)@ == draw_spec(
                        old(self)@,
                        vrf_value,
                        round_id,
                        current_timestamp,
                    )->Ok_0.0
                },
                Err(e) => {
                    &&& draw_spec(old(self)@, vrf_value, round_id, current_timestamp) == Err::<
                        (StateView, DrawOutcome),
                        LotteryError,
                    >(e)
                    &&& final(self)@ == old(self)@
                },
            },
    {
        if round_id == 0 || round_id > self.rounds.len() as u64 {
            return Err(LotteryError::RoundNotFound);
        }
        let idx = (round_id - 1) as usize;
        proof {
            assert(old(self)@.round_data_wf(idx as int));
        }
        let round = self.rounds[idx];
        if round.status != RoundStatus::Closed {
            return Err(LotteryError::RoundNotClosed);
        }
        let (winners_count, winners_drawn) = match round.current_winner_pool {
            WinnerPool::Pool1 => (round.pool1_count, round.pool1_winners_drawn),
            WinnerPool::Pool2 => (round.pool2_count, round.pool2_winners_drawn),
            WinnerPool::Pool3 => (round.pool3_count, round.pool3_winners_drawn),
            WinnerPool::Pool4 => (round.pool4_count, round.pool4_winners_drawn),
            WinnerPool::Complete => {
                return Err(LotteryError::AllWinnersDrawn);
            },
        };
        if winners_drawn >= winners_count {
            return Err(LotteryError::PoolAlreadyComplete);
        }
        let total = round.total_tickets_sold;
        let ghost ws = old(self)@.winners_of(round_id);
        let max_attempts: u128 = (total as u128) * 2;
        let mut attempts: u128 = 0;
        let mut found = false;
        let mut selected_ticket: u64 = 0;
        while attempts < max_attempts && !found
            invariant
                old(self)@.wf(),
                idx < old(self)@.rounds.len(),
                *self == *old(self),
                total == old(self)@.rounds[idx as int].total_tickets_sold,
                4 <= total,
                ws == old(self)@.winning_tickets[idx as int],
                max_attempts as int == 2 * (total as int),
                attempts <= max_attempts,
                !found ==> search_spec(vrf_value, total, ws, 0) == search_spec(
                    vrf_value,
                    total,
                    ws,
                    attempts as int,
                ),
                found ==> search_spec(vrf_value, total, ws, 0) == Some(selected_ticket),
            ensures
                found || attempts == max_attempts,
            decreases max_attempts - attempts,
        {
            let sum: u128 = (vrf_value as u128) + attempts;
            let wrapped: u128 = sum % 0x1_0000_0000_0000_0000u128;
            let ticket: u64 = ((wrapped % (total as u128)) + 1) as u64;
            proof {
                assert(ticket == candidate_spec(vrf_value, attempts as int, total));
                assert(self.winning_tickets@[idx as int]@ == ws);
            }
            if !ticket_already_won(&self.winning_tickets[idx], ticket) {
                selected_ticket = ticket;
                found = true;
                proof {
                    assert(search_spec(vrf_value, total, ws, attempts as int) == Some(ticket));
                }
                break;
            }
            attempts = attempts + 1;
        }
        if !found {
            proof {
                // Unreachable for a well-formed closed round: fewer winners
                // are recorded than tickets sold, so the search cannot fail.
                assert(attempts as int == 2 * (total as int));
                assert(search_spec(vrf_value, total, ws, attempts as int) is None);
                assert(search_spec(vrf_value, total, ws, 0) is None);
                assert(old(self)@.round_data_wf(idx as int));
                let r0 = old(self)@.rounds[idx as int];
                assert(ws.len() == drawn_total(r0));
                assert(drawn_total(r0) < count_total(r0));
                lemma_pool_counts_fit(total);
                assert(count_total(r0) <= total);
                lemma_search_succeeds(vrf_value, total, ws);
                assert(false);
            }
            return Err(LotteryError::WinnerSelectionExhausted);
        }
        proof {
            lemma_search_props(vrf_value, total, ws, 0);
        }
        if selected_ticket == 0 || selected_ticket > self.ticket_to_owner[idx].len() as u64 {
            proof {
                // Unreachable: the winning ticket was sold, so the index
                // holds its owner.
                assert(old(self)@.round_data_wf(idx as int));
                assert(old(self)@.ticket_to_owner[idx as int].len() == total);
                assert(false);
            }
            return Err(LotteryError::TicketOwnerMissing);
        }
        let owner = self.ticket_to_owner[idx][(selected_ticket - 1) as usize];
        let prize_amount = calculate_prize_per_winner(
            round.prize_pool,
            round.current_winner_pool,
            winners_count,
        );
        let winning_ticket = WinningTicket {
            ticket_number: selected_ticket,
            owner,
            prize_amount,
            claimed: true,
        };
        self.winning_tickets[idx].push(winning_ticket);
        proof {
            assert(self@.winning_tickets =~~= old(self)@.winning_tickets.update(
                idx as int,
                ws.push(winning_ticket),
            ));
        }
        let mut updated_round = round;
        match round.current_winner_pool {
            WinnerPool::Pool1 => {
                updated_round.pool1_winners_drawn = round.pool1_winners_drawn + 1;
            },
            WinnerPool::Pool2 => {
                updated_round.pool2_winners_drawn = round.pool2_winners_drawn + 1;
            },
            WinnerPool::Pool3 => {
                updated_round.pool3_winners_drawn = round.pool3_winners_drawn + 1;
            },
            WinnerPool::Pool4 => {
                updated_round.pool4_winners_drawn = round.pool4_winners_drawn + 1;
            },
            WinnerPool::Complete => {},
        }
        let current_pool_complete = match round.current_winner_pool {
            WinnerPool::Pool1 => updated_round.pool1_winners_drawn >= updated_round.pool1_count,
            WinnerPool::Pool2 => updated_round.pool2_winners_drawn >= updated_round.pool2_count,
            WinnerPool::Pool3 => updated_round.pool3_winners_drawn >= updated_round.pool3_count,
            WinnerPool::Pool4 => updated_round.pool4_winners_drawn >= updated_round.pool4_count,
            WinnerPool::Complete => false,
        };
        if current_pool_complete {
            updated_round.current_winner_pool = match round.current_winner_pool {
                WinnerPool::Pool1 => WinnerPool::Pool2,
                WinnerPool::Pool2 => WinnerPool::Pool3,
                WinnerPool::Pool3 => WinnerPool::Pool4,
                WinnerPool::Pool4 => WinnerPool::Complete,
                WinnerPool::Complete => WinnerPool::Complete,
            };
            if updated_round.current_winner_pool == WinnerPool::Complete {
                updated_round.status = RoundStatus::Complete;
            }
        }
        self.rounds[idx] = updated_round;
        proof {
            let mid = draw_mid_state(old(self)@, vrf_value, round_id);
            assert(draw_spec(old(self)@, vrf_value, round_id, current_timestamp) is Ok);
            assert(self@.rounds =~= mid.rounds);
            assert(self@ =~~= mid);
            lemma_draw_mid_wf(old(self)@, vrf_value, round_id, current_timestamp);
        }
        let mut new_round_created = false;
        if updated_round.status == RoundStatus::Complete {
            let _ = self.create_lottery_round(round.ticket_price, current_timestamp);
            new_round_created = true;
        }
        Ok((round_id, selected_ticket, owner, prize_amount, new_round_created))
    }

    /// The id of the round currently accepting purchases, if any.
    pub fn get_active_round(&self) -> (r: Result<Option<u64>, LotteryError>)
        ensures
            r == Ok::<Option<u64>, LotteryError>(self@.active_round),
    {
        Ok(self.active_round)
    }

    /// The record of one round; an id never handed out yields `None`.
    pub fn get_round(&self, round_id: u64) -> (r: Result<Option<LotteryRound>, LotteryError>)
        ensures
            r == Ok::<Option<LotteryRound>, LotteryError>(
                if self@.has_round(round_id) {
                    Some(self@.round(round_id))
                } else {
                    None
                },
            ),
    {
        if round_id == 0 || round_id > self.rounds.len() as u64 {
            Ok(None)
        } else {
            Ok(Some(self.rounds[(round_id - 1) as usize]))
        }
    }

    /// All rounds, in id order.
    pub fn get_all_rounds(&self) -> (r: Result<Vec<LotteryRound>, LotteryError>)
        ensures
            r matches Ok(v) && v@ == self@.rounds,
    {
        let mut rounds: Vec<LotteryRound> = Vec::new();
        let mut i: usize = 0;
        while i < self.rounds.len()
            invariant
                i <= self.rounds@.len(),
                rounds@ == self.rounds@.subrange(0, i as int),
            decreases self.rounds@.len() - i,
        {
            rounds.push(self.rounds[i]);
            i = i + 1;
            proof {
                assert(rounds@ =~= self.rounds@.subrange(0, i as int));
            }
        }
        proof {
            assert(self.rounds@.subrange(0, self.rounds@.len() as int) =~= self.rounds@);
        }
        Ok(rounds)
    }

    /// The purchases of one round, each with its buyer, in purchase order.
    /// An unknown round id yields the empty list.
    pub fn get_round_ticket_purchases(&self, round_id: u64) -> (r: Result<
        Vec<(AccountId, TicketPurchase)>,
        LotteryError,
    >)
        requires
            self@.wf(),
        ensures
            r matches Ok(v) && ({
                let ps = if self@.has_round(round_id) {
                    self@.purchases_of(round_id)
                } else {
                    Seq::empty()
                };
                &&& v@.len() == ps.len()
                &&& forall|j: int|
                    0 <= j < ps.len() ==> (#[trigger] v@[j]).0 == ps[j].owner && v@[j].1@ == ps[j]
            }),
    {
        let mut purchases: Vec<(AccountId, TicketPurchase)> = Vec::new();
        if round_id == 0 || round_id > self.ticket_purchases.len() as u64 {
            return Ok(purchases);
        }
        let idx = (round_id - 1) as usize;
        proof {
            assert(self@.ticket_purchases[idx as int].len()
                == self.ticket_purchases@[idx as int]@.len());
        }
        let mut i: usize = 0;
        while i < self.ticket_purchases[idx].len()
            invariant
                idx < self.ticket_purchases@.len(),
                i <= self@.ticket_purchases[idx as int].len(),
                self@.ticket_purchases[idx as int].len()
                    == self.ticket_purchases@[idx as int]@.len(),
                purchases@.len() == i,
                forall|j: int|
                    0 <= j < i ==> (#[trigger] purchases@[j]).0
                        == self@.ticket_purchases[idx as int][j].owner && purchases@[j].1@
                        == self@.ticket_purchases[idx as int][j],
            decreases self.ticket_purchases@[idx as int]@.len() - i,
        {
            let purchase = self.ticket_purchases[idx][i].clone();
            proof {
                assert(purchase@ == self@.ticket_purchases[idx as int][i as int]);
            }
            let buyer = purchase.owner;
            purchases.push((buyer, purchase));
            i = i + 1;
        }
        Ok(purchases)
    }

    /// The winners of one round as (ticket number, owner, prize, claimed),
    /// in draw order. An unknown round id yields the empty list.
    pub fn get_round_winners(&self, round_id: u64) -> (r: Result<
        Vec<(u64, AccountId, u128, bool)>,
        LotteryError,
    >)
        requires
            self@.wf(),
        ensures
            r matches Ok(v) && ({
                let ws = if self@.has_round(round_id) {
                    self@.winners_of(round_id)
                } else {
                    Seq::empty()
                };
                &&& v@.len() == ws.len()
                &&& forall|j: int|
                    0 <= j < ws.len() ==> #[trigger] v@[j] == (
                        ws[j].ticket_number,
                        ws[j].owner,
                        ws[j].prize_amount,
                        ws[j].claimed,
                    )
            }),
    {
        let mut winners: Vec<(u64, AccountId, u128, bool)> = Vec::new();
        if round_id == 0 || round_id > self.winning_tickets.len() as u64 {
            return Ok(winners);
        }
        let idx = (round_id - 1) as usize;
        proof {
            assert(self@.winning_tickets[idx as int] == self.winning_tickets@[idx as int]@);
        }
        let mut i: usize = 0;
        while i < self.winning_tickets[idx].len()
            invariant
                idx < self.winning_tickets@.len(),
                i <= self@.winning_tickets[idx as int].len(),
                self@.winning_tickets[idx as int] == self.winning_tickets@[idx as int]@,
                winners@.len() == i,
                forall|j: int|
                    0 <= j < i ==> #[trigger] winners@[j] == (
                        self@.winning_tickets[idx as int][j].ticket_number,
                        self@.winning_tickets[idx as int][j].owner,
                        self@.winning_tickets[idx as int][j].prize_amount,
                        self@.winning_tickets[idx as int][j].claimed,
                    ),
            decreases self.winning_tickets@[idx as int]@.len() - i,
        {
            let w = self.winning_tickets[idx][i];
            winners.push((w.ticket_number, w.owner, w.prize_amount, w.claimed));
            i = i + 1;
        }
        Ok(winners)
    }

    /// The winners of one round as the query layer reports them, tagged with
    /// the reporting chain.
    pub fn round_winner_infos(&self, round_id: u64, chain_id: crate::types::ChainRef) -> (r: Vec<
        crate::types::LotteryWinnerInfo,
    >)
        requires
            self@.wf(),
        ensures
            ({
                let ws = if self@.has_round(round_id) {
                    self@.winners_of(round_id)
                } else {
                    Seq::empty()
                };
                &&& r@.len() == ws.len()
                &&& forall|j: int|
                    0 <= j < ws.len() ==> {
                        &&& (#[trigger] r@[j]).chain_id == chain_id
                        &&& r@[j].ticket_number == ws[j].ticket_number
                        &&& r@[j].owner == ws[j].owner
                        &&& r@[j].prize_amount == ws[j].prize_amount
                        &&& r@[j].claimed == ws[j].claimed
                        &&& r@[j].source_chain_id is None
                    }
            }),
    {
        let mut infos: Vec<crate::types::LotteryWinnerInfo> = Vec::new();
        if round_id == 0 || round_id > self.winning_tickets.len() as u64 {
            return infos;
        }
        let idx = (round_id - 1) as usize;
        proof {
            assert(self@.winning_tickets[idx as int] == self.winning_tickets@[idx as int]@);
        }
        let mut i: usize = 0;
        while i < self.winning_tickets[idx].len()
            invariant
                idx < self.winning_tickets@.len(),
                i <= self@.winning_tickets[idx as int].len(),
                self@.winning_tickets[idx as int] == self.winning_tickets@[idx as int]@,
                infos@.len() == i,
                forall|j: int|
                    0 <= j < i ==> {
                        &&& (#[trigger] infos@[j]).chain_id == chain_id
                        &&& infos@[j].ticket_number == self@.winning_tickets[idx as int][j].ticket_number
                        &&& infos@[j].owner == self@.winning_tickets[idx as int][j].owner
                        &&& infos@[j].prize_amount == self@.winning_tickets[idx as int][j].prize_amount
                        &&& infos@[j].claimed == self@.winning_tickets[idx as int][j].claimed
                        &&& infos@[j].source_chain_id is None
                    },
            decreases self.winning_tickets@[idx as int]@.len() - i,
        {
            let w = self.winning_tickets[idx][i];
            infos.push(
                crate::types::LotteryWinnerInfo {
                    chain_id,
                    ticket_number: w.ticket_number,
                    owner: w.owner,
                    prize_amount: w.prize_amount,
                    claimed: w.claimed,
                    source_chain_id: None,
                },
            );
            i = i + 1;
        }
        infos
    }
}

/// Whether `ticket` is already recorded as a winner in this round.
fn ticket_already_won(ws: &Vec<WinningTicket>, ticket: u64) -> (b: bool)
    ensures
        b == drawn_ticket_set(ws@).contains(ticket as int),
{
    let ghost mapped = ws@.map_values(|w: WinningTicket| w.ticket_number as int);
    let mut j: usize = 0;
    while j < ws.len()
        invariant
            j <= ws@.len(),
            mapped == ws@.map_values(|w: WinningTicket| w.ticket_number as int),
            forall|jj: int| 0 <= jj < j ==> (#[trigger] ws@[jj]).ticket_number != ticket,
        decreases ws@.len() - j,
    {
        if ws[j].ticket_number == ticket {
            proof {
                assert(mapped[j as int] == ticket as int);
                assert(mapped.contains(ticket as int));
            }
            return true;
        }
        j = j + 1;
    }
    proof {
        assert forall|jj: int| 0 <= jj < mapped.len() implies mapped[jj] != ticket as int by {
            assert(ws@[jj].ticket_number != ticket);
        }
        assert(!mapped.contains(ticket as int));
    }
    false
}

/// Addition that sticks at the largest representable amount.
fn sat_add(a: u128, b: u128) -> (r: u128)
    ensures
        r == sat_add_spec(a, b),
{
    if a > u128::MAX - b {
        u128::MAX
    } else {
        a + b
    }
}

} // verus!
