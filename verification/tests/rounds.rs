use lottery_rounds::state::LotteryRoundsState;
use lottery_rounds::types::{AccountId, ChainRef, LotteryError, RoundStatus, WinnerPool};

fn owner(id: u64) -> AccountId {
    AccountId { id }
}

/// A fresh ledger with one active round at the given ticket price.
fn ledger_with_round(ticket_price: u128) -> LotteryRoundsState {
    let mut state = LotteryRoundsState::new();
    let round_id = state.create_lottery_round(ticket_price, 1_000).unwrap();
    assert_eq!(round_id, 1);
    state
}

#[test]
fn create_starts_at_round_one_with_zero_counters() {
    let state = ledger_with_round(10);
    let round = state.get_round(1).unwrap().unwrap();
    assert_eq!(round.id, 1);
    assert_eq!(round.status, RoundStatus::Active);
    assert_eq!(round.ticket_price, 10);
    assert_eq!(round.total_tickets_sold, 0);
    assert_eq!(round.next_ticket_number, 1);
    assert_eq!(round.prize_pool, 0);
    assert_eq!(round.current_winner_pool, WinnerPool::Pool1);
    assert_eq!(round.created_at, 1_000);
    assert_eq!(round.closed_at, None);
    assert_eq!(state.get_active_round().unwrap(), Some(1));
}

#[test]
fn record_without_round_is_no_active_round() {
    let mut state = LotteryRoundsState::new();
    let result = state.record_ticket_purchase(owner(1), 50, None);
    assert_eq!(result.unwrap_err(), LotteryError::NoActiveRound);
}

#[test]
fn close_without_round_is_no_active_round() {
    let mut state = LotteryRoundsState::new();
    assert_eq!(state.close_lottery_round(2_000).unwrap_err(), LotteryError::NoActiveRound);
}

#[test]
fn zero_ticket_price_rejects_purchases() {
    let mut state = ledger_with_round(0);
    let result = state.record_ticket_purchase(owner(1), 50, None);
    assert_eq!(result.unwrap_err(), LotteryError::InvalidTicketPrice);
}

#[test]
fn amount_below_price_is_too_small() {
    let mut state = ledger_with_round(10);
    let result = state.record_ticket_purchase(owner(1), 9, None);
    assert_eq!(result.unwrap_err(), LotteryError::AmountTooSmall);
}

#[test]
fn exact_multiple_buys_exactly_k_tickets() {
    let mut state = ledger_with_round(10);
    let purchase = state.record_ticket_purchase(owner(1), 70, None).unwrap();
    assert_eq!(purchase.total_tickets, 7);
    assert_eq!(purchase.first_ticket, 1);
    assert_eq!(purchase.last_ticket, 7);
    assert_eq!(purchase.amount_paid, 70);
    let round = state.get_round(1).unwrap().unwrap();
    assert_eq!(round.total_tickets_sold, 7);
    assert_eq!(round.next_ticket_number, 8);
    assert_eq!(round.prize_pool, 70);
}

#[test]
fn remainder_of_amount_is_kept_but_buys_nothing_extra() {
    let mut state = ledger_with_round(10);
    let purchase = state.record_ticket_purchase(owner(1), 25, None).unwrap();
    assert_eq!(purchase.total_tickets, 2);
    let round = state.get_round(1).unwrap().unwrap();
    assert_eq!(round.prize_pool, 25);
}

#[test]
fn purchase_ranges_tile_without_gaps_or_overlaps() {
    let mut state = ledger_with_round(5);
    let p1 = state.record_ticket_purchase(owner(1), 10, None).unwrap();
    let p2 = state.record_ticket_purchase(owner(2), 15, None).unwrap();
    let p3 = state.record_ticket_purchase(owner(3), 25, None).unwrap();
    assert_eq!((p1.first_ticket, p1.last_ticket), (1, 2));
    assert_eq!((p2.first_ticket, p2.last_ticket), (3, 5));
    assert_eq!((p3.first_ticket, p3.last_ticket), (6, 10));
    let round = state.get_round(1).unwrap().unwrap();
    assert_eq!(round.total_tickets_sold, 10);
    let listed = state.get_round_ticket_purchases(1).unwrap();
    assert_eq!(listed.len(), 3);
    // the listed ranges chain from 1 to the total, with matching buyers
    assert_eq!(listed[0].0, owner(1));
    assert_eq!(listed[1].1.first_ticket, listed[0].1.last_ticket + 1);
    assert_eq!(listed[2].1.first_ticket, listed[1].1.last_ticket + 1);
    assert_eq!(listed[2].1.last_ticket, round.total_tickets_sold);
}

#[test]
fn close_below_four_tickets_is_insufficient() {
    let mut state = ledger_with_round(10);
    state.record_ticket_purchase(owner(1), 30, None).unwrap();
    let result = state.close_lottery_round(2_000);
    assert_eq!(result.unwrap_err(), LotteryError::InsufficientTickets);
}

#[test]
fn close_at_exactly_four_tickets_succeeds() {
    let mut state = ledger_with_round(10);
    state.record_ticket_purchase(owner(1), 40, None).unwrap();
    let closed = state.close_lottery_round(2_000).unwrap();
    assert_eq!(closed, 1);
    let round = state.get_round(1).unwrap().unwrap();
    assert_eq!(round.status, RoundStatus::Closed);
    assert_eq!(round.closed_at, Some(2_000));
    assert_eq!(state.get_active_round().unwrap(), None);
}

#[test]
fn pool_sizes_at_one_hundred_tickets() {
    let mut state = ledger_with_round(1);
    state.record_ticket_purchase(owner(1), 100, None).unwrap();
    state.close_lottery_round(2_000).unwrap();
    let round = state.get_round(1).unwrap().unwrap();
    assert_eq!(round.pool1_count, 15);
    assert_eq!(round.pool2_count, 7);
    assert_eq!(round.pool3_count, 5);
    assert_eq!(round.pool4_count, 3);
}

#[test]
fn pool_sizes_at_five_tickets_bump_to_one() {
    let mut state = ledger_with_round(1);
    state.record_ticket_purchase(owner(1), 5, None).unwrap();
    state.close_lottery_round(2_000).unwrap();
    let round = state.get_round(1).unwrap().unwrap();
    assert_eq!(round.pool1_count, 1);
    assert_eq!(round.pool2_count, 1);
    assert_eq!(round.pool3_count, 1);
    assert_eq!(round.pool4_count, 1);
}

#[test]
fn closed_round_rejects_further_purchases() {
    let mut state = ledger_with_round(10);
    state.record_ticket_purchase(owner(1), 40, None).unwrap();
    state.close_lottery_round(2_000).unwrap();
    let result = state.record_ticket_purchase(owner(2), 40, None);
    assert_eq!(result.unwrap_err(), LotteryError::NoActiveRound);
}

#[test]
fn draw_on_unknown_round_is_not_found() {
    let mut state = LotteryRoundsState::new();
    assert_eq!(state.generate_winner(7, 99, 3_000).unwrap_err(), LotteryError::RoundNotFound);
}

#[test]
fn winners_never_repeat_and_exact_calls_drain_the_round() {
    let mut state = ledger_with_round(5);
    for id in 1..=4u64 {
        state.record_ticket_purchase(owner(id), 5, None).unwrap();
    }
    state.close_lottery_round(2_000).unwrap();
    // four pools of one winner each: exactly four draws finish the round
    let mut tickets = Vec::new();
    for call in 0..4u64 {
        let (round_id, ticket, _winner, _prize, created) =
            state.generate_winner(0, 1, 3_000 + call).unwrap();
        assert_eq!(round_id, 1);
        assert!(!tickets.contains(&ticket), "ticket {} drawn twice", ticket);
        tickets.push(ticket);
        assert_eq!(created, call == 3);
    }
    let round = state.get_round(1).unwrap().unwrap();
    assert_eq!(round.status, RoundStatus::Complete);
    assert_eq!(round.current_winner_pool, WinnerPool::Complete);
    // exactly one Active successor with the same ticket price
    assert_eq!(state.get_active_round().unwrap(), Some(2));
    let successor = state.get_round(2).unwrap().unwrap();
    assert_eq!(successor.status, RoundStatus::Active);
    assert_eq!(successor.ticket_price, 5);
    let all = state.get_all_rounds().unwrap();
    assert_eq!(all.len(), 2);
    assert_eq!(all.iter().filter(|r| r.status == RoundStatus::Active).count(), 1);
}

#[test]
fn collision_avoidance_skips_drawn_tickets() {
    let mut state = ledger_with_round(1);
    state.record_ticket_purchase(owner(1), 4, None).unwrap();
    state.close_lottery_round(2_000).unwrap();
    // seed 0 against four tickets: candidates run 1, 2, 3, ...
    let (_, first, _, _, _) = state.generate_winner(0, 1, 3_000).unwrap();
    assert_eq!(first, 1);
    // the same seed must skip ticket 1 and take ticket 2
    let (_, second, _, _, _) = state.generate_winner(0, 1, 3_001).unwrap();
    assert_eq!(second, 2);
}

#[test]
fn completed_round_rejects_further_draws() {
    let mut state = ledger_with_round(5);
    for id in 1..=4u64 {
        state.record_ticket_purchase(owner(id), 5, None).unwrap();
    }
    state.close_lottery_round(2_000).unwrap();
    for call in 0..4u64 {
        state.generate_winner(call, 1, 3_000).unwrap();
    }
    // the successor round is active; drawing against the completed round
    // must wait until the successor is closed, and then still fail
    state.record_ticket_purchase(owner(9), 20, None).unwrap();
    state.close_lottery_round(4_000).unwrap();
    assert_eq!(state.generate_winner(0, 1, 5_000).unwrap_err(), LotteryError::RoundNotClosed);
}

#[test]
fn completed_round_record_is_frozen() {
    let mut state = ledger_with_round(5);
    for id in 1..=4u64 {
        state.record_ticket_purchase(owner(id), 5, None).unwrap();
    }
    state.close_lottery_round(2_000).unwrap();
    for call in 0..4u64 {
        state.generate_winner(call * 11, 1, 3_000).unwrap();
    }
    let frozen = state.get_round(1).unwrap().unwrap();
    let frozen_winners = state.get_round_winners(1).unwrap();
    // work the successor round through a full cycle
    state.record_ticket_purchase(owner(7), 25, None).unwrap();
    state.close_lottery_round(4_000).unwrap();
    for call in 0..4u64 {
        state.generate_winner(call * 3, 2, 5_000).unwrap();
    }
    assert_eq!(state.get_round(1).unwrap().unwrap(), frozen);
    assert_eq!(state.get_round_winners(1).unwrap(), frozen_winners);
}

#[test]
fn winners_resolve_to_ticket_owners() {
    let mut state = ledger_with_round(1);
    state.record_ticket_purchase(owner(1), 2, None).unwrap();
    state.record_ticket_purchase(owner(2), 2, None).unwrap();
    state.close_lottery_round(2_000).unwrap();
    for call in 0..4u64 {
        let (_, ticket, winner, _, _) = state.generate_winner(call * 7, 1, 3_000).unwrap();
        let expected = if ticket <= 2 { owner(1) } else { owner(2) };
        assert_eq!(winner, expected, "ticket {} owner", ticket);
    }
}

#[test]
fn prizes_follow_the_tier_shares() {
    // price 5, four tickets: prize pool 20; one winner per pool
    let mut state = ledger_with_round(5);
    state.record_ticket_purchase(owner(1), 20, None).unwrap();
    state.close_lottery_round(2_000).unwrap();
    let mut prizes = Vec::new();
    for call in 0..4u64 {
        let (_, _, _, prize, _) = state.generate_winner(call, 1, 3_000).unwrap();
        prizes.push(prize);
    }
    // 20%, 25%, 30%, 25% of 20
    assert_eq!(prizes, vec![4, 5, 6, 5]);
    let winners = state.get_round_winners(1).unwrap();
    assert_eq!(winners.len(), 4);
    assert!(winners.iter().all(|w| w.3), "winning tickets are recorded claimed");
}

#[test]
fn identical_runs_yield_identical_states() {
    let run = || {
        let mut state = LotteryRoundsState::new();
        state.create_lottery_round(5, 1_000).unwrap();
        state.record_ticket_purchase(owner(1), 10, Some(String::from("chain-9"))).unwrap();
        state.record_ticket_purchase(owner(2), 10, None).unwrap();
        state.close_lottery_round(2_000).unwrap();
        for call in 0..4u64 {
            state.generate_winner(1_234_567 + call, 1, 3_000 + call).unwrap();
        }
        state
    };
    let first = run();
    let second = run();
    assert_eq!(first, second);
}

#[test]
fn winner_infos_carry_the_reporting_chain() {
    let mut state = ledger_with_round(5);
    state.record_ticket_purchase(owner(1), 20, None).unwrap();
    state.close_lottery_round(2_000).unwrap();
    state.generate_winner(3, 1, 3_000).unwrap();
    let infos = state.round_winner_infos(1, ChainRef { id: 77 });
    assert_eq!(infos.len(), 1);
    assert_eq!(infos[0].chain_id, ChainRef { id: 77 });
    assert!(infos[0].claimed);
    assert_eq!(infos[0].source_chain_id, None);
    let raw = state.get_round_winners(1).unwrap();
    assert_eq!(infos[0].ticket_number, raw[0].0);
    assert_eq!(infos[0].prize_amount, raw[0].2);
}
