use lottery_rounds::controller::{plan_operation, LotteryAppResponse, Operation as AppOperation};
use lottery_rounds::ops::{LotteryResponse, Operation};
use lottery_rounds::prize::calculate_prize_per_winner;
use lottery_rounds::routing::{claim_notify_target, payout_route, transfer_follow_up, transfer_notify_target, Prediction, TransferFollowUp};
use lottery_rounds::state::LotteryRoundsState;
use lottery_rounds::types::{AccountId, AppRef, ChainRef, LotteryError, WinnerPool};

#[test]
fn pool_one_share_of_one_thousand_single_winner() {
    assert_eq!(calculate_prize_per_winner(1_000, WinnerPool::Pool1, 1), 200);
}

#[test]
fn pool_one_share_of_one_thousand_three_winners_rounds_down() {
    // 20% of 1000 is 200; split three ways it floors to 66, remainder kept
    assert_eq!(calculate_prize_per_winner(1_000, WinnerPool::Pool1, 3), 66);
}

#[test]
fn prize_shares_per_pool() {
    assert_eq!(calculate_prize_per_winner(1_000, WinnerPool::Pool2, 1), 250);
    assert_eq!(calculate_prize_per_winner(1_000, WinnerPool::Pool3, 1), 300);
    assert_eq!(calculate_prize_per_winner(1_000, WinnerPool::Pool4, 1), 250);
    assert_eq!(calculate_prize_per_winner(1_000, WinnerPool::Complete, 1), 0);
}

#[test]
fn zero_winners_earn_nothing() {
    assert_eq!(calculate_prize_per_winner(1_000, WinnerPool::Pool1, 0), 0);
}

#[test]
fn huge_prize_pools_do_not_overflow() {
    let huge = u128::MAX;
    // 20% is exactly a fifth, so the wide intermediate must not truncate
    assert_eq!(calculate_prize_per_winner(huge, WinnerPool::Pool1, 1), huge / 5);
    // 30% of the largest pool, computed digit-wise to avoid overflow here
    let pool3_share = (huge / 10) * 3 + (huge % 10) * 3 / 10;
    assert_eq!(calculate_prize_per_winner(huge, WinnerPool::Pool3, 7), pool3_share / 7);
}

#[test]
fn operations_dispatch_through_the_ledger() {
    let mut state = LotteryRoundsState::new();
    let controller = AppRef { id: 5 };
    let reply = state
        .apply_operation(Operation::CreateRound { ticket_price: 10 }, None, 1_000, 0)
        .unwrap();
    assert!(matches!(reply, LotteryResponse::RoundId(1)));
    let reply = state
        .apply_operation(
            Operation::SetLotteryAppId { lottery_app_id: controller },
            None,
            1_000,
            0,
        )
        .unwrap();
    assert!(matches!(reply, LotteryResponse::Accepted));
    let reply = state
        .apply_operation(
            Operation::RecordTicketPurchase {
                owner: AccountId { id: 1 },
                amount: 40,
                source_chain_id: None,
            },
            Some(controller),
            1_100,
            0,
        )
        .unwrap();
    match reply {
        LotteryResponse::TicketPurchase(p) => assert_eq!(p.total_tickets, 4),
        other => panic!("unexpected response {:?}", other),
    }
    let reply = state.apply_operation(Operation::CloseRound, None, 2_000, 0).unwrap();
    assert!(matches!(reply, LotteryResponse::RoundId(1)));
    let reply = state
        .apply_operation(Operation::GenerateWinner { round_id: 1 }, None, 3_000, 2)
        .unwrap();
    match reply {
        LotteryResponse::WinnerGenerated { round_id, ticket_number, new_round_created, .. } => {
            assert_eq!(round_id, 1);
            assert_eq!(ticket_number, 3);
            assert!(!new_round_created);
        },
        other => panic!("unexpected response {:?}", other),
    }
}

#[test]
fn recording_purchases_is_reserved_to_the_controller() {
    let mut state = LotteryRoundsState::new();
    state.apply_operation(Operation::CreateRound { ticket_price: 10 }, None, 1_000, 0).unwrap();
    let purchase = Operation::RecordTicketPurchase {
        owner: AccountId { id: 1 },
        amount: 40,
        source_chain_id: None,
    };
    // no controller linked yet
    let denied = state.apply_operation(purchase, Some(AppRef { id: 5 }), 1_100, 0);
    assert_eq!(denied.unwrap_err(), LotteryError::Unauthorized);
    state
        .apply_operation(
            Operation::SetLotteryAppId { lottery_app_id: AppRef { id: 5 } },
            None,
            1_000,
            0,
        )
        .unwrap();
    // wrong caller
    let denied = state.apply_operation(
        Operation::RecordTicketPurchase {
            owner: AccountId { id: 1 },
            amount: 40,
            source_chain_id: None,
        },
        Some(AppRef { id: 6 }),
        1_100,
        0,
    );
    assert_eq!(denied.unwrap_err(), LotteryError::Unauthorized);
    // anonymous caller
    let denied = state.apply_operation(
        Operation::RecordTicketPurchase {
            owner: AccountId { id: 1 },
            amount: 40,
            source_chain_id: None,
        },
        None,
        1_100,
        0,
    );
    assert_eq!(denied.unwrap_err(), LotteryError::Unauthorized);
}

#[test]
fn buying_tickets_plans_escrow_then_recording() {
    let buyer = AccountId { id: 3 };
    let escrow = AccountId { id: 100 };
    let rounds_app = AppRef { id: 5 };
    let plan = plan_operation(
        &AppOperation::BuyTickets { amount: 40 },
        Some(buyer),
        None,
        rounds_app,
        escrow,
    )
    .unwrap();
    assert_eq!(plan.transfers.len(), 1);
    assert_eq!(plan.transfers[0].from, buyer);
    assert_eq!(plan.transfers[0].to, escrow);
    assert_eq!(plan.transfers[0].amount, 40);
    assert_eq!(plan.record_purchase, Some((buyer, 40)));
    assert_eq!(plan.response, LotteryAppResponse::Accepted);
}

#[test]
fn buying_tickets_needs_a_signer() {
    let denied = plan_operation(
        &AppOperation::BuyTickets { amount: 40 },
        None,
        None,
        AppRef { id: 5 },
        AccountId { id: 100 },
    );
    assert_eq!(denied.unwrap_err(), LotteryError::Unauthorized);
}

#[test]
fn prize_distribution_is_reserved_to_the_rounds_app() {
    let winner = AccountId { id: 8 };
    let escrow = AccountId { id: 100 };
    let rounds_app = AppRef { id: 5 };
    let op = AppOperation::DistributePrize { winner, amount: 66, source_chain_id: None };
    let denied = plan_operation(&op, None, Some(AppRef { id: 6 }), rounds_app, escrow);
    assert_eq!(denied.unwrap_err(), LotteryError::Unauthorized);
    let plan = plan_operation(&op, None, Some(rounds_app), rounds_app, escrow).unwrap();
    assert_eq!(plan.transfers.len(), 1);
    assert_eq!(plan.transfers[0].from, escrow);
    assert_eq!(plan.transfers[0].to, winner);
    assert_eq!(plan.transfers[0].amount, 66);
    assert_eq!(plan.record_purchase, None);
}

#[test]
fn transfer_notifies_only_other_chains() {
    let here = ChainRef { id: 1 };
    let there = ChainRef { id: 2 };
    assert_eq!(transfer_notify_target(here, here), None);
    assert_eq!(transfer_notify_target(here, there), Some(there));
}

#[test]
fn claim_notifies_the_relevant_chain() {
    let here = ChainRef { id: 1 };
    let there = ChainRef { id: 2 };
    let elsewhere = ChainRef { id: 3 };
    assert_eq!(claim_notify_target(here, here, here), None);
    assert_eq!(claim_notify_target(here, here, there), Some(there));
    assert_eq!(claim_notify_target(here, elsewhere, there), Some(elsewhere));
}

#[test]
fn payouts_follow_the_winner_home() {
    let here = ChainRef { id: 1 };
    let home = ChainRef { id: 9 };
    assert_eq!(payout_route(Some(home), here), (home, Some(home)));
    assert_eq!(payout_route(None, here), (here, None));
}

#[test]
fn predictions_ride_transfers_only_when_rounds_is_linked() {
    let here = ChainRef { id: 1 };
    let there = ChainRef { id: 2 };
    assert_eq!(
        transfer_follow_up(here, here, Some(Prediction::Up), true),
        TransferFollowUp::PlaceBet(Prediction::Up)
    );
    assert_eq!(
        transfer_follow_up(here, there, Some(Prediction::Down), true),
        TransferFollowUp::ForwardPrediction(Prediction::Down)
    );
    assert_eq!(transfer_follow_up(here, there, Some(Prediction::Up), false), TransferFollowUp::NoAction);
    assert_eq!(transfer_follow_up(here, here, None, true), TransferFollowUp::NoAction);
    assert_eq!(transfer_follow_up(here, there, None, true), TransferFollowUp::Notify(there));
}
