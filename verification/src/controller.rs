//! Decisions of the lottery controller, the application that fronts ticket
//! sales and prize payouts. It owns the escrow account: buying tickets moves
//! funds from the buyer into escrow and records the purchase with the rounds
//! engine; distributing a prize moves funds from escrow to the winner and is
//! reserved to the rounds application. The host executes the planned
//! transfers; this module only decides them.

use vstd::prelude::*;

use crate::types::{AccountId, AppRef, LotteryError};

verus! {

/// An operation a caller can submit to the controller.
#[derive(Debug)]
pub enum Operation {
    /// Buy tickets: move `amount` into escrow, then record the purchase.
    BuyTickets { amount: u128 },
    /// Pay a prize out of escrow; reserved to the rounds application.
    DistributePrize { winner: AccountId, amount: u128, source_chain_id: Option<String> },
}

/// What the controller reports back to the caller.
#[derive(Clone, Copy, PartialEq, Eq, Structural, Debug)]
pub enum LotteryAppResponse {
    Accepted,
    TicketPurchased { round_id: u64, ticket_count: u64 },
}

/// One fund movement the controller instructs the escrow to execute.
#[derive(Clone, Copy, PartialEq, Eq, Structural, Debug)]
pub struct EscrowAction {
    pub from: AccountId,
    pub to: AccountId,
    pub amount: u128,
}

/// The controller's decision for one operation: the transfers the escrow
/// must execute, the purchase to record with the rounds engine, if any, and
/// the response to return. The host performs them within one transaction.
#[derive(Debug)]
pub struct ControllerPlan {
    pub transfers: Vec<EscrowAction>,
    pub record_purchase: Option<(AccountId, u128)>,
    pub response: LotteryAppResponse,
}

/// Decide what one controller operation does. `signer` is the authenticated
/// human caller, `caller` the authenticated calling application,
/// `escrow_account` the controller's own account holding the collected funds.
pub fn plan_operation(
    operation: &Operation,
    signer: Option<AccountId>,
    caller: Option<AppRef>,
    rounds_app: AppRef,
    escrow_account: AccountId,
) -> (r: Result<ControllerPlan, LotteryError>)
    ensures
        match *operation {
            Operation::BuyTickets { amount } => match signer {
                Some(owner) => r matches Ok(plan) && {
                    &&& plan.transfers@ == seq![
                        EscrowAction { from: owner, to: escrow_account, amount },
                    ]
                    &&& plan.record_purchase == Some((owner, amount))
                    &&& plan.response is Accepted
                },
                None => r == Err::<ControllerPlan, LotteryError>(LotteryError::Unauthorized),
            },
            Operation::DistributePrize { winner, amount, .. } => if caller == Some(rounds_app) {
                r matches Ok(plan) && {
                    &&& plan.transfers@ == seq![
                        EscrowAction { from: escrow_account, to: winner, amount },
                    ]
                    &&& plan.record_purchase is None
                    &&& plan.response is Accepted
                }
            } else {
                r == Err::<ControllerPlan, LotteryError>(LotteryError::Unauthorized)
            },
        },
{
    match operation {
        Operation::BuyTickets { amount } => {
            let owner = match signer {
                Some(owner) => owner,
                None => {
                    return Err(LotteryError::Unauthorized);
                },
            };
            let mut transfers: Vec<EscrowAction> = Vec::new();
            transfers.push(EscrowAction { from: owner, to: escrow_account, amount: *amount });
            proof {
                assert(transfers@ =~= seq![
                    EscrowAction { from: owner, to: escrow_account, amount: *amount },
                ]);
            }
            Ok(
                ControllerPlan {
                    transfers,
                    record_purchase: Some((owner, *amount)),
                    response: LotteryAppResponse::Accepted,
                },
            )
        },
        Operation::DistributePrize { winner, amount, source_chain_id: _ } => {
            let authorized = match caller {
                Some(calling_app) => calling_app == rounds_app,
                None => false,
            };
            if !authorized {
                return Err(LotteryError::Unauthorized);
            }
            let mut transfers: Vec<EscrowAction> = Vec::new();
            transfers.push(EscrowAction { from: escrow_account, to: *winner, amount: *amount });
            proof {
                assert(transfers@ =~= seq![
                    EscrowAction { from: escrow_account, to: *winner, amount: *amount },
                ]);
            }
            Ok(
                ControllerPlan {
                    transfers,
                    record_purchase: None,
                    response: LotteryAppResponse::Accepted,
                },
            )
        },
    }
}

} // verus!
