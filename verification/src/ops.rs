//! The operation surface of the rounds engine: one typed operation per host
//! transaction, dispatched to the ledger within a single atomic step. The
//! host supplies the caller's identity, the block timestamp and the draw
//! seed; unauthorized or failing operations leave the ledger untouched.

use vstd::prelude::*;

use crate::state::{
    close_spec, create_spec, draw_spec, opt_string_view, record_fits, record_spec,
    LotteryRoundsState, StateView,
};
use crate::types::{AccountId, AppRef, LotteryError, LotteryRound, TicketPurchase};

verus! {

/// An operation a caller can submit to the rounds engine.
#[derive(Debug)]
pub enum Operation {
    /// Create a new lottery round manually (usually handled automatically).
    CreateRound { ticket_price: u128 },
    /// Record a ticket purchase; reserved to the linked controller.
    RecordTicketPurchase { owner: AccountId, amount: u128, source_chain_id: Option<String> },
    /// Close the current round.
    CloseRound,
    /// Generate a winner for a closed round.
    GenerateWinner { round_id: u64 },
    /// Link the controller application.
    SetLotteryAppId { lottery_app_id: AppRef },
}

/// What a successful operation reports back to the caller.
#[derive(Debug)]
pub enum LotteryResponse {
    Accepted,
    RoundId(u64),
    TicketPurchase(TicketPurchase),
    WinnerGenerated {
        round_id: u64,
        ticket_number: u64,
        owner: AccountId,
        prize_amount: u128,
        new_round_created: bool,
    },
    LotteryRound(Option<LotteryRound>),
    LotteryRounds(Vec<LotteryRound>),
    TicketPurchases(Vec<TicketPurchase>),
    LotteryWinners(Vec<crate::types::LotteryWinnerInfo>),
}

impl LotteryRoundsState {
    /// Execute one operation as a single atomic transition. `caller` is the
    /// authenticated calling application, if any; `timestamp` and
    /// `vrf_value` are the host's clock reading and draw seed.
    pub fn apply_operation(
        &mut self,
        operation: Operation,
        caller: Option<AppRef>,
        timestamp: u64,
        vrf_value: u64,
    ) -> (r: Result<LotteryResponse, LotteryError>)
        requires
            old(self)@.wf(),
            operation matches Operation::CreateRound { .. } ==> old(self)@.active_round is None
                && old(self)@.round_counter < u64::MAX,
            operation matches Operation::RecordTicketPurchase { amount, .. } ==> record_fits(
                old(self)@,
                amount,
            ),
            operation matches Operation::GenerateWinner { .. } ==> old(self)@.active_round is None
                && old(self)@.round_counter < u64::MAX,
        ensures
            final(self)@.wf(),
            match operation {
                Operation::CreateRound { ticket_price } => {
                    &&& r matches Ok(LotteryResponse::RoundId(rid)) && rid == (old(
                        self,
                    )@.round_counter + 1) as u64
                    &&& final(self)@ == create_spec(old(self)@, ticket_price, timestamp).0
                },
                Operation::RecordTicketPurchase { owner, amount, source_chain_id } => {
                    if old(self)@.lottery_app_id is Some && caller == old(self)@.lottery_app_id {
                        match record_spec(
                            old(self)@,
                            owner,
                            amount,
                            opt_string_view(source_chain_id),
                        ) {
                            Ok((s2, pv)) => {
                                &&& r matches Ok(LotteryResponse::TicketPurchase(p)) && p@ == pv
                                &&& final(self)@ == s2
                            },
                            Err(e) => r == Err::<LotteryResponse, LotteryError>(e) && final(self)@
                                == old(self)@,
                        }
                    } else {
                        r == Err::<LotteryResponse, LotteryError>(LotteryError::Unauthorized)
                            && final(self)@ == old(self)@
                    }
                },
                Operation::CloseRound => match close_spec(old(self)@, timestamp) {
                    Ok((s2, rid2)) => {
                        &&& r matches Ok(LotteryResponse::RoundId(rid)) && rid == rid2
                        &&& final(self)@ == s2
                    },
                    Err(e) => r == Err::<LotteryResponse, LotteryError>(e) && final(self)@ == old(
                        self,
                    )@,
                },
                Operation::GenerateWinner { round_id } => match draw_spec(
                    old(self)@,
                    vrf_value,
                    round_id,
                    timestamp,
                ) {
                    Ok((s2, out)) => {
                        &&& r matches Ok(
                            LotteryResponse::WinnerGenerated {
                                round_id: rid,
                                ticket_number,
                                owner,
                                prize_amount,
                                new_round_created,
                            },
                        ) && (rid, ticket_number, owner, prize_amount, new_round_created) == out
                        &&& final(self)@ == s2
                    },
                    Err(e) => r == Err::<LotteryResponse, LotteryError>(e) && final(self)@ == old(
                        self,
                    )@,
                },
                Operation::SetLotteryAppId { lottery_app_id } => {
                    &&& r matches Ok(LotteryResponse::Accepted)
                    &&& final(self)@ == (StateView {
                        lottery_app_id: Some(lottery_app_id),
                        ..old(self)@
                    })
                },
            },
    {
        match operation {
            Operation::CreateRound { ticket_price } => {
                let round_id = self.create_lottery_round(ticket_price, timestamp)?;
                Ok(LotteryResponse::RoundId(round_id))
            },
            Operation::RecordTicketPurchase { owner, amount, source_chain_id } => {
                let authorized = match (self.lottery_app_id, caller) {
                    (Some(app), Some(calling_app)) => app == calling_app,
                    _ => false,
                };
                if !authorized {
                    return Err(LotteryError::Unauthorized);
                }
                let purchase = self.record_ticket_purchase(owner, amount, source_chain_id)?;
                Ok(LotteryResponse::TicketPurchase(purchase))
            },
            Operation::CloseRound => {
                let round_id = self.close_lottery_round(timestamp)?;
                Ok(LotteryResponse::RoundId(round_id))
            },
            Operation::GenerateWinner { round_id } => {
                let (rid, ticket_number, owner, prize_amount, new_round_created) =
                    self.generate_winner(vrf_value, round_id, timestamp)?;
                Ok(
                    LotteryResponse::WinnerGenerated {
                        round_id: rid,
                        ticket_number,
                        owner,
                        prize_amount,
                        new_round_created,
                    },
                )
            },
            Operation::SetLotteryAppId { lottery_app_id } => {
                self.set_lottery_app_id(lottery_app_id);
                Ok(LotteryResponse::Accepted)
            },
        }
    }
}

} // verus!
