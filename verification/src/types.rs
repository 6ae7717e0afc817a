//! Data model: rounds, purchases, winning tickets and the errors the
//! operations report.

use vstd::prelude::*;

verus! {

/// Identity of an account owner, as the host hands it to the library.
/// The engine only stores owners and compares them for equality.
#[derive(Clone, Copy, PartialEq, Eq, Structural, Debug, Hash)]
pub struct AccountId {
    pub id: u64,
}

/// Identity of a chain, for routing decisions and winner reports.
#[derive(Clone, Copy, PartialEq, Eq, Structural, Debug, Hash)]
pub struct ChainRef {
    pub id: u64,
}

/// Identity of a deployed application, for authorization decisions.
#[derive(Clone, Copy, PartialEq, Eq, Structural, Debug, Hash)]
pub struct AppRef {
    pub id: u64,
}

/// Lifecycle stage of a round.
#[derive(Clone, Copy, PartialEq, Eq, Structural, Debug)]
pub enum RoundStatus {
    Active,
    Closed,
    Complete,
}

/// Cursor over the four winner pools of a closed round.
#[derive(Clone, Copy, PartialEq, Eq, Structural, Debug)]
pub enum WinnerPool {
    Pool1,
    Pool2,
    Pool3,
    Pool4,
    Complete,
}

/// One lottery cycle, from ticket sales through all draws.
/// Token amounts (`ticket_price`, `prize_pool`) are in the smallest unit.
#[derive(Clone, Copy, PartialEq, Eq, Structural, Debug)]
pub struct LotteryRound {
    pub id: u64,
    pub created_at: u64,
    pub closed_at: Option<u64>,
    pub status: RoundStatus,
    pub ticket_price: u128,
    pub total_tickets_sold: u64,
    pub next_ticket_number: u64,
    pub prize_pool: u128,
    pub current_winner_pool: WinnerPool,
    pub pool1_count: u64,
    pub pool2_count: u64,
    pub pool3_count: u64,
    pub pool4_count: u64,
    pub pool1_winners_drawn: u64,
    pub pool2_winners_drawn: u64,
    pub pool3_winners_drawn: u64,
    pub pool4_winners_drawn: u64,
}

/// A contiguous block of tickets issued to one owner by one purchase.
#[derive(PartialEq, Debug)]
pub struct TicketPurchase {
    pub owner: AccountId,
    pub first_ticket: u64,
    pub last_ticket: u64,
    pub total_tickets: u64,
    pub amount_paid: u128,
    pub source_chain_id: Option<String>,
}

/// Mathematical model of a [`TicketPurchase`].
#[verifier::ext_equal]
pub ghost struct PurchaseView {
    pub owner: AccountId,
    pub first_ticket: u64,
    pub last_ticket: u64,
    pub total_tickets: u64,
    pub amount_paid: u128,
    pub source_chain_id: Option<Seq<char>>,
}

impl View for TicketPurchase {
    type V = PurchaseView;

    open spec fn view(&self) -> PurchaseView {
        PurchaseView {
            owner: self.owner,
            first_ticket: self.first_ticket,
            last_ticket: self.last_ticket,
            total_tickets: self.total_tickets,
            amount_paid: self.amount_paid,
            source_chain_id: match self.source_chain_id {
                Some(s) => Some(s@),
                None => None,
            },
        }
    }
}

impl Clone for TicketPurchase {
    fn clone(&self) -> (r: Self)
        ensures
            r@ == self@,
    {
        TicketPurchase {
            owner: self.owner,
            first_ticket: self.first_ticket,
            last_ticket: self.last_ticket,
            total_tickets: self.total_tickets,
            amount_paid: self.amount_paid,
            source_chain_id: match &self.source_chain_id {
                Some(s) => Some(s.clone()),
                None => None,
            },
        }
    }
}

/// One recorded draw: the winning ticket, its owner and the prize owed.
#[derive(Clone, Copy, PartialEq, Eq, Structural, Debug)]
pub struct WinningTicket {
    pub ticket_number: u64,
    pub owner: AccountId,
    pub prize_amount: u128,
    pub claimed: bool,
}

/// A winner as reported to the query layer, tagged with the reporting chain.
#[derive(PartialEq, Debug)]
pub struct LotteryWinnerInfo {
    pub chain_id: ChainRef,
    pub ticket_number: u64,
    pub owner: AccountId,
    pub prize_amount: u128,
    pub claimed: bool,
    pub source_chain_id: Option<String>,
}

/// Typed failures of the lottery operations, surfaced verbatim to the host.
#[derive(Clone, Copy, PartialEq, Eq, Structural, Debug)]
pub enum LotteryError {
    /// No round is currently accepting purchases or awaiting close.
    NoActiveRound,
    /// The round pointed to as active is not in the `Active` state.
    RoundNotActive,
    /// The addressed round id was never created.
    RoundNotFound,
    /// Winner selection works only on `Closed` rounds.
    RoundNotClosed,
    /// The round was created with a ticket price of zero.
    InvalidTicketPrice,
    /// The paid amount buys less than one ticket.
    AmountTooSmall,
    /// A round needs at least four tickets sold before it can close.
    InsufficientTickets,
    /// The round's pool cursor already reached `Complete`.
    AllWinnersDrawn,
    /// The current pool already has all its winners; a logic defect.
    PoolAlreadyComplete,
    /// No undrawn ticket was found within the attempt bound; a logic defect.
    WinnerSelectionExhausted,
    /// A sold ticket has no owner in the index; an invariant violation.
    TicketOwnerMissing,
    /// The caller is not the application this operation is reserved to.
    Unauthorized,
}

} // verus!
