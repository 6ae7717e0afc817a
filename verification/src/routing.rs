//! Routing decisions of the token application that custodies the funds:
//! which chain to notify after a transfer or a claim, and where a payout
//! goes. The host sends the messages and moves the funds; this module only
//! decides the targets.

use vstd::prelude::*;

use crate::types::ChainRef;

verus! {

/// A caller's guess on the price direction, carried along with a transfer.
#[derive(Clone, Copy, PartialEq, Eq, Structural, Debug)]
pub enum Prediction {
    Up,
    Down,
}

/// After a transfer, the receiving chain is notified when it is not the one
/// executing; a local transfer needs no message.
pub fn transfer_notify_target(this_chain: ChainRef, target_chain: ChainRef) -> (r: Option<
    ChainRef,
>)
    ensures
        r == if target_chain == this_chain {
            None
        } else {
            Some(target_chain)
        },
{
    if target_chain == this_chain {
        None
    } else {
        Some(target_chain)
    }
}

/// What the token application does right after executing a transfer.
#[derive(Clone, Copy, PartialEq, Eq, Structural, Debug)]
pub enum TransferFollowUp {
    /// Nothing to do: a local transfer without a prediction, or a prediction
    /// with no rounds application linked to take the bet.
    NoAction,
    /// Notify the receiving chain of a plain cross-chain transfer.
    Notify(ChainRef),
    /// Place the bet with the linked rounds application on this chain.
    PlaceBet(Prediction),
    /// Forward the prediction to the receiving chain with the transfer.
    ForwardPrediction(Prediction),
}

/// Decide what follows a transfer: a prediction is placed locally or
/// forwarded cross-chain when a rounds application is linked, and dropped
/// when none is; a plain transfer notifies the receiving chain if it is
/// another one.
pub fn transfer_follow_up(
    this_chain: ChainRef,
    target_chain: ChainRef,
    prediction: Option<Prediction>,
    rounds_linked: bool,
) -> (r: TransferFollowUp)
    ensures
        r == match prediction {
            Some(p) => if rounds_linked {
                if target_chain == this_chain {
                    TransferFollowUp::PlaceBet(p)
                } else {
                    TransferFollowUp::ForwardPrediction(p)
                }
            } else {
                TransferFollowUp::NoAction
            },
            None => if target_chain == this_chain {
                TransferFollowUp::NoAction
            } else {
                TransferFollowUp::Notify(target_chain)
            },
        },
{
    match prediction {
        Some(p) => {
            if !rounds_linked {
                TransferFollowUp::NoAction
            } else if target_chain == this_chain {
                TransferFollowUp::PlaceBet(p)
            } else {
                TransferFollowUp::ForwardPrediction(p)
            }
        },
        None => match transfer_notify_target(this_chain, target_chain) {
            Some(chain) => TransferFollowUp::Notify(chain),
            None => TransferFollowUp::NoAction,
        },
    }
}

/// After a claim, a locally sourced claim notifies like a transfer to its
/// target; a claim against another chain notifies that source chain so the
/// application deploys there.
pub fn claim_notify_target(
    this_chain: ChainRef,
    source_chain: ChainRef,
    target_chain: ChainRef,
) -> (r: Option<ChainRef>)
    ensures
        r == if source_chain == this_chain {
            if target_chain == this_chain {
                None::<ChainRef>
            } else {
                Some(target_chain)
            }
        } else {
            Some(source_chain)
        },
{
    if source_chain == this_chain {
        transfer_notify_target(this_chain, target_chain)
    } else {
        Some(source_chain)
    }
}

/// Where a payout goes and which chain to notify: a winner with a resolvable
/// source chain is paid there, with a notification; otherwise the payout
/// stays on the executing chain and no message is sent.
pub fn payout_route(source_chain: Option<ChainRef>, this_chain: ChainRef) -> (r: (
    ChainRef,
    Option<ChainRef>,
))
    ensures
        r == match source_chain {
            Some(chain) => (chain, Some(chain)),
            None => (this_chain, None::<ChainRef>),
        },
{
    match source_chain {
        Some(chain) => (chain, Some(chain)),
        None => (this_chain, None),
    }
}

} // verus!
