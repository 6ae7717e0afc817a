//! A recurring-lottery ledger and winner-selection engine.
//!
//! The library keeps the full history of lottery rounds: ticket sales with a
//! strictly ordered, gapless ticket numbering scheme, a four-stage winner
//! selection state machine with collision-avoiding pseudo-random draws, and
//! tiered, overflow-safe prize arithmetic. Every operation is a deterministic
//! transition on [`state::LotteryRoundsState`]; the host supplies timestamps
//! and draw seeds and performs all I/O.

pub mod controller;
pub mod laws;
pub mod ops;
pub mod pools;
pub mod prize;
pub mod routing;
pub mod state;
pub mod types;
