//! A fairness-oriented casino library: a deterministic card engine, a
//! commitment/reveal/VRF entropy aggregator, multiplayer and single-player
//! game state machines, and an escrow settlement protocol in which the bank
//! replays the player's reported actions instead of trusting claimed results.

use vstd::prelude::*;

pub mod baccarat;
pub mod blackjack;
pub mod cards;
pub mod crypto;
pub mod settle;
pub mod table;
pub mod engine;
pub mod error;
pub mod parlor;
pub mod rng;
pub mod roulette;

verus! {

} // verus!
