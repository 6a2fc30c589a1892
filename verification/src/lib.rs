//! Verified core of a multi-player Texas Hold'em round.
//!
//! The library tracks community and hole cards, ranks 5-card and 7-card
//! hands, estimates win probabilities by Monte Carlo simulation, and
//! resolves betting actions into a consistent pot/chip state. Randomness
//! and the clock come from outside crates through small trusted wrappers;
//! everything else is verified.

pub mod cards;
pub mod clock;
pub mod combos;
pub mod engine;
pub mod equity;
pub mod evaluator;
pub mod hand;
pub mod rng;
pub mod robot;
pub mod session;
pub mod state;
