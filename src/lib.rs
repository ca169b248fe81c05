//! Poker hand scoring and pot distribution.
//!
//! Cards and hands are plain values; a scoring strategy reduces a hand to a
//! single integer score (higher is better), and a showdown rule ranks the
//! hands of all players and splits the pot among the best of them.
pub mod card;
pub mod deck;
pub mod error;
pub mod evaluation;
pub mod hand;
pub mod rule;
pub mod showdown;
