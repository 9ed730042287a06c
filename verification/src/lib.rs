//! Single-player Blackjack against a computer dealer: the cards, the deck and
//! its reshuffle rule, hand scoring, and the rules of a round, each with a
//! machine-checked contract.

pub mod card;
pub mod deck;
pub mod game;
pub mod input;
pub mod render;
pub mod scoring;
