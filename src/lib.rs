//! Odds that a poker-style hand of five or more cards is, or will become, each of the
//! ten standard hand categories, given the cards already held and discarded.

pub mod card_suits;
pub mod faces;
pub mod card_data;
pub mod deck;
pub mod hands;
pub mod odds;
pub mod completion;
pub mod predictor;
