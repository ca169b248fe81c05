use crate::card::Card;
use crate::error::Error;
use crate::evaluation::EvalHand;
use crate::hand::Hand;
use vstd::prelude::*;

verus! {

/// The simplest strategy: a hand of exactly one card, scored by its rank.
#[derive(Debug)]
pub struct Highcard {}

/// The score of a one-card hand is the position of its rank.
pub open spec fn highcard_score(cards: Seq<Card>) -> Result<u128, Error> {
    if cards.len() == 1 {
        Ok(cards[0].rank.spec_index() as u128)
    } else {
        Err(Error::InvalidHand)
    }
}

impl Default for Highcard {
    fn default() -> (r: Highcard)
        ensures
            r == (Highcard {}),
    {
        Highcard {}
    }
}

impl EvalHand for Highcard {
    open spec fn score_of(cards: Seq<Card>) -> Result<u128, Error> {
        highcard_score(cards)
    }

    fn eval_hand(hand: &Hand) -> (r: Result<u128, Error>) {
        if hand.cards.len() != 1 {
            return Err(Error::InvalidHand);
        }
        Ok(hand.cards[0].rank.index() as u128)
    }
}

} // verus!
