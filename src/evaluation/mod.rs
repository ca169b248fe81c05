use crate::card::{ordering_of, Card};
use crate::error::Error;
use crate::hand::{parse_hand, Hand};
use std::cmp::Ordering;
use vstd::prelude::*;

pub mod highcard;
pub mod lowball_ato5;
pub mod lowball_laws;

verus! {

/// The comparison of two scoring outcomes: the first failure, if any,
/// otherwise the order of the two scores.
pub open spec fn compare_scores(a: Result<u128, Error>, b: Result<u128, Error>) -> Result<
    Ordering,
    Error,
> {
    match a {
        Err(e) => Err(e),
        Ok(x) => match b {
            Err(e) => Err(e),
            Ok(y) => Ok(ordering_of(x as int, y as int)),
        },
    }
}

/// A scoring strategy: reduces a hand to one score, higher being better.
pub trait EvalHand: Default + Sized {
    /// The outcome of scoring the cards `cards`.
    spec fn score_of(cards: Seq<Card>) -> Result<u128, Error>;

    fn eval_hand(hand: &Hand) -> (r: Result<u128, Error>)
        ensures
            r == Self::score_of(hand@),
    ;

    /// Scores both hands and compares the scores; a failure of either is returned.
    fn compare_hands(hand1: &Hand, hand2: &Hand) -> (r: Result<Ordering, Error>)
        ensures
            r == compare_scores(Self::score_of(hand1@), Self::score_of(hand2@)),
    {
        let score1 = Self::eval_hand(hand1)?;
        let score2 = Self::eval_hand(hand2)?;
        if score1 < score2 {
            Ok(Ordering::Less)
        } else if score1 == score2 {
            Ok(Ordering::Equal)
        } else {
            Ok(Ordering::Greater)
        }
    }
}

/// A hand together with its scoring strategy and the score the strategy
/// gave it. Evaluations compare by score alone.
#[derive(Debug)]
pub struct Evaluation<T: EvalHand> {
    pub hand: Hand,
    pub evaluator: T,
    pub score: u128,
}

impl<T: EvalHand> Evaluation<T> {
    /// The stored score is what the strategy gives the stored hand.
    pub open spec fn wf(&self) -> bool {
        T::score_of(self.hand@) == Ok::<u128, Error>(self.score)
    }

    /// Scores `hand`; fails exactly when the strategy fails on it.
    pub fn new(hand: Hand) -> (r: Result<Self, Error>)
        ensures
            match T::score_of(hand@) {
                Ok(score) => r matches Ok(e) && e.hand@ == hand@ && e.score == score && e.wf(),
                Err(err) => r matches Err(x) && x == err,
            },
    {
        let score = T::eval_hand(&hand)?;
        Ok(Evaluation { hand, evaluator: T::default(), score })
    }

    /// Reads a hand from its notation and scores it.
    pub fn from_notation(s: &str) -> (r: Result<Self, Error>)
        ensures
            match parse_hand(s@) {
                Err(err) => r matches Err(x) && x == err,
                Ok(cards) => match T::score_of(cards) {
                    Ok(score) => r matches Ok(e) && e.hand@ == cards && e.score == score && e.wf(),
                    Err(err) => r matches Err(x) && x == err,
                },
            },
    {
        let hand = Hand::from_notation(s)?;
        Self::new(hand)
    }
}

impl<T: EvalHand> TryFrom<Hand> for Evaluation<T> {
    type Error = Error;

    /// Scores `hand` as `Evaluation::new` does.
    fn try_from(hand: Hand) -> (r: Result<Self, Error>)
        ensures
            match T::score_of(hand@) {
                Ok(score) => r matches Ok(e) && e.hand@ == hand@ && e.score == score && e.wf(),
                Err(err) => r matches Err(x) && x == err,
            },
    {
        Self::new(hand)
    }
}

/// The strategy instance inside an evaluation is not determined by the hand,
/// so the generic `try_from_spec` is not used; `try_from` states its result
/// above.
impl<T: EvalHand> vstd::std_specs::convert::TryFromSpecImpl<Hand> for Evaluation<T> {
    open spec fn obeys_try_from_spec() -> bool {
        false
    }

    open spec fn try_from_spec(hand: Hand) -> Result<Self, Error> {
        match T::score_of(hand@) {
            Ok(score) => Ok(choose|e: Self| e.hand == hand && e.score == score),
            Err(err) => Err(err),
        }
    }
}

impl<'a, T: EvalHand> TryFrom<&'a str> for Evaluation<T> {
    type Error = Error;

    /// Reads and scores a hand as `Evaluation::from_notation` does.
    fn try_from(s: &'a str) -> (r: Result<Self, Error>)
        ensures
            match parse_hand(s@) {
                Err(err) => r matches Err(x) && x == err,
                Ok(cards) => match T::score_of(cards) {
                    Ok(score) => r matches Ok(e) && e.hand@ == cards && e.score == score && e.wf(),
                    Err(err) => r matches Err(x) && x == err,
                },
            },
    {
        Self::from_notation(s)
    }
}

/// As above, the generic `try_from_spec` is not used; `try_from` states its
/// result above.
impl<'a, T: EvalHand> vstd::std_specs::convert::TryFromSpecImpl<&'a str> for Evaluation<T> {
    open spec fn obeys_try_from_spec() -> bool {
        false
    }

    open spec fn try_from_spec(s: &'a str) -> Result<Self, Error> {
        match parse_hand(s@) {
            Err(err) => Err(err),
            Ok(cards) => match T::score_of(cards) {
                Ok(score) => Ok(choose|e: Self| e.hand@ == cards && e.score == score),
                Err(err) => Err(err),
            },
        }
    }
}

impl<T: EvalHand> PartialEq for Evaluation<T> {
    fn eq(&self, other: &Self) -> (r: bool) {
        self.score == other.score
    }
}

impl<T: EvalHand> vstd::std_specs::cmp::PartialEqSpecImpl for Evaluation<T> {
    open spec fn obeys_eq_spec() -> bool {
        true
    }

    open spec fn eq_spec(&self, other: &Self) -> bool {
        self.score == other.score
    }
}

impl<T: EvalHand> Eq for Evaluation<T> {
}

impl<T: EvalHand> PartialOrd for Evaluation<T> {
    fn partial_cmp(&self, other: &Self) -> (r: Option<Ordering>) {
        if self.score < other.score {
            Some(Ordering::Less)
        } else if self.score == other.score {
            Some(Ordering::Equal)
        } else {
            Some(Ordering::Greater)
        }
    }
}

impl<T: EvalHand> vstd::std_specs::cmp::PartialOrdSpecImpl for Evaluation<T> {
    open spec fn obeys_partial_cmp_spec() -> bool {
        true
    }

    open spec fn partial_cmp_spec(&self, other: &Self) -> Option<Ordering> {
        Some(ordering_of(self.score as int, other.score as int))
    }
}

} // verus!
