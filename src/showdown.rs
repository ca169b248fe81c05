use crate::hand::Hand;
use crate::rule::{payouts_of, Rule, RuleError};
use vstd::prelude::*;

verus! {

/// A fraction of the pot: `numerator / denominator`.
#[derive(Debug, Clone, Copy, PartialEq, Eq, Structural)]
pub struct Share {
    pub numerator: usize,
    pub denominator: usize,
}

/// The share of the pot won by each player, in the order of the players.
pub type Payouts = Vec<Share>;

/// The hands of all players still in a pot, and the shared board if any.
pub struct Showdown {
    players: Vec<Hand>,
    board: Option<Hand>,
}

impl Showdown {
    pub closed spec fn players(&self) -> Seq<Hand> {
        self.players@
    }

    pub closed spec fn board(&self) -> Option<Hand> {
        self.board
    }

    pub fn new(players: Vec<Hand>, board: Option<Hand>) -> (r: Showdown)
        ensures
            r.players() == players@,
            r.board() == board,
    {
        Showdown { players, board }
    }

    /// Settles the pot under rule `R`.
    pub fn determine_payouts<R: Rule>(&self) -> (r: Result<Payouts, RuleError>)
        ensures
            match payouts_of::<R>(self.players(), self.board()) {
                Err(e) => r == Err::<Payouts, RuleError>(e),
                Ok(shares) => r matches Ok(p) && p@ == shares,
            },
    {
        let board = match &self.board {
            Some(b) => Some(b),
            None => None,
        };
        R::determine_payouts(self.players.as_slice(), board)
    }
}

} // verus!
