use crate::hand::Hand;
use crate::rule::{Rule, RuleError};
use vstd::prelude::*;

verus! {

/// A stud game played for low: every player holds five to seven cards, all
/// the same number, and there is no shared board. No strength function is
/// defined for it yet, so every hand it accepts has the same strength and
/// every accepted field splits the pot evenly.
#[derive(Debug, PartialEq, Eq, PartialOrd, Ord, Structural)]
pub struct Razz {}

/// The verdict of the rule on a field: a hand of the wrong size, or hands of
/// different sizes, reject it first; then a board rejects it.
pub open spec fn razz_validity(players: Seq<Hand>, board: Option<Hand>) -> Result<(), RuleError> {
    if exists|i: int|
        0 <= i < players.len() && !(5 <= #[trigger] players[i]@.len() <= 7) {
        Err(RuleError::InvalidHand)
    } else if exists|i: int, j: int|
        0 <= i < players.len() && 0 <= j < players.len() && #[trigger] players[i]@.len()
            != #[trigger] players[j]@.len() {
        Err(RuleError::InvalidHand)
    } else if board is Some {
        Err(RuleError::InvalidBoard)
    } else {
        Ok(())
    }
}

impl Rule for Razz {
    open spec fn strength(hand: Hand, board: Option<Hand>) -> u32 {
        0
    }

    open spec fn validity(players: Seq<Hand>, board: Option<Hand>) -> Result<(), RuleError> {
        razz_validity(players, board)
    }

    fn evaluate_hand(_hand: &Hand, _board: Option<&Hand>) -> (r: u32) {
        0
    }

    fn is_valid(players: &[Hand], board: Option<&Hand>) -> (r: Result<(), RuleError>) {
        // Every hand holds five to seven cards.
        let mut players_hand_card_count: usize = 0;
        let mut i: usize = 0;
        while i < players.len()
            invariant
                i <= players@.len(),
                forall|j: int| 0 <= j < i ==> 5 <= #[trigger] players@[j]@.len() <= 7,
                i > 0 ==> players_hand_card_count == players@[i - 1]@.len(),
            decreases players@.len() - i,
        {
            let count = players[i].cards.len();
            if count < 5 || count > 7 {
                proof {
                    assert(!(5 <= players@[i as int]@.len() <= 7));
                }
                return Err(RuleError::InvalidHand);
            }
            players_hand_card_count = count;
            i = i + 1;
        }
        // Every hand holds as many cards as the last one.

        let mut i: usize = 0;
        while i < players.len()
            invariant
                i <= players@.len(),
                forall|j: int| 0 <= j < players@.len() ==> 5 <= #[trigger] players@[j]@.len() <= 7,
                players@.len() > 0 ==> players_hand_card_count == players@.last()@.len(),
                forall|j: int|
                    0 <= j < i ==> #[trigger] players@[j]@.len() == players_hand_card_count,
            decreases players@.len() - i,
        {
            if players[i].cards.len() != players_hand_card_count {
                proof {
                    let last = players@.len() - 1;
                    assert(players@[i as int]@.len() != players@[last]@.len());
                }
                return Err(RuleError::InvalidHand);
            }
            i = i + 1;
        }
        // There is no board.

        if board.is_some() {
            return Err(RuleError::InvalidBoard);
        }
        Ok(())
    }
}

} // verus!
