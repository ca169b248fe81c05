use crate::card::ordering_of;
use crate::hand::Hand;
use crate::showdown::{Payouts, Share};
use std::cmp::Ordering;
use vstd::prelude::*;

pub mod razz;

verus! {

/// Why a showdown cannot be settled under a rule.
#[derive(Debug, Clone, Copy, PartialEq, Eq, PartialOrd, Ord, Structural)]
pub enum RuleError {
    /// A player's hand breaks the rule (its size, for instance).
    InvalidHand,
    /// A board was given where the rule forbids one, or the reverse.
    InvalidBoard,
}

/// The board that a borrowed board stands for.
pub open spec fn board_of(board: Option<&Hand>) -> Option<Hand> {
    match board {
        Some(b) => Some(*b),
        None => None,
    }
}

/// A hand is a winner when no hand of the field is stronger.
pub open spec fn is_winner(strengths: Seq<u32>, i: int) -> bool {
    forall|j: int| 0 <= j < strengths.len() ==> #[trigger] strengths[j] <= strengths[i]
}

/// How many of the first `n` hands are winners.
pub open spec fn winners_upto(strengths: Seq<u32>, n: int) -> nat
    decreases n,
{
    if n <= 0 {
        0
    } else {
        winners_upto(strengths, n - 1) + if is_winner(strengths, n - 1) {
            1nat
        } else {
            0nat
        }
    }
}

/// How many hands share the best strength.
pub open spec fn winner_count(strengths: Seq<u32>) -> nat {
    winners_upto(strengths, strengths.len() as int)
}

/// The pot split for hands of the given strengths: each winner gets one
/// share of as many as there are winners, every other hand nothing.
pub open spec fn split_shares(strengths: Seq<u32>) -> Seq<Share> {
    Seq::new(
        strengths.len(),
        |i: int|
            Share {
                numerator: if is_winner(strengths, i) {
                    1usize
                } else {
                    0usize
                },
                denominator: winner_count(strengths) as usize,
            },
    )
}

/// The strength of each player's hand under rule `R`.
pub open spec fn strengths_of<R: Rule>(players: Seq<Hand>, board: Option<Hand>) -> Seq<u32> {
    players.map_values(|h: Hand| R::strength(h, board))
}

/// The outcome of a showdown under rule `R`: the rule's verdict on the field
/// if it rejects it, otherwise the split by strength.
pub open spec fn payouts_of<R: Rule>(players: Seq<Hand>, board: Option<Hand>) -> Result<
    Seq<Share>,
    RuleError,
> {
    match R::validity(players, board) {
        Err(e) => Err(e),
        Ok(_) => Ok(split_shares(strengths_of::<R>(players, board))),
    }
}

/// A game variant: which fields of hands it accepts and how strong each hand is.
pub trait Rule: Sized {
    /// The strength of `hand` with the shared `board`; higher wins. A rule
    /// states its own; the default ranks every hand alike.
    open spec fn strength(hand: Hand, board: Option<Hand>) -> u32 {
        0
    }

    /// The rule's verdict on a whole field of hands and board. A rule states
    /// its own; the default accepts every field.
    open spec fn validity(players: Seq<Hand>, board: Option<Hand>) -> Result<(), RuleError> {
        Ok(())
    }

    fn evaluate_hand(hand: &Hand, board: Option<&Hand>) -> (r: u32)
        ensures
            r == Self::strength(*hand, board_of(board)),
    ;

    fn is_valid(players: &[Hand], board: Option<&Hand>) -> (r: Result<(), RuleError>)
        ensures
            r == Self::validity(players@, board_of(board)),
    ;

    /// Compares the strengths of two hands with the same board.
    fn compare_hands(hand1: &Hand, hand2: &Hand, board: Option<&Hand>) -> (r: Ordering)
        ensures
            r == ordering_of(
                Self::strength(*hand1, board_of(board)) as int,
                Self::strength(*hand2, board_of(board)) as int,
            ),
    {
        let score1 = Self::evaluate_hand(hand1, board);
        let score2 = Self::evaluate_hand(hand2, board);
        if score1 < score2 {
            Ordering::Less
        } else if score1 == score2 {
            Ordering::Equal
        } else {
            Ordering::Greater
        }
    }

    /// The share of the pot that each player wins, in the order of `players`.
    /// The first player with the strongest hand is found, then every player
    /// whose hand is as strong joins the winners, who split the pot evenly.
    fn determine_payouts(players: &[Hand], board: Option<&Hand>) -> (r: Result<
        Payouts,
        RuleError,
    >)
        ensures
            match Self::validity(players@, board_of(board)) {
                Err(e) => r == Err::<Payouts, RuleError>(e),
                Ok(_) => r matches Ok(p) && p@ == split_shares(
                    players@.map_values(|h: Hand| Self::strength(h, board_of(board))),
                ),
            },
    {
        Self::is_valid(players, board)?;
        let ghost s = players@.map_values(|h: Hand| Self::strength(h, board_of(board)));
        let n = players.len();
        let mut payouts: Payouts = Vec::new();
        if n == 0 {
            proof {
                assert(payouts@ =~= split_shares(s));
            }
            return Ok(payouts);
        }
        // Find the first of the strongest hands.

        let mut winner: usize = 0;
        let mut i: usize = 1;
        while i < n
            invariant
                n == players@.len(),
                s == players@.map_values(|h: Hand| Self::strength(h, board_of(board))),
                winner < i <= n,
                forall|j: int| 0 <= j < i ==> #[trigger] s[j] <= s[winner as int],
            decreases n - i,
        {
            let ord = Self::compare_hands(&players[i], &players[winner], board);
            if let Ordering::Greater = ord {
                winner = i;
            }
            i = i + 1;
        }
        proof {
            assert(is_winner(s, winner as int));
        }
        // Every hand as strong as that one is a winner.

        let mut winners: Vec<bool> = Vec::new();
        let mut count: usize = 0;
        let mut i: usize = 0;
        while i < n
            invariant
                n == players@.len(),
                s == players@.map_values(|h: Hand| Self::strength(h, board_of(board))),
                winner < n,
                is_winner(s, winner as int),
                i <= n,
                winners@.len() == i,
                forall|j: int| 0 <= j < i ==> #[trigger] winners@[j] == is_winner(s, j),
                count == winners_upto(s, i as int),
                count <= i,
            decreases n - i,
        {
            let ord = Self::compare_hands(&players[i], &players[winner], board);
            let wins = if let Ordering::Equal = ord {
                true
            } else {
                i == winner
            };
            proof {
                assert(wins == is_winner(s, i as int));
            }
            if wins {
                count = count + 1;
            }
            winners.push(wins);
            i = i + 1;
        }
        // Split the pot evenly among the winners.

        let mut i: usize = 0;
        while i < n
            invariant
                n == players@.len(),
                s == players@.map_values(|h: Hand| Self::strength(h, board_of(board))),
                winners@.len() == n,
                forall|j: int| 0 <= j < n ==> #[trigger] winners@[j] == is_winner(s, j),
                count == winner_count(s),
                i <= n,
                payouts@.len() == i,
                forall|j: int| 0 <= j < i ==> #[trigger] payouts@[j] == split_shares(s)[j],
            decreases n - i,
        {
            let numerator: usize = if winners[i] {
                1
            } else {
                0
            };
            payouts.push(Share { numerator, denominator: count });
            i = i + 1;
        }
        proof {
            assert(payouts@ =~= split_shares(s));
        }
        Ok(payouts)
    }
}

/// The numerators of the first `n` shares, added up.
pub open spec fn numerator_sum(shares: Seq<Share>, n: int) -> nat
    decreases n,
{
    if n <= 0 {
        0
    } else {
        numerator_sum(shares, n - 1) + shares[n - 1].numerator as nat
    }
}

proof fn lemma_winners_upto_bound(strengths: Seq<u32>, n: int)
    requires
        0 <= n,
    ensures
        winners_upto(strengths, n) <= n,
    decreases n,
{
    if n > 0 {
        lemma_winners_upto_bound(strengths, n - 1);
    }
}

/// The first of the strongest among the first `n` hands.
proof fn lemma_strongest(strengths: Seq<u32>, n: int) -> (k: int)
    requires
        0 < n <= strengths.len(),
    ensures
        0 <= k < n,
        forall|j: int| 0 <= j < n ==> #[trigger] strengths[j] <= strengths[k],
    decreases n,
{
    if n == 1 {
        0
    } else {
        let k = lemma_strongest(strengths, n - 1);
        if strengths[n - 1] > strengths[k] {
            n - 1
        } else {
            k
        }
    }
}

proof fn lemma_winner_counted(strengths: Seq<u32>, n: int, k: int)
    requires
        0 <= k < n,
        is_winner(strengths, k),
    ensures
        winners_upto(strengths, n) >= 1,
    decreases n,
{
    if k < n - 1 {
        lemma_winner_counted(strengths, n - 1, k);
    }
}

proof fn lemma_numerators_count_winners(strengths: Seq<u32>, n: int)
    requires
        0 <= n <= strengths.len(),
        strengths.len() <= usize::MAX,
    ensures
        numerator_sum(split_shares(strengths), n) == winners_upto(strengths, n),
    decreases n,
{
    if n > 0 {
        lemma_numerators_count_winners(strengths, n - 1);
    }
}

/// A nonempty field of hands always has at least one winner, and the split
/// pays out the whole pot: one share per player, all over one common
/// denominator of at least one, with numerators that add up to it.
pub proof fn lemma_shares_sum_to_one(strengths: Seq<u32>)
    requires
        0 < strengths.len() <= usize::MAX,
    ensures
        ({
            let shares = split_shares(strengths);
            &&& shares.len() == strengths.len()
            &&& shares[0].denominator >= 1
            &&& forall|i: int|
                0 <= i < shares.len() ==> #[trigger] shares[i].denominator
                    == shares[0].denominator
            &&& numerator_sum(shares, shares.len() as int) == shares[0].denominator
        }),
{
    let n = strengths.len() as int;
    let k = lemma_strongest(strengths, n);
    lemma_winner_counted(strengths, n, k);
    lemma_winners_upto_bound(strengths, n);
    lemma_numerators_count_winners(strengths, n);
}

/// Under any rule, a nonempty field that the rule accepts is paid out in
/// full: one share per player, and the shares add up to exactly one pot.
pub proof fn lemma_payouts_sum_to_one<R: Rule>(players: Seq<Hand>, board: Option<Hand>)
    requires
        0 < players.len() <= usize::MAX,
        R::validity(players, board) is Ok,
    ensures
        payouts_of::<R>(players, board) matches Ok(shares) && {
            &&& shares.len() == players.len()
            &&& shares[0].denominator >= 1
            &&& forall|i: int|
                0 <= i < shares.len() ==> #[trigger] shares[i].denominator
                    == shares[0].denominator
            &&& numerator_sum(shares, shares.len() as int) == shares[0].denominator
        },
{
    lemma_shares_sum_to_one(strengths_of::<R>(players, board));
}

} // verus!
