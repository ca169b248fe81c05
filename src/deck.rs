use crate::card::{rank_at, Card, Rank, Suit};
use rand::seq::SliceRandom;
use vstd::prelude::*;

verus! {

/// The suit of the `k`-th block of thirteen cards in a fresh deck.
pub open spec fn deck_suit(k: int) -> Suit {
    if k <= 0 {
        Suit::Clubs
    } else if k == 1 {
        Suit::Diamonds
    } else if k == 2 {
        Suit::Hearts
    } else {
        Suit::Spades
    }
}

/// A fresh deck: clubs, diamonds, hearts, then spades, each from the deuce
/// up to the ace.
pub open spec fn fresh_deck() -> Seq<Card> {
    Seq::new(52, |i: int| Card { rank: rank_at(i % 13), suit: deck_suit(i / 13) })
}

/// A deck of playing cards.
#[derive(Debug)]
pub struct Deck {
    pub cards: Vec<Card>,
}

/// Relies on rand's `SliceRandom::shuffle` with the thread-local generator
/// (`rand::thread_rng`), which reorders the slice by swapping its elements:
/// the result holds the same cards. The generator panics only when the
/// operating system's random source cannot be read on first use.
#[verifier::external_body]
fn shuffle_cards(cards: &mut Vec<Card>)
    ensures
        final(cards)@.len() == old(cards)@.len(),
        final(cards)@.to_multiset() == old(cards)@.to_multiset(),
{
    cards.as_mut_slice().shuffle(&mut rand::thread_rng());
}

impl Deck {
    /// A fresh deck of the 52 distinct cards.
    pub fn new() -> (r: Deck)
        ensures
            r.cards@ == fresh_deck(),
    {
        let suits = Suit::iter();
        let ranks = Rank::iter();
        let mut cards: Vec<Card> = Vec::new();
        let mut s: usize = 0;
        while s < 4
            invariant
                s <= 4,
                suits@ == seq![Suit::Clubs, Suit::Diamonds, Suit::Hearts, Suit::Spades],
                ranks@.len() == 13,
                forall|j: int| 0 <= j < 13 ==> #[trigger] ranks@[j] == rank_at(j),
                cards@.len() == 13 * s,
                forall|k: int, j: int|
                    0 <= k < s && 0 <= j < 13 ==> #[trigger] cards@[13 * k + j] == (Card {
                        rank: rank_at(j),
                        suit: deck_suit(k),
                    }),
            decreases 4 - s,
        {
            let suit = suits[s];
            let mut r: usize = 0;
            while r < 13
                invariant
                    s < 4,
                    r <= 13,
                    suit == deck_suit(s as int),
                    ranks@.len() == 13,
                    forall|j: int| 0 <= j < 13 ==> #[trigger] ranks@[j] == rank_at(j),
                    cards@.len() == 13 * s + r,
                    forall|k: int, j: int|
                        0 <= k < s && 0 <= j < 13 ==> #[trigger] cards@[13 * k + j] == (Card {
                            rank: rank_at(j),
                            suit: deck_suit(k),
                        }),
                    forall|j: int|
                        0 <= j < r ==> #[trigger] cards@[13 * s + j] == (Card {
                            rank: rank_at(j),
                            suit: suit,
                        }),
                decreases 13 - r,
            {
                cards.push(Card::new(suit, ranks[r]));
                r = r + 1;
            }
            s = s + 1;
        }
        proof {
            assert forall|i: int| 0 <= i < 52 implies #[trigger] cards@[i] == fresh_deck()[i] by {
                let k = i / 13;
                let j = i % 13;
                assert(i == 13 * k + j);
                assert(cards@[13 * k + j] == (Card { rank: rank_at(j), suit: deck_suit(k) }));
            }
            assert(cards@ =~= fresh_deck());
        }
        Deck { cards }
    }

    /// Puts the cards in a random order; the deck keeps the same cards.
    pub fn shuffle(&mut self)
        ensures
            final(self).cards@.len() == old(self).cards@.len(),
            final(self).cards@.to_multiset() == old(self).cards@.to_multiset(),
    {
        shuffle_cards(&mut self.cards);
    }
}

impl Default for Deck {
    fn default() -> (r: Deck)
        ensures
            r.cards@ == fresh_deck(),
    {
        Deck::new()
    }
}

} // verus!
