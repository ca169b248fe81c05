use crate::card::{rank_at, Card, Rank};
use crate::error::Error;
use crate::evaluation::EvalHand;
use crate::hand::Hand;
use vstd::prelude::*;

verus! {

/// The largest score; a hand scores this minus its raw strength.
pub const MAX_SCORE: u128 = u128::MAX;

/// Weight factor of the rank of a hand's only pair: 2^13.
pub const ONE_PAIR_MULTIPLIER: u128 = 8192;

/// Weight factor of the rank of either of a hand's two pairs: 2^26.
pub const TWO_PAIRS_MULTIPLIER: u128 = 67108864;

/// Weight factor of a rank held three times: 2^39.
pub const TRIPS_MULTIPLIER: u128 = 549755813888;

/// Weight factor of a rank held four times: 2^52.
pub const QUADS_MULTIPLIER: u128 = 4503599627370496;

/// Ace-to-five lowball: five cards, aces low, straights and flushes ignored;
/// the hand with the least duplication and the lowest ranks wins.
#[derive(Debug)]
pub struct LowballAto5 {}

/// The ranks of the cards, in the same order.
pub open spec fn ranks_of(cards: Seq<Card>) -> Seq<Rank> {
    cards.map_values(|c: Card| c.rank)
}

/// How many of the cards have rank `r`.
pub open spec fn rank_count(cards: Seq<Card>, r: Rank) -> nat {
    ranks_of(cards).to_multiset().count(r)
}

/// The lowball weight of a rank: a power of two, with the ace lowest.
pub open spec fn lowball_weight(r: Rank) -> nat {
    match r {
        Rank::Ace => 1,
        Rank::Deuce => 2,
        Rank::Trey => 4,
        Rank::Four => 8,
        Rank::Five => 16,
        Rank::Six => 32,
        Rank::Seven => 64,
        Rank::Eight => 128,
        Rank::Nine => 256,
        Rank::Ten => 512,
        Rank::Jack => 1024,
        Rank::Queen => 2048,
        Rank::King => 4096,
    }
}

/// How many of the first `n` ranks are held exactly twice.
pub open spec fn pair_count_upto(cards: Seq<Card>, n: int) -> nat
    decreases n,
{
    if n <= 0 {
        0
    } else {
        pair_count_upto(cards, n - 1) + if rank_count(cards, rank_at(n - 1)) == 2 {
            1nat
        } else {
            0nat
        }
    }
}

/// How many ranks are held exactly twice.
pub open spec fn pair_count(cards: Seq<Card>) -> nat {
    pair_count_upto(cards, 13)
}

/// What a rank held `count` times adds to the raw strength of a hand with
/// `pairs` pairs.
pub open spec fn contribution(r: Rank, count: nat, pairs: nat) -> nat {
    if count == 1 {
        lowball_weight(r)
    } else if count == 2 {
        if pairs == 1 {
            lowball_weight(r) * ONE_PAIR_MULTIPLIER as nat
        } else {
            lowball_weight(r) * TWO_PAIRS_MULTIPLIER as nat
        }
    } else if count == 3 {
        lowball_weight(r) * TRIPS_MULTIPLIER as nat
    } else if count == 4 {
        lowball_weight(r) * QUADS_MULTIPLIER as nat
    } else {
        0
    }
}

/// The raw strength that the first `n` ranks contribute.
pub open spec fn strength_upto(cards: Seq<Card>, n: int) -> nat
    decreases n,
{
    if n <= 0 {
        0
    } else {
        strength_upto(cards, n - 1) + contribution(
            rank_at(n - 1),
            rank_count(cards, rank_at(n - 1)),
            pair_count(cards),
        )
    }
}

/// The raw strength of a hand: lower is a better low hand.
pub open spec fn lowball_strength(cards: Seq<Card>) -> nat {
    strength_upto(cards, 13)
}

/// A hand that the strategy scores: five cards, no rank more than four times.
pub open spec fn lowball_valid(cards: Seq<Card>) -> bool {
    &&& cards.len() == 5
    &&& forall|r: Rank| #[trigger] rank_count(cards, r) <= 4
}

/// The lowball score: the raw strength subtracted from the largest score.
pub open spec fn lowball_score(cards: Seq<Card>) -> Result<u128, Error> {
    if lowball_valid(cards) {
        Ok((MAX_SCORE - lowball_strength(cards)) as u128)
    } else {
        Err(Error::InvalidHand)
    }
}

/// `rank_at` inverts the position of a rank.
pub proof fn lemma_rank_at_index(r: Rank)
    ensures
        rank_at(r.spec_index() as int) == r,
        r.spec_index() < 13,
{
}

/// Two positions below 13 name the same rank only if they are equal.
pub proof fn lemma_rank_at_injective(i: int, j: int)
    requires
        0 <= i < 13,
        0 <= j < 13,
        rank_at(i) == rank_at(j),
    ensures
        i == j,
{
}

/// Adding a card raises the count of its rank by one and leaves the others.
pub proof fn lemma_rank_count_push(cards: Seq<Card>, c: Card, r: Rank)
    ensures
        rank_count(cards.push(c), r) == rank_count(cards, r) + if c.rank == r {
            1nat
        } else {
            0nat
        },
{
    assert(ranks_of(cards.push(c)) =~= ranks_of(cards).push(c.rank));
    broadcast use vstd::seq_lib::group_to_multiset_ensures;

}

/// The counts of the first `n` ranks, added up.
pub open spec fn count_sum_upto(cards: Seq<Card>, n: int) -> nat
    decreases n,
{
    if n <= 0 {
        0
    } else {
        count_sum_upto(cards, n - 1) + rank_count(cards, rank_at(n - 1))
    }
}

proof fn lemma_count_sum_push(cards: Seq<Card>, c: Card, n: int)
    requires
        0 <= n <= 13,
    ensures
        count_sum_upto(cards.push(c), n) == count_sum_upto(cards, n) + if c.rank.spec_index()
            < n {
            1nat
        } else {
            0nat
        },
    decreases n,
{
    if n > 0 {
        lemma_count_sum_push(cards, c, n - 1);
        lemma_rank_count_push(cards, c, rank_at(n - 1));
        lemma_rank_at_index(c.rank);
        if c.rank == rank_at(n - 1) {
            lemma_rank_at_injective(c.rank.spec_index() as int, n - 1);
        }
    }
}

/// The counts of all thirteen ranks add up to the number of cards.
pub proof fn lemma_count_sum(cards: Seq<Card>)
    ensures
        count_sum_upto(cards, 13) == cards.len(),
    decreases cards.len(),
{
    if cards.len() == 0 {
        assert(ranks_of(cards) =~= Seq::<Rank>::empty());
        broadcast use vstd::seq_lib::group_to_multiset_ensures;

        lemma_count_sum_empty(cards, 13);
    } else {
        let init = cards.drop_last();
        assert(init.push(cards.last()) =~= cards);
        lemma_count_sum(init);
        lemma_count_sum_push(init, cards.last(), 13);
        lemma_rank_at_index(cards.last().rank);
    }
}

proof fn lemma_count_sum_empty(cards: Seq<Card>, n: int)
    requires
        cards.len() == 0,
    ensures
        count_sum_upto(cards, n) == 0,
    decreases n,
{
    assert(ranks_of(cards) =~= Seq::<Rank>::empty());
    broadcast use vstd::seq_lib::group_to_multiset_ensures;

    if n > 0 {
        lemma_count_sum_empty(cards, n - 1);
    }
}

/// Each pair among the first `n` ranks takes two cards.
proof fn lemma_pairs_take_two_cards(cards: Seq<Card>, n: int)
    ensures
        2 * pair_count_upto(cards, n) <= count_sum_upto(cards, n),
    decreases n,
{
    if n > 0 {
        lemma_pairs_take_two_cards(cards, n - 1);
    }
}

/// A rank held twice among the first `n` makes at least one pair.
proof fn lemma_pair_counted(cards: Seq<Card>, n: int, i: int)
    requires
        0 <= i < n,
        rank_count(cards, rank_at(i)) == 2,
    ensures
        pair_count_upto(cards, n) >= 1,
    decreases n,
{
    if i < n - 1 {
        lemma_pair_counted(cards, n - 1, i);
    }
}

/// Five cards hold at most two pairs.
pub proof fn lemma_at_most_two_pairs(cards: Seq<Card>)
    requires
        cards.len() == 5,
    ensures
        pair_count(cards) <= 2,
{
    lemma_count_sum(cards);
    lemma_pairs_take_two_cards(cards, 13);
}

proof fn lemma_contribution_bound(r: Rank, count: nat, pairs: nat)
    ensures
        contribution(r, count, pairs) <= 4096 * QUADS_MULTIPLIER,
{
    let w = lowball_weight(r);
    assert(w <= 4096);
    assert(w * ONE_PAIR_MULTIPLIER <= 4096 * QUADS_MULTIPLIER) by (nonlinear_arith)
        requires
            w <= 4096,
    ;
    assert(w * TWO_PAIRS_MULTIPLIER <= 4096 * QUADS_MULTIPLIER) by (nonlinear_arith)
        requires
            w <= 4096,
    ;
    assert(w * TRIPS_MULTIPLIER <= 4096 * QUADS_MULTIPLIER) by (nonlinear_arith)
        requires
            w <= 4096,
    ;
    assert(w * QUADS_MULTIPLIER <= 4096 * QUADS_MULTIPLIER) by (nonlinear_arith)
        requires
            w <= 4096,
    ;
}

proof fn lemma_strength_bound(cards: Seq<Card>, n: int)
    requires
        0 <= n,
    ensures
        strength_upto(cards, n) <= n * (4096 * QUADS_MULTIPLIER),
    decreases n,
{
    if n > 0 {
        lemma_strength_bound(cards, n - 1);
        lemma_contribution_bound(
            rank_at(n - 1),
            rank_count(cards, rank_at(n - 1)),
            pair_count(cards),
        );
        assert((n - 1) * (4096 * QUADS_MULTIPLIER) + 4096 * QUADS_MULTIPLIER == n * (4096
            * QUADS_MULTIPLIER)) by (nonlinear_arith);
    }
}

impl LowballAto5 {
    /// The lowball weight of a rank.
    pub fn weight(r: Rank) -> (w: u128)
        ensures
            w == lowball_weight(r),
    {
        match r {
            Rank::Ace => 1,
            Rank::Deuce => 2,
            Rank::Trey => 4,
            Rank::Four => 8,
            Rank::Five => 16,
            Rank::Six => 32,
            Rank::Seven => 64,
            Rank::Eight => 128,
            Rank::Nine => 256,
            Rank::Ten => 512,
            Rank::Jack => 1024,
            Rank::Queen => 2048,
            Rank::King => 4096,
        }
    }
}

impl Default for LowballAto5 {
    fn default() -> (r: LowballAto5)
        ensures
            r == (LowballAto5 {}),
    {
        LowballAto5 {}
    }
}

impl EvalHand for LowballAto5 {
    open spec fn score_of(cards: Seq<Card>) -> Result<u128, Error> {
        lowball_score(cards)
    }

    fn eval_hand(hand: &Hand) -> (r: Result<u128, Error>) {
        let ghost cards = hand@;
        if hand.cards.len() != 5 {
            return Err(Error::InvalidHand);
        }
        // Count the cards of each rank.

        let mut frequencies: Vec<u8> = vec![0u8; 13];
        let mut k: usize = 0;
        proof {
            assert(ranks_of(cards.take(0)) =~= Seq::<Rank>::empty());
            broadcast use vstd::seq_lib::group_to_multiset_ensures;

        }
        while k < 5
            invariant
                k <= 5,
                cards == hand@,
                cards.len() == 5,
                frequencies@.len() == 13,
                forall|i: int|
                    0 <= i < 13 ==> #[trigger] frequencies@[i] == rank_count(
                        cards.take(k as int),
                        rank_at(i),
                    ),
                forall|i: int| 0 <= i < 13 ==> #[trigger] frequencies@[i] <= k,
            decreases 5 - k,
        {
            let rank = hand.cards[k].rank;
            let idx = rank.index() as usize;
            proof {
                lemma_rank_at_index(rank);
                assert(cards.take(k + 1) =~= cards.take(k as int).push(cards[k as int]));
                assert forall|i: int| 0 <= i < 13 implies rank_count(cards.take(k + 1), rank_at(i))
                    == rank_count(cards.take(k as int), rank_at(i)) + if i == idx {
                    1nat
                } else {
                    0nat
                } by {
                    lemma_rank_count_push(cards.take(k as int), cards[k as int], rank_at(i));
                    if rank == rank_at(i) {
                        lemma_rank_at_injective(i, idx as int);
                    }
                }
            }
            frequencies[idx] = frequencies[idx] + 1;
            k = k + 1;
        }
        proof {
            assert(cards.take(5) =~= cards);
        }
        // Count the ranks held exactly twice.

        let mut pairs: u8 = 0;
        let mut i: usize = 0;
        while i < 13
            invariant
                i <= 13,
                cards == hand@,
                cards.len() == 5,
                frequencies@.len() == 13,
                forall|j: int|
                    0 <= j < 13 ==> #[trigger] frequencies@[j] == rank_count(cards, rank_at(j)),
                pairs == pair_count_upto(cards, i as int),
                pairs <= i,
            decreases 13 - i,
        {
            if frequencies[i] == 2 {
                pairs = pairs + 1;
            }
            i = i + 1;
        }
        proof {
            lemma_at_most_two_pairs(cards);
        }
        // Add up the weighted ranks.

        let ranks = Rank::iter();
        let mut score: u128 = 0;
        let mut i: usize = 0;
        while i < 13
            invariant
                i <= 13,
                cards == hand@,
                cards.len() == 5,
                frequencies@.len() == 13,
                ranks@.len() == 13,
                forall|j: int| 0 <= j < 13 ==> #[trigger] ranks@[j] == rank_at(j),
                forall|j: int|
                    0 <= j < 13 ==> #[trigger] frequencies@[j] == rank_count(cards, rank_at(j)),
                forall|j: int| 0 <= j < i ==> #[trigger] frequencies@[j] <= 4,
                pairs == pair_count(cards),
                pairs <= 2,
                score == strength_upto(cards, i as int),
            decreases 13 - i,
        {
            proof {
                lemma_strength_bound(cards, i as int + 1);
                assert((i + 1) * (4096 * QUADS_MULTIPLIER) <= 13 * (4096 * QUADS_MULTIPLIER))
                    by (nonlinear_arith)
                    requires
                        i + 1 <= 13,
                ;
            }
            let rank = ranks[i];
            let w = Self::weight(rank);
            let freq = frequencies[i];
            if freq == 1 {
                score = score + w;
            } else if freq == 2 {
                proof {
                    lemma_pair_counted(cards, 13, i as int);
                }
                let multiplier = if pairs == 1 {
                    ONE_PAIR_MULTIPLIER
                } else if pairs == 2 {
                    TWO_PAIRS_MULTIPLIER
                } else {
                    return Err(Error::InvalidHand);
                };
                score = score + w * multiplier;
            } else if freq == 3 {
                score = score + TRIPS_MULTIPLIER * w;
            } else if freq == 4 {
                score = score + QUADS_MULTIPLIER * w;
            } else if freq != 0 {
                proof {
                    assert(rank_count(cards, rank_at(i as int)) > 4);
                }
                return Err(Error::InvalidHand);
            }
            i = i + 1;
        }
        proof {
            assert forall|r: Rank| #[trigger] rank_count(cards, r) <= 4 by {
                lemma_rank_at_index(r);
                assert(frequencies@[r.spec_index() as int] <= 4);
            }
        }
        // Invert, so that the best low hand has the highest score.

        Ok(MAX_SCORE - score)
    }
}

} // verus!
