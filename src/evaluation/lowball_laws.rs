//! Facts about ace-to-five lowball scores that hold for every hand.
use crate::card::{rank_at, Card, Rank};
use crate::evaluation::lowball_ato5::{
    contribution, count_sum_upto, lemma_at_most_two_pairs, lemma_count_sum, lemma_rank_at_index,
    lowball_score, lowball_strength, lowball_valid, lowball_weight, pair_count, pair_count_upto,
    rank_count, ranks_of, strength_upto, MAX_SCORE, ONE_PAIR_MULTIPLIER, QUADS_MULTIPLIER,
    TRIPS_MULTIPLIER, TWO_PAIRS_MULTIPLIER,
};
use vstd::prelude::*;

verus! {

/// The duplication class of a hand: 0 for no pair, 1 for one pair, 2 for two
/// pairs, 3 for three of a kind (a full house included), 4 for four of a kind.
pub open spec fn duplication_class(cards: Seq<Card>) -> nat {
    if exists|r: Rank| #[trigger] rank_count(cards, r) == 4 {
        4
    } else if exists|r: Rank| #[trigger] rank_count(cards, r) == 3 {
        3
    } else if pair_count(cards) >= 2 {
        2
    } else if pair_count(cards) == 1 {
        1
    } else {
        0
    }
}

/// The wheel: one each of ace, deuce, trey, four and five, and nothing else.
pub open spec fn is_wheel(cards: Seq<Card>) -> bool {
    &&& cards.len() == 5
    &&& rank_count(cards, Rank::Ace) == 1
    &&& rank_count(cards, Rank::Deuce) == 1
    &&& rank_count(cards, Rank::Trey) == 1
    &&& rank_count(cards, Rank::Four) == 1
    &&& rank_count(cards, Rank::Five) == 1
}

/// The weights of the first `n` ranks, added up.
pub open spec fn weight_sum_upto(n: int) -> nat
    decreases n,
{
    if n <= 0 {
        0
    } else {
        weight_sum_upto(n - 1) + lowball_weight(rank_at(n - 1))
    }
}

proof fn lemma_weight_sum()
    ensures
        weight_sum_upto(13) == 8191,
{
    reveal_with_fuel(weight_sum_upto, 14);
}

proof fn lemma_mul_le(w: nat, a: nat, b: nat)
    requires
        a <= b,
    ensures
        w * a <= w * b,
{
    assert(w * a <= w * b) by (nonlinear_arith)
        requires
            a <= b,
    ;
}

/// When every rank adds at most its weight times `m`, the strength is at most
/// the sum of the weights times `m`.
proof fn lemma_strength_upper(cards: Seq<Card>, n: int, m: nat)
    requires
        0 <= n <= 13,
        forall|i: int|
            0 <= i < n ==> #[trigger] contribution(
                rank_at(i),
                rank_count(cards, rank_at(i)),
                pair_count(cards),
            ) <= lowball_weight(rank_at(i)) * m,
    ensures
        strength_upto(cards, n) <= weight_sum_upto(n) * m,
    decreases n,
{
    if n > 0 {
        lemma_strength_upper(cards, n - 1, m);
        let w = lowball_weight(rank_at(n - 1));
        assert(weight_sum_upto(n - 1) * m + w * m == (weight_sum_upto(n - 1) + w) * m)
            by (nonlinear_arith);
    }
}

/// The strength is at least what any one rank adds.
proof fn lemma_strength_ge_term(cards: Seq<Card>, n: int, i: int)
    requires
        0 <= i < n,
    ensures
        strength_upto(cards, n) >= contribution(
            rank_at(i),
            rank_count(cards, rank_at(i)),
            pair_count(cards),
        ),
    decreases n,
{
    if i < n - 1 {
        lemma_strength_ge_term(cards, n - 1, i);
    }
}

/// With two pairs or more, each pair adds at least the two-pair factor.
proof fn lemma_strength_ge_pairs(cards: Seq<Card>, n: int)
    requires
        pair_count(cards) >= 2,
    ensures
        strength_upto(cards, n) >= pair_count_upto(cards, n) * TWO_PAIRS_MULTIPLIER,
    decreases n,
{
    if n > 0 {
        lemma_strength_ge_pairs(cards, n - 1);
        let w = lowball_weight(rank_at(n - 1));
        assert(w * TWO_PAIRS_MULTIPLIER >= TWO_PAIRS_MULTIPLIER) by (nonlinear_arith)
            requires
                w >= 1,
        ;
    }
}

/// Where no rank is held exactly twice, the pair count is zero.
proof fn lemma_no_pair_rank(cards: Seq<Card>, n: int)
    requires
        pair_count_upto(cards, n) == 0,
    ensures
        forall|i: int| 0 <= i < n ==> #[trigger] rank_count(cards, rank_at(i)) != 2,
    decreases n,
{
    if n > 0 {
        lemma_no_pair_rank(cards, n - 1);
    }
}

/// Every rank of a valid hand is held at most `c` times, where `c` is the
/// largest count that its class allows.
proof fn lemma_count_cap(cards: Seq<Card>, i: int)
    requires
        lowball_valid(cards),
        0 <= i < 13,
    ensures
        rank_count(cards, rank_at(i)) <= 4,
        duplication_class(cards) < 4 ==> rank_count(cards, rank_at(i)) <= 3,
        duplication_class(cards) < 3 ==> rank_count(cards, rank_at(i)) <= 2,
        duplication_class(cards) < 1 ==> rank_count(cards, rank_at(i)) <= 1,
{
    let r = rank_at(i);
    assert(rank_count(cards, r) <= 4);
    if duplication_class(cards) < 1 {
        lemma_no_pair_rank(cards, 13);
    }
}

/// Bounds on the raw strength of a valid hand, by duplication class.
pub proof fn lemma_class_bounds(cards: Seq<Card>)
    requires
        lowball_valid(cards),
    ensures
        duplication_class(cards) == 0 ==> lowball_strength(cards) <= 8191,
        duplication_class(cards) == 1 ==> ONE_PAIR_MULTIPLIER <= lowball_strength(cards) <= 8191
            * ONE_PAIR_MULTIPLIER,
        duplication_class(cards) == 2 ==> 2 * TWO_PAIRS_MULTIPLIER <= lowball_strength(cards)
            <= 8191 * TWO_PAIRS_MULTIPLIER,
        duplication_class(cards) == 3 ==> TRIPS_MULTIPLIER <= lowball_strength(cards) <= 8191
            * TRIPS_MULTIPLIER,
        duplication_class(cards) == 4 ==> QUADS_MULTIPLIER <= lowball_strength(cards),
{
    let class = duplication_class(cards);
    let pairs = pair_count(cards);
    lemma_weight_sum();
    lemma_at_most_two_pairs(cards);
    // Upper bounds: every rank adds at most its weight times the class factor.
    let m: nat = if class == 0 {
        1
    } else if class == 1 {
        ONE_PAIR_MULTIPLIER as nat
    } else if class == 2 {
        TWO_PAIRS_MULTIPLIER as nat
    } else {
        TRIPS_MULTIPLIER as nat
    };
    if class < 4 {
        assert forall|i: int| 0 <= i < 13 implies #[trigger] contribution(
            rank_at(i),
            rank_count(cards, rank_at(i)),
            pairs,
        ) <= lowball_weight(rank_at(i)) * m by {
            lemma_count_cap(cards, i);
            let w = lowball_weight(rank_at(i));
            let c = rank_count(cards, rank_at(i));
            if c == 1 {
                lemma_mul_le(w, 1, m);
            } else if c == 2 {
                if pairs == 1 {
                    lemma_mul_le(w, ONE_PAIR_MULTIPLIER as nat, m);
                } else {
                    lemma_mul_le(w, TWO_PAIRS_MULTIPLIER as nat, m);
                }
            } else if c == 3 {
                lemma_mul_le(w, TRIPS_MULTIPLIER as nat, m);
            }
        }
        lemma_strength_upper(cards, 13, m);
    }
    // Lower bounds: the rank that sets the class adds at least its factor.

    if class == 4 {
        let r = choose|r: Rank| #[trigger] rank_count(cards, r) == 4;
        lemma_rank_at_index(r);
        lemma_strength_ge_term(cards, 13, r.spec_index() as int);
        lemma_mul_le(QUADS_MULTIPLIER as nat, 1, lowball_weight(r));
    } else if class == 3 {
        let r = choose|r: Rank| #[trigger] rank_count(cards, r) == 3;
        lemma_rank_at_index(r);
        lemma_strength_ge_term(cards, 13, r.spec_index() as int);
        lemma_mul_le(TRIPS_MULTIPLIER as nat, 1, lowball_weight(r));
    } else if class == 2 {
        lemma_strength_ge_pairs(cards, 13);
    } else if class == 1 {
        assert(exists|i: int| 0 <= i < 13 && #[trigger] rank_count(cards, rank_at(i)) == 2) by {
            if forall|i: int| 0 <= i < 13 ==> #[trigger] rank_count(cards, rank_at(i)) != 2 {
                lemma_no_pair_counted(cards, 13);
            }
        }
        let i = choose|i: int| 0 <= i < 13 && #[trigger] rank_count(cards, rank_at(i)) == 2;
        lemma_strength_ge_term(cards, 13, i);
        lemma_mul_le(ONE_PAIR_MULTIPLIER as nat, 1, lowball_weight(rank_at(i)));
    }
}

proof fn lemma_no_pair_counted(cards: Seq<Card>, n: int)
    requires
        forall|i: int| 0 <= i < n ==> #[trigger] rank_count(cards, rank_at(i)) != 2,
    ensures
        pair_count_upto(cards, n) == 0,
    decreases n,
{
    if n > 0 {
        lemma_no_pair_counted(cards, n - 1);
    }
}

/// A valid hand with less duplication of ranks scores strictly higher than
/// one with more: no pair beats one pair, which beats two pairs, which beat
/// three of a kind, which beats four of a kind.
pub proof fn lemma_less_duplication_scores_higher(a: Seq<Card>, b: Seq<Card>)
    requires
        lowball_valid(a),
        lowball_valid(b),
        duplication_class(a) < duplication_class(b),
    ensures
        lowball_score(a) matches Ok(sa) && lowball_score(b) matches Ok(sb) && sa > sb,
{
    lemma_class_bounds(a);
    lemma_class_bounds(b);
    lemma_strength_bound_13(a);
    lemma_strength_bound_13(b);
}

proof fn lemma_strength_bound_13(cards: Seq<Card>)
    requires
        lowball_valid(cards),
    ensures
        lowball_strength(cards) < MAX_SCORE,
{
    lemma_weight_sum();
    assert forall|i: int| 0 <= i < 13 implies #[trigger] contribution(
        rank_at(i),
        rank_count(cards, rank_at(i)),
        pair_count(cards),
    ) <= lowball_weight(rank_at(i)) * QUADS_MULTIPLIER by {
        lemma_count_cap(cards, i);
        let w = lowball_weight(rank_at(i));
        lemma_mul_le(w, 1, QUADS_MULTIPLIER as nat);
        lemma_mul_le(w, ONE_PAIR_MULTIPLIER as nat, QUADS_MULTIPLIER as nat);
        lemma_mul_le(w, TWO_PAIRS_MULTIPLIER as nat, QUADS_MULTIPLIER as nat);
        lemma_mul_le(w, TRIPS_MULTIPLIER as nat, QUADS_MULTIPLIER as nat);
    }
    lemma_strength_upper(cards, 13, QUADS_MULTIPLIER as nat);
}

/// Scoring reads only the ranks: two hands whose ranks form the same
/// multiset, whatever their suits and their order, score the same.
pub proof fn lemma_suits_do_not_matter(a: Seq<Card>, b: Seq<Card>)
    requires
        ranks_of(a).to_multiset() == ranks_of(b).to_multiset(),
    ensures
        lowball_score(a) == lowball_score(b),
{
    broadcast use vstd::seq_lib::group_to_multiset_ensures;

    assert(ranks_of(a).len() == a.len());
    assert(ranks_of(b).len() == b.len());
    vstd::seq_lib::to_multiset_len(ranks_of(a));
    vstd::seq_lib::to_multiset_len(ranks_of(b));
    assert forall|r: Rank|
        #![trigger rank_count(a, r)]
        #![trigger rank_count(b, r)]
        rank_count(a, r) == rank_count(b, r) by {}
    lemma_same_counts_same_pairs(a, b, 13);
    lemma_same_counts_same_strength(a, b, 13);
}

proof fn lemma_same_counts_same_pairs(a: Seq<Card>, b: Seq<Card>, n: int)
    requires
        ranks_of(a).to_multiset() == ranks_of(b).to_multiset(),
    ensures
        pair_count_upto(a, n) == pair_count_upto(b, n),
    decreases n,
{
    if n > 0 {
        lemma_same_counts_same_pairs(a, b, n - 1);
    }
}

proof fn lemma_same_counts_same_strength(a: Seq<Card>, b: Seq<Card>, n: int)
    requires
        ranks_of(a).to_multiset() == ranks_of(b).to_multiset(),
        pair_count(a) == pair_count(b),
    ensures
        strength_upto(a, n) == strength_upto(b, n),
    decreases n,
{
    if n > 0 {
        lemma_same_counts_same_strength(a, b, n - 1);
    }
}

/// The raw strength of the wheel is the sum of the five lowest weights.
proof fn lemma_wheel_strength(cards: Seq<Card>)
    requires
        is_wheel(cards),
    ensures
        lowball_valid(cards),
        lowball_strength(cards) == 31,
        duplication_class(cards) == 0,
{
    lemma_count_sum(cards);
    reveal_with_fuel(count_sum_upto, 14);
    reveal_with_fuel(pair_count_upto, 14);
    reveal_with_fuel(strength_upto, 14);
    assert(rank_count(cards, rank_at(12)) == 1);
    assert(rank_count(cards, rank_at(0)) == 1);
    assert(rank_count(cards, rank_at(1)) == 1);
    assert(rank_count(cards, rank_at(2)) == 1);
    assert(rank_count(cards, rank_at(3)) == 1);
    assert forall|r: Rank| #[trigger] rank_count(cards, r) <= 1 by {
        lemma_rank_at_index(r);
    }
    assert(pair_count(cards) == 0);
}

/// The wheel (ace, deuce, trey, four, five) scores strictly higher than any
/// other valid hand without a pair.
pub proof fn lemma_wheel_is_best(a: Seq<Card>, b: Seq<Card>)
    requires
        is_wheel(a),
        lowball_valid(b),
        duplication_class(b) == 0,
        !is_wheel(b),
    ensures
        lowball_score(a) matches Ok(sa) && lowball_score(b) matches Ok(sb) && sa > sb,
{
    lemma_wheel_strength(a);
    lemma_strength_bound_13(b);
    // Some rank from the six to the king is held once in `b`.
    lemma_count_sum(b);
    reveal_with_fuel(count_sum_upto, 14);
    assert forall|i: int| 0 <= i < 13 implies #[trigger] rank_count(b, rank_at(i)) <= 1 by {
        lemma_count_cap(b, i);
    }
    assert(exists|i: int| 4 <= i < 12 && #[trigger] rank_count(b, rank_at(i)) == 1);
    let i = choose|i: int| 4 <= i < 12 && #[trigger] rank_count(b, rank_at(i)) == 1;
    lemma_strength_ge_term(b, 13, i);
    assert(lowball_weight(rank_at(i)) >= 32);
}

} // verus!
