use poker::card::{Card, Rank, Suit};
use poker::hand::Hand;
use poker::rule::{Rule, RuleError};
use poker::showdown::{Payouts, Showdown};

struct MockRule {}

impl Rule for MockRule {
    fn evaluate_hand(hand: &Hand, _board: Option<&Hand>) -> u32 {
        hand.cards[0].rank as u32
    }

    fn is_valid(_players: &[Hand], _board: Option<&Hand>) -> Result<(), RuleError> {
        Ok(())
    }
}

fn as_fractions(payouts: Result<Payouts, RuleError>) -> Result<Vec<f32>, RuleError> {
    payouts.map(|p| {
        p.iter()
            .map(|s| s.numerator as f32 / s.denominator as f32)
            .collect()
    })
}

#[test]
fn mod_test_compare_hands() {
    let mut hand1 = Hand::new();
    hand1.cards.push(Card::new(Suit::Diamonds, Rank::King));

    let mut hand2 = Hand::new();
    hand2.cards.push(Card::new(Suit::Hearts, Rank::Queen));

    let mut hand3 = Hand::new();
    hand3.cards.push(Card::new(Suit::Spades, Rank::Queen));

    assert_eq!(
        MockRule::compare_hands(&hand2, &hand3, None),
        std::cmp::Ordering::Equal
    );
    assert_eq!(
        MockRule::compare_hands(&hand2, &hand2, None),
        std::cmp::Ordering::Equal
    ); // same hand
    assert_eq!(
        MockRule::compare_hands(&hand1, &hand2, None),
        std::cmp::Ordering::Greater
    );
    assert_eq!(
        MockRule::compare_hands(&hand2, &hand1, None),
        std::cmp::Ordering::Less
    );
}

#[test]
fn test_determine_payouts() {
    let mut hand1 = Hand::new();
    hand1.cards.push(Card::new(Suit::Diamonds, Rank::King));

    let mut hand2 = Hand::new();
    hand2.cards.push(Card::new(Suit::Hearts, Rank::Queen));

    let mut hand3 = Hand::new();
    hand3.cards.push(Card::new(Suit::Hearts, Rank::Trey));

    let players = vec![hand1, hand2, hand3];
    let payouts = MockRule::determine_payouts(&players, None);
    assert_eq!(as_fractions(payouts), Ok(vec![1.0, 0.0, 0.0]));
}

#[test]
fn test_split_payouts() {
    let mut hand1 = Hand::new();
    hand1.cards.push(Card::new(Suit::Diamonds, Rank::Four));

    let mut hand2 = Hand::new();
    hand2.cards.push(Card::new(Suit::Hearts, Rank::Queen));

    let mut hand3 = Hand::new();
    hand3.cards.push(Card::new(Suit::Clubs, Rank::Queen));

    let mut hand4 = Hand::new();
    hand4.cards.push(Card::new(Suit::Spades, Rank::Queen));

    let players = vec![hand1, hand2, hand3, hand4];
    let payouts = MockRule::determine_payouts(&players, None);
    assert_eq!(
        as_fractions(payouts),
        Ok(vec![0.0, 1.0 / 3.0, 1.0 / 3.0, 1.0 / 3.0])
    );
}

#[test]
fn king_queen_queen_pays_the_king() {
    let players = vec![
        Hand::try_from("Kd").unwrap(),
        Hand::try_from("Qh").unwrap(),
        Hand::try_from("Qs").unwrap(),
    ];
    let showdown = Showdown::new(players, None);
    let payouts = showdown.determine_payouts::<MockRule>();
    assert_eq!(as_fractions(payouts), Ok(vec![1.0, 0.0, 0.0]));
}

#[test]
fn four_queen_queen_splits_between_the_queens() {
    let players = vec![
        Hand::try_from("4d").unwrap(),
        Hand::try_from("Qh").unwrap(),
        Hand::try_from("Qs").unwrap(),
    ];
    let showdown = Showdown::new(players, None);
    let shares = showdown.determine_payouts::<MockRule>().unwrap();
    let pairs: Vec<(usize, usize)> = shares.iter().map(|s| (s.numerator, s.denominator)).collect();
    assert_eq!(pairs, vec![(0, 2), (1, 2), (1, 2)]);
    let payouts = showdown.determine_payouts::<MockRule>();
    assert_eq!(as_fractions(payouts), Ok(vec![0.0, 0.5, 0.5]));
}

#[test]
fn four_distinct_hands_have_one_winner() {
    let players = vec![
        Hand::try_from("4d").unwrap(),
        Hand::try_from("9h").unwrap(),
        Hand::try_from("Ac").unwrap(),
        Hand::try_from("2s").unwrap(),
    ];
    let payouts = MockRule::determine_payouts(&players, None);
    assert_eq!(as_fractions(payouts), Ok(vec![0.0, 0.0, 1.0, 0.0]));
}

#[test]
fn all_tied_field_splits_evenly_and_sums_to_one() {
    let players = vec![
        Hand::try_from("7d").unwrap(),
        Hand::try_from("7h").unwrap(),
        Hand::try_from("7c").unwrap(),
        Hand::try_from("7s").unwrap(),
    ];
    let fractions = as_fractions(MockRule::determine_payouts(&players, None)).unwrap();
    assert_eq!(fractions, vec![0.25, 0.25, 0.25, 0.25]);
    let total: f32 = fractions.iter().sum();
    assert!((total - 1.0).abs() < 1e-6);

    let field = vec![
        Hand::try_from("3d").unwrap(),
        Hand::try_from("Jh").unwrap(),
        Hand::try_from("Jc").unwrap(),
    ];
    let fractions = as_fractions(MockRule::determine_payouts(&field, None)).unwrap();
    assert_eq!(fractions.len(), 3);
    let total: f32 = fractions.iter().sum();
    assert!((total - 1.0).abs() < 1e-6);
}

#[test]
fn empty_field_pays_nothing() {
    let payouts = MockRule::determine_payouts(&[], None).unwrap();
    assert!(payouts.is_empty());
}
