use poker::card::{Card, Rank, Suit};
use poker::error::Error;
use poker::evaluation::highcard::Highcard;
use poker::evaluation::{EvalHand, Evaluation};
use poker::hand::Hand;
use std::cmp::Ordering;

#[test]
fn highcard_test_eval_hand_valid() {
    let mut hand = Hand::new();
    hand.cards.push(Card::new(Suit::Diamonds, Rank::King));
    assert_eq!(Highcard::eval_hand(&hand), Ok(11));
    assert_eq!(Highcard::eval_hand(&Hand::try_from("Ad").unwrap()), Ok(12));
    assert_eq!(Highcard::eval_hand(&Hand::try_from("2h").unwrap()), Ok(0));
    assert_eq!(Highcard::eval_hand(&Hand::try_from("2c").unwrap()), Ok(0));
}

#[test]
fn highcard_test_eval_hand_invalid() {
    let mut hand = Hand::new();
    hand.cards.push(Card::new(Suit::Diamonds, Rank::King));
    hand.cards.push(Card::new(Suit::Hearts, Rank::Queen));
    let result = Highcard::eval_hand(&hand);
    assert_eq!(result, Err(Error::InvalidHand));
}

#[test]
fn highcard_test_compare_hands() {
    let mut hand1 = Hand::new();
    hand1.cards.push(Card::new(Suit::Diamonds, Rank::King));

    let mut hand2 = Hand::new();
    hand2.cards.push(Card::new(Suit::Hearts, Rank::Queen));

    let mut hand3 = Hand::new();
    hand3.cards.push(Card::new(Suit::Spades, Rank::Queen));

    assert_eq!(Highcard::compare_hands(&hand1, &hand2), Ok(Ordering::Greater));
    assert_eq!(Highcard::compare_hands(&hand2, &hand1), Ok(Ordering::Less));
    assert_eq!(Highcard::compare_hands(&hand1, &hand1), Ok(Ordering::Equal));
    assert_eq!(Highcard::compare_hands(&hand2, &hand3), Ok(Ordering::Equal));
}

#[test]
fn highcard_test_direct_comparison() {
    let h_j = Evaluation::<Highcard>::try_from("Jd").unwrap();
    let h_6 = Evaluation::<Highcard>::try_from("6s").unwrap();
    let h_6d = Evaluation::<Highcard>::try_from("6d").unwrap();
    let h_a = Evaluation::<Highcard>::try_from("Ad").unwrap();

    assert!(h_j > h_6);
    assert!(h_6 == h_6d);
    assert!(h_j < h_a);
}

#[test]
fn highcard_compare_propagates_failure() {
    let empty = Hand::new();
    let one = Hand::try_from("Ks").unwrap();
    assert_eq!(Highcard::compare_hands(&empty, &one), Err(Error::InvalidHand));
    assert_eq!(Highcard::compare_hands(&one, &empty), Err(Error::InvalidHand));
    assert!(Evaluation::<Highcard>::try_from("Ks Qs").is_err());
    assert!(Evaluation::<Highcard>::try_from("Kx").is_err());
}
