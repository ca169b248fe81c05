use poker::error::Error;
use poker::evaluation::lowball_ato5::LowballAto5;
use poker::evaluation::EvalHand;
use poker::hand::Hand;
use std::cmp::Ordering;

fn score(notation: &str) -> Result<u128, Error> {
    LowballAto5::eval_hand(&Hand::try_from(notation).unwrap())
}

#[test]
fn same_ranks_different_suits_score_equal() {
    let a = Hand::try_from("Ac 2c 3d 4h 5s").unwrap();
    let b = Hand::try_from("Ad 2s 3c 4c 5h").unwrap();
    assert_eq!(LowballAto5::eval_hand(&a), LowballAto5::eval_hand(&b));
    assert_eq!(LowballAto5::compare_hands(&a, &b), Ok(Ordering::Equal));
    assert_eq!(score("Kc Kd 7h 7s 2c"), score("7c 2d Kh 7d Ks"));
}

#[test]
fn wheel_beats_nine_to_king() {
    let wheel = Hand::try_from("Ac 2c 3d 4h 5s").unwrap();
    let high = Hand::try_from("9c Td Jc Qc Ks").unwrap();
    assert_eq!(LowballAto5::compare_hands(&wheel, &high), Ok(Ordering::Greater));
    assert!(score("Ac 2c 3d 4h 5s").unwrap() > score("Ac 2c 3d 4h 6s").unwrap());
}

#[test]
fn duplication_classes_are_ordered() {
    let no_pair = score("9c Td Jc Qc Ks").unwrap();
    let one_pair = score("Ac Ad 2c 3d 4h").unwrap();
    let two_pairs = score("Ac Ad 2c 2d 3h").unwrap();
    let trips = score("Ac Ad Ah 2c 3d").unwrap();
    let full_house = score("Ac Ad Ah 2c 2d").unwrap();
    let quads = score("Ac Ad Ah As 2c").unwrap();
    assert!(no_pair > one_pair);
    assert!(one_pair > two_pairs);
    assert!(two_pairs > trips);
    assert!(trips > quads);
    assert!(full_house > quads);
}

#[test]
fn exact_raw_strengths() {
    let max = u128::MAX;
    // A pair of aces with 2, 3, 4: 1 * 2^13 + 2 + 4 + 8.
    assert_eq!(score("Ac Ad 2c 3d 4h"), Ok(max - (8192 + 14)));
    // Kings and queens with a jack: (4096 + 2048) * 2^26 + 1024.
    assert_eq!(score("Kc Kd Qc Qd Jh"), Ok(max - (6144 * 67108864 + 1024)));
    // Three kings, two aces: 4096 * 2^39 + 1 * 2^13.
    assert_eq!(score("Kc Kd Kh Ac Ad"), Ok(max - (4096 * 549755813888 + 8192)));
    // Four kings and a queen: 4096 * 2^52 + 2048.
    assert_eq!(score("Kc Kd Kh Ks Qd"), Ok(max - (4096 * 4503599627370496 + 2048)));
}

#[test]
fn wrong_card_counts_are_invalid() {
    assert_eq!(score("Ac 2c 3d 4h"), Err(Error::InvalidHand));
    assert_eq!(score("Ac 2c 3d 4h 5s 6s"), Err(Error::InvalidHand));
    assert_eq!(score(""), Err(Error::InvalidHand));
}

#[test]
fn five_of_a_rank_is_invalid() {
    assert_eq!(score("Ac Ad Ac Ah As"), Err(Error::InvalidHand));
    assert_eq!(score("7c 7d 7h 7s 7c"), Err(Error::InvalidHand));
}
