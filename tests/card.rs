use poker::card::{Card, OrderFirstBy, Rank, Suit};
use poker::error::Error;

#[test]
fn display_card_in_string_format() {
    assert_eq!(
        Card {
            suit: Suit::Clubs,
            rank: Rank::Ace
        }
        .to_string(),
        "Ac"
    );
    assert_eq!(
        Card {
            suit: Suit::Hearts,
            rank: Rank::Ten
        }
        .to_string(),
        "Th"
    );
    assert_eq!(
        Card {
            suit: Suit::Spades,
            rank: Rank::Queen
        }
        .to_string(),
        "Qs"
    );
    assert_eq!(
        Card {
            suit: Suit::Diamonds,
            rank: Rank::Trey
        }
        .to_string(),
        "3d"
    );
}

#[test]
fn card_from_string() {
    assert_eq!(
        Card::try_from("Ac".to_string()).unwrap(),
        Card {
            suit: Suit::Clubs,
            rank: Rank::Ace
        }
    );
    assert_eq!(
        Card::try_from("Th".to_string()).unwrap(),
        Card {
            suit: Suit::Hearts,
            rank: Rank::Ten
        }
    );
    assert_eq!(
        Card::try_from("Qs".to_string()).unwrap(),
        Card {
            suit: Suit::Spades,
            rank: Rank::Queen
        }
    );

    let card = Card {
        suit: Suit::Diamonds,
        rank: Rank::Trey,
    };
    assert_eq!(Card::try_from(card.to_string()).unwrap(), card);
}

#[test]
fn test_card_ord_position() {
    let card1 = Card::try_from("As".to_string()).unwrap();
    let card2 = Card::try_from("2c".to_string()).unwrap();
    let card3 = Card::try_from("Ad".to_string()).unwrap();
    let card4 = Card::try_from("2d".to_string()).unwrap();

    assert_eq!(card1.ord_position(OrderFirstBy::Suit), 0 * 13 + 12);
    assert_eq!(card2.ord_position(OrderFirstBy::Suit), 3 * 13 + 0);
    assert_eq!(card3.ord_position(OrderFirstBy::Suit), 2 * 13 + 12);
    assert_eq!(card4.ord_position(OrderFirstBy::Suit), 2 * 13 + 0);

    assert_eq!(card1.ord_position(OrderFirstBy::Rank), 12 * 4 + 0);
    assert_eq!(card2.ord_position(OrderFirstBy::Rank), 0 * 4 + 3);
    assert_eq!(card3.ord_position(OrderFirstBy::Rank), 12 * 4 + 2);
    assert_eq!(card4.ord_position(OrderFirstBy::Rank), 0 * 4 + 2);
}

#[test]
fn test_card_try_from_error() {
    assert_eq!(
        Card::try_from("A".to_string()),
        Err(Error::InvalidCardNotation)
    );
    assert_eq!(
        Card::try_from("Acx".to_string()),
        Err(Error::InvalidCardNotation)
    );
    assert_eq!(
        Card::try_from("1c".to_string()),
        Err(Error::InvalidCardNotation)
    );
    assert_eq!(
        Card::try_from("Bc".to_string()),
        Err(Error::InvalidCardNotation)
    );
    assert_eq!(
        Card::try_from("AD".to_string()),
        Err(Error::InvalidCardNotation)
    );
    assert_eq!(
        Card::try_from("Ad ".to_string()), // untrimmed
        Err(Error::InvalidCardNotation)
    );
    assert!(Card::try_from("Ad".to_string()).is_ok());
}

#[test]
fn test_card_cmp() {
    let card1 = Card::try_from("As".to_string()).unwrap();
    let card2 = Card::try_from("2c".to_string()).unwrap();
    let card3 = Card::try_from("Ad".to_string()).unwrap();
    let card4 = Card::try_from("2d".to_string()).unwrap();

    assert_eq!(
        card1.cmp_ord_first_by(&card2, OrderFirstBy::Rank),
        std::cmp::Ordering::Greater
    );
    assert_eq!(
        card2.cmp_ord_first_by(&card1, OrderFirstBy::Rank),
        std::cmp::Ordering::Less
    );
    assert_eq!(
        card1.cmp_ord_first_by(&card3, OrderFirstBy::Rank),
        std::cmp::Ordering::Less
    );
    assert_eq!(
        card2.cmp_ord_first_by(&card4, OrderFirstBy::Rank),
        std::cmp::Ordering::Greater
    );

    assert_eq!(
        card1.cmp_ord_first_by(&card2, OrderFirstBy::Suit),
        std::cmp::Ordering::Less
    );
    assert_eq!(
        card2.cmp_ord_first_by(&card1, OrderFirstBy::Suit),
        std::cmp::Ordering::Greater
    );
    assert_eq!(
        card1.cmp_ord_first_by(&card3, OrderFirstBy::Suit),
        std::cmp::Ordering::Less
    );
    assert_eq!(
        card2.cmp_ord_first_by(&card4, OrderFirstBy::Suit),
        std::cmp::Ordering::Greater
    );

    assert_eq!(card1.cmp(&card2), std::cmp::Ordering::Greater);
    assert_eq!(card2.cmp(&card1), std::cmp::Ordering::Less);
    assert_eq!(card1.cmp(&card3), std::cmp::Ordering::Less);
    assert_eq!(card2.cmp(&card4), std::cmp::Ordering::Greater);
}

#[test]
fn test_card_ord() {
    let card1 = Card::try_from("As".to_string()).unwrap();
    let card2 = Card::try_from("2c".to_string()).unwrap();
    let card3 = Card::try_from("Ad".to_string()).unwrap();
    let card4 = Card::try_from("2d".to_string()).unwrap();

    assert!(card1 > card2);
    assert!(card2 < card1);
    assert!(card1 < card3);
    assert!(card2 > card4);
}

#[test]
fn card_notation_of_each_suit_and_rank() {
    assert_eq!(Suit::Clubs.to_string(), "c");
    assert_eq!(Suit::Spades.to_string(), "s");
    assert_eq!(Rank::Ten.to_string(), "T");
    assert_eq!(Rank::Deuce.to_string(), "2");
    assert_eq!(Suit::iter(), vec![Suit::Clubs, Suit::Diamonds, Suit::Hearts, Suit::Spades]);
    let ranks = Rank::iter();
    assert_eq!(ranks.len(), 13);
    assert_eq!(ranks[0], Rank::Deuce);
    assert_eq!(ranks[12], Rank::Ace);
}

#[test]
fn card_from_non_ascii_notation() {
    assert_eq!(Card::from_notation("Aé"), Err(Error::InvalidCardNotation));
    assert_eq!(Card::from_notation("é"), Err(Error::InvalidCardNotation));
    assert_eq!(Card::from_notation(""), Err(Error::InvalidCardNotation));
    assert_eq!(
        Card::from_notation("Kh"),
        Ok(Card::new(Suit::Hearts, Rank::King))
    );
}
