use poker::card::{Card, Rank, Suit};
use poker::deck::Deck;

#[test]
fn get_new_deck() {
    let deck = Deck::new();
    assert_eq!(deck.cards.len(), 52);
    assert_eq!(deck.cards[0], Card::new(Suit::Clubs, Rank::Deuce));
    assert_eq!(deck.cards[12], Card::new(Suit::Clubs, Rank::Ace));
    assert_eq!(deck.cards[13], Card::new(Suit::Diamonds, Rank::Deuce));
    assert_eq!(deck.cards[50], Card::new(Suit::Spades, Rank::King));
    assert_eq!(deck.cards[51], Card::new(Suit::Spades, Rank::Ace));
}

#[test]
fn deck_should_shuffle() {
    let mut deck = Deck::new();
    assert_eq!(deck.cards.len(), 52);
    assert_eq!(deck.cards[0], Card::new(Suit::Clubs, Rank::Deuce));
    assert_eq!(deck.cards[25], Card::new(Suit::Diamonds, Rank::Ace));
    assert_eq!(deck.cards[50], Card::new(Suit::Spades, Rank::King));

    deck.shuffle();
    assert_eq!(deck.cards.len(), 52);
    assert!(
        (deck.cards[0] != Card::new(Suit::Clubs, Rank::Deuce))
            || (deck.cards[25] != Card::new(Suit::Diamonds, Rank::Ace))
            || (deck.cards[50] != Card::new(Suit::Spades, Rank::King))
    );
}

#[test]
fn shuffled_deck_keeps_every_card() {
    let mut deck = Deck::default();
    deck.shuffle();
    let mut sorted = deck.cards.clone();
    sorted.sort();
    let mut fresh = Deck::new().cards;
    fresh.sort();
    assert_eq!(sorted, fresh);
}
