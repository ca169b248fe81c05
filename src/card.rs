use crate::error::Error;
use std::cmp::Ordering;
use vstd::prelude::*;
use vstd::string::*;

verus! {

/// The sign of `a - b` as an `Ordering`.
pub open spec fn ordering_of(a: int, b: int) -> Ordering {
    if a < b {
        Ordering::Less
    } else if a == b {
        Ordering::Equal
    } else {
        Ordering::Greater
    }
}

/// One of the four suits. Suits never rank one card above another in play;
/// the declaration order only fixes a position for sorting.
#[derive(Debug, Clone, Copy, PartialEq, Eq, PartialOrd, Ord, Structural)]
pub enum Suit {
    Spades,
    Hearts,
    Diamonds,
    Clubs,
}

impl Suit {
    /// Position of the suit in declaration order.
    pub open spec fn spec_index(self) -> nat {
        match self {
            Suit::Spades => 0,
            Suit::Hearts => 1,
            Suit::Diamonds => 2,
            Suit::Clubs => 3,
        }
    }

    /// The one-character symbol of the suit.
    pub open spec fn spec_symbol(self) -> char {
        match self {
            Suit::Clubs => 'c',
            Suit::Diamonds => 'd',
            Suit::Hearts => 'h',
            Suit::Spades => 's',
        }
    }

    /// Position of the suit in declaration order.
    pub fn index(self) -> (r: u8)
        ensures
            r == self.spec_index(),
    {
        match self {
            Suit::Spades => 0,
            Suit::Hearts => 1,
            Suit::Diamonds => 2,
            Suit::Clubs => 3,
        }
    }

    /// All suits, in the order in which a fresh deck holds them.
    pub fn iter() -> (r: Vec<Suit>)
        ensures
            r@ == seq![Suit::Clubs, Suit::Diamonds, Suit::Hearts, Suit::Spades],
    {
        vec![Suit::Clubs, Suit::Diamonds, Suit::Hearts, Suit::Spades]
    }

    /// The suit whose symbol is `c`, if any.
    pub fn from_symbol(c: char) -> (r: Option<Suit>)
        ensures
            r == suit_of_symbol(c),
    {
        if c == 'c' {
            Some(Suit::Clubs)
        } else if c == 'd' {
            Some(Suit::Diamonds)
        } else if c == 'h' {
            Some(Suit::Hearts)
        } else if c == 's' {
            Some(Suit::Spades)
        } else {
            None
        }
    }

    /// The symbol as a string slice.
    pub fn symbol(self) -> (r: &'static str)
        ensures
            r@ == seq![self.spec_symbol()],
    {
        match self {
            Suit::Clubs => {
                proof {
                    reveal_strlit("c");
                }
                "c"
            },
            Suit::Diamonds => {
                proof {
                    reveal_strlit("d");
                }
                "d"
            },
            Suit::Hearts => {
                proof {
                    reveal_strlit("h");
                }
                "h"
            },
            Suit::Spades => {
                proof {
                    reveal_strlit("s");
                }
                "s"
            },
        }
    }

    /// The one-character notation of the suit ("c", "d", "h" or "s").
    pub fn to_string(&self) -> (r: String)
        ensures
            r@ == seq![self.spec_symbol()],
    {
        String::from_str(self.symbol())
    }
}

/// The suit whose symbol is `c`.
pub open spec fn suit_of_symbol(c: char) -> Option<Suit> {
    if c == 'c' {
        Some(Suit::Clubs)
    } else if c == 'd' {
        Some(Suit::Diamonds)
    } else if c == 'h' {
        Some(Suit::Hearts)
    } else if c == 's' {
        Some(Suit::Spades)
    } else {
        None
    }
}

/// The thirteen ranks, from the deuce up to the ace.
#[derive(Debug, Clone, Copy, PartialEq, Eq, PartialOrd, Ord, Structural)]
pub enum Rank {
    Deuce,
    Trey,
    Four,
    Five,
    Six,
    Seven,
    Eight,
    Nine,
    Ten,
    Jack,
    Queen,
    King,
    Ace,
}

/// The rank at position `i` (0 for the deuce, 12 for the ace).
pub open spec fn rank_at(i: int) -> Rank {
    if i <= 0 {
        Rank::Deuce
    } else if i == 1 {
        Rank::Trey
    } else if i == 2 {
        Rank::Four
    } else if i == 3 {
        Rank::Five
    } else if i == 4 {
        Rank::Six
    } else if i == 5 {
        Rank::Seven
    } else if i == 6 {
        Rank::Eight
    } else if i == 7 {
        Rank::Nine
    } else if i == 8 {
        Rank::Ten
    } else if i == 9 {
        Rank::Jack
    } else if i == 10 {
        Rank::Queen
    } else if i == 11 {
        Rank::King
    } else {
        Rank::Ace
    }
}

/// The rank whose symbol is `c`.
pub open spec fn rank_of_symbol(c: char) -> Option<Rank> {
    match c {
        '2' => Some(Rank::Deuce),
        '3' => Some(Rank::Trey),
        '4' => Some(Rank::Four),
        '5' => Some(Rank::Five),
        '6' => Some(Rank::Six),
        '7' => Some(Rank::Seven),
        '8' => Some(Rank::Eight),
        '9' => Some(Rank::Nine),
        'T' => Some(Rank::Ten),
        'J' => Some(Rank::Jack),
        'Q' => Some(Rank::Queen),
        'K' => Some(Rank::King),
        'A' => Some(Rank::Ace),
        _ => None,
    }
}

impl Rank {
    /// Position of the rank from the deuce (0) to the ace (12).
    pub open spec fn spec_index(self) -> nat {
        match self {
            Rank::Deuce => 0,
            Rank::Trey => 1,
            Rank::Four => 2,
            Rank::Five => 3,
            Rank::Six => 4,
            Rank::Seven => 5,
            Rank::Eight => 6,
            Rank::Nine => 7,
            Rank::Ten => 8,
            Rank::Jack => 9,
            Rank::Queen => 10,
            Rank::King => 11,
            Rank::Ace => 12,
        }
    }

    /// The one-character symbol of the rank.
    pub open spec fn spec_symbol(self) -> char {
        match self {
            Rank::Deuce => '2',
            Rank::Trey => '3',
            Rank::Four => '4',
            Rank::Five => '5',
            Rank::Six => '6',
            Rank::Seven => '7',
            Rank::Eight => '8',
            Rank::Nine => '9',
            Rank::Ten => 'T',
            Rank::Jack => 'J',
            Rank::Queen => 'Q',
            Rank::King => 'K',
            Rank::Ace => 'A',
        }
    }

    /// Position of the rank from the deuce (0) to the ace (12).
    pub fn index(self) -> (r: u8)
        ensures
            r == self.spec_index(),
    {
        match self {
            Rank::Deuce => 0,
            Rank::Trey => 1,
            Rank::Four => 2,
            Rank::Five => 3,
            Rank::Six => 4,
            Rank::Seven => 5,
            Rank::Eight => 6,
            Rank::Nine => 7,
            Rank::Ten => 8,
            Rank::Jack => 9,
            Rank::Queen => 10,
            Rank::King => 11,
            Rank::Ace => 12,
        }
    }

    /// All ranks, from the deuce up to the ace.
    pub fn iter() -> (r: Vec<Rank>)
        ensures
            r@.len() == 13,
            forall|i: int| 0 <= i < 13 ==> #[trigger] r@[i] == rank_at(i),
    {
        let r = vec![
            Rank::Deuce,
            Rank::Trey,
            Rank::Four,
            Rank::Five,
            Rank::Six,
            Rank::Seven,
            Rank::Eight,
            Rank::Nine,
            Rank::Ten,
            Rank::Jack,
            Rank::Queen,
            Rank::King,
            Rank::Ace,
        ];
        assert(r@.len() == 13);
        r
    }

    /// The rank whose symbol is `c`, if any.
    pub fn from_symbol(c: char) -> (r: Option<Rank>)
        ensures
            r == rank_of_symbol(c),
    {
        match c {
            '2' => Some(Rank::Deuce),
            '3' => Some(Rank::Trey),
            '4' => Some(Rank::Four),
            '5' => Some(Rank::Five),
            '6' => Some(Rank::Six),
            '7' => Some(Rank::Seven),
            '8' => Some(Rank::Eight),
            '9' => Some(Rank::Nine),
            'T' => Some(Rank::Ten),
            'J' => Some(Rank::Jack),
            'Q' => Some(Rank::Queen),
            'K' => Some(Rank::King),
            'A' => Some(Rank::Ace),
            _ => None,
        }
    }
    /// The symbol as a string slice.
    pub fn symbol(self) -> (r: &'static str)
        ensures
            r@ == seq![self.spec_symbol()],
    {
        match self {
            Rank::Deuce => {
                proof {
                    reveal_strlit("2");
                }
                "2"
            },
            Rank::Trey => {
                proof {
                    reveal_strlit("3");
                }
                "3"
            },
            Rank::Four => {
                proof {
                    reveal_strlit("4");
                }
                "4"
            },
            Rank::Five => {
                proof {
                    reveal_strlit("5");
                }
                "5"
            },
            Rank::Six => {
                proof {
                    reveal_strlit("6");
                }
                "6"
            },
            Rank::Seven => {
                proof {
                    reveal_strlit("7");
                }
                "7"
            },
            Rank::Eight => {
                proof {
                    reveal_strlit("8");
                }
                "8"
            },
            Rank::Nine => {
                proof {
                    reveal_strlit("9");
                }
                "9"
            },
            Rank::Ten => {
                proof {
                    reveal_strlit("T");
                }
                "T"
            },
            Rank::Jack => {
                proof {
                    reveal_strlit("J");
                }
                "J"
            },
            Rank::Queen => {
                proof {
                    reveal_strlit("Q");
                }
                "Q"
            },
            Rank::King => {
                proof {
                    reveal_strlit("K");
                }
                "K"
            },
            Rank::Ace => {
                proof {
                    reveal_strlit("A");
                }
                "A"
            },
        }
    }

    /// The one-character notation of the rank ("2" to "9", "T", "J", "Q", "K", "A").
    pub fn to_string(&self) -> (r: String)
        ensures
            r@ == seq![self.spec_symbol()],
    {
        String::from_str(self.symbol())
    }
}

/// The key by which cards are ordered first when sorting.
#[derive(Debug, Clone, Copy, PartialEq, Eq, PartialOrd, Ord, Structural)]
pub enum OrderFirstBy {
    Suit,
    Rank,
}

/// A playing card. The derived order compares the rank first and the suit
/// second, which is the order of `ord_position(OrderFirstBy::Rank)`.
#[derive(Debug, Clone, Copy, PartialEq, Eq, PartialOrd, Ord, Structural)]
pub struct Card {
    pub rank: Rank,
    pub suit: Suit,
}

/// The two-character notation of a card: rank symbol, then suit symbol.
pub open spec fn card_notation(c: Card) -> Seq<char> {
    seq![c.rank.spec_symbol(), c.suit.spec_symbol()]
}

/// Reads a card from its notation: exactly a rank symbol followed by a suit symbol.
pub open spec fn parse_card(s: Seq<char>) -> Result<Card, Error> {
    if s.len() == 2 && rank_of_symbol(s[0]) is Some && suit_of_symbol(s[1]) is Some {
        Ok(Card { rank: rank_of_symbol(s[0])->0, suit: suit_of_symbol(s[1])->0 })
    } else {
        Err(Error::InvalidCardNotation)
    }
}

/// Reading back the notation of a card gives the same card.
pub proof fn lemma_notation_round_trip(c: Card)
    ensures
        parse_card(card_notation(c)) == Ok::<Card, Error>(c),
{
}

impl Card {
    /// Position of the card among all 52 when sorting by `order_first_by`.
    pub open spec fn spec_ord_position(self, order_first_by: OrderFirstBy) -> nat {
        match order_first_by {
            OrderFirstBy::Suit => self.suit.spec_index() * 13 + self.rank.spec_index(),
            OrderFirstBy::Rank => self.rank.spec_index() * 4 + self.suit.spec_index(),
        }
    }

    pub fn new(suit: Suit, rank: Rank) -> (r: Card)
        ensures
            r == (Card { rank, suit }),
    {
        Card { rank, suit }
    }

    pub fn ord_position(&self, order_first_by: OrderFirstBy) -> (r: u8)
        ensures
            r == self.spec_ord_position(order_first_by),
            r < 52,
    {
        match order_first_by {
            OrderFirstBy::Suit => self.suit.index() * 13 + self.rank.index(),
            OrderFirstBy::Rank => self.rank.index() * 4 + self.suit.index(),
        }
    }

    /// Compares two cards by their positions under `order_first_by`.
    pub fn cmp_ord_first_by(&self, other: &Card, order_first_by: OrderFirstBy) -> (r: Ordering)
        ensures
            r == ordering_of(
                self.spec_ord_position(order_first_by) as int,
                other.spec_ord_position(order_first_by) as int,
            ),
    {
        let a = self.ord_position(order_first_by);
        let b = other.ord_position(order_first_by);
        if a < b {
            Ordering::Less
        } else if a == b {
            Ordering::Equal
        } else {
            Ordering::Greater
        }
    }

    /// Reads a card from its characters: a rank symbol, then a suit symbol.
    pub fn from_chars(cs: &[char]) -> (r: Result<Card, Error>)
        ensures
            r == parse_card(cs@),
    {
        if cs.len() != 2 {
            return Err(Error::InvalidCardNotation);
        }
        let rank = match Rank::from_symbol(cs[0]) {
            Some(rank) => rank,
            None => return Err(Error::InvalidCardNotation),
        };
        let suit = match Suit::from_symbol(cs[1]) {
            Some(suit) => suit,
            None => return Err(Error::InvalidCardNotation),
        };
        Ok(Card { rank, suit })
    }

    /// Reads a card from its two-character notation, such as "Ac" or "Th".
    pub fn from_notation(s: &str) -> (r: Result<Card, Error>)
        ensures
            r == parse_card(s@),
    {
        if s.unicode_len() != 2 {
            return Err(Error::InvalidCardNotation);
        }
        let cs = vec![s.get_char(0), s.get_char(1)];
        proof {
            assert(cs@ =~= s@);
        }
        Card::from_chars(cs.as_slice())
    }

    /// The two-character notation of the card, such as "Ac".
    pub fn to_string(&self) -> (r: String)
        ensures
            r@ == card_notation(*self),
    {
        String::from_str(self.rank.symbol()).concat(self.suit.symbol())
    }
}

impl TryFrom<String> for Card {
    type Error = Error;

    fn try_from(s: String) -> (r: Result<Card, Error>) {
        Card::from_notation(s.as_str())
    }
}

impl vstd::std_specs::convert::TryFromSpecImpl<String> for Card {
    open spec fn obeys_try_from_spec() -> bool {
        true
    }

    open spec fn try_from_spec(s: String) -> Result<Card, Error> {
        parse_card(s@)
    }
}

} // verus!
