use crate::card::{card_notation, parse_card, Card, OrderFirstBy};
use crate::error::Error;
use vstd::prelude::*;
use vstd::string::*;

verus! {

/// An ordered sequence of cards: a player's hand or a shared board.
/// The container does not forbid a card from appearing twice.
#[derive(Debug, Clone)]
pub struct Hand {
    pub cards: Vec<Card>,
}

impl View for Hand {
    type V = Seq<Card>;

    open spec fn view(&self) -> Seq<Card> {
        self.cards@
    }
}

/// Whether `c` is white space in the sense of Unicode's White_Space property.
pub open spec fn is_space(c: char) -> bool {
    let u = c as u32;
    ||| u == 0x20
    ||| 0x09 <= u <= 0x0d
    ||| u == 0x85
    ||| u == 0xa0
    ||| u == 0x1680
    ||| 0x2000 <= u <= 0x200a
    ||| u == 0x2028
    ||| u == 0x2029
    ||| u == 0x202f
    ||| u == 0x205f
    ||| u == 0x3000
}

/// Reads `s` from the left: the words completed so far, and the word being read.
pub open spec fn split_words(s: Seq<char>) -> (Seq<Seq<char>>, Seq<char>)
    decreases s.len(),
{
    if s.len() == 0 {
        (Seq::empty(), Seq::empty())
    } else {
        let (done, cur) = split_words(s.drop_last());
        let c = s.last();
        if !is_space(c) {
            (done, cur.push(c))
        } else if cur.len() > 0 {
            (done.push(cur), Seq::empty())
        } else {
            (done, cur)
        }
    }
}

/// The maximal runs of non-space characters of `s`, in order.
pub open spec fn words(s: Seq<char>) -> Seq<Seq<char>> {
    let (done, cur) = split_words(s);
    if cur.len() > 0 {
        done.push(cur)
    } else {
        done
    }
}

/// Reads a hand from space-separated card notations; any token that is not a
/// card makes the whole string invalid.
pub open spec fn parse_hand(s: Seq<char>) -> Result<Seq<Card>, Error> {
    let ws = words(s);
    if forall|k: int| 0 <= k < ws.len() ==> #[trigger] parse_card(ws[k]) is Ok {
        Ok(ws.map_values(|w: Seq<char>| parse_card(w)->Ok_0))
    } else {
        Err(Error::InvalidCardNotation)
    }
}

/// The notations of the cards, separated by single spaces.
pub open spec fn hand_notation(cards: Seq<Card>) -> Seq<char>
    decreases cards.len(),
{
    if cards.len() == 0 {
        Seq::empty()
    } else if cards.len() == 1 {
        card_notation(cards[0])
    } else {
        hand_notation(cards.drop_last()) + seq![' '] + card_notation(cards.last())
    }
}

/// The cards are in ascending order of their positions under `order_first_by`.
pub open spec fn sorted_by(cards: Seq<Card>, order_first_by: OrderFirstBy) -> bool {
    forall|i: int, j: int|
        0 <= i < j < cards.len() ==> #[trigger] cards[i].spec_ord_position(order_first_by)
            <= #[trigger] cards[j].spec_ord_position(order_first_by)
}

fn is_space_char(c: char) -> (r: bool)
    ensures
        r == is_space(c),
{
    let u = c as u32;
    u == 0x20 || (0x09 <= u && u <= 0x0d) || u == 0x85 || u == 0xa0 || u == 0x1680 || (0x2000
        <= u && u <= 0x200a) || u == 0x2028 || u == 0x2029 || u == 0x202f || u == 0x205f || u
        == 0x3000
}

proof fn lemma_insert_to_multiset(s: Seq<Card>, j: int, c: Card)
    requires
        0 <= j <= s.len(),
    ensures
        s.insert(j, c).to_multiset() == s.to_multiset().insert(c),
{
    broadcast use vstd::seq_lib::group_to_multiset_ensures;

    let a = s.subrange(0, j);
    let b = s.subrange(j, s.len() as int);
    assert(s =~= a + b);
    vstd::seq_lib::lemma_multiset_commutative(a, b);
    vstd::seq_lib::lemma_multiset_commutative(a.push(c), b);
    assert(s.insert(j, c) == a.push(c) + b);
    assert(s.insert(j, c).to_multiset() =~= s.to_multiset().insert(c));
}

/// `cards` holds the cards of the words `done` unless one of them failed,
/// which `failed` records.
spec fn words_read(done: Seq<Seq<char>>, cards: Seq<Card>, failed: bool) -> bool {
    &&& failed == exists|k: int| 0 <= k < done.len() && #[trigger] parse_card(done[k]) is Err
    &&& !failed ==> cards == done.map_values(|w: Seq<char>| parse_card(w)->Ok_0)
}

/// Reads one more word.
fn read_word(
    word: &Vec<char>,
    cards: &mut Vec<Card>,
    failed: &mut bool,
    Ghost(done): Ghost<Seq<Seq<char>>>,
)
    requires
        words_read(done, old(cards)@, *old(failed)),
    ensures
        words_read(done.push(word@), final(cards)@, *final(failed)),
{
    let ghost next = done.push(word@);
    proof {
        assert(next[done.len() as int] == word@);
        assert forall|k: int| 0 <= k < done.len() implies #[trigger] next[k] == done[k] by {}
    }
    match Card::from_chars(word.as_slice()) {
        Ok(card) => {
            if !*failed {
                cards.push(card);
                proof {
                    assert(next.map_values(|w: Seq<char>| parse_card(w)->Ok_0) =~= done.map_values(
                        |w: Seq<char>| parse_card(w)->Ok_0,
                    ).push(card));
                    assert forall|k: int| 0 <= k < next.len() implies !(#[trigger] parse_card(
                        next[k],
                    ) is Err) by {
                        if k < done.len() {
                            assert(next[k] == done[k]);
                        }
                    }
                }
            } else {
                proof {
                    let k = choose|k: int| 0 <= k < done.len() && #[trigger] parse_card(done[k]) is Err;
                    assert(next[k] == done[k]);
                }
            }
        },
        Err(_) => {
            *failed = true;
            proof {
                assert(parse_card(next[done.len() as int]) is Err);
            }
        },
    }
}

impl Hand {
    pub fn new() -> (r: Hand)
        ensures
            r@ == Seq::<Card>::empty(),
    {
        Hand { cards: Vec::new() }
    }

    /// Sorts the cards in place by their positions under `order_first_by`;
    /// the cards themselves do not change.
    pub fn sort_cards(&mut self, order_first_by: OrderFirstBy)
        ensures
            final(self)@.to_multiset() == old(self)@.to_multiset(),
            sorted_by(final(self)@, order_first_by),
    {
        let ghost cards = self@;
        let mut sorted: Vec<Card> = Vec::new();
        let mut i: usize = 0;
        proof {
            broadcast use vstd::seq_lib::group_to_multiset_ensures;

            assert(cards.take(0) =~= Seq::<Card>::empty());
        }
        while i < self.cards.len()
            invariant
                cards == self@,
                i <= cards.len(),
                sorted@.to_multiset() == cards.take(i as int).to_multiset(),
                sorted_by(sorted@, order_first_by),
            decreases cards.len() - i,
        {
            let card = self.cards[i];
            let key = card.ord_position(order_first_by);
            // After the last card that does not come later than this one.
            let mut j: usize = sorted.len();
            while j > 0 && sorted[j - 1].ord_position(order_first_by) > key
                invariant
                    j <= sorted@.len(),
                    forall|k: int|
                        j <= k < sorted@.len() ==> #[trigger] sorted@[k].spec_ord_position(
                            order_first_by,
                        ) > key,
                decreases j,
            {
                j = j - 1;
            }
            proof {
                lemma_insert_to_multiset(sorted@, j as int, card);
                broadcast use vstd::seq_lib::group_to_multiset_ensures;

                assert(cards.take(i + 1) =~= cards.take(i as int).push(card));
                sorted@.insert_ensures(j as int, card);
            }
            let ghost before = sorted@;
            sorted.insert(j, card);
            proof {
                assert forall|a: int, b: int|
                    0 <= a < b < sorted@.len() implies #[trigger] sorted@[a].spec_ord_position(
                    order_first_by,
                ) <= #[trigger] sorted@[b].spec_ord_position(order_first_by) by {
                    if a < j && b > j {
                        assert(sorted@[b] == before[b - 1]);
                        assert(before[a].spec_ord_position(order_first_by) <= key);
                    } else if a > j {
                        assert(sorted@[a] == before[a - 1]);
                        assert(sorted@[b] == before[b - 1]);
                    } else if b > j {
                        assert(sorted@[b] == before[b - 1]);
                    }
                }
            }
            i = i + 1;
        }
        proof {
            assert(cards.take(cards.len() as int) =~= cards);
        }
        self.cards = sorted;
    }

    /// The notations of the cards separated by single spaces, such as "Kc 2d Jh".
    pub fn to_string(&self) -> (r: String)
        ensures
            r@ == hand_notation(self@),
    {
        let ghost cards = self@;
        let mut text = String::new();
        let mut i: usize = 0;
        while i < self.cards.len()
            invariant
                cards == self@,
                i <= cards.len(),
                text@ == hand_notation(cards.take(i as int)),
            decreases cards.len() - i,
        {
            let card = self.cards[i].to_string();
            proof {
                reveal_strlit(" ");
                assert(cards.take(i + 1).drop_last() =~= cards.take(i as int));
                assert(cards.take(i + 1).last() == cards[i as int]);
            }
            if i > 0 {
                text.append(" ");
            }
            text.append(card.as_str());
            proof {
                if i == 0 {
                    assert(text@ =~= hand_notation(cards.take(1)));
                } else {
                    assert(text@ =~= hand_notation(cards.take(i + 1)));
                }
            }
            i = i + 1;
        }
        proof {
            assert(cards.take(cards.len() as int) =~= cards);
        }
        text
    }

    /// Reads a hand from space-separated card notations, such as "2c Ts 9h".
    /// Surrounding and repeated white space is ignored; an empty string gives
    /// an empty hand.
    pub fn from_notation(s: &str) -> (r: Result<Hand, Error>)
        ensures
            match parse_hand(s@) {
                Ok(cards) => r matches Ok(h) && h@ == cards,
                Err(e) => r == Err::<Hand, Error>(e),
            },
    {
        let n = s.unicode_len();
        let mut cards: Vec<Card> = Vec::new();
        let mut word: Vec<char> = Vec::new();
        let mut failed = false;
        let ghost mut done: Seq<Seq<char>> = Seq::empty();
        let mut i: usize = 0;
        proof {
            assert(s@.take(0) =~= Seq::<char>::empty());
            assert(done.map_values(|w: Seq<char>| parse_card(w)->Ok_0) =~= cards@);
        }
        while i < n
            invariant
                n == s@.len(),
                i <= n,
                split_words(s@.take(i as int)) == (done, word@),
                words_read(done, cards@, failed),
            decreases n - i,
        {
            let c = s.get_char(i);
            proof {
                assert(s@.take(i + 1).drop_last() =~= s@.take(i as int));
            }
            if !is_space_char(c) {
                word.push(c);
            } else if word.len() > 0 {
                read_word(&word, &mut cards, &mut failed, Ghost(done));
                proof {
                    done = done.push(word@);
                }
                word = Vec::new();
            }
            i = i + 1;
        }
        proof {
            assert(s@.take(n as int) =~= s@);
        }
        if word.len() > 0 {
            read_word(&word, &mut cards, &mut failed, Ghost(done));
            proof {
                done = done.push(word@);
            }
        }
        proof {
            assert(done == words(s@));
        }
        if failed {
            Err(Error::InvalidCardNotation)
        } else {
            Ok(Hand { cards })
        }
    }
}

impl Default for Hand {
    fn default() -> (r: Hand)
        ensures
            r@ == Seq::<Card>::empty(),
    {
        Hand::new()
    }
}

impl PartialEq for Hand {
    fn eq(&self, other: &Hand) -> (r: bool) {
        if self.cards.len() != other.cards.len() {
            return false;
        }
        let mut i: usize = 0;
        while i < self.cards.len()
            invariant
                i <= self@.len(),
                self@.len() == other@.len(),
                forall|k: int| 0 <= k < i ==> #[trigger] self@[k] == other@[k],
            decreases self@.len() - i,
        {
            if self.cards[i] != other.cards[i] {
                return false;
            }
            i = i + 1;
        }
        proof {
            assert(self@ =~= other@);
        }
        true
    }
}

impl vstd::std_specs::cmp::PartialEqSpecImpl for Hand {
    open spec fn obeys_eq_spec() -> bool {
        true
    }

    open spec fn eq_spec(&self, other: &Hand) -> bool {
        self@ == other@
    }
}

impl Eq for Hand {
}

impl From<Vec<Card>> for Hand {
    fn from(cards: Vec<Card>) -> (r: Hand) {
        Hand { cards }
    }
}

impl vstd::std_specs::convert::FromSpecImpl<Vec<Card>> for Hand {
    open spec fn obeys_from_spec() -> bool {
        true
    }

    open spec fn from_spec(cards: Vec<Card>) -> Hand {
        Hand { cards }
    }
}

impl<'a> TryFrom<&'a str> for Hand {
    type Error = Error;

    /// Reads a hand as `Hand::from_notation` does.
    fn try_from(s: &'a str) -> (r: Result<Hand, Error>)
        ensures
            match parse_hand(s@) {
                Ok(cards) => r matches Ok(h) && h@ == cards,
                Err(e) => r == Err::<Hand, Error>(e),
            },
    {
        Hand::from_notation(s)
    }
}

/// A spec function cannot build the `Vec` of a hand from its cards, so the
/// generic `try_from_spec` is not used; `try_from` states its result above.
impl<'a> vstd::std_specs::convert::TryFromSpecImpl<&'a str> for Hand {
    open spec fn obeys_try_from_spec() -> bool {
        false
    }

    open spec fn try_from_spec(s: &'a str) -> Result<Hand, Error> {
        match parse_hand(s@) {
            Ok(cards) => Ok(choose|h: Hand| h@ == cards),
            Err(e) => Err(e),
        }
    }
}

} // verus!
