use vstd::prelude::*;
use vstd::string::StringExecFns;
use rand::seq::SliceRandom;

verus! {

/// The rank of a playing card, ordered from two up to the joker.
#[derive(Debug, PartialEq, Eq, PartialOrd, Ord, Clone, Copy, Structural)]
pub enum Rank {
    Two,
    Three,
    Four,
    Five,
    Six,
    Seven,
    Eight,
    Nine,
    Ten,
    Jack,
    Queen,
    King,
    Ace,
    Joker,
}

/// The suit of a playing card.
#[derive(Debug, PartialEq, Eq, Clone, Copy, Structural)]
pub enum Suit {
    Spades,
    Clubs,
    Diamonds,
    Hearts,
}

/// A card: a rank, and a suit for every card but the joker.
#[derive(Debug, PartialEq, Eq, Clone, Copy, Structural)]
pub struct Card {
    pub rank: Rank,
    pub suit: Option<Suit>,
}

/// An ordered pile of cards; the last card is the top one.
#[derive(Debug)]
pub struct Cards {
    pub cards: Vec<Card>,
}

pub type Deck = Cards;

pub type Hand = Cards;

/// Why a card operation failed.
#[derive(Debug, PartialEq, Eq, Clone, Copy, Structural)]
pub enum CardsError {
    InvalidRank,
    InvalidSuit,
    EmptyDeck,
}

/// The lowercase form of a string, as `str::to_lowercase` gives it.
pub uninterp spec fn lowercase_of(s: Seq<char>) -> Seq<char>;

/// Relies on `str::to_lowercase`: the lowercase mapping of each character,
/// which depends on the characters alone.
#[verifier::external_body]
fn lowercase(s: &str) -> (r: String)
    ensures
        r@ == lowercase_of(s@),
{
    s.to_lowercase()
}

/// Relies on `rand::seq::SliceRandom::shuffle`, which only swaps elements,
/// with the generator of `rand::thread_rng`: the cards are permuted. The
/// generator panics only when the operating system cannot seed it.
#[verifier::external_body]
fn shuffle_cards(cards: &mut Vec<Card>)
    ensures
        final(cards)@.to_multiset() == old(cards)@.to_multiset(),
{
    cards.shuffle(&mut rand::thread_rng())
}

/// Whether `s` spells the word `w`.
fn spells(s: &String, w: &str) -> (r: bool)
    ensures
        r == (s@ == w@),
{
    *s == w.to_owned()
}

/// The rank whose lowercase English name is `name`.
pub open spec fn rank_named(name: Seq<char>) -> Result<Rank, CardsError> {
    if name == "ace"@ {
        Ok(Rank::Ace)
    } else if name == "two"@ {
        Ok(Rank::Two)
    } else if name == "three"@ {
        Ok(Rank::Three)
    } else if name == "four"@ {
        Ok(Rank::Four)
    } else if name == "five"@ {
        Ok(Rank::Five)
    } else if name == "six"@ {
        Ok(Rank::Six)
    } else if name == "seven"@ {
        Ok(Rank::Seven)
    } else if name == "eight"@ {
        Ok(Rank::Eight)
    } else if name == "nine"@ {
        Ok(Rank::Nine)
    } else if name == "ten"@ {
        Ok(Rank::Ten)
    } else if name == "jack"@ {
        Ok(Rank::Jack)
    } else if name == "queen"@ {
        Ok(Rank::Queen)
    } else if name == "king"@ {
        Ok(Rank::King)
    } else if name == "joker"@ {
        Ok(Rank::Joker)
    } else {
        Err(CardsError::InvalidRank)
    }
}

/// The suit whose lowercase English name is `name`.
pub open spec fn suit_named(name: Seq<char>) -> Result<Suit, CardsError> {
    if name == "spades"@ {
        Ok(Suit::Spades)
    } else if name == "clubs"@ {
        Ok(Suit::Clubs)
    } else if name == "diamonds"@ {
        Ok(Suit::Diamonds)
    } else if name == "hearts"@ {
        Ok(Suit::Hearts)
    } else {
        Err(CardsError::InvalidSuit)
    }
}

impl Rank {
    /// The rank named by `name`, which is already in lowercase.
    pub fn from_lowercase(name: &String) -> (r: Result<Rank, CardsError>)
        ensures
            r == rank_named(name@),
    {
        if spells(name, "ace") {
            Ok(Rank::Ace)
        } else if spells(name, "two") {
            Ok(Rank::Two)
        } else if spells(name, "three") {
            Ok(Rank::Three)
        } else if spells(name, "four") {
            Ok(Rank::Four)
        } else if spells(name, "five") {
            Ok(Rank::Five)
        } else if spells(name, "six") {
            Ok(Rank::Six)
        } else if spells(name, "seven") {
            Ok(Rank::Seven)
        } else if spells(name, "eight") {
            Ok(Rank::Eight)
        } else if spells(name, "nine") {
            Ok(Rank::Nine)
        } else if spells(name, "ten") {
            Ok(Rank::Ten)
        } else if spells(name, "jack") {
            Ok(Rank::Jack)
        } else if spells(name, "queen") {
            Ok(Rank::Queen)
        } else if spells(name, "king") {
            Ok(Rank::King)
        } else if spells(name, "joker") {
            Ok(Rank::Joker)
        } else {
            Err(CardsError::InvalidRank)
        }
    }

    /// The rank named by `rank`, in any letter case.
    pub fn new_safe(rank: &str) -> (r: Result<Rank, CardsError>)
        ensures
            r == rank_named(lowercase_of(rank@)),
    {
        Rank::from_lowercase(&lowercase(rank))
    }

    /// The rank named by `rank`, which must name one.
    pub fn new(rank: &str) -> (r: Rank)
        requires
            rank_named(lowercase_of(rank@)) is Ok,
        ensures
            Ok::<Rank, CardsError>(r) == rank_named(lowercase_of(rank@)),
    {
        match Rank::new_safe(rank) {
            Ok(r) => r,
            Err(_) => Rank::Joker,
        }
    }
}

impl Suit {
    /// The suit named by `name`, which is already in lowercase.
    pub fn from_lowercase(name: &String) -> (r: Result<Suit, CardsError>)
        ensures
            r == suit_named(name@),
    {
        if spells(name, "spades") {
            Ok(Suit::Spades)
        } else if spells(name, "clubs") {
            Ok(Suit::Clubs)
        } else if spells(name, "diamonds") {
            Ok(Suit::Diamonds)
        } else if spells(name, "hearts") {
            Ok(Suit::Hearts)
        } else {
            Err(CardsError::InvalidSuit)
        }
    }

    /// The suit named by `suit`, in any letter case.
    pub fn new_safe(suit: &str) -> (r: Result<Suit, CardsError>)
        ensures
            r == suit_named(lowercase_of(suit@)),
    {
        Suit::from_lowercase(&lowercase(suit))
    }

    /// The suit named by `suit`, which must name one.
    pub fn new(suit: &str) -> (r: Suit)
        requires
            suit_named(lowercase_of(suit@)) is Ok,
        ensures
            Ok::<Suit, CardsError>(r) == suit_named(lowercase_of(suit@)),
    {
        match Suit::new_safe(suit) {
            Ok(s) => s,
            Err(_) => Suit::Spades,
        }
    }
}

impl Card {
    pub fn new(rank: Rank, suit: Option<Suit>) -> (r: Card)
        ensures
            r == (Card { rank, suit }),
    {
        Card { rank, suit }
    }
}

/// The `k`-th rank of a suit in a fresh deck, from two up to the ace.
pub open spec fn rank_at(k: int) -> Rank {
    if k == 0 {
        Rank::Two
    } else if k == 1 {
        Rank::Three
    } else if k == 2 {
        Rank::Four
    } else if k == 3 {
        Rank::Five
    } else if k == 4 {
        Rank::Six
    } else if k == 5 {
        Rank::Seven
    } else if k == 6 {
        Rank::Eight
    } else if k == 7 {
        Rank::Nine
    } else if k == 8 {
        Rank::Ten
    } else if k == 9 {
        Rank::Jack
    } else if k == 10 {
        Rank::Queen
    } else if k == 11 {
        Rank::King
    } else {
        Rank::Ace
    }
}

/// The `k`-th suit of a fresh deck.
pub open spec fn suit_at(k: int) -> Suit {
    if k == 0 {
        Suit::Spades
    } else if k == 1 {
        Suit::Hearts
    } else if k == 2 {
        Suit::Diamonds
    } else {
        Suit::Clubs
    }
}

/// The `i`-th card of a fresh deck: suit by suit, each from two up to the ace.
pub open spec fn standard_card(i: int) -> Card {
    Card { rank: rank_at(i % 13), suit: Some(suit_at(i / 13)) }
}

/// The 52 cards of a fresh deck, in order.
pub open spec fn standard_deck() -> Seq<Card> {
    Seq::new(52, |i: int| standard_card(i))
}

fn nth_rank(k: usize) -> (r: Rank)
    ensures
        r == rank_at(k as int),
{
    if k == 0 {
        Rank::Two
    } else if k == 1 {
        Rank::Three
    } else if k == 2 {
        Rank::Four
    } else if k == 3 {
        Rank::Five
    } else if k == 4 {
        Rank::Six
    } else if k == 5 {
        Rank::Seven
    } else if k == 6 {
        Rank::Eight
    } else if k == 7 {
        Rank::Nine
    } else if k == 8 {
        Rank::Ten
    } else if k == 9 {
        Rank::Jack
    } else if k == 10 {
        Rank::Queen
    } else if k == 11 {
        Rank::King
    } else {
        Rank::Ace
    }
}

fn nth_suit(k: usize) -> (r: Suit)
    ensures
        r == suit_at(k as int),
{
    if k == 0 {
        Suit::Spades
    } else if k == 1 {
        Suit::Hearts
    } else if k == 2 {
        Suit::Diamonds
    } else {
        Suit::Clubs
    }
}

impl Deck {
    /// A fresh deck of the 52 suited cards.
    pub fn new() -> (r: Deck)
        ensures
            r.cards@ == standard_deck(),
    {
        let mut cards: Vec<Card> = Vec::with_capacity(53);
        let mut s: usize = 0;
        while s < 4
            invariant
                s <= 4,
                cards@.len() == 13 * s,
                forall|j: int| 0 <= j < cards@.len() ==> #[trigger] cards@[j] == standard_card(j),
            decreases 4 - s,
        {
            let suit = nth_suit(s);
            let mut k: usize = 0;
            while k < 13
                invariant
                    s < 4,
                    k <= 13,
                    suit == suit_at(s as int),
                    cards@.len() == 13 * s + k,
                    forall|j: int| 0 <= j < cards@.len() ==> #[trigger] cards@[j] == standard_card(j),
                decreases 13 - k,
            {
                let ghost i = 13 * s + k;
                assert(i % 13 == k && i / 13 == s) by (nonlinear_arith)
                    requires
                        i == 13 * s + k,
                        k < 13,
                ;
                cards.push(Card::new(nth_rank(k), Some(suit)));
                k = k + 1;
            }
            s = s + 1;
        }
        assert(cards@ =~= standard_deck());
        Deck { cards }
    }

    /// A fresh deck with the joker on top.
    pub fn new_with_joker() -> (r: Deck)
        ensures
            r.cards@ == standard_deck().push(Card { rank: Rank::Joker, suit: None }),
    {
        let mut deck = Deck::new();
        deck.cards.push(Card::new(Rank::Joker, None));
        deck
    }

    /// Puts the cards in a random order.
    pub fn shuffle(&mut self)
        ensures
            final(self).cards@.to_multiset() == old(self).cards@.to_multiset(),
    {
        shuffle_cards(&mut self.cards);
    }

    /// The number of cards.
    pub fn size(&self) -> (r: usize)
        ensures
            r == self.cards@.len(),
    {
        self.cards.len()
    }

    /// Takes the top card, or fails when there is none.
    pub fn draw1(&mut self) -> (r: Result<Card, CardsError>)
        ensures
            old(self).cards@.len() == 0 ==> {
                &&& r == Err::<Card, CardsError>(CardsError::EmptyDeck)
                &&& final(self).cards@ == old(self).cards@
            },
            old(self).cards@.len() > 0 ==> {
                &&& r == Ok::<Card, CardsError>(old(self).cards@.last())
                &&& final(self).cards@ == old(self).cards@.drop_last()
            },
    {
        if self.size() == 0 {
            Err(CardsError::EmptyDeck)
        } else {
            match self.cards.pop() {
                Some(c) => Ok(c),
                None => Err(CardsError::EmptyDeck),
            }
        }
    }

    /// Takes `number` cards from the top, the top one first.
    pub fn draw(&mut self, number: usize) -> (r: Vec<Card>)
        requires
            number <= old(self).cards@.len(),
        ensures
            final(self).cards@ == old(self).cards@.subrange(0, old(self).cards@.len() - number),
            r@.len() == number,
            forall|i: int| 0 <= i < number ==> #[trigger] r@[i] == old(self).cards@[old(self).cards@.len() - 1 - i],
    {
        let mut drawn: Vec<Card> = Vec::with_capacity(number);
        let ghost start = self.cards@;
        let mut i: usize = 0;
        while i < number
            invariant
                i <= number,
                number <= start.len(),
                self.cards@ == start.subrange(0, start.len() - i),
                drawn@.len() == i,
                forall|j: int| 0 <= j < i ==> #[trigger] drawn@[j] == start[start.len() - 1 - j],
            decreases number - i,
        {
            match self.draw1() {
                Ok(c) => drawn.push(c),
                Err(_) => {},
            }
            i = i + 1;
        }
        drawn
    }
}

/// How a suit is shown.
pub open spec fn suit_symbol(s: Suit) -> Seq<char> {
    match s {
        Suit::Spades => "\u{2660}"@,
        Suit::Clubs => "\u{2663}"@,
        Suit::Diamonds => "\u{2666}"@,
        Suit::Hearts => "\u{2665}"@,
    }
}

/// How a rank is shown.
pub open spec fn rank_symbol(r: Rank) -> Seq<char> {
    match r {
        Rank::Two => "2"@,
        Rank::Three => "3"@,
        Rank::Four => "4"@,
        Rank::Five => "5"@,
        Rank::Six => "6"@,
        Rank::Seven => "7"@,
        Rank::Eight => "8"@,
        Rank::Nine => "9"@,
        Rank::Ten => "10"@,
        Rank::Jack => "J"@,
        Rank::Queen => "Q"@,
        Rank::King => "K"@,
        Rank::Ace => "A"@,
        Rank::Joker => "Jkr"@,
    }
}

/// A card can be shown: the joker needs no suit, every other card has one.
pub open spec fn showable(c: Card) -> bool {
    c.rank != Rank::Joker ==> c.suit is Some
}

/// How a card is shown: its rank, then its suit unless it is the joker.
pub open spec fn card_text(c: Card) -> Seq<char> {
    if c.rank == Rank::Joker {
        rank_symbol(c.rank)
    } else {
        rank_symbol(c.rank) + suit_symbol(c.suit->Some_0)
    }
}

/// How a pile of cards is shown: each card, separated by a comma and a space.
pub open spec fn cards_text(cs: Seq<Card>) -> Seq<char>
    decreases cs.len(),
{
    if cs.len() == 0 {
        Seq::empty()
    } else if cs.len() == 1 {
        card_text(cs[0])
    } else {
        cards_text(cs.drop_last()) + ", "@ + card_text(cs.last())
    }
}

impl Suit {
    /// The suit's symbol.
    pub fn to_string(&self) -> (r: String)
        ensures
            r@ == suit_symbol(*self),
    {
        match self {
            Suit::Spades => "\u{2660}".to_owned(),
            Suit::Clubs => "\u{2663}".to_owned(),
            Suit::Diamonds => "\u{2666}".to_owned(),
            Suit::Hearts => "\u{2665}".to_owned(),
        }
    }
}

impl Rank {
    /// The rank's symbol.
    pub fn to_string(&self) -> (r: String)
        ensures
            r@ == rank_symbol(*self),
    {
        match self {
            Rank::Two => "2".to_owned(),
            Rank::Three => "3".to_owned(),
            Rank::Four => "4".to_owned(),
            Rank::Five => "5".to_owned(),
            Rank::Six => "6".to_owned(),
            Rank::Seven => "7".to_owned(),
            Rank::Eight => "8".to_owned(),
            Rank::Nine => "9".to_owned(),
            Rank::Ten => "10".to_owned(),
            Rank::Jack => "J".to_owned(),
            Rank::Queen => "Q".to_owned(),
            Rank::King => "K".to_owned(),
            Rank::Ace => "A".to_owned(),
            Rank::Joker => "Jkr".to_owned(),
        }
    }
}

impl Card {
    /// The card's rank symbol, followed by its suit symbol unless it is the joker.
    pub fn to_string(&self) -> (r: String)
        requires
            showable(*self),
        ensures
            r@ == card_text(*self),
    {
        let mut text = self.rank.to_string();
        if self.rank != Rank::Joker {
            if let Some(suit) = self.suit {
                text.append(suit.to_string().as_str());
            }
        }
        text
    }
}

impl Deck {
    /// The cards from bottom to top, separated by a comma and a space.
    pub fn to_string(&self) -> (r: String)
        requires
            forall|i: int| 0 <= i < self.cards@.len() ==> showable(#[trigger] self.cards@[i]),
        ensures
            r@ == cards_text(self.cards@),
    {
        let mut text = String::new();
        let mut i: usize = 0;
        while i < self.cards.len()
            invariant
                i <= self.cards@.len(),
                forall|j: int| 0 <= j < self.cards@.len() ==> showable(#[trigger] self.cards@[j]),
                text@ == cards_text(self.cards@.subrange(0, i as int)),
            decreases self.cards@.len() - i,
        {
            if i != 0 {
                text.append(", ");
            }
            text.append(self.cards[i].to_string().as_str());
            proof {
                let next = self.cards@.subrange(0, i + 1);
                assert(next.drop_last() =~= self.cards@.subrange(0, i as int));
                if i == 0 {
                    assert(next.len() == 1);
                }
            }
            i = i + 1;
        }
        assert(self.cards@.subrange(0, self.cards@.len() as int) =~= self.cards@);
        text
    }
}

} // verus!
