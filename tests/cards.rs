use lambda_calculus::cards::{Card, Cards, CardsError, Deck, Rank, Suit};

#[test]
fn ranks_by_name_in_any_case() {
    assert_eq!(Rank::new_safe("Ace"), Ok(Rank::Ace));
    assert_eq!(Rank::new_safe("TEN"), Ok(Rank::Ten));
    assert_eq!(Rank::new_safe("joker"), Ok(Rank::Joker));
    assert_eq!(Rank::new("queen"), Rank::Queen);
    assert_eq!(Rank::new_safe("eleven"), Err(CardsError::InvalidRank));
    assert_eq!(Rank::new_safe(""), Err(CardsError::InvalidRank));
}

#[test]
fn suits_by_name_in_any_case() {
    assert_eq!(Suit::new_safe("Hearts"), Ok(Suit::Hearts));
    assert_eq!(Suit::new("SPADES"), Suit::Spades);
    assert_eq!(Suit::new_safe("stars"), Err(CardsError::InvalidSuit));
}

#[test]
fn ranks_are_ordered() {
    assert!(Rank::Two < Rank::Three);
    assert!(Rank::King < Rank::Ace);
    assert!(Rank::Ace < Rank::Joker);
}

#[test]
fn fresh_deck_order() {
    let deck = Deck::new();
    assert_eq!(deck.size(), 52);
    assert_eq!(deck.cards[0], Card::new(Rank::Two, Some(Suit::Spades)));
    assert_eq!(deck.cards[12], Card::new(Rank::Ace, Some(Suit::Spades)));
    assert_eq!(deck.cards[13], Card::new(Rank::Two, Some(Suit::Hearts)));
    assert_eq!(deck.cards[51], Card::new(Rank::Ace, Some(Suit::Clubs)));
}

#[test]
fn deck_with_joker_on_top() {
    let mut deck = Deck::new_with_joker();
    assert_eq!(deck.size(), 53);
    assert_eq!(deck.draw1(), Ok(Card::new(Rank::Joker, None)));
    assert_eq!(deck.size(), 52);
}

#[test]
fn drawing_takes_from_the_top() {
    let mut deck = Deck::new();
    let hand = deck.draw(3);
    assert_eq!(hand.len(), 3);
    assert_eq!(hand[0], Card::new(Rank::Ace, Some(Suit::Clubs)));
    assert_eq!(hand[1], Card::new(Rank::King, Some(Suit::Clubs)));
    assert_eq!(hand[2], Card::new(Rank::Queen, Some(Suit::Clubs)));
    assert_eq!(deck.size(), 49);
}

#[test]
fn drawing_from_an_empty_pile() {
    let mut pile = Cards { cards: vec![] };
    assert_eq!(pile.draw1(), Err(CardsError::EmptyDeck));
    assert_eq!(pile.draw(0).len(), 0);
}

#[test]
fn shuffling_keeps_the_cards() {
    let mut deck = Deck::new();
    deck.shuffle();
    assert_eq!(deck.size(), 52);
    let fresh = Deck::new();
    for card in fresh.cards.iter() {
        assert!(deck.cards.contains(card));
    }
}

#[test]
fn showing_cards() {
    assert_eq!(Rank::Ten.to_string(), "10");
    assert_eq!(Suit::Hearts.to_string(), "♥");
    assert_eq!(Card::new(Rank::Queen, Some(Suit::Spades)).to_string(), "Q♠");
    assert_eq!(Card::new(Rank::Joker, None).to_string(), "Jkr");
    let pile = Cards { cards: vec![Card::new(Rank::Two, Some(Suit::Clubs)), Card::new(Rank::Ace, Some(Suit::Diamonds))] };
    assert_eq!(pile.to_string(), "2♣, A♦");
    assert_eq!(Cards { cards: vec![] }.to_string(), "");
}
