use libcoinche::cards::{Card, Deck, Hand, Rank, Suit};

#[test]
fn test_cards() {
    for i in 0..32 {
        let card = Card::from_id(i);
        assert!(i == card.id());
    }

    for s in 0..4 {
        let suit = Suit::from_n(s);
        for r in 0..8 {
            let rank = Rank::from_n(r);
            let card = Card::new(suit, rank);
            assert!(card.rank() == rank);
            assert!(card.suit() == suit);
        }
    }
}

#[test]
fn test_hand() {
    let mut hand = Hand::new();

    let cards: Vec<Card> = vec![
        Card::new(Suit::Heart, Rank::Rank7),
        Card::new(Suit::Heart, Rank::Rank8),
        Card::new(Suit::Spade, Rank::Rank9),
        Card::new(Suit::Spade, Rank::RankJ),
        Card::new(Suit::Club, Rank::RankQ),
        Card::new(Suit::Club, Rank::RankK),
        Card::new(Suit::Diamond, Rank::RankX),
        Card::new(Suit::Diamond, Rank::RankA),
    ];

    assert!(hand.is_empty());

    for card in cards.iter() {
        assert!(!hand.has(*card));
        hand.add(*card);
        assert!(hand.has(*card));
    }

    assert!(hand.size() == cards.len());

    for card in cards.iter() {
        assert!(hand.has(*card));
        hand.remove(*card);
        assert!(!hand.has(*card));
    }
}

#[test]
fn test_deck() {
    let mut deck = Deck::new();
    deck.shuffle();

    assert!(deck.len() == 32);

    let mut count = [0; 32];
    while !deck.is_empty() {
        let card = deck.draw();
        count[card.id() as usize] += 1;
    }

    for c in count.iter() {
        assert!(*c == 1);
    }
}

#[test]
fn test_get_card_lowest() {
    let mut hand = Hand::new();
    hand.add(Card::new(Suit::Diamond, Rank::RankA));
    hand.add(Card::new(Suit::Spade, Rank::RankQ));
    hand.add(Card::new(Suit::Club, Rank::Rank7));
    // the spade queen has the lowest dense number of the three
    assert_eq!(hand.get_card(), Card::new(Suit::Spade, Rank::RankQ));
}

#[test]
fn test_hand_list_sorted() {
    let mut hand = Hand::new();
    hand.add(Card::new(Suit::Club, Rank::RankA));
    hand.add(Card::new(Suit::Heart, Rank::Rank7));
    hand.add(Card::new(Suit::Diamond, Rank::RankK));
    let l = hand.list();
    assert_eq!(l.len(), 3);
    assert_eq!(l[0], Card::new(Suit::Heart, Rank::Rank7));
    assert_eq!(l[1], Card::new(Suit::Diamond, Rank::RankK));
    assert_eq!(l[2], Card::new(Suit::Club, Rank::RankA));
    let mut h2 = hand;
    h2.clean();
    assert!(h2.is_empty());
    assert_eq!(hand.size(), 3);
}

#[test]
fn test_has_any_suit() {
    let mut hand = Hand::new();
    hand.add(Card::new(Suit::Spade, Rank::Rank9));
    hand.add(Card::new(Suit::Spade, Rank::RankA));
    assert!(hand.has_any(Suit::Spade));
    assert!(!hand.has_any(Suit::Heart));
    assert!(!hand.has_any(Suit::Diamond));
    hand.remove(Card::new(Suit::Spade, Rank::Rank9));
    hand.remove(Card::new(Suit::Spade, Rank::RankA));
    assert!(!hand.has_any(Suit::Spade));
}

#[test]
fn test_card_strings() {
    assert_eq!(Suit::Heart.to_string(), "\u{2665}");
    assert_eq!(Suit::Club.to_string(), "\u{2663}");
    assert_eq!(Rank::RankX.to_string(), "X");
    assert_eq!(Card::new(Suit::Diamond, Rank::Rank7).to_string(), "7\u{2666}");
    let mut hand = Hand::new();
    hand.add(Card::new(Suit::Heart, Rank::Rank7));
    hand.add(Card::new(Suit::Heart, Rank::Rank8));
    assert_eq!(hand.to_string(), "[7\u{2665},8\u{2665},]");
}

#[test]
fn test_suit_from_str() {
    assert_eq!("H".parse::<Suit>(), Ok(Suit::Heart));
    assert_eq!("heart".parse::<Suit>(), Ok(Suit::Heart));
    assert_eq!("Spade".parse::<Suit>(), Ok(Suit::Spade));
    assert_eq!("d".parse::<Suit>(), Ok(Suit::Diamond));
    assert_eq!("club".parse::<Suit>(), Ok(Suit::Club));
    assert_eq!("x".parse::<Suit>(), Err("invalid suit: x".to_owned()));
}

#[test]
fn test_deck_new_sorted() {
    let mut deck = Deck::new();
    assert!(!deck.is_empty());
    assert_eq!(deck.len(), 32);
    // the deck is created in dense-number order, drawn from the top
    let top = deck.draw();
    assert_eq!(top.id(), 31);
    assert_eq!(deck.len(), 31);
}
