use libcoinche::{deal_hands, deal_seeded_hands};

#[test]
fn test_deals() {
    let hands = deal_hands();

    let mut count = [0; 32];
    for hand in hands.iter() {
        assert!(hand.size() == 8);
        for card in hand.list().iter() {
            count[card.id() as usize] += 1;
        }
    }

    for c in count.iter() {
        assert!(*c == 1);
    }
}

#[test]
fn test_seeded_deals() {
    // the dealt hands partition the deck, and a seed pins them down
    let seed = &[1, 2, 3, 4, 5];
    let hands = deal_seeded_hands(seed);

    let mut count = [0; 32];
    for hand in hands.iter() {
        assert!(hand.size() == 8);
        for card in hand.list().iter() {
            count[card.id() as usize] += 1;
        }
    }
    for c in count.iter() {
        assert!(*c == 1);
    }

    let again = deal_seeded_hands(seed);
    for i in 0..4 {
        assert_eq!(hands[i], again[i]);
    }

    let other = deal_seeded_hands(&[9, 9, 9]);
    assert_eq!(other.iter().map(|h| h.size()).sum::<usize>(), 32);
}
