use libcoinche::bid;
use libcoinche::cards;
use libcoinche::game::{has_higher, GameResult, GameState, PlayError, TrickResult};
use libcoinche::points;
use libcoinche::pos;

#[test]
fn test_play_card() {
    let mut hands = [cards::Hand::new(); 4];
    hands[0].add(cards::Card::new(cards::Suit::Heart, cards::Rank::Rank8));
    hands[0].add(cards::Card::new(cards::Suit::Heart, cards::Rank::RankX));
    hands[0].add(cards::Card::new(cards::Suit::Heart, cards::Rank::RankA));
    hands[0].add(cards::Card::new(cards::Suit::Heart, cards::Rank::Rank9));
    hands[0].add(cards::Card::new(cards::Suit::Club, cards::Rank::Rank7));
    hands[0].add(cards::Card::new(cards::Suit::Club, cards::Rank::Rank8));
    hands[0].add(cards::Card::new(cards::Suit::Club, cards::Rank::Rank9));
    hands[0].add(cards::Card::new(cards::Suit::Club, cards::Rank::RankJ));

    hands[1].add(cards::Card::new(cards::Suit::Club, cards::Rank::RankQ));
    hands[1].add(cards::Card::new(cards::Suit::Club, cards::Rank::RankK));
    hands[1].add(cards::Card::new(cards::Suit::Club, cards::Rank::RankX));
    hands[1].add(cards::Card::new(cards::Suit::Club, cards::Rank::RankA));
    hands[1].add(cards::Card::new(cards::Suit::Spade, cards::Rank::Rank7));
    hands[1].add(cards::Card::new(cards::Suit::Spade, cards::Rank::Rank8));
    hands[1].add(cards::Card::new(cards::Suit::Spade, cards::Rank::Rank9));
    hands[1].add(cards::Card::new(cards::Suit::Spade, cards::Rank::RankJ));

    hands[2].add(cards::Card::new(cards::Suit::Diamond, cards::Rank::Rank7));
    hands[2].add(cards::Card::new(cards::Suit::Diamond, cards::Rank::Rank8));
    hands[2].add(cards::Card::new(cards::Suit::Diamond, cards::Rank::Rank9));
    hands[2].add(cards::Card::new(cards::Suit::Diamond, cards::Rank::RankJ));
    hands[2].add(cards::Card::new(cards::Suit::Spade, cards::Rank::RankQ));
    hands[2].add(cards::Card::new(cards::Suit::Spade, cards::Rank::RankK));
    hands[2].add(cards::Card::new(cards::Suit::Heart, cards::Rank::RankQ));
    hands[2].add(cards::Card::new(cards::Suit::Heart, cards::Rank::RankK));

    hands[3].add(cards::Card::new(cards::Suit::Diamond, cards::Rank::RankQ));
    hands[3].add(cards::Card::new(cards::Suit::Diamond, cards::Rank::RankK));
    hands[3].add(cards::Card::new(cards::Suit::Diamond, cards::Rank::RankX));
    hands[3].add(cards::Card::new(cards::Suit::Diamond, cards::Rank::RankA));
    hands[3].add(cards::Card::new(cards::Suit::Spade, cards::Rank::RankX));
    hands[3].add(cards::Card::new(cards::Suit::Spade, cards::Rank::RankA));
    hands[3].add(cards::Card::new(cards::Suit::Heart, cards::Rank::Rank7));
    hands[3].add(cards::Card::new(cards::Suit::Heart, cards::Rank::RankJ));

    let contract = bid::Contract {
        trump: cards::Suit::Heart,
        author: pos::PlayerPos::P0,
        target: bid::Target::Contract80,
        coinche_level: 0,
    };

    let mut game = GameState::new(pos::PlayerPos::P0, hands, contract);

    // Wrong turn
    assert_eq!(
        game.play_card(
            pos::PlayerPos::P1,
            cards::Card::new(cards::Suit::Club, cards::Rank::RankX)
        )
        .err(),
        Some(PlayError::TurnError)
    );
    assert_eq!(
        game.play_card(
            pos::PlayerPos::P0,
            cards::Card::new(cards::Suit::Club, cards::Rank::Rank7)
        )
        .ok(),
        Some(TrickResult::Nothing)
    );
    // Card missing
    assert_eq!(
        game.play_card(
            pos::PlayerPos::P1,
            cards::Card::new(cards::Suit::Heart, cards::Rank::Rank7)
        )
        .err(),
        Some(PlayError::CardMissing)
    );
    // Wrong color
    assert_eq!(
        game.play_card(
            pos::PlayerPos::P1,
            cards::Card::new(cards::Suit::Spade, cards::Rank::Rank7)
        )
        .err(),
        Some(PlayError::IncorrectSuit)
    );
    assert_eq!(
        game.play_card(
            pos::PlayerPos::P1,
            cards::Card::new(cards::Suit::Club, cards::Rank::RankQ)
        )
        .ok(),
        Some(TrickResult::Nothing)
    );
    // Invalid piss
    assert_eq!(
        game.play_card(
            pos::PlayerPos::P2,
            cards::Card::new(cards::Suit::Diamond, cards::Rank::Rank7)
        )
        .err(),
        Some(PlayError::InvalidPiss)
    );
    assert_eq!(
        game.play_card(
            pos::PlayerPos::P2,
            cards::Card::new(cards::Suit::Heart, cards::Rank::RankQ)
        )
        .ok(),
        Some(TrickResult::Nothing)
    );
    // UnderTrump
    assert_eq!(
        game.play_card(
            pos::PlayerPos::P3,
            cards::Card::new(cards::Suit::Heart, cards::Rank::Rank7)
        )
        .err(),
        Some(PlayError::NonRaisedTrump)
    );
    assert_eq!(
        game.play_card(
            pos::PlayerPos::P3,
            cards::Card::new(cards::Suit::Heart, cards::Rank::RankJ)
        )
        .ok(),
        Some(TrickResult::TrickOver(
            pos::PlayerPos::P3,
            game.get_game_result()
        ))
    );
}

#[test]
fn test_has_higher_1() {
    // Simple case: X is always higher than Q.
    let mut hand = cards::Hand::new();

    hand.add(cards::Card::new(cards::Suit::Heart, cards::Rank::Rank8));
    hand.add(cards::Card::new(cards::Suit::Spade, cards::Rank::RankX));
    assert!(has_higher(
        hand,
        cards::Suit::Spade,
        points::trump_strength(cards::Rank::RankQ)
    ));
}

#[test]
fn test_has_higher_2() {
    // Test that we don't mix colors
    let mut hand = cards::Hand::new();

    hand.add(cards::Card::new(cards::Suit::Heart, cards::Rank::Rank8));
    hand.add(cards::Card::new(cards::Suit::Spade, cards::Rank::RankX));
    assert!(!has_higher(
        hand,
        cards::Suit::Heart,
        points::trump_strength(cards::Rank::RankQ)
    ));
}

#[test]
fn test_has_higher_3() {
    // In the trump order, X is lower than 9
    let mut hand = cards::Hand::new();

    hand.add(cards::Card::new(cards::Suit::Heart, cards::Rank::RankJ));
    hand.add(cards::Card::new(cards::Suit::Spade, cards::Rank::RankX));
    assert!(!has_higher(
        hand,
        cards::Suit::Spade,
        points::trump_strength(cards::Rank::Rank9)
    ));
}

#[test]
fn test_has_higher_4() {
    // In the trump order, J is higher than A
    let mut hand = cards::Hand::new();

    hand.add(cards::Card::new(cards::Suit::Heart, cards::Rank::Rank8));
    hand.add(cards::Card::new(cards::Suit::Spade, cards::Rank::RankJ));
    assert!(has_higher(
        hand,
        cards::Suit::Spade,
        points::trump_strength(cards::Rank::RankA)
    ));
}

#[test]
fn test_has_higher_5() {
    // Test when we have no trump at all
    let mut hand = cards::Hand::new();

    hand.add(cards::Card::new(cards::Suit::Heart, cards::Rank::RankJ));
    hand.add(cards::Card::new(cards::Suit::Diamond, cards::Rank::RankJ));
    hand.add(cards::Card::new(cards::Suit::Spade, cards::Rank::RankJ));
    assert!(!has_higher(
        hand,
        cards::Suit::Club,
        points::trump_strength(cards::Rank::Rank7)
    ));
}

#[test]
fn test_last_trick() {
    let mut hands = [cards::Hand::new(); 4];
    for r in 0..8 {
        hands[0].add(cards::Card::new(cards::Suit::Heart, cards::Rank::from_n(r)));
        hands[1].add(cards::Card::new(cards::Suit::Spade, cards::Rank::from_n(r)));
        hands[2].add(cards::Card::new(cards::Suit::Diamond, cards::Rank::from_n(r)));
        hands[3].add(cards::Card::new(cards::Suit::Club, cards::Rank::from_n(r)));
    }
    let contract = bid::Contract {
        trump: cards::Suit::Heart,
        author: pos::PlayerPos::P0,
        target: bid::Target::Contract80,
        coinche_level: 0,
    };
    let mut game = GameState::new(pos::PlayerPos::P0, hands, contract);
    assert_eq!(game.last_trick().err(), Some(PlayError::NoLastTrick));

    let ca = cards::Card::new(cards::Suit::Heart, cards::Rank::RankA);
    assert!(game.play_card(pos::PlayerPos::P0, ca).is_ok());
    assert!(game
        .play_card(
            pos::PlayerPos::P1,
            cards::Card::new(cards::Suit::Spade, cards::Rank::Rank7)
        )
        .is_ok());
    assert!(game
        .play_card(
            pos::PlayerPos::P2,
            cards::Card::new(cards::Suit::Diamond, cards::Rank::Rank7)
        )
        .is_ok());
    assert!(game
        .play_card(
            pos::PlayerPos::P3,
            cards::Card::new(cards::Suit::Club, cards::Rank::Rank7)
        )
        .is_ok());

    let last = game.last_trick().unwrap();
    assert_eq!(last.first, pos::PlayerPos::P0);
    assert_eq!(last.winner, pos::PlayerPos::P0);
    assert_eq!(last.cards[0], Some(ca));
    assert_eq!(game.next_player(), pos::PlayerPos::P0);
    assert_eq!(game.current_trick().first, pos::PlayerPos::P0);
}

// Plays one full round. Trump is Heart; seat 0 holds every heart but the
// jack plus the spade jack, seat 1 holds the heart jack and every spade
// but its jack, seats 2 and 3 hold all diamonds and all clubs. Seat 1 wins
// the first two tricks (31 + 13 points in this order of play), seat 0 the
// other six; teams end at 118 against 44.
fn play_full_round(target: bid::Target) -> (GameState, Result<TrickResult, PlayError>) {
    let h = |r: u32| cards::Card::new(cards::Suit::Heart, cards::Rank::from_n(r));
    let s = |r: u32| cards::Card::new(cards::Suit::Spade, cards::Rank::from_n(r));
    let d = |r: u32| cards::Card::new(cards::Suit::Diamond, cards::Rank::from_n(r));
    let c = |r: u32| cards::Card::new(cards::Suit::Club, cards::Rank::from_n(r));

    let mut hands = [cards::Hand::new(); 4];
    for r in 0..8 {
        if r != 3 {
            hands[0].add(h(r));
            hands[1].add(s(r));
        }
        hands[2].add(d(r));
        hands[3].add(c(r));
    }
    hands[0].add(s(3));
    hands[1].add(h(3));

    let contract = bid::Contract {
        trump: cards::Suit::Heart,
        author: pos::PlayerPos::P0,
        target,
        coinche_level: 0,
    };
    let mut game = GameState::new(pos::PlayerPos::P0, hands, contract);

    // ranks by number: 0=7, 1=8, 2=9, 3=J, 4=Q, 5=K, 6=X, 7=A
    // trick 1: P0 leads the heart ace; P1 must follow with the heart jack
    // and takes the lead
    assert!(game.play_card(pos::PlayerPos::P0, h(7)).is_ok());
    assert!(game.play_card(pos::PlayerPos::P1, h(3)).is_ok());
    assert!(game.play_card(pos::PlayerPos::P2, d(0)).is_ok());
    let r1 = game.play_card(pos::PlayerPos::P3, c(0)).unwrap();
    assert_eq!(
        r1,
        TrickResult::TrickOver(pos::PlayerPos::P1, GameResult::Nothing)
    );

    // trick 2: P1 leads the spade ace; P0 must follow with the spade 7
    assert!(game.play_card(pos::PlayerPos::P1, s(7)).is_ok());
    assert!(game.play_card(pos::PlayerPos::P2, d(1)).is_ok());
    assert!(game.play_card(pos::PlayerPos::P3, c(1)).is_ok());
    let r2 = game.play_card(pos::PlayerPos::P0, s(3)).unwrap();
    assert_eq!(
        r2,
        TrickResult::TrickOver(pos::PlayerPos::P1, GameResult::Nothing)
    );

    // trick 3: P1 leads the spade king; P0 has no spade left and must trump
    assert!(game.play_card(pos::PlayerPos::P1, s(5)).is_ok());
    assert!(game.play_card(pos::PlayerPos::P2, d(2)).is_ok());
    assert!(game.play_card(pos::PlayerPos::P3, c(2)).is_ok());
    let r3 = game.play_card(pos::PlayerPos::P0, h(0)).unwrap();
    assert_eq!(
        r3,
        TrickResult::TrickOver(pos::PlayerPos::P0, GameResult::Nothing)
    );

    // tricks 4 to 7: P0 leads trump, everyone else discards
    for (lead, s1, d2, c3) in [(6, 6, 6, 6), (2, 4, 7, 7), (5, 2, 5, 5), (4, 0, 4, 4)] {
        assert!(game.play_card(pos::PlayerPos::P0, h(lead)).is_ok());
        assert!(game.play_card(pos::PlayerPos::P1, s(s1)).is_ok());
        assert!(game.play_card(pos::PlayerPos::P2, d(d2)).is_ok());
        let r = game.play_card(pos::PlayerPos::P3, c(c3)).unwrap();
        assert_eq!(
            r,
            TrickResult::TrickOver(pos::PlayerPos::P0, GameResult::Nothing)
        );
    }

    // trick 8, with the 10-point bonus for its winner
    assert!(game.play_card(pos::PlayerPos::P0, h(1)).is_ok());
    assert!(game.play_card(pos::PlayerPos::P1, s(1)).is_ok());
    assert!(game.play_card(pos::PlayerPos::P2, d(3)).is_ok());
    let last = game.play_card(pos::PlayerPos::P3, c(3));
    (game, last)
}

#[test]
fn test_round_threshold_met() {
    // the taking team reaches 120 of 80 without a capot: it scores exactly
    // 80 and the defenders 0
    let (game, last) = play_full_round(bid::Target::Contract80);
    let expected = GameResult::GameOver {
        points: [118, 44],
        winners: pos::Team::T02,
        scores: [80, 0],
    };
    assert_eq!(
        last,
        Ok(TrickResult::TrickOver(pos::PlayerPos::P0, expected))
    );
    let again = game.get_game_result();
    assert_eq!(
        again,
        GameResult::GameOver {
            points: [118, 44],
            winners: pos::Team::T02,
            scores: [80, 0],
        }
    );
}

#[test]
fn test_round_capot_missed() {
    // a Capot contract whose taking team loses two tricks hands the
    // defenders a flat 160, whatever the points
    let (_game, last) = play_full_round(bid::Target::ContractCapot);
    let expected = GameResult::GameOver {
        points: [118, 44],
        winners: pos::Team::T13,
        scores: [0, 160],
    };
    assert_eq!(
        last,
        Ok(TrickResult::TrickOver(pos::PlayerPos::P0, expected))
    );
}

#[test]
fn test_round_capot_made() {
    // one suit per seat: the trump holder wins all eight tricks
    let mut hands = [cards::Hand::new(); 4];
    for r in 0..8 {
        hands[0].add(cards::Card::new(cards::Suit::Heart, cards::Rank::from_n(r)));
        hands[1].add(cards::Card::new(cards::Suit::Spade, cards::Rank::from_n(r)));
        hands[2].add(cards::Card::new(cards::Suit::Diamond, cards::Rank::from_n(r)));
        hands[3].add(cards::Card::new(cards::Suit::Club, cards::Rank::from_n(r)));
    }
    let contract = bid::Contract {
        trump: cards::Suit::Heart,
        author: pos::PlayerPos::P0,
        target: bid::Target::ContractCapot,
        coinche_level: 0,
    };
    let mut game = GameState::new(pos::PlayerPos::P0, hands, contract);
    let mut last = Err(PlayError::TurnError);
    for r in 0..8 {
        assert!(game
            .play_card(
                pos::PlayerPos::P0,
                cards::Card::new(cards::Suit::Heart, cards::Rank::from_n(r))
            )
            .is_ok());
        assert!(game
            .play_card(
                pos::PlayerPos::P1,
                cards::Card::new(cards::Suit::Spade, cards::Rank::from_n(r))
            )
            .is_ok());
        assert!(game
            .play_card(
                pos::PlayerPos::P2,
                cards::Card::new(cards::Suit::Diamond, cards::Rank::from_n(r))
            )
            .is_ok());
        last = game.play_card(
            pos::PlayerPos::P3,
            cards::Card::new(cards::Suit::Club, cards::Rank::from_n(r)),
        );
    }
    let expected = GameResult::GameOver {
        points: [162, 0],
        winners: pos::Team::T02,
        scores: [250, 0],
    };
    assert_eq!(
        last,
        Ok(TrickResult::TrickOver(pos::PlayerPos::P0, expected))
    );
    // a play after the end of the round is rejected as out of turn
    assert_eq!(
        game.play_card(
            pos::PlayerPos::P0,
            cards::Card::new(cards::Suit::Heart, cards::Rank::Rank7)
        )
        .err(),
        Some(PlayError::TurnError)
    );
}

#[test]
fn test_full_round_scenario() {
    // seat 0 bids (Heart, 80); seats 1, 2 and 3 pass in turn; the auction is
    // over, and the round starts with seat 0 leading the first trick
    let mut auction = bid::Auction::new(pos::PlayerPos::P0);
    assert_eq!(
        auction.bid(pos::PlayerPos::P0, cards::Suit::Heart, bid::Target::Contract80),
        Ok(bid::AuctionState::Bidding)
    );
    assert_eq!(auction.pass(pos::PlayerPos::P1), Ok(bid::AuctionState::Bidding));
    assert_eq!(auction.pass(pos::PlayerPos::P2), Ok(bid::AuctionState::Bidding));
    assert_eq!(auction.pass(pos::PlayerPos::P3), Ok(bid::AuctionState::Over));
    assert_eq!(auction.get_state(), bid::AuctionState::Over);

    let game = auction.complete().unwrap();
    assert_eq!(game.next_player(), pos::PlayerPos::P0);
    assert_eq!(game.current_trick().first, pos::PlayerPos::P0);
    assert_eq!(game.contract().target, bid::Target::Contract80);
    assert_eq!(game.contract().trump, cards::Suit::Heart);
}

#[test]
fn test_play_error_strings() {
    assert_eq!(PlayError::TurnError.to_str(), "invalid turn order");
    assert_eq!(PlayError::NonRaisedTrump.to_str(), "too weak trump played");
    assert_eq!(PlayError::NoLastTrick.to_str(), "no trick has been played yet");
}
