use libcoinche::bid::{Auction, AuctionState, BidError, Target};
use libcoinche::cards::Suit;
use libcoinche::pos::PlayerPos;

#[test]
fn test_auction() {
    let mut auction = Auction::new(PlayerPos::P0);

    assert!(auction.get_state() == AuctionState::Bidding);

    // First three people pass.
    assert_eq!(auction.pass(PlayerPos::P0), Ok(AuctionState::Bidding));
    assert_eq!(auction.pass(PlayerPos::P1), Ok(AuctionState::Bidding));
    assert_eq!(auction.pass(PlayerPos::P2), Ok(AuctionState::Bidding));

    assert_eq!(auction.pass(PlayerPos::P1), Err(BidError::TurnError));
    assert_eq!(auction.coinche(PlayerPos::P2), Err(BidError::TurnError));

    // Someone bids.
    assert_eq!(
        auction.bid(PlayerPos::P3, Suit::Heart, Target::Contract80),
        Ok(AuctionState::Bidding)
    );
    assert_eq!(
        auction.bid(PlayerPos::P0, Suit::Club, Target::Contract80).err(),
        Some(BidError::NonRaisedTarget)
    );
    assert_eq!(
        auction.bid(PlayerPos::P1, Suit::Club, Target::Contract100).err(),
        Some(BidError::TurnError)
    );
    assert_eq!(auction.pass(PlayerPos::P0), Ok(AuctionState::Bidding));
    // Partner surbids
    assert_eq!(
        auction.bid(PlayerPos::P1, Suit::Heart, Target::Contract100),
        Ok(AuctionState::Bidding)
    );
    assert_eq!(auction.pass(PlayerPos::P2), Ok(AuctionState::Bidding));
    assert_eq!(auction.pass(PlayerPos::P3), Ok(AuctionState::Bidding));
    assert_eq!(auction.pass(PlayerPos::P0), Ok(AuctionState::Over));

    assert!(auction.get_state() == AuctionState::Over);

    match auction.complete() {
        Err(_) => assert!(false),
        _ => {}
    }
}

#[test]
fn test_auction_cancelled() {
    // four passes with no contract cancel the auction
    let mut auction = Auction::new(PlayerPos::P2);
    assert_eq!(auction.pass(PlayerPos::P2), Ok(AuctionState::Bidding));
    assert_eq!(auction.pass(PlayerPos::P3), Ok(AuctionState::Bidding));
    assert_eq!(auction.pass(PlayerPos::P0), Ok(AuctionState::Bidding));
    assert_eq!(auction.pass(PlayerPos::P1), Ok(AuctionState::Cancelled));
    assert_eq!(auction.get_state(), AuctionState::Cancelled);
    assert_eq!(auction.complete().err(), Some(BidError::AuctionRunning));
}

#[test]
fn test_coinche_levels() {
    // coinche moves the contract to level 1, a second one closes at level 2,
    // a third fails
    let mut auction = Auction::new(PlayerPos::P0);
    assert_eq!(
        auction.bid(PlayerPos::P0, Suit::Spade, Target::Contract90),
        Ok(AuctionState::Bidding)
    );
    assert_eq!(auction.coinche(PlayerPos::P1), Ok(AuctionState::Coinching));
    {
        let c = auction.current_contract().unwrap();
        assert_eq!(c.coinche_level, 1);
        assert_eq!(c.target, Target::Contract90);
        assert_eq!(c.trump, Suit::Spade);
        assert_eq!(c.author, PlayerPos::P0);
    }
    // the seat after the author, advanced by no passes, still holds the turn
    assert_eq!(auction.coinche(PlayerPos::P2), Err(BidError::TurnError));
    assert_eq!(auction.coinche(PlayerPos::P1), Ok(AuctionState::Over));
    assert_eq!(auction.current_contract().unwrap().coinche_level, 2);
    assert_eq!(auction.coinche(PlayerPos::P1), Err(BidError::OverCoinche));
}

#[test]
fn test_coinche_no_contract() {
    let mut auction = Auction::new(PlayerPos::P0);
    assert_eq!(auction.coinche(PlayerPos::P0), Err(BidError::NoContract));
}

#[test]
fn test_bid_after_capot() {
    // a Capot bid leaves only coinches and passes
    let mut auction = Auction::new(PlayerPos::P0);
    assert_eq!(
        auction.bid(PlayerPos::P0, Suit::Heart, Target::ContractCapot),
        Ok(AuctionState::Coinching)
    );
    assert_eq!(
        auction.bid(PlayerPos::P1, Suit::Club, Target::ContractCapot).err(),
        Some(BidError::AuctionClosed)
    );
}

#[test]
fn test_complete_while_running() {
    let mut auction = Auction::new(PlayerPos::P0);
    assert_eq!(auction.complete().err(), Some(BidError::AuctionRunning));
    assert_eq!(
        auction.bid(PlayerPos::P0, Suit::Heart, Target::Contract80),
        Ok(AuctionState::Bidding)
    );
    assert_eq!(auction.complete().err(), Some(BidError::AuctionRunning));
}

#[test]
fn test_target_scores() {
    assert_eq!(Target::Contract80.score(), 80);
    assert_eq!(Target::Contract90.score(), 90);
    assert_eq!(Target::Contract100.score(), 100);
    assert_eq!(Target::Contract110.score(), 110);
    assert_eq!(Target::Contract120.score(), 120);
    assert_eq!(Target::Contract130.score(), 130);
    assert_eq!(Target::Contract140.score(), 140);
    assert_eq!(Target::Contract150.score(), 150);
    assert_eq!(Target::Contract160.score(), 160);
    assert_eq!(Target::ContractCapot.score(), 250);
}

#[test]
fn test_target_victory() {
    assert!(Target::Contract80.victory(80, false));
    assert!(!Target::Contract80.victory(79, true));
    assert!(Target::ContractCapot.victory(250, true));
    assert!(!Target::ContractCapot.victory(250, false));
}

#[test]
fn test_target_strings() {
    assert_eq!(Target::Contract80.to_str(), "80");
    assert_eq!(Target::ContractCapot.to_str(), "Capot");
    assert_eq!(Target::Contract120.to_string(), "120");
    assert_eq!("80".parse::<Target>(), Ok(Target::Contract80));
    assert_eq!("Capot".parse::<Target>(), Ok(Target::ContractCapot));
    assert_eq!("99".parse::<Target>(), Err("invalid target: 99".to_owned()));
}

#[test]
fn test_bid_error_strings() {
    assert_eq!(BidError::TurnError.to_str(), "invalid turn order");
    assert_eq!(BidError::AuctionClosed.to_str(), "auctions are closed");
    assert_eq!(
        BidError::NonRaisedTarget.to_str(),
        "bid must be higher than current contract"
    );
}
