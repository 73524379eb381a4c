//! Auctions and bidding during the first phase of the game.

use crate::cards;
use crate::game;
use crate::pos;
use vstd::prelude::*;

verus! {

/// Goal set by a contract.
///
/// Determines the winning conditions and the score on success.
#[derive(PartialEq, Eq, Structural, Clone, Copy, Debug)]
pub enum Target {
    /// Team must get 80 points
    Contract80,
    /// Team must get 90 points
    Contract90,
    /// Team must get 100 points
    Contract100,
    /// Team must get 110 points
    Contract110,
    /// Team must get 120 points
    Contract120,
    /// Team must get 130 points
    Contract130,
    /// Team must get 140 points
    Contract140,
    /// Team must get 150 points
    Contract150,
    /// Team must get 160 points
    Contract160,
    /// Team must win all tricks
    ContractCapot,
}

impl Target {
    /// The score this target gives on success: its point threshold, or 250
    /// for Capot.
    pub open spec fn spec_score(self) -> int {
        match self {
            Target::Contract80 => 80,
            Target::Contract90 => 90,
            Target::Contract100 => 100,
            Target::Contract110 => 110,
            Target::Contract120 => 120,
            Target::Contract130 => 130,
            Target::Contract140 => 140,
            Target::Contract150 => 150,
            Target::Contract160 => 160,
            Target::ContractCapot => 250,
        }
    }

    /// Returns the score this target would give on success.
    pub fn score(self) -> (r: i32)
        ensures
            r == self.spec_score(),
    {
        match self {
            Target::Contract80 => 80,
            Target::Contract90 => 90,
            Target::Contract100 => 100,
            Target::Contract110 => 110,
            Target::Contract120 => 120,
            Target::Contract130 => 130,
            Target::Contract140 => 140,
            Target::Contract150 => 150,
            Target::Contract160 => 160,
            Target::ContractCapot => 250,
        }
    }

    /// The characters of this target's name.
    pub open spec fn spec_str(self) -> Seq<char> {
        match self {
            Target::Contract80 => "80"@,
            Target::Contract90 => "90"@,
            Target::Contract100 => "100"@,
            Target::Contract110 => "110"@,
            Target::Contract120 => "120"@,
            Target::Contract130 => "130"@,
            Target::Contract140 => "140"@,
            Target::Contract150 => "150"@,
            Target::Contract160 => "160"@,
            Target::ContractCapot => "Capot"@,
        }
    }

    /// The target's name: its point threshold, or "Capot".
    pub fn to_str(self) -> (r: &'static str)
        ensures
            r@ == self.spec_str(),
    {
        match self {
            Target::Contract80 => "80",
            Target::Contract90 => "90",
            Target::Contract100 => "100",
            Target::Contract110 => "110",
            Target::Contract120 => "120",
            Target::Contract130 => "130",
            Target::Contract140 => "140",
            Target::Contract150 => "150",
            Target::Contract160 => "160",
            Target::ContractCapot => "Capot",
        }
    }

    /// The target's name as an owned string.
    pub fn to_string(self) -> (r: String)
        ensures
            r@ == self.spec_str(),
    {
        String::from_str(self.to_str())
    }

    /// Whether this target is reached with the given points, and, for
    /// Capot, whether the taking team won every trick.
    pub open spec fn spec_victory(self, points: int, capot: bool) -> bool {
        if self == Target::ContractCapot {
            capot
        } else {
            points >= self.spec_score()
        }
    }

    /// Determines whether this target was reached.
    pub fn victory(self, points: i32, capot: bool) -> (r: bool)
        ensures
            r == self.spec_victory(points as int, capot),
    {
        match self {
            Target::ContractCapot => capot,
            other => points >= other.score(),
        }
    }
}

impl core::str::FromStr for Target {
    type Err = String;

    fn from_str(s: &str) -> Result<Target, String> {
        if cards::str_eq(s, "80") {
            Ok(Target::Contract80)
        } else if cards::str_eq(s, "90") {
            Ok(Target::Contract90)
        } else if cards::str_eq(s, "100") {
            Ok(Target::Contract100)
        } else if cards::str_eq(s, "110") {
            Ok(Target::Contract110)
        } else if cards::str_eq(s, "120") {
            Ok(Target::Contract120)
        } else if cards::str_eq(s, "130") {
            Ok(Target::Contract130)
        } else if cards::str_eq(s, "140") {
            Ok(Target::Contract140)
        } else if cards::str_eq(s, "150") {
            Ok(Target::Contract150)
        } else if cards::str_eq(s, "160") {
            Ok(Target::Contract160)
        } else if cards::str_eq(s, "Capot") {
            Ok(Target::ContractCapot)
        } else {
            Err("invalid target: ".to_owned().concat(s))
        }
    }
}

/// Contract taken by a team.
///
/// Composed of a trump suit and a target to reach.
#[derive(Clone, Debug)]
pub struct Contract {
    /// Initial author of the contract.
    pub author: pos::PlayerPos,
    /// Trump suit for this game.
    pub trump: cards::Suit,
    /// Target for the contract.
    pub target: Target,
    /// Level of coinche: `0` not coinched, `1` coinched, `2` surcoinched.
    pub coinche_level: i32,
}

impl Contract {
    /// A fresh, uncoinched contract.
    fn new(author: pos::PlayerPos, trump: cards::Suit, target: Target) -> (c: Contract)
        ensures
            c == (Contract { author, trump, target, coinche_level: 0 }),
    {
        Contract { author, trump, target, coinche_level: 0 }
    }
}

/// Current state of an auction.
#[derive(PartialEq, Eq, Structural, Clone, Copy, Debug)]
pub enum AuctionState {
    /// Players are still bidding for the highest contract
    Bidding,
    /// One player coinched, maybe another one will surcoinche?
    Coinching,
    /// Auction is over, game will begin
    Over,
    /// No contract was taken, a new game will start
    Cancelled,
}

/// Possible error occuring during an auction.
#[derive(PartialEq, Eq, Clone, Copy, Debug)]
pub enum BidError {
    /// The auction was closed and does not accept more contracts.
    AuctionClosed,
    /// A player tried bidding before his turn.
    TurnError,
    /// The given bid was not higher than the previous one.
    NonRaisedTarget,
    /// Cannot complete the auction when it is still running.
    AuctionRunning,
    /// No contract was offered during the auction, it cannot complete.
    NoContract,
    /// The contract was coinched too many times.
    OverCoinche,
}

impl BidError {
    /// A short message describing the error.
    pub fn to_str(self) -> (r: &'static str)
        ensures
            r@ == self.spec_str(),
    {
        match self {
            BidError::AuctionClosed => "auctions are closed",
            BidError::TurnError => "invalid turn order",
            BidError::NonRaisedTarget => "bid must be higher than current contract",
            BidError::AuctionRunning => "the auction is still running",
            BidError::NoContract => "no contract was offered",
            BidError::OverCoinche => "contract is already sur-coinched",
        }
    }

    /// The characters of this error's message.
    pub open spec fn spec_str(self) -> Seq<char> {
        match self {
            BidError::AuctionClosed => "auctions are closed"@,
            BidError::TurnError => "invalid turn order"@,
            BidError::NonRaisedTarget => "bid must be higher than current contract"@,
            BidError::AuctionRunning => "the auction is still running"@,
            BidError::NoContract => "no contract was offered"@,
            BidError::OverCoinche => "contract is already sur-coinched"@,
        }
    }
}

/// Represents the entire auction process.
pub struct Auction {
    history: Vec<Contract>,
    pass_count: usize,
    first: pos::PlayerPos,
    state: AuctionState,
    players: [cards::Hand; 4],
}

/// The pass counter after one more pass. The stored counter wraps from 7
/// back to 4: this keeps both its residue modulo 4, which drives the turn
/// order, and every threshold comparison against 3 and 4, which drive the
/// state transitions, while the stored value stays bounded.
pub open spec fn spec_inc_pass(n: int) -> int {
    if n < 7 {
        n + 1
    } else {
        n - 3
    }
}

impl Auction {
    /// The chronological history of contracts; the last one is current.
    pub closed spec fn spec_history(self) -> Seq<Contract> {
        self.history@
    }

    /// How many passes the auction counts since the last contract (or its
    /// start); stored capped as [`spec_inc_pass`] describes.
    pub closed spec fn spec_pass_count(self) -> int {
        self.pass_count as int
    }

    /// The seat designated to open the auction.
    pub closed spec fn spec_first(self) -> pos::PlayerPos {
        self.first
    }

    /// The auction's state.
    pub closed spec fn spec_state(self) -> AuctionState {
        self.state
    }

    /// The four dealt hands, by seat.
    pub closed spec fn spec_players(self) -> Seq<cards::Hand> {
        self.players@
    }

    /// Well-formedness: the pass counter stays in its capped range, the
    /// contract history carries strictly increasing success scores and
    /// coinche levels between 0 and 2, and the hands form a proper deal.
    pub open spec fn wf(self) -> bool {
        &&& 0 <= self.spec_pass_count() <= 7
        &&& forall|k1: int, k2: int|
            0 <= k1 < k2 < self.spec_history().len() ==> (#[trigger] self.spec_history()[k1]).target.spec_score()
                < (#[trigger] self.spec_history()[k2]).target.spec_score()
        &&& forall|k: int|
            0 <= k < self.spec_history().len() ==> 0 <= (#[trigger] self.spec_history()[k]).coinche_level
                <= 2
        &&& crate::spec_dealt_hands(self.spec_players())
    }

    /// Starts a new auction, starting with the player `first`.
    pub fn new(first: pos::PlayerPos) -> (a: Auction)
        ensures
            a.wf(),
            a.spec_state() == AuctionState::Bidding,
            a.spec_history().len() == 0,
            a.spec_pass_count() == 0,
            a.spec_first() == first,
    {
        Auction {
            history: Vec::new(),
            pass_count: 0,
            state: AuctionState::Bidding,
            first,
            players: crate::deal_hands(),
        }
    }

    /// Returns the current state of the auctions.
    pub fn get_state(&self) -> (s: AuctionState)
        ensures
            s == self.spec_state(),
    {
        self.state
    }

    /// Whether a new bid on `target` would be accepted now: the auction
    /// must still be open for plain bids, and the target must beat the
    /// current contract's score.
    pub open spec fn spec_can_bid(self, target: Target) -> Result<(), BidError> {
        if self.spec_state() != AuctionState::Bidding {
            Err(BidError::AuctionClosed)
        } else if self.spec_history().len() > 0 && target.spec_score()
            <= self.spec_history().last().target.spec_score() {
            Err(BidError::NonRaisedTarget)
        } else {
            Ok(())
        }
    }

    fn can_bid(&self, target: Target) -> (r: Result<(), BidError>)
        ensures
            r == self.spec_can_bid(target),
    {
        if self.state != AuctionState::Bidding {
            return Err(BidError::AuctionClosed);
        }
        if self.history.len() > 0 && target.score() <= self.history[self.history.len()
            - 1].target.score() {
            return Err(BidError::NonRaisedTarget);
        }
        Ok(())
    }

    /// The seat expected to act: the seat after the current contract's
    /// author (or the auction's first seat if there is no contract yet),
    /// advanced by the pass count.
    pub open spec fn spec_next_player(self) -> pos::PlayerPos {
        let base = if self.spec_history().len() > 0 {
            self.spec_history().last().author.spec_next()
        } else {
            self.spec_first()
        };
        base.spec_next_n(self.spec_pass_count())
    }

    /// Returns the player that is expected to play next.
    pub fn next_player(&self) -> (p: pos::PlayerPos)
        ensures
            p == self.spec_next_player(),
    {
        let base = if self.history.len() > 0 {
            self.history[self.history.len() - 1].author.next()
        } else {
            self.first
        };
        base.next_n(self.pass_count)
    }

    /// Bid a new, higher contract.
    ///
    /// Fails with `TurnError` if it is not `pos`'s turn, `AuctionClosed` if
    /// the auction no longer takes plain bids, and `NonRaisedTarget` if
    /// `target` does not beat the current contract. On success the new
    /// contract joins the history, the pass counter resets, and the state
    /// moves to `Coinching` on a Capot bid (nothing can outbid it).
    pub fn bid(&mut self, pos: pos::PlayerPos, trump: cards::Suit, target: Target) -> (r: Result<
        AuctionState,
        BidError,
    >)
        requires
            old(self).wf(),
        ensures
            final(self).wf(),
            pos != old(self).spec_next_player() ==> r == Err::<AuctionState, BidError>(
                BidError::TurnError,
            ) && *final(self) == *old(self),
            pos == old(self).spec_next_player() ==> (old(self).spec_can_bid(target) matches Err(
                e,
            ) ==> r == Err::<AuctionState, BidError>(e) && *final(self) == *old(self)),
            pos == old(self).spec_next_player() && old(self).spec_can_bid(target) is Ok ==> {
                &&& final(self).spec_history() == old(self).spec_history().push(
                    (Contract { author: pos, trump, target, coinche_level: 0 }),
                )
                &&& final(self).spec_pass_count() == 0
                &&& final(self).spec_state() == (if target == Target::ContractCapot {
                    AuctionState::Coinching
                } else {
                    AuctionState::Bidding
                })
                &&& final(self).spec_first() == old(self).spec_first()
                &&& final(self).spec_players() == old(self).spec_players()
                &&& r == Ok::<AuctionState, BidError>(final(self).spec_state())
            },
    {
        if pos != self.next_player() {
            return Err(BidError::TurnError);
        }

        match self.can_bid(target) {
            Err(e) => {
                return Err(e);
            },
            Ok(()) => {},
        }

        // If we're all the way to the top, there's nowhere else to go
        if target == Target::ContractCapot {
            self.state = AuctionState::Coinching;
        }

        let contract = Contract::new(pos, trump, target);
        self.history.push(contract);
        self.pass_count = 0;

        proof {
            let h0 = old(self).spec_history();
            let h = self.spec_history();
            assert forall|k1: int, k2: int|
                0 <= k1 < k2 < h.len() implies (#[trigger] h[k1]).target.spec_score()
                < (#[trigger] h[k2]).target.spec_score() by {
                if k2 < h0.len() {
                    assert(h[k1] == h0[k1] && h[k2] == h0[k2]);
                } else {
                    assert(h[k2] == contract);
                    assert(h[k1] == h0[k1]);
                    if k1 < h0.len() - 1 {
                        assert(h0[k1].target.spec_score() < h0[h0.len() - 1].target.spec_score());
                    }
                }
            }
        }

        // Only stops the bids if the guy asked for a capot
        Ok(self.state)
    }

    /// Look at the last offered contract.
    ///
    /// Returns `None` if no contract was offered yet.
    pub fn current_contract(&self) -> (r: Option<&Contract>)
        ensures
            match r {
                Some(c) => self.spec_history().len() > 0 && *c == self.spec_history().last(),
                None => self.spec_history().len() == 0,
            },
    {
        if self.history.len() == 0 {
            None
        } else {
            Some(&self.history[self.history.len() - 1])
        }
    }

    /// Returns the players' cards.
    pub fn hands(&self) -> (r: [cards::Hand; 4])
        ensures
            r@ == self.spec_players(),
    {
        self.players
    }

    /// The auction after one accepted pass: the pass counter advances, and
    /// the state closes (`Over`) at three passes on a contract, or cancels
    /// (`Cancelled`) at four passes with no contract.
    pub closed spec fn spec_after_pass(self) -> Auction {
        let pc = spec_inc_pass(self.spec_pass_count());
        Auction {
            pass_count: pc as usize,
            state: if self.history@.len() > 0 {
                if pc >= 3 {
                    AuctionState::Over
                } else {
                    self.state
                }
            } else if pc >= 4 {
                AuctionState::Cancelled
            } else {
                self.state
            },
            ..self
        }
    }

    /// The current player passes his turn.
    ///
    /// Fails with `TurnError` if it is not `pos`'s turn. Otherwise the pass
    /// counter advances; with a contract on the table three passes close
    /// the auction (`Over`), and without one four passes cancel it
    /// (`Cancelled`).
    pub fn pass(&mut self, pos: pos::PlayerPos) -> (r: Result<AuctionState, BidError>)
        requires
            old(self).wf(),
        ensures
            final(self).wf(),
            pos != old(self).spec_next_player() ==> r == Err::<AuctionState, BidError>(
                BidError::TurnError,
            ) && *final(self) == *old(self),
            pos == old(self).spec_next_player() ==> {
                &&& *final(self) == old(self).spec_after_pass()
                &&& final(self).spec_pass_count() == spec_inc_pass(old(self).spec_pass_count())
                &&& final(self).spec_history() == old(self).spec_history()
                &&& final(self).spec_first() == old(self).spec_first()
                &&& final(self).spec_players() == old(self).spec_players()
                &&& final(self).spec_state() == (if old(self).spec_history().len() > 0 {
                    if spec_inc_pass(old(self).spec_pass_count()) >= 3 {
                        AuctionState::Over
                    } else {
                        old(self).spec_state()
                    }
                } else if spec_inc_pass(old(self).spec_pass_count()) >= 4 {
                    AuctionState::Cancelled
                } else {
                    old(self).spec_state()
                })
                &&& r == Ok::<AuctionState, BidError>(final(self).spec_state())
            },
    {
        if pos != self.next_player() {
            return Err(BidError::TurnError);
        }

        // the stored counter wraps from 7 back to 4; see `spec_inc_pass`
        if self.pass_count < 7 {
            self.pass_count = self.pass_count + 1;
        } else {
            self.pass_count = self.pass_count - 3;
        }

        // After 3 passes, we're back to the contract author, and we can start.
        if self.history.len() > 0 {
            if self.pass_count >= 3 {
                self.state = AuctionState::Over;
            }
        } else if self.pass_count >= 4 {
            self.state = AuctionState::Cancelled;
        }

        Ok(self.state)
    }

    /// Attempt to coinche the current contract.
    ///
    /// Fails with `TurnError` if it is not `pos`'s turn, `NoContract` if
    /// there is nothing to coinche, and `OverCoinche` beyond level 2. On
    /// success the current contract's coinche level rises by one: level 1
    /// leaves the auction `Coinching`, level 2 closes it (`Over`).
    pub fn coinche(&mut self, pos: pos::PlayerPos) -> (r: Result<AuctionState, BidError>)
        requires
            old(self).wf(),
        ensures
            final(self).wf(),
            pos != old(self).spec_next_player() ==> r == Err::<AuctionState, BidError>(
                BidError::TurnError,
            ) && *final(self) == *old(self),
            pos == old(self).spec_next_player() && old(self).spec_history().len() == 0 ==> r
                == Err::<AuctionState, BidError>(BidError::NoContract) && *final(self) == *old(
                self,
            ),
            pos == old(self).spec_next_player() && old(self).spec_history().len() > 0 && old(
                self,
            ).spec_history().last().coinche_level > 1 ==> r == Err::<AuctionState, BidError>(
                BidError::OverCoinche,
            ) && *final(self) == *old(self),
            pos == old(self).spec_next_player() && old(self).spec_history().len() > 0 && old(
                self,
            ).spec_history().last().coinche_level <= 1 ==> {
                &&& final(self).spec_history() == spec_coinche_history(old(self).spec_history())
                &&& final(self).spec_state() == spec_coinche_state(old(self).spec_history())
                &&& final(self).spec_history() == old(self).spec_history().update(
                    old(self).spec_history().len() - 1,
                    (Contract {
                        coinche_level: (old(self).spec_history().last().coinche_level + 1) as i32,
                        ..old(self).spec_history().last()
                    }),
                )
                &&& final(self).spec_pass_count() == old(self).spec_pass_count()
                &&& final(self).spec_first() == old(self).spec_first()
                &&& final(self).spec_players() == old(self).spec_players()
                &&& final(self).spec_state() == (if old(self).spec_history().last().coinche_level
                    + 1 == 2 {
                    AuctionState::Over
                } else {
                    AuctionState::Coinching
                })
                &&& r == Ok::<AuctionState, BidError>(final(self).spec_state())
            },
    {
        if pos != self.next_player() {
            return Err(BidError::TurnError);
        }

        if self.history.len() == 0 {
            return Err(BidError::NoContract);
        }

        let i = self.history.len() - 1;
        if self.history[i].coinche_level > 1 {
            return Err(BidError::OverCoinche);
        }

        let mut contract = match self.history.pop() {
            Some(c) => c,
            None => vstd::pervasive::unreached(),
        };
        contract.coinche_level = contract.coinche_level + 1;
        let level = contract.coinche_level;
        self.history.push(contract);

        // Stop if we are already sur-coinching
        self.state = if level == 2 {
            AuctionState::Over
        } else {
            AuctionState::Coinching
        };

        proof {
            let h0 = old(self).spec_history();
            assert(self.spec_history() =~= h0.update(h0.len() - 1, self.spec_history().last()));
            assert forall|k1: int, k2: int|
                0 <= k1 < k2 < self.spec_history().len() implies (#[trigger] self.spec_history()[k1]).target.spec_score()
                < (#[trigger] self.spec_history()[k2]).target.spec_score() by {
                assert(h0[k1].target.spec_score() < h0[k2].target.spec_score());
            }
        }

        Ok(self.state)
    }

    /// Consumes a complete auction to enter the second game phase.
    ///
    /// Fails with `AuctionRunning` before the auction is `Over` and with
    /// `NoContract` if no contract was ever offered. Otherwise yields a
    /// fresh game holding the dealt hands and the final contract, with the
    /// auction's first seat to play.
    pub fn complete(&mut self) -> (r: Result<game::GameState, BidError>)
        requires
            old(self).wf(),
        ensures
            final(self).wf(),
            old(self).spec_state() != AuctionState::Over ==> r == Err::<game::GameState, BidError>(
                BidError::AuctionRunning,
            ) && *final(self) == *old(self),
            old(self).spec_state() == AuctionState::Over && old(self).spec_history().len() == 0
                ==> r == Err::<game::GameState, BidError>(BidError::NoContract) && *final(self)
                == *old(self),
            old(self).spec_state() == AuctionState::Over && old(self).spec_history().len() > 0
                ==> (r matches Ok(g) && {
                &&& g.wf()
                &&& g.spec_players() == old(self).spec_players()
                &&& crate::spec_dealt_hands(g.spec_players())
                &&& g.spec_current() == old(self).spec_first()
                &&& g.spec_contract() == old(self).spec_history().last()
                &&& g.spec_points()[0] == 0 && g.spec_points()[1] == 0
                &&& g.spec_tricks().len() == 1
                &&& g.spec_tricks()[0].first == old(self).spec_first()
                &&& final(self).spec_history() == old(self).spec_history().drop_last()
            }),
    {
        if self.state != AuctionState::Over {
            Err(BidError::AuctionRunning)
        } else if self.history.len() == 0 {
            Err(BidError::NoContract)
        } else {
            let contract = match self.history.pop() {
                Some(c) => c,
                None => vstd::pervasive::unreached(),
            };
            proof {
                let h0 = old(self).spec_history();
                assert forall|k1: int, k2: int|
                    0 <= k1 < k2 < self.spec_history().len() implies (
                #[trigger] self.spec_history()[k1]).target.spec_score()
                    < (#[trigger] self.spec_history()[k2]).target.spec_score() by {
                    assert(h0[k1].target.spec_score() < h0[k2].target.spec_score());
                }
            }
            Ok(game::GameState::new(self.first, self.players, contract))
        }
    }
}

/// The contract history after one accepted coinche: the current contract's
/// level rises by one, the rest stays.
pub open spec fn spec_coinche_history(history: Seq<Contract>) -> Seq<Contract> {
    history.update(
        history.len() - 1,
        (Contract { coinche_level: (history.last().coinche_level + 1) as i32, ..history.last() }),
    )
}

/// The auction state after one accepted coinche: `Over` once the contract
/// reaches level 2, `Coinching` before that.
pub open spec fn spec_coinche_state(history: Seq<Contract>) -> AuctionState {
    if history.last().coinche_level + 1 == 2 {
        AuctionState::Over
    } else {
        AuctionState::Coinching
    }
}

/// After any three consecutive passes on an auction that holds a contract,
/// the auction is `Over`.
pub proof fn lemma_three_passes_close(a: Auction)
    requires
        a.wf(),
        a.spec_pass_count() == 0,
        a.spec_history().len() > 0,
    ensures
        a.spec_after_pass().spec_after_pass().spec_after_pass().spec_state()
            == AuctionState::Over,
{
}

/// After four consecutive passes on an auction with no contract ever made,
/// the auction is `Cancelled`.
pub proof fn lemma_four_passes_cancel(a: Auction)
    requires
        a.wf(),
        a.spec_pass_count() == 0,
        a.spec_history().len() == 0,
    ensures
        a.spec_after_pass().spec_after_pass().spec_after_pass().spec_after_pass().spec_state()
            == AuctionState::Cancelled,
{
}

/// Coinching an uncoinched contract yields level 1 and state `Coinching`;
/// coinching that history again yields level 2 and state `Over`. At level
/// 2 a further coinche is refused with `OverCoinche`, as the contract of
/// [`Auction::coinche`] states.
pub proof fn lemma_coinche_escalation(history: Seq<Contract>)
    requires
        history.len() > 0,
        history.last().coinche_level == 0,
    ensures
        spec_coinche_history(history).last().coinche_level == 1,
        spec_coinche_state(history) == AuctionState::Coinching,
        spec_coinche_history(spec_coinche_history(history)).last().coinche_level == 2,
        spec_coinche_state(spec_coinche_history(history)) == AuctionState::Over,
{
}

/// In a well-formed auction the success scores of the accepted contracts
/// strictly increase along the history.
pub proof fn lemma_history_scores_increase(a: Auction)
    requires
        a.wf(),
    ensures
        forall|i: int, j: int|
            0 <= i < j < a.spec_history().len() ==> (#[trigger] a.spec_history()[i]).target.spec_score()
                < (#[trigger] a.spec_history()[j]).target.spec_score(),
{
}

/// The acting seat is computed deterministically from the last contract's
/// author (or the first seat), and the pass count: two auctions that agree
/// on those agree on the seat to act.
pub proof fn lemma_next_player_deterministic(a: Auction, b: Auction)
    requires
        a.spec_history().len() > 0 <==> b.spec_history().len() > 0,
        a.spec_history().len() > 0 ==> a.spec_history().last().author
            == b.spec_history().last().author,
        a.spec_history().len() == 0 ==> a.spec_first() == b.spec_first(),
        a.spec_pass_count() == b.spec_pass_count(),
    ensures
        a.spec_next_player() == b.spec_next_player(),
{
}

/// At every point of an auction exactly one seat is the legal actor: any
/// two seats that both pass the turn check are the same seat.
pub proof fn lemma_exactly_one_actor(a: Auction, p: pos::PlayerPos, q: pos::PlayerPos)
    requires
        p == a.spec_next_player(),
        q == a.spec_next_player(),
    ensures
        p == q,
{
}

} // verus!
