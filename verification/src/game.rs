//! The play phase of a round, after the auction is complete: legality of
//! each card, trick resolution, and scoring against the contract.

use crate::bid;
use crate::cards;
use crate::points;
use crate::pos;
use crate::trick;
use vstd::prelude::*;

verus! {

broadcast use vstd::array::group_array_axioms;

/// Describes the state of a coinche game, ready to play a card.
#[derive(Clone)]
pub struct GameState {
    players: [cards::Hand; 4],
    current: pos::PlayerPos,
    contract: bid::Contract,
    points: [i32; 2],
    tricks: Vec<trick::Trick>,
}

/// Result of a game.
#[derive(PartialEq, Debug)]
pub enum GameResult {
    /// The game is still playing
    Nothing,
    /// The game is over
    GameOver {
        /// Worth of won tricks
        points: [i32; 2],
        /// Winning team
        winners: pos::Team,
        /// Score for this game
        scores: [i32; 2],
    },
}

/// Result of a trick
#[derive(PartialEq, Debug)]
pub enum TrickResult {
    /// The trick is still being played.
    Nothing,
    /// The trick is complete: its winner, and the game result if this was
    /// the last trick.
    TrickOver(pos::PlayerPos, GameResult),
}

/// Error that can occur during play
#[derive(PartialEq, Eq, Clone, Copy, Debug)]
pub enum PlayError {
    /// A player tried to act before his turn
    TurnError,
    /// A player tried to play a card he doesn't have
    CardMissing,
    /// A player tried to play the wrong suit, while he still has some
    IncorrectSuit,
    /// A player tried to play the wrong suit, while he still has trumps
    InvalidPiss,
    /// A player did not raise on the last played trump
    NonRaisedTrump,
    /// No last trick is available for display
    NoLastTrick,
}

impl PlayError {
    /// A short message describing the error.
    pub fn to_str(self) -> (r: &'static str)
        ensures
            r@ == self.spec_str(),
    {
        match self {
            PlayError::TurnError => "invalid turn order",
            PlayError::CardMissing => "you can only play cards you have",
            PlayError::IncorrectSuit => "wrong suit played",
            PlayError::InvalidPiss => "you must use trumps",
            PlayError::NonRaisedTrump => "too weak trump played",
            PlayError::NoLastTrick => "no trick has been played yet",
        }
    }

    /// The characters of this error's message.
    pub open spec fn spec_str(self) -> Seq<char> {
        match self {
            PlayError::TurnError => "invalid turn order"@,
            PlayError::CardMissing => "you can only play cards you have"@,
            PlayError::IncorrectSuit => "wrong suit played"@,
            PlayError::InvalidPiss => "you must use trumps"@,
            PlayError::NonRaisedTrump => "too weak trump played"@,
            PlayError::NoLastTrick => "no trick has been played yet"@,
        }
    }
}

/// All four seats have played into the trick.
pub open spec fn spec_trick_complete(t: trick::Trick) -> bool {
    forall|i: int| 0 <= i < 4 ==> t.cards@[i] is Some
}

/// How many seats have played into the trick.
pub open spec fn spec_num_played(t: trick::Trick) -> int {
    (if t.cards@[0] is Some {
        1int
    } else {
        0int
    }) + (if t.cards@[1] is Some {
        1int
    } else {
        0int
    }) + (if t.cards@[2] is Some {
        1int
    } else {
        0int
    }) + (if t.cards@[3] is Some {
        1int
    } else {
        0int
    })
}

/// The first `k` seats of the trick, in cyclic order from its first player,
/// have played, and nobody else.
pub open spec fn spec_filled_to(t: trick::Trick, k: int) -> bool {
    forall|i: int|
        0 <= i < 4 ==> ((#[trigger] t.spec_card_at(t.first.spec_next_n(i))) is Some <==> i < k)
}

/// The suit led in the trick; only meaningful once its first player has
/// played.
pub open spec fn spec_starting_suit(t: trick::Trick) -> cards::Suit {
    match t.spec_suit() {
        Some(s) => s,
        None => cards::Suit::Heart,
    }
}

/// The hand holds some card of the given suit.
pub open spec fn spec_has_suit(hand: cards::Hand, suit: cards::Suit) -> bool {
    exists|c: cards::Card| hand.spec_has(c) && c.suit == suit
}

/// The hand holds a trump card strictly stronger than the given trump
/// strength.
pub open spec fn spec_has_higher(hand: cards::Hand, trump: cards::Suit, strength: int) -> bool {
    exists|r: cards::Rank|
        points::spec_trump_strength(r) > strength && hand.spec_has(
            cards::Card { suit: trump, rank: r },
        )
}

/// The highest trump strength among the cards played by the first `d` seats
/// of the trick, or `-1` if none of them played a trump.
pub open spec fn spec_highest_trump_upto(t: trick::Trick, trump: cards::Suit, d: int) -> int
    decreases d,
{
    if d <= 0 {
        -1
    } else {
        let prev = spec_highest_trump_upto(t, trump, d - 1);
        let s = match t.spec_card_at(t.first.spec_next_n(d - 1)) {
            Some(c) => if c.suit == trump {
                points::spec_trump_strength(c.rank)
            } else {
                -1
            },
            None => -1,
        };
        if s > prev {
            s
        } else {
            prev
        }
    }
}

/// The highest trump strength played before seat `player`, in cyclic order
/// from the trick's first player, or `-1` if no trump was played.
pub open spec fn spec_highest_trump(
    t: trick::Trick,
    trump: cards::Suit,
    player: pos::PlayerPos,
) -> int {
    spec_highest_trump_upto(t, trump, t.first.spec_distance_until(player))
}

/// Whether seat `p` may play `card` from `hand` into the trick `t` under
/// the given trump suit, and the exact error otherwise.
///
/// For a seat other than the trick's first player this presumes a started
/// trick, as [`can_play`]'s callers guarantee.
pub open spec fn spec_can_play(
    p: pos::PlayerPos,
    card: cards::Card,
    hand: cards::Hand,
    t: trick::Trick,
    trump: cards::Suit,
) -> Result<(), PlayError> {
    if !hand.spec_has(card) {
        Err(PlayError::CardMissing)
    } else if p == t.first {
        Ok(())
    } else {
        let starting = spec_starting_suit(t);
        if card.suit != starting && spec_has_suit(hand, starting) {
            Err(PlayError::IncorrectSuit)
        } else if card.suit != starting && card.suit != trump && !(p.spec_team()
            == t.winner.spec_team()) && spec_has_suit(hand, trump) {
            Err(PlayError::InvalidPiss)
        } else if card.suit == trump && points::spec_trump_strength(card.rank)
            < spec_highest_trump(t, trump, p) && spec_has_higher(
            hand,
            trump,
            spec_highest_trump(t, trump, p),
        ) {
            Err(PlayError::NonRaisedTrump)
        } else {
            Ok(())
        }
    }
}

/// Returns `Ok` if the move appears legal, and the rule it violates
/// otherwise.
pub fn can_play(
    p: pos::PlayerPos,
    card: cards::Card,
    hand: cards::Hand,
    trick: &trick::Trick,
    trump: cards::Suit,
) -> (r: Result<(), PlayError>)
    requires
        p != trick.first ==> forall|i: int|
            0 <= i < trick.first.spec_distance_until(p) ==> (#[trigger] trick.spec_card_at(
                trick.first.spec_next_n(i),
            )) is Some,
    ensures
        r == spec_can_play(p, card, hand, *trick, trump),
{
    if !hand.has(card) {
        return Err(PlayError::CardMissing);
    }
    if p == trick.first {
        return Ok(());
    }
    let card_suit = card.suit();
    proof {
        assert(trick.first.spec_next_n(0) == trick.first);
    }
    let starting_suit = match trick.suit() {
        Some(s) => s,
        None => vstd::pervasive::unreached(),
    };
    if card_suit != starting_suit {
        if hand.has_any(starting_suit) {
            return Err(PlayError::IncorrectSuit);
        }
        if card_suit != trump {
            let partner_winning = p.is_partner(trick.winner);
            if !partner_winning && hand.has_any(trump) {
                return Err(PlayError::InvalidPiss);
            }
        }
    }
    // One must raise when playing trump
    if card_suit == trump {
        let highest = highest_trump(trick, trump, p);
        if points::trump_strength(card.rank()) < highest && has_higher(hand, card_suit, highest) {
            return Err(PlayError::NonRaisedTrump);
        }
    }
    Ok(())
}

/// Returns `true` if `hand` holds a trump card strictly stronger than the
/// given trump strength.
pub fn has_higher(hand: cards::Hand, trump: cards::Suit, strength: i32) -> (r: bool)
    ensures
        r == spec_has_higher(hand, trump, strength as int),
{
    let mut ri: u32 = 0;
    while ri < 8
        invariant
            ri <= 8,
            forall|n: int|
                0 <= n < ri ==> !(points::spec_trump_strength(cards::Rank::spec_from_n(n))
                    > strength && hand.spec_has(
                    cards::Card { suit: trump, rank: cards::Rank::spec_from_n(n) },
                )),
        decreases 8 - ri,
    {
        let rank = cards::Rank::from_n(ri);
        if points::trump_strength(rank) > strength && hand.has(cards::Card::new(trump, rank)) {
            proof {
                assert(spec_has_higher(hand, trump, strength as int));
            }
            return true;
        }
        ri = ri + 1;
    }
    proof {
        assert forall|r: cards::Rank|
            !(points::spec_trump_strength(r) > strength && hand.spec_has(
                cards::Card { suit: trump, rank: r },
            )) by {
            assert(r == cards::Rank::spec_from_n(r.spec_n()));
        }
    }
    false
}

/// The highest trump strength among the cards already played in the trick
/// by the seats from its first player up to `player`, exclusive.
fn highest_trump(trick: &trick::Trick, trump: cards::Suit, player: pos::PlayerPos) -> (r: i32)
    requires
        forall|i: int|
            0 <= i < trick.first.spec_distance_until(player) ==> (#[trigger] trick.spec_card_at(
                trick.first.spec_next_n(i),
            )) is Some,
    ensures
        r == spec_highest_trump(*trick, trump, player),
{
    let mut highest: i32 = -1;
    let d = trick.first.distance_until(player);
    let mut i: usize = 0;
    let mut p = trick.first;
    while i < d
        invariant
            0 <= i <= d,
            d == trick.first.spec_distance_until(player),
            p == trick.first.spec_next_n(i as int),
            highest == spec_highest_trump_upto(*trick, trump, i as int),
            -1 <= highest <= 7,
            forall|k: int|
                0 <= k < d ==> (#[trigger] trick.spec_card_at(
                    trick.first.spec_next_n(k),
                )) is Some,
        decreases d - i,
    {
        proof {
            assert(trick.spec_card_at(trick.first.spec_next_n(i as int)) is Some);
        }
        let c = match trick.cards[p.n()] {
            Some(c) => c,
            None => vstd::pervasive::unreached(),
        };
        if c.suit() == trump {
            let s = points::trump_strength(c.rank());
            if s > highest {
                highest = s;
            }
        }
        proof {
            assert(p.spec_next() == trick.first.spec_next_n(i + 1));
        }
        p = p.next();
        i = i + 1;
    }
    highest
}

/// Once the four cyclic positions of a trick are filled, every physical
/// slot holds a card.
proof fn lemma_seat_covered(t: trick::Trick, k: int)
    requires
        0 <= k < 4,
        spec_filled_to(t, 4),
    ensures
        t.cards@[k] is Some,
{
    let seat = pos::PlayerPos::spec_from_n(k);
    assert(seat.spec_n() == k);
    pos::lemma_distance_until_reaches(t.first, seat);
    let d = t.first.spec_distance_until(seat);
    if d == 4 {
        assert(t.first.spec_next_n(4) == t.first.spec_next_n(0)) by {
            vstd::arithmetic::div_mod::lemma_mod_add_multiples_vanish(t.first.spec_n(), 4);
        }
        assert(t.spec_card_at(t.first.spec_next_n(0)) is Some);
        assert(t.first.spec_next_n(0) == seat);
    } else {
        assert(t.spec_card_at(t.first.spec_next_n(d)) is Some);
    }
}

/// The seat winning the trick after `p` plays `card`: the first player
/// trivially leads, and a later card takes the lead only if strictly
/// stronger than the current winning card.
pub open spec fn spec_winner_after(
    t: trick::Trick,
    p: pos::PlayerPos,
    card: cards::Card,
    trump: cards::Suit,
) -> pos::PlayerPos {
    if p == t.first {
        t.winner
    } else if points::spec_strength(card, trump) > points::spec_strength(
        t.spec_winning_card(),
        trump,
    ) {
        p
    } else {
        t.winner
    }
}

/// The points of a table of four optional cards: empty slots count 0.
pub open spec fn spec_seq_score(cards: Seq<Option<cards::Card>>, trump: cards::Suit) -> int {
    trick::spec_opt_score(cards[0], trump) + trick::spec_opt_score(cards[1], trump)
        + trick::spec_opt_score(cards[2], trump) + trick::spec_opt_score(cards[3], trump)
}

impl GameState {
    /// The four hands, by seat.
    pub closed spec fn spec_players(self) -> Seq<cards::Hand> {
        self.players@
    }

    /// The seat whose turn it is.
    pub closed spec fn spec_current(self) -> pos::PlayerPos {
        self.current
    }

    /// The active contract.
    pub closed spec fn spec_contract(self) -> bid::Contract {
        self.contract
    }

    /// The cumulative trick points of each team.
    pub closed spec fn spec_points(self) -> Seq<i32> {
        self.points@
    }

    /// The completed tricks followed by the trick being played.
    pub closed spec fn spec_tricks(self) -> Seq<trick::Trick> {
        self.tricks@
    }

    /// The round is over: its eight tricks have been fully played.
    pub open spec fn spec_is_over(self) -> bool {
        self.spec_tricks().len() == 8 && spec_trick_complete(self.spec_tricks().last())
    }

    /// Every trick so far was won by the given team.
    pub open spec fn spec_is_capot(self, team: pos::Team) -> bool {
        forall|k: int|
            0 <= k < self.spec_tricks().len() ==> (#[trigger] self.spec_tricks()[k]).winner.spec_team()
                == team
    }

    /// The team that took the contract.
    pub open spec fn spec_taking_team(self) -> pos::Team {
        self.spec_contract().author.spec_team()
    }

    /// The contract was fulfilled, judged on the taking team's points and
    /// whether it won every trick.
    pub open spec fn spec_victory(self) -> bool {
        self.spec_contract().target.spec_victory(
            self.spec_points()[self.spec_taking_team().spec_n()] as int,
            self.spec_is_capot(self.spec_taking_team()),
        )
    }

    /// The winning team of the finished round: the taking team on victory,
    /// its opponents otherwise.
    pub open spec fn spec_winners(self) -> pos::Team {
        if self.spec_victory() {
            self.spec_taking_team()
        } else {
            self.spec_taking_team().spec_opponent()
        }
    }

    /// The final score of the winning team: the contract's success score on
    /// victory, a flat 160 for the defenders otherwise.
    pub open spec fn spec_final_score(self) -> int {
        if self.spec_victory() {
            self.spec_contract().target.spec_score()
        } else {
            160
        }
    }

    /// Structural soundness of a game state: the completed tricks come
    /// first, the last trick is filled cyclically from its first player,
    /// the turn tracks the last trick, and team points stay bounded.
    pub open spec fn wf(self) -> bool {
        let tricks = self.spec_tricks();
        let last = tricks.last();
        let np = spec_num_played(last);
        &&& 1 <= tricks.len() <= 8
        &&& forall|k: int| 0 <= k < tricks.len() - 1 ==> spec_trick_complete(#[trigger] tricks[k])
        &&& spec_filled_to(last, np)
        &&& np < 4 ==> self.spec_current() == last.first.spec_next_n(np)
        &&& np == 4 ==> tricks.len() == 8 && self.spec_current() == last.winner
        &&& tricks.len() < 8 ==> np < 4
        &&& np == 0 ==> last.winner == last.first
        &&& np >= 1 ==> last.spec_card_at(last.winner) is Some
        &&& 0 <= self.spec_points()[0]
        &&& 0 <= self.spec_points()[1]
        &&& self.spec_points()[0] + self.spec_points()[1] <= 90 * (tricks.len() - 1) + (if np == 4 {
            90int
        } else {
            0int
        })
    }

    /// Creates a new GameState, with the given cards, first player and
    /// contract.
    pub fn new(first: pos::PlayerPos, hands: [cards::Hand; 4], contract: bid::Contract) -> (g:
        GameState)
        ensures
            g.wf(),
            g.spec_players() == hands@,
            g.spec_current() == first,
            g.spec_contract() == contract,
            g.spec_points().len() == 2 && g.spec_points()[0] == 0 && g.spec_points()[1] == 0,
            g.spec_tricks().len() == 1,
            g.spec_tricks()[0].first == first && g.spec_tricks()[0].winner == first,
            forall|p: pos::PlayerPos| g.spec_tricks()[0].spec_card_at(p) is None,
    {
        let mut tricks: Vec<trick::Trick> = Vec::new();
        tricks.push(trick::Trick::new(first));
        let g = GameState { players: hands, current: first, contract, tricks, points: [0; 2] };
        proof {
            let t0 = g.spec_tricks()[0];
            assert(spec_num_played(t0) == 0);
            assert(first.spec_next_n(0) == first);
        }
        g
    }

    /// Returns the contract used for this game.
    pub fn contract(&self) -> (c: &bid::Contract)
        ensures
            *c == self.spec_contract(),
    {
        &self.contract
    }

    /// Returns the player expected to play next.
    pub fn next_player(&self) -> (p: pos::PlayerPos)
        ensures
            p == self.spec_current(),
    {
        self.current
    }

    /// Returns the cards of all players.
    pub fn hands(&self) -> (r: [cards::Hand; 4])
        ensures
            r@ == self.spec_players(),
    {
        self.players
    }

    /// The round is over: its eight tricks have been fully played.
    fn is_over(&self) -> (r: bool)
        requires
            self.spec_tricks().len() >= 1,
        ensures
            r == self.spec_is_over(),
    {
        if self.tricks.len() != 8 {
            return false;
        }
        let last = &self.tricks[self.tricks.len() - 1];
        last.cards[0].is_some() && last.cards[1].is_some() && last.cards[2].is_some()
            && last.cards[3].is_some()
    }

    /// Every trick so far was won by the given team.
    fn is_capot(&self, team: pos::Team) -> (r: bool)
        ensures
            r == self.spec_is_capot(team),
    {
        let mut k: usize = 0;
        while k < self.tricks.len()
            invariant
                k <= self.spec_tricks().len(),
                forall|j: int|
                    0 <= j < k ==> (#[trigger] self.spec_tricks()[j]).winner.spec_team() == team,
            decreases self.spec_tricks().len() - k,
        {
            if self.tricks[k].winner.team() != team {
                return false;
            }
            k = k + 1;
        }
        true
    }

    /// The result of the game: `Nothing` while the eight tricks are being
    /// played, and the final points, winners and scores once they are done.
    pub fn get_game_result(&self) -> (r: GameResult)
        requires
            self.wf(),
        ensures
            !self.spec_is_over() ==> r == GameResult::Nothing,
            self.spec_is_over() ==> (r matches GameResult::GameOver { points, winners, scores }
                && {
                &&& points@ == self.spec_points()
                &&& winners == self.spec_winners()
                &&& scores@[winners.spec_n()] == self.spec_final_score()
                &&& scores@[winners.spec_opponent().spec_n()] == 0
            }),
    {
        if !self.is_over() {
            return GameResult::Nothing;
        }

        let taking_team = self.contract.author.team();
        let taking_points = self.points[taking_team.n()];

        let capot = self.is_capot(taking_team);

        let victory = self.contract.target.victory(taking_points, capot);

        let winners = if victory {
            taking_team
        } else {
            taking_team.opponent()
        };

        let mut scores: [i32; 2] = [0; 2];
        if victory {
            scores[winners.n()] = self.contract.target.score();
        } else {
            scores[winners.n()] = 160;
        }

        GameResult::GameOver { points: self.points, winners, scores }
    }

    /// Try to play a card.
    ///
    /// Fails with `TurnError` when `player` is not the turn-holder or the
    /// round is already over, and with the exact legality error of
    /// [`spec_can_play`] for an illegal card; a rejected play changes
    /// nothing. An accepted card leaves the player's hand and joins the
    /// current trick. If it completes the trick, the trick's points go to
    /// the winning team (plus the 10-point bonus on the last trick of the
    /// round), the winner leads the next trick, and the result carries the
    /// winner and, once all eight tricks are done, the final scores.
    #[verifier::rlimit(100)]
    pub fn play_card(&mut self, player: pos::PlayerPos, card: cards::Card) -> (r: Result<
        TrickResult,
        PlayError,
    >)
        requires
            old(self).wf(),
        ensures
            final(self).wf(),
            old(self).spec_is_over() || player != old(self).spec_current() ==> r == Err::<
                TrickResult,
                PlayError,
            >(PlayError::TurnError) && *final(self) == *old(self),
            !old(self).spec_is_over() && player == old(self).spec_current() ==> (spec_can_play(
                player,
                card,
                old(self).spec_players()[player.spec_n()],
                old(self).spec_tricks().last(),
                old(self).spec_contract().trump,
            ) matches Err(e) ==> r == Err::<TrickResult, PlayError>(e) && *final(self) == *old(
                self,
            )),
            !old(self).spec_is_over() && player == old(self).spec_current() && spec_can_play(
                player,
                card,
                old(self).spec_players()[player.spec_n()],
                old(self).spec_tricks().last(),
                old(self).spec_contract().trump,
            ) is Ok ==> ({
                let t = old(self).spec_tricks().last();
                let tlen = old(self).spec_tricks().len() as int;
                let trump = old(self).spec_contract().trump;
                let w = spec_winner_after(t, player, card, trump);
                let newcards = t.cards@.update(player.spec_n(), Some(card));
                let tscore = spec_seq_score(newcards, trump);
                &&& final(self).spec_contract() == old(self).spec_contract()
                &&& forall|k: int|
                    0 <= k < 4 && k != player.spec_n() ==> final(self).spec_players()[k] == old(
                        self,
                    ).spec_players()[k]
                &&& forall|c2: cards::Card|
                    final(self).spec_players()[player.spec_n()].spec_has(c2) == (old(
                        self,
                    ).spec_players()[player.spec_n()].spec_has(c2) && c2 != card)
                &&& final(self).spec_players()[player.spec_n()].spec_size() == old(
                    self,
                ).spec_players()[player.spec_n()].spec_size() - 1
                &&& forall|k: int|
                    0 <= k < tlen - 1 ==> final(self).spec_tricks()[k] == old(
                        self,
                    ).spec_tricks()[k]
                &&& final(self).spec_tricks()[tlen - 1].first == t.first
                &&& final(self).spec_tricks()[tlen - 1].winner == w
                &&& final(self).spec_tricks()[tlen - 1].cards@ == newcards
                &&& if player != t.first.spec_prev() {
                    &&& final(self).spec_tricks().len() == tlen
                    &&& final(self).spec_points() == old(self).spec_points()
                    &&& final(self).spec_current() == player.spec_next()
                    &&& r == Ok::<TrickResult, PlayError>(TrickResult::Nothing)
                } else {
                    &&& final(self).spec_current() == w
                    &&& final(self).spec_points() == old(self).spec_points().update(
                        w.spec_team().spec_n(),
                        ((old(self).spec_points()[w.spec_team().spec_n()] + tscore + (if tlen == 8 {
                            10int
                        } else {
                            0int
                        })) as i32),
                    )
                    &&& if tlen < 8 {
                        &&& final(self).spec_tricks().len() == tlen + 1
                        &&& final(self).spec_tricks().last().first == w
                        &&& final(self).spec_tricks().last().winner == w
                        &&& forall|p2: pos::PlayerPos|
                            final(self).spec_tricks().last().spec_card_at(p2) is None
                        &&& r == Ok::<TrickResult, PlayError>(
                            TrickResult::TrickOver(w, GameResult::Nothing),
                        )
                    } else {
                        &&& final(self).spec_tricks().len() == 8
                        &&& final(self).spec_is_over()
                        &&& (r matches Ok(tr) && tr matches TrickResult::TrickOver(w2, gr) && w2
                            == w && (gr matches GameResult::GameOver { points, winners, scores }
                            && points@ == final(self).spec_points()
                            && winners == final(self).spec_winners()
                            && scores@[winners.spec_n()] == final(self).spec_final_score()
                            && scores@[winners.spec_opponent().spec_n()] == 0))
                    }
                }
            }),
    {
        if self.is_over() {
            return Err(PlayError::TurnError);
        }
        if self.current != player {
            return Err(PlayError::TurnError);
        }

        let ghost t0 = self.spec_tricks().last();
        let ghost np = spec_num_played(t0);
        let trump = self.contract.trump;
        let i = self.tricks.len() - 1;

        proof {
            // the seat to act stands `np` places after the trick's first
            // player, and everyone up to it has played
            assert(np < 4);
            if player != t0.first {
                pos::lemma_distance_until_reaches(t0.first, player);
                let d = t0.first.spec_distance_until(player);
                if np == 0 {
                    assert(t0.first.spec_next_n(0) == t0.first);
                }
                pos::lemma_next_n_injective(t0.first, d, np);
                assert forall|k: int|
                    0 <= k < t0.first.spec_distance_until(player) implies (
                #[trigger] t0.spec_card_at(t0.first.spec_next_n(k))) is Some by {}
            }
        }

        // Is that a valid move?
        match can_play(player, card, self.players[player.n()], &self.tricks[i], trump) {
            Err(e) => {
                return Err(e);
            },
            Ok(()) => {},
        }

        // Play the card: it leaves the hand and joins the current trick
        let mut h = self.players[player.n()];
        h.remove(card);
        self.players[player.n()] = h;

        proof {
            if player != t0.first {
                assert(t0.spec_card_at(t0.winner) is Some);
            }
        }
        let trick_over = self.tricks[i].play_card(player, card, trump);

        proof {
            // the freshly played slot makes the cyclic fill one longer
            let t1 = self.spec_tricks().last();
            assert(t1.cards@ == t0.cards@.update(player.spec_n(), Some(card)));
            assert(t0.spec_card_at(t0.first.spec_next_n(np)) is None);
            assert(player == t0.first.spec_next_n(np));
            assert forall|k: int|
                0 <= k < 4 implies ((#[trigger] t1.spec_card_at(t1.first.spec_next_n(k))) is Some
                <==> k < np + 1) by {
                if t0.first.spec_next_n(k) == player {
                    pos::lemma_next_n_injective(t0.first, k, np);
                } else {
                    assert(t1.spec_card_at(t0.first.spec_next_n(k)) == t0.spec_card_at(
                        t0.first.spec_next_n(k),
                    ));
                }
            }
            assert(spec_num_played(t1) == np + 1) by {
                assert(t1.cards@[player.spec_n()] is Some);
                assert forall|k: int|
                    0 <= k < 4 && k != player.spec_n() implies t1.cards@[k] == t0.cards@[k] by {}
            }
            assert(spec_filled_to(t1, np + 1));
            // the trick completes exactly on the fourth seat
            if player == t0.first.spec_prev() {
                assert(t0.first.spec_next_n(3) == t0.first.spec_prev());
                pos::lemma_next_n_injective(t0.first, np, 3);
                assert(np == 3);
            }
        }

        // Is the trick over?
        let result = if trick_over {
            proof {
                let t1 = self.spec_tricks().last();
                assert(spec_trick_complete(t1)) by {
                    assert(spec_filled_to(t1, 4));
                    assert forall|k: int| 0 <= k < 4 implies t1.cards@[k] is Some by {
                        lemma_seat_covered(t1, k);
                    }
                }
            }
            self.resolve_completed_trick()
        } else {
            proof {
                pos::lemma_next_n_step(t0.first, np);
            }
            self.current = self.current.next();
            TrickResult::Nothing
        };

        Ok(result)
    }

    /// Settles a just-completed trick: its points go to the winning team,
    /// with the 10-point bonus on the round's last trick, and the winner
    /// leads what follows — a fresh trick, or nothing if the round is done.
    fn resolve_completed_trick(&mut self) -> (res: TrickResult)
        requires
            1 <= old(self).spec_tricks().len() <= 8,
            forall|k: int|
                0 <= k < old(self).spec_tricks().len() - 1 ==> spec_trick_complete(
                    #[trigger] old(self).spec_tricks()[k],
                ),
            spec_trick_complete(old(self).spec_tricks().last()),
            old(self).spec_points().len() == 2,
            0 <= old(self).spec_points()[0],
            0 <= old(self).spec_points()[1],
            old(self).spec_points()[0] + old(self).spec_points()[1] <= 90 * (old(
                self,
            ).spec_tricks().len() - 1),
        ensures
            final(self).wf(),
            final(self).spec_contract() == old(self).spec_contract(),
            final(self).spec_players() == old(self).spec_players(),
            forall|k: int|
                0 <= k < old(self).spec_tricks().len() ==> final(self).spec_tricks()[k] == old(
                    self,
                ).spec_tricks()[k],
            ({
                let t = old(self).spec_tricks().last();
                let tlen = old(self).spec_tricks().len() as int;
                let w = t.winner;
                let tscore = spec_seq_score(t.cards@, old(self).spec_contract().trump);
                &&& final(self).spec_current() == w
                &&& final(self).spec_points() == old(self).spec_points().update(
                    w.spec_team().spec_n(),
                    ((old(self).spec_points()[w.spec_team().spec_n()] + tscore + (if tlen == 8 {
                        10int
                    } else {
                        0int
                    })) as i32),
                )
                &&& if tlen < 8 {
                    &&& final(self).spec_tricks().len() == tlen + 1
                    &&& final(self).spec_tricks().last().first == w
                    &&& final(self).spec_tricks().last().winner == w
                    &&& forall|p2: pos::PlayerPos|
                        final(self).spec_tricks().last().spec_card_at(p2) is None
                    &&& res == TrickResult::TrickOver(w, GameResult::Nothing)
                } else {
                    &&& final(self).spec_tricks().len() == 8
                    &&& final(self).spec_is_over()
                    &&& (res matches TrickResult::TrickOver(w2, gr) && w2 == w && (gr
                        matches GameResult::GameOver { points, winners, scores }
                        && points@ == final(self).spec_points()
                        && winners == final(self).spec_winners()
                        && scores@[winners.spec_n()] == final(self).spec_final_score()
                        && scores@[winners.spec_opponent().spec_n()] == 0))
                }
            }),
    {
        let trump = self.contract.trump;
        let i = self.tricks.len() - 1;
        let winner = self.tricks[i].winner;
        let score = self.tricks[i].score(trump);
        let team_idx = winner.team().n();
        let cur = self.points[team_idx];
        self.points[team_idx] = cur + score;
        if self.tricks.len() == 8 {
            // 10 de der
            let cur2 = self.points[team_idx];
            self.points[team_idx] = cur2 + 10;
        } else {
            self.tricks.push(trick::Trick::new(winner));
        }
        self.current = winner;
        proof {
            if old(self).spec_tricks().len() < 8 {
                assert(spec_num_played(self.spec_tricks().last()) == 0);
            } else {
                let lt0 = old(self).spec_tricks().last();
                assert(lt0.cards@[0] is Some && lt0.cards@[1] is Some && lt0.cards@[2] is Some
                    && lt0.cards@[3] is Some);
                assert(spec_num_played(self.spec_tricks().last()) == 4);
            }
        }
        TrickResult::TrickOver(winner, self.get_game_result())
    }

    /// Return the last completed trick, if any.
    pub fn last_trick(&self) -> (r: Result<&trick::Trick, PlayError>)
        requires
            self.spec_tricks().len() >= 1,
        ensures
            self.spec_tricks().len() == 1 ==> r == Err::<&trick::Trick, PlayError>(
                PlayError::NoLastTrick,
            ),
            self.spec_tricks().len() > 1 ==> (r matches Ok(t) && *t
                == self.spec_tricks()[self.spec_tricks().len() - 2]),
    {
        if self.tricks.len() == 1 {
            Err(PlayError::NoLastTrick)
        } else {
            let i = self.tricks.len() - 2;
            Ok(&self.tricks[i])
        }
    }

    /// Returns the current trick.
    pub fn current_trick(&self) -> (t: &trick::Trick)
        requires
            self.spec_tricks().len() >= 1,
        ensures
            *t == self.spec_tricks().last(),
    {
        let i = self.tricks.len() - 1;
        &self.tricks[i]
    }
}

/// Trick legality, first rule: a player holding at least one card of the
/// led suit may never legally play a different suit.
pub proof fn lemma_must_follow_suit(
    p: pos::PlayerPos,
    card: cards::Card,
    hand: cards::Hand,
    t: trick::Trick,
    trump: cards::Suit,
)
    requires
        hand.spec_has(card),
        p != t.first,
        t.spec_suit() is Some,
        card.suit != t.spec_suit()->Some_0,
        spec_has_suit(hand, t.spec_suit()->Some_0),
    ensures
        spec_can_play(p, card, hand, t, trump) == Err::<(), PlayError>(PlayError::IncorrectSuit),
{
}

/// Trick legality, second rule: a player with no card of the led suit and
/// no trump at all must be allowed to play anything.
pub proof fn lemma_free_discard(
    p: pos::PlayerPos,
    card: cards::Card,
    hand: cards::Hand,
    t: trick::Trick,
    trump: cards::Suit,
)
    requires
        hand.spec_has(card),
        p != t.first,
        t.spec_suit() is Some,
        !spec_has_suit(hand, t.spec_suit()->Some_0),
        !spec_has_suit(hand, trump),
    ensures
        spec_can_play(p, card, hand, t, trump) is Ok,
{
    assert(card.suit != t.spec_suit()->Some_0);
    assert(card.suit != trump);
}

/// Trick legality, third rule: a player who can overtrump the strongest
/// trump already played but plays a lower trump is rejected.
pub proof fn lemma_must_overtrump(
    p: pos::PlayerPos,
    card: cards::Card,
    hand: cards::Hand,
    t: trick::Trick,
    trump: cards::Suit,
)
    requires
        hand.spec_has(card),
        p != t.first,
        t.spec_suit() == Some(trump),
        card.suit == trump,
        points::spec_trump_strength(card.rank) < spec_highest_trump(t, trump, p),
        spec_has_higher(hand, trump, spec_highest_trump(t, trump, p)),
    ensures
        spec_can_play(p, card, hand, t, trump) == Err::<(), PlayError>(PlayError::NonRaisedTrump),
{
}

/// Round scoring, first half: a contract on a plain point target whose
/// taking team reaches that many points is awarded exactly the target's
/// success score, and the opponents 0.
pub proof fn lemma_score_threshold_met(g: GameState)
    requires
        g.wf(),
        g.spec_is_over(),
        g.spec_contract().target != bid::Target::ContractCapot,
        g.spec_points()[g.spec_taking_team().spec_n()] >= g.spec_contract().target.spec_score(),
    ensures
        g.spec_winners() == g.spec_taking_team(),
        g.spec_final_score() == g.spec_contract().target.spec_score(),
{
}

/// Round scoring, second half: a Capot contract whose taking team does not
/// win all eight tricks hands the opponents a flat 160, whatever the
/// points.
pub proof fn lemma_score_capot_missed(g: GameState)
    requires
        g.wf(),
        g.spec_is_over(),
        g.spec_contract().target == bid::Target::ContractCapot,
        !g.spec_is_capot(g.spec_taking_team()),
    ensures
        g.spec_winners() == g.spec_taking_team().spec_opponent(),
        g.spec_final_score() == 160,
{
}

} // verus!
