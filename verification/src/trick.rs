//! A single trick: the up-to-four cards on the table, their first player
//! and the seat currently winning.

use crate::cards;
use crate::points;
use crate::pos;
use vstd::prelude::*;

verus! {

/// The current cards on the table.
#[derive(Clone, Debug)]
pub struct Trick {
    /// Cards currently on the table, one slot per seat (`None` until that
    /// seat has played).
    pub cards: [Option<cards::Card>; 4],
    /// First player in this trick.
    pub first: pos::PlayerPos,
    /// Current winner of the trick (updated after each card).
    pub winner: pos::PlayerPos,
}

/// The points an optional card is worth: an empty slot is worth 0.
pub open spec fn spec_opt_score(c: Option<cards::Card>, trump: cards::Suit) -> int {
    match c {
        Some(c) => points::spec_score(c, trump),
        None => 0,
    }
}

impl Trick {
    /// The card played by seat `p`, if any.
    pub open spec fn spec_card_at(self, p: pos::PlayerPos) -> Option<cards::Card> {
        self.cards@[p.spec_n()]
    }

    /// The card of the seat currently winning; meaningful once that seat
    /// has played.
    pub open spec fn spec_winning_card(self) -> cards::Card {
        match self.spec_card_at(self.winner) {
            Some(c) => c,
            None => cards::Card { suit: cards::Suit::Heart, rank: cards::Rank::Rank7 },
        }
    }

    /// The points this trick is worth under the given trump suit.
    pub open spec fn spec_score(self, trump: cards::Suit) -> int {
        spec_opt_score(self.cards@[0], trump) + spec_opt_score(self.cards@[1], trump)
            + spec_opt_score(self.cards@[2], trump) + spec_opt_score(self.cards@[3], trump)
    }

    /// The suit of the first player's card, if the trick has started.
    pub open spec fn spec_suit(self) -> Option<cards::Suit> {
        match self.spec_card_at(self.first) {
            Some(c) => Some(c.suit),
            None => None,
        }
    }

    /// Creates a new, empty trick.
    pub fn new(first: pos::PlayerPos) -> (t: Trick)
        ensures
            t.first == first,
            t.winner == first,
            forall|p: pos::PlayerPos| t.spec_card_at(p) is None,
            forall|i: int| 0 <= i < 4 ==> t.cards@[i] is None,
    {
        Trick { first, winner: first, cards: [None; 4] }
    }

    /// Returns the points value of this trick: empty slots count 0.
    pub fn score(&self, trump: cards::Suit) -> (r: i32)
        ensures
            r == self.spec_score(trump),
            0 <= r <= 80,
    {
        let s0 = Self::slot_score(self.cards[0], trump);
        let s1 = Self::slot_score(self.cards[1], trump);
        let s2 = Self::slot_score(self.cards[2], trump);
        let s3 = Self::slot_score(self.cards[3], trump);
        s0 + s1 + s2 + s3
    }

    /// The points one slot contributes to the trick's value.
    fn slot_score(slot: Option<cards::Card>, trump: cards::Suit) -> (r: i32)
        ensures
            r == spec_opt_score(slot, trump),
            0 <= r <= 20,
    {
        match slot {
            Some(c) => points::score(c, trump),
            None => 0,
        }
    }

    /// Plays a card into `player`'s slot and updates the winner: a card
    /// strictly stronger than the current winning card takes the lead.
    ///
    /// Returns `true` if this completes the trick, which happens exactly
    /// when `player` is the seat before the first player.
    pub fn play_card(&mut self, player: pos::PlayerPos, card: cards::Card, trump: cards::Suit) -> (r:
        bool)
        requires
            player != old(self).first ==> old(self).spec_card_at(old(self).winner) is Some,
        ensures
            final(self).first == old(self).first,
            final(self).cards@ == old(self).cards@.update(player.spec_n(), Some(card)),
            final(self).winner == (if player == old(self).first {
                old(self).winner
            } else if points::spec_strength(card, trump) > points::spec_strength(
                old(self).spec_winning_card(),
                trump,
            ) {
                player
            } else {
                old(self).winner
            }),
            r == (player == old(self).first.spec_prev()),
    {
        self.cards[player.n()] = Some(card);
        if player == self.first {
            proof {
                // the first seat is never its own predecessor
                assert(player != player.spec_prev());
            }
            return false;
        }
        let winning = match self.cards[self.winner.n()] {
            Some(c) => c,
            None => vstd::pervasive::unreached(),
        };
        if points::strength(card, trump) > points::strength(winning, trump) {
            self.winner = player;
        }
        player == self.first.prev()
    }

    /// Returns the starting suit for this trick, or `None` if the trick has
    /// not started yet.
    pub fn suit(&self) -> (r: Option<cards::Suit>)
        ensures
            r == self.spec_suit(),
    {
        match self.cards[self.first.n()] {
            Some(c) => Some(c.suit()),
            None => None,
        }
    }
}

} // verus!
