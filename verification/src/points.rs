//! Point values and strengths of cards, conditioned on the trump suit.

use crate::cards;
use vstd::prelude::*;

verus! {

/// The points a rank is worth when its suit is the trump.
pub open spec fn spec_trump_score(rank: cards::Rank) -> int {
    match rank {
        cards::Rank::RankJ => 20,
        cards::Rank::Rank9 => 14,
        _ => spec_usual_score(rank),
    }
}

/// The points a rank is worth when its suit is not the trump.
pub open spec fn spec_usual_score(rank: cards::Rank) -> int {
    match rank {
        cards::Rank::Rank7 => 0,
        cards::Rank::Rank8 => 0,
        cards::Rank::Rank9 => 0,
        cards::Rank::RankJ => 2,
        cards::Rank::RankQ => 3,
        cards::Rank::RankK => 4,
        cards::Rank::RankX => 10,
        cards::Rank::RankA => 11,
    }
}

/// The strength of a rank when its suit is the trump: 7, 8, Queen, King,
/// 10, Ace, 9, Jack, from weakest to strongest.
pub open spec fn spec_trump_strength(rank: cards::Rank) -> int {
    match rank {
        cards::Rank::Rank7 => 0,
        cards::Rank::Rank8 => 1,
        cards::Rank::RankQ => 2,
        cards::Rank::RankK => 3,
        cards::Rank::RankX => 4,
        cards::Rank::RankA => 5,
        cards::Rank::Rank9 => 6,
        cards::Rank::RankJ => 7,
    }
}

/// The strength of a rank when its suit is not the trump: 7, 8, 9, Jack,
/// Queen, King, 10, Ace, from weakest to strongest.
pub open spec fn spec_usual_strength(rank: cards::Rank) -> int {
    match rank {
        cards::Rank::Rank7 => 0,
        cards::Rank::Rank8 => 1,
        cards::Rank::Rank9 => 2,
        cards::Rank::RankJ => 3,
        cards::Rank::RankQ => 4,
        cards::Rank::RankK => 5,
        cards::Rank::RankX => 6,
        cards::Rank::RankA => 7,
    }
}

/// The points `card` is worth under the given trump suit.
pub open spec fn spec_score(card: cards::Card, trump: cards::Suit) -> int {
    if card.suit == trump {
        spec_trump_score(card.rank)
    } else {
        spec_usual_score(card.rank)
    }
}

/// The strength of `card` under the given trump suit. Trump strengths are
/// offset by 8 so that any trump card beats any non-trump card.
pub open spec fn spec_strength(card: cards::Card, trump: cards::Suit) -> int {
    if card.suit == trump {
        8 + spec_trump_strength(card.rank)
    } else {
        spec_usual_strength(card.rank)
    }
}

/// Returns the number of points `card` is worth, with the current trump suit.
pub fn score(card: cards::Card, trump: cards::Suit) -> (r: i32)
    ensures
        r == spec_score(card, trump),
        0 <= r <= 20,
{
    let r = card.rank();
    if card.suit() == trump {
        trump_score(r)
    } else {
        usual_score(r)
    }
}

/// Returns the strength of `card`, with the current trump suit.
pub fn strength(card: cards::Card, trump: cards::Suit) -> (r: i32)
    ensures
        r == spec_strength(card, trump),
        0 <= r <= 15,
{
    let r = card.rank();
    if card.suit() == trump {
        8 + trump_strength(r)
    } else {
        usual_strength(r)
    }
}

/// Returns the score for the given rank when it is the trump.
pub fn trump_score(rank: cards::Rank) -> (r: i32)
    ensures
        r == spec_trump_score(rank),
        0 <= r <= 20,
{
    match rank {
        cards::Rank::RankJ => 20,
        cards::Rank::Rank9 => 14,
        _ => usual_score(rank),
    }
}

/// Returns the score for the given rank when it is not the trump.
pub fn usual_score(rank: cards::Rank) -> (r: i32)
    ensures
        r == spec_usual_score(rank),
        0 <= r <= 11,
{
    match rank {
        cards::Rank::Rank7 | cards::Rank::Rank8 | cards::Rank::Rank9 => 0,
        cards::Rank::RankJ => 2,
        cards::Rank::RankQ => 3,
        cards::Rank::RankK => 4,
        cards::Rank::RankX => 10,
        cards::Rank::RankA => 11,
    }
}

/// Returns the strength for the given rank when it is the trump.
pub fn trump_strength(rank: cards::Rank) -> (r: i32)
    ensures
        r == spec_trump_strength(rank),
        0 <= r <= 7,
{
    match rank {
        cards::Rank::Rank7 => 0,
        cards::Rank::Rank8 => 1,
        cards::Rank::RankQ => 2,
        cards::Rank::RankK => 3,
        cards::Rank::RankX => 4,
        cards::Rank::RankA => 5,
        cards::Rank::Rank9 => 6,
        cards::Rank::RankJ => 7,
    }
}

/// Returns the strength for the given rank when it is not the trump.
pub fn usual_strength(rank: cards::Rank) -> (r: i32)
    ensures
        r == spec_usual_strength(rank),
        0 <= r <= 7,
{
    match rank {
        cards::Rank::Rank7 => 0,
        cards::Rank::Rank8 => 1,
        cards::Rank::Rank9 => 2,
        cards::Rank::RankJ => 3,
        cards::Rank::RankQ => 4,
        cards::Rank::RankK => 5,
        cards::Rank::RankX => 6,
        cards::Rank::RankA => 7,
    }
}

} // verus!
