//! A basic, rule-agnostic 32-card system: suits, ranks, cards, hands and
//! decks.
//!
//! A [`Card`] is one of 32 values, densely numbered `0` to `31`. A [`Hand`]
//! is a set of cards backed by a 32-bit bitset; the encoding is kept private
//! and all reasoning goes through [`Hand::spec_has`] and [`Hand::spec_size`].

use rand::seq::SliceRandom;
use rand::SeedableRng;
use vstd::prelude::*;

verus! {

/// One of the four suits: Heart, Spade, Diamond, Club.
#[derive(PartialEq, Eq, Structural, Clone, Copy, Debug)]
pub enum Suit {
    /// The suit of hearts.
    Heart,
    /// The suit of spades.
    Spade,
    /// The suit of diamonds.
    Diamond,
    /// The suit of clubs.
    Club,
}

impl Suit {
    /// The suit's number, `0` to `3`.
    pub open spec fn spec_n(self) -> int {
        match self {
            Suit::Heart => 0,
            Suit::Spade => 1,
            Suit::Diamond => 2,
            Suit::Club => 3,
        }
    }

    /// The suit with the given number.
    pub open spec fn spec_from_n(n: int) -> Suit {
        if n == 0 {
            Suit::Heart
        } else if n == 1 {
            Suit::Spade
        } else if n == 2 {
            Suit::Diamond
        } else {
            Suit::Club
        }
    }

    /// The suit's number, `0` to `3`.
    pub fn n(self) -> (r: u32)
        ensures
            r == self.spec_n(),
    {
        match self {
            Suit::Heart => 0,
            Suit::Spade => 1,
            Suit::Diamond => 2,
            Suit::Club => 3,
        }
    }

    /// Returns the suit corresponding to the number:
    /// `0` Heart, `1` Spade, `2` Diamond, `3` Club.
    pub fn from_n(n: u32) -> (s: Suit)
        requires
            n < 4,
        ensures
            s == Suit::spec_from_n(n as int),
            s.spec_n() == n,
    {
        if n == 0 {
            Suit::Heart
        } else if n == 1 {
            Suit::Spade
        } else if n == 2 {
            Suit::Diamond
        } else {
            Suit::Club
        }
    }

    /// The characters of this suit's symbol.
    pub open spec fn spec_str(self) -> Seq<char> {
        match self {
            Suit::Heart => "\u{2665}"@,
            Suit::Spade => "\u{2660}"@,
            Suit::Diamond => "\u{2666}"@,
            Suit::Club => "\u{2663}"@,
        }
    }

    /// Returns a UTF-8 string representing the suit (a heart, spade, diamond
    /// or club symbol).
    pub fn to_string(self) -> (r: String)
        ensures
            r@ == self.spec_str(),
    {
        match self {
            Suit::Heart => "\u{2665}".to_owned(),
            Suit::Spade => "\u{2660}".to_owned(),
            Suit::Diamond => "\u{2666}".to_owned(),
            Suit::Club => "\u{2663}".to_owned(),
        }
    }
}

impl core::str::FromStr for Suit {
    type Err = String;

    fn from_str(s: &str) -> Result<Suit, String> {
        if str_eq(s, "H") || str_eq(s, "h") || str_eq(s, "heart") || str_eq(s, "Suit::Heart")
            || str_eq(s, "Heart") {
            Ok(Suit::Heart)
        } else if str_eq(s, "C") || str_eq(s, "c") || str_eq(s, "club") || str_eq(s, "Suit::Club")
            || str_eq(s, "Club") {
            Ok(Suit::Club)
        } else if str_eq(s, "S") || str_eq(s, "s") || str_eq(s, "spade") || str_eq(
            s,
            "Suit::Spade",
        ) || str_eq(s, "Spade") {
            Ok(Suit::Spade)
        } else if str_eq(s, "D") || str_eq(s, "d") || str_eq(s, "diamond") || str_eq(
            s,
            "Suit::Diamond",
        ) || str_eq(s, "Diamond") {
            Ok(Suit::Diamond)
        } else {
            Err("invalid suit: ".to_owned().concat(s))
        }
    }
}

/// Compares two string slices character by character.
pub(crate) fn str_eq(a: &str, b: &str) -> (r: bool)
    ensures
        r == (a@ == b@),
{
    let sa: String = a.to_owned();
    let sb: String = b.to_owned();
    sa == sb
}

/// Rank of a card in a suit.
#[derive(PartialEq, Eq, Structural, Clone, Copy, Debug)]
pub enum Rank {
    /// 7
    Rank7,
    /// 8
    Rank8,
    /// 9
    Rank9,
    /// Jack
    RankJ,
    /// Queen
    RankQ,
    /// King
    RankK,
    /// 10
    RankX,
    /// Ace
    RankA,
}

impl Rank {
    /// The rank's number, `0` to `7`.
    pub open spec fn spec_n(self) -> int {
        match self {
            Rank::Rank7 => 0,
            Rank::Rank8 => 1,
            Rank::Rank9 => 2,
            Rank::RankJ => 3,
            Rank::RankQ => 4,
            Rank::RankK => 5,
            Rank::RankX => 6,
            Rank::RankA => 7,
        }
    }

    /// The rank with the given number.
    pub open spec fn spec_from_n(n: int) -> Rank {
        if n == 0 {
            Rank::Rank7
        } else if n == 1 {
            Rank::Rank8
        } else if n == 2 {
            Rank::Rank9
        } else if n == 3 {
            Rank::RankJ
        } else if n == 4 {
            Rank::RankQ
        } else if n == 5 {
            Rank::RankK
        } else if n == 6 {
            Rank::RankX
        } else {
            Rank::RankA
        }
    }

    /// The rank's number, `0` to `7`.
    pub fn n(self) -> (r: u32)
        ensures
            r == self.spec_n(),
    {
        match self {
            Rank::Rank7 => 0,
            Rank::Rank8 => 1,
            Rank::Rank9 => 2,
            Rank::RankJ => 3,
            Rank::RankQ => 4,
            Rank::RankK => 5,
            Rank::RankX => 6,
            Rank::RankA => 7,
        }
    }

    /// Returns the rank corresponding to the given number:
    /// `0`..=`2` are 7, 8 and 9, `3` Jack, `4` Queen, `5` King, `6` 10,
    /// `7` Ace.
    pub fn from_n(n: u32) -> (r: Rank)
        requires
            n < 8,
        ensures
            r == Rank::spec_from_n(n as int),
            r.spec_n() == n,
    {
        if n == 0 {
            Rank::Rank7
        } else if n == 1 {
            Rank::Rank8
        } else if n == 2 {
            Rank::Rank9
        } else if n == 3 {
            Rank::RankJ
        } else if n == 4 {
            Rank::RankQ
        } else if n == 5 {
            Rank::RankK
        } else if n == 6 {
            Rank::RankX
        } else {
            Rank::RankA
        }
    }

    /// The characters of this rank's symbol.
    pub open spec fn spec_str(self) -> Seq<char> {
        match self {
            Rank::Rank7 => "7"@,
            Rank::Rank8 => "8"@,
            Rank::Rank9 => "9"@,
            Rank::RankJ => "J"@,
            Rank::RankQ => "Q"@,
            Rank::RankK => "K"@,
            Rank::RankX => "X"@,
            Rank::RankA => "A"@,
        }
    }

    /// Returns a character representing the given rank.
    pub fn to_string(self) -> (r: String)
        ensures
            r@ == self.spec_str(),
    {
        match self {
            Rank::Rank7 => "7".to_owned(),
            Rank::Rank8 => "8".to_owned(),
            Rank::Rank9 => "9".to_owned(),
            Rank::RankJ => "J".to_owned(),
            Rank::RankQ => "Q".to_owned(),
            Rank::RankK => "K".to_owned(),
            Rank::RankX => "X".to_owned(),
            Rank::RankA => "A".to_owned(),
        }
    }
}

/// Represents a single card: a suit and a rank.
#[derive(PartialEq, Eq, Structural, Clone, Copy, Debug)]
pub struct Card {
    /// The card's suit.
    pub suit: Suit,
    /// The card's rank.
    pub rank: Rank,
}

impl Card {
    /// The card's dense number: `8 * suit + rank`, `0` to `31`.
    pub open spec fn spec_id(self) -> int {
        8 * self.suit.spec_n() + self.rank.spec_n()
    }

    /// The card with the given dense number.
    pub open spec fn spec_from_id(id: int) -> Card {
        Card { suit: Suit::spec_from_n(id / 8), rank: Rank::spec_from_n(id % 8) }
    }

    /// Creates a card from the given suit and rank.
    pub fn new(suit: Suit, rank: Rank) -> (c: Card)
        ensures
            c == (Card { suit, rank }),
    {
        Card { suit, rank }
    }

    /// Returns the card id (from 0 to 31).
    pub fn id(self) -> (r: u32)
        ensures
            r == self.spec_id(),
            r < 32,
    {
        8 * self.suit.n() + self.rank.n()
    }

    /// Returns the card corresponding to the given id.
    pub fn from_id(id: u32) -> (c: Card)
        requires
            id < 32,
        ensures
            c == Card::spec_from_id(id as int),
            c.spec_id() == id,
    {
        let c = Card { suit: Suit::from_n(id / 8), rank: Rank::from_n(id % 8) };
        proof {
            vstd::arithmetic::div_mod::lemma_fundamental_div_mod(id as int, 8);
        }
        c
    }

    /// Returns the card's rank.
    pub fn rank(self) -> (r: Rank)
        ensures
            r == self.rank,
    {
        self.rank
    }

    /// Returns the card's suit.
    pub fn suit(self) -> (s: Suit)
        ensures
            s == self.suit,
    {
        self.suit
    }

    /// The characters of this card's text form: rank, then suit.
    pub open spec fn spec_str(self) -> Seq<char> {
        self.rank.spec_str() + self.suit.spec_str()
    }

    /// Returns a string representation of the card (ex: "7" followed by the
    /// diamond symbol).
    pub fn to_string(self) -> (r: String)
        ensures
            r@ == self.spec_str(),
    {
        let r = self.rank.to_string();
        let s = self.suit.to_string();
        r.concat(s.as_str())
    }
}

/// Two cards are equal exactly when their dense numbers are equal.
pub proof fn lemma_card_id_injective(a: Card, b: Card)
    ensures
        (a.spec_id() == b.spec_id()) <==> a == b,
{
    assert(a.spec_id() / 8 == a.suit.spec_n() && a.spec_id() % 8 == a.rank.spec_n()) by {
        vstd::arithmetic::div_mod::lemma_fundamental_div_mod_converse(
            a.spec_id(),
            8,
            a.suit.spec_n(),
            a.rank.spec_n(),
        );
    }
    assert(b.spec_id() / 8 == b.suit.spec_n() && b.spec_id() % 8 == b.rank.spec_n()) by {
        vstd::arithmetic::div_mod::lemma_fundamental_div_mod_converse(
            b.spec_id(),
            8,
            b.suit.spec_n(),
            b.rank.spec_n(),
        );
    }
}

/// Every card is the card of its own dense number.
pub proof fn lemma_card_from_id_of_id(c: Card)
    ensures
        Card::spec_from_id(c.spec_id()) == c,
        0 <= c.spec_id() < 32,
{
    vstd::arithmetic::div_mod::lemma_fundamental_div_mod_converse(
        c.spec_id(),
        8,
        c.suit.spec_n(),
        c.rank.spec_n(),
    );
}

/// Every dense number below 32 is the number of its own card.
proof fn lemma_id_of_card_from_id(id: int)
    requires
        0 <= id < 32,
    ensures
        Card::spec_from_id(id).spec_id() == id,
{
    vstd::arithmetic::div_mod::lemma_fundamental_div_mod(id, 8);
}

/// Whether bit `i` of `h` is set.
spec fn id_bit(h: u32, i: u32) -> bool {
    h & (1u32 << i) != 0
}

proof fn lemma_bit_or(h: u32, i: u32, j: u32)
    requires
        i < 32,
        j < 32,
    ensures
        id_bit(h | (1u32 << i), j) == (id_bit(h, j) || i == j),
{
    assert(((h | (1u32 << i)) & (1u32 << j) != 0) == ((h & (1u32 << j) != 0) || i == j))
        by (bit_vector)
        requires
            i < 32 && j < 32,
    ;
}

proof fn lemma_bit_clear(h: u32, i: u32, j: u32)
    requires
        i < 32,
        j < 32,
    ensures
        id_bit(h & !(1u32 << i), j) == (id_bit(h, j) && i != j),
{
    assert(((h & !(1u32 << i)) & (1u32 << j) != 0) == ((h & (1u32 << j) != 0) && i != j))
        by (bit_vector)
        requires
            i < 32 && j < 32,
    ;
}

/// The cards whose bit is set in `h` among bits `0..n`, in ascending order
/// of dense number.
spec fn ids_list(h: u32, n: int) -> Seq<Card>
    decreases n,
{
    if n <= 0 {
        Seq::empty()
    } else if id_bit(h, (n - 1) as u32) {
        ids_list(h, n - 1).push(Card::spec_from_id(n - 1))
    } else {
        ids_list(h, n - 1)
    }
}

/// The elements of `ids_list(h, n)` are exactly the cards of the set bits
/// below `n`, in strictly ascending order of dense number.
proof fn lemma_list_props(h: u32, n: int)
    requires
        0 <= n <= 32,
    ensures
        forall|k: int|
            0 <= k < ids_list(h, n).len() ==> 0 <= (#[trigger] ids_list(h, n)[k]).spec_id() < n
                && id_bit(h, ids_list(h, n)[k].spec_id() as u32),
        forall|k1: int, k2: int|
            0 <= k1 < k2 < ids_list(h, n).len() ==> ids_list(h, n)[k1].spec_id() < ids_list(
                h,
                n,
            )[k2].spec_id(),
        forall|c: Card|
            #[trigger] ids_list(h, n).contains(c) <==> (c.spec_id() < n && id_bit(
                h,
                c.spec_id() as u32,
            )),
    decreases n,
{
    if n > 0 {
        lemma_list_props(h, n - 1);
        if id_bit(h, (n - 1) as u32) {
            let prev = ids_list(h, n - 1);
            let x = Card::spec_from_id(n - 1);
            lemma_id_of_card_from_id(n - 1);
            assert(ids_list(h, n) == prev.push(x));
            assert forall|k: int|
                0 <= k < ids_list(h, n).len() implies 0 <= (#[trigger] ids_list(
                h,
                n,
            )[k]).spec_id() < n && id_bit(h, ids_list(h, n)[k].spec_id() as u32) by {
                if k < prev.len() {
                    assert(ids_list(h, n)[k] == prev[k]);
                } else {
                    assert(ids_list(h, n)[k] == x);
                }
            }
            assert forall|c: Card| #[trigger]
                ids_list(h, n).contains(c) implies (c.spec_id() < n && id_bit(
                h,
                c.spec_id() as u32,
            )) by {
                let k = choose|k: int| 0 <= k < ids_list(h, n).len() && ids_list(h, n)[k] == c;
                if k < prev.len() {
                    assert(prev.contains(c));
                }
            }
            assert forall|c: Card|
                (c.spec_id() < n && id_bit(h, c.spec_id() as u32)) implies #[trigger] ids_list(
                h,
                n,
            ).contains(c) by {
                if c.spec_id() < n - 1 {
                    assert(prev.contains(c));
                    let k = choose|k: int| 0 <= k < prev.len() && prev[k] == c;
                    assert(ids_list(h, n)[k] == c);
                } else {
                    lemma_card_from_id_of_id(c);
                    assert(c == x);
                    assert(ids_list(h, n)[prev.len() as int] == c);
                }
            }
            assert forall|k1: int, k2: int|
                0 <= k1 < k2 < ids_list(h, n).len() implies ids_list(h, n)[k1].spec_id()
                < ids_list(h, n)[k2].spec_id() by {
                if k2 < prev.len() {
                    assert(ids_list(h, n)[k1] == prev[k1] && ids_list(h, n)[k2] == prev[k2]);
                } else {
                    assert(ids_list(h, n)[k2] == x);
                    assert(ids_list(h, n)[k1] == prev[k1]);
                    assert(prev[k1].spec_id() < n - 1);
                }
            }
        } else {
            assert(ids_list(h, n) == ids_list(h, n - 1));
        }
    }
}

/// A word with none of its 32 bits set is zero.
proof fn lemma_all_bits_clear_zero(h: u32)
    requires
        forall|j: u32| j < 32 ==> h & (1u32 << j) == 0,
    ensures
        h == 0,
{
    assert((h & (1u32 << 0u32) == 0 && h & (1u32 << 1u32) == 0 && h & (1u32 << 2u32) == 0 && h & (
    1u32 << 3u32) == 0 && h & (1u32 << 4u32) == 0 && h & (1u32 << 5u32) == 0 && h & (1u32 << 6u32)
        == 0 && h & (1u32 << 7u32) == 0 && h & (1u32 << 8u32) == 0 && h & (1u32 << 9u32) == 0 && h
        & (1u32 << 10u32) == 0 && h & (1u32 << 11u32) == 0 && h & (1u32 << 12u32) == 0 && h & (1u32
        << 13u32) == 0 && h & (1u32 << 14u32) == 0 && h & (1u32 << 15u32) == 0 && h & (1u32
        << 16u32) == 0 && h & (1u32 << 17u32) == 0 && h & (1u32 << 18u32) == 0 && h & (1u32
        << 19u32) == 0 && h & (1u32 << 20u32) == 0 && h & (1u32 << 21u32) == 0 && h & (1u32
        << 22u32) == 0 && h & (1u32 << 23u32) == 0 && h & (1u32 << 24u32) == 0 && h & (1u32
        << 25u32) == 0 && h & (1u32 << 26u32) == 0 && h & (1u32 << 27u32) == 0 && h & (1u32
        << 28u32) == 0 && h & (1u32 << 29u32) == 0 && h & (1u32 << 30u32) == 0 && h & (1u32
        << 31u32) == 0) ==> h == 0) by (bit_vector);
}

/// Setting bit `i` grows the list by one entry unless the bit was set.
proof fn lemma_len_or(h: u32, i: u32, n: int)
    requires
        i < 32,
        0 <= n <= 32,
    ensures
        ids_list(h | (1u32 << i), n).len() == ids_list(h, n).len() + (if i < n && !id_bit(h, i) {
            1int
        } else {
            0int
        }),
    decreases n,
{
    if n > 0 {
        lemma_len_or(h, i, n - 1);
        lemma_bit_or(h, i, (n - 1) as u32);
    }
}

/// Clearing bit `i` shrinks the list by one entry if the bit was set.
proof fn lemma_len_clear(h: u32, i: u32, n: int)
    requires
        i < 32,
        0 <= n <= 32,
    ensures
        ids_list(h & !(1u32 << i), n).len() == ids_list(h, n).len() - (if i < n && id_bit(h, i) {
            1int
        } else {
            0int
        }),
    decreases n,
{
    if n > 0 {
        lemma_len_clear(h, i, n - 1);
        lemma_bit_clear(h, i, (n - 1) as u32);
    }
}

/// Represents an unordered set of cards.
#[derive(PartialEq, Clone, Copy, Debug)]
pub struct Hand(u32);

impl Hand {
    /// Whether `c` is one of the cards of this hand.
    pub closed spec fn spec_has(self, c: Card) -> bool {
        id_bit(self.0, c.spec_id() as u32)
    }

    /// The cards of this hand, in ascending order of dense number.
    pub closed spec fn spec_list(self) -> Seq<Card> {
        ids_list(self.0, 32)
    }

    /// The number of cards in this hand.
    pub open spec fn spec_size(self) -> nat {
        self.spec_list().len()
    }

    /// Returns an empty hand.
    pub fn new() -> (h: Hand)
        ensures
            forall|c: Card| !h.spec_has(c),
            h.spec_size() == 0,
    {
        let h = Hand(0);
        proof {
            assert(forall|j: u32| 0u32 & (1u32 << j) == 0) by (bit_vector);
            lemma_list_props(0, 32);
            if h.spec_list().len() > 0 {
                assert(h.spec_list().contains(h.spec_list()[0]));
            }
        }
        h
    }

    /// Add `card` to `self`.
    ///
    /// No effect if `self` already contains `card`.
    pub fn add(&mut self, card: Card)
        ensures
            forall|c: Card|
                final(self).spec_has(c) == (old(self).spec_has(c) || c == card),
            final(self).spec_size() == old(self).spec_size() + (if old(self).spec_has(card) {
                0int
            } else {
                1int
            }),
    {
        let mask: u32 = 1u32 << card.id();
        self.0 = self.0 | mask;
        proof {
            let h = old(self).0;
            let i = card.spec_id() as u32;
            lemma_card_from_id_of_id(card);
            assert forall|c: Card|
                final(self).spec_has(c) == (old(self).spec_has(c) || c == card) by {
                lemma_card_from_id_of_id(c);
                lemma_bit_or(h, i, c.spec_id() as u32);
                lemma_card_id_injective(c, card);
            }
            lemma_len_or(h, i, 32);
        }
    }

    /// Removes `card` from `self`.
    ///
    /// No effect if `self` does not contain `card`.
    pub fn remove(&mut self, card: Card)
        ensures
            forall|c: Card|
                final(self).spec_has(c) == (old(self).spec_has(c) && c != card),
            final(self).spec_size() == old(self).spec_size() - (if old(self).spec_has(card) {
                1int
            } else {
                0int
            }),
    {
        let mask: u32 = 1u32 << card.id();
        self.0 = self.0 & !mask;
        proof {
            let h = old(self).0;
            let i = card.spec_id() as u32;
            lemma_card_from_id_of_id(card);
            assert forall|c: Card|
                final(self).spec_has(c) == (old(self).spec_has(c) && c != card) by {
                lemma_card_from_id_of_id(c);
                lemma_bit_clear(h, i, c.spec_id() as u32);
                lemma_card_id_injective(c, card);
            }
            lemma_len_clear(h, i, 32);
        }
    }

    /// Remove all cards from `self`.
    pub fn clean(&mut self)
        ensures
            forall|c: Card| !final(self).spec_has(c),
            final(self).spec_size() == 0,
    {
        *self = Hand::new();
    }

    /// Returns `true` if `self` contains `card`.
    pub fn has(self, card: Card) -> (r: bool)
        ensures
            r == self.spec_has(card),
    {
        (self.0 & (1u32 << card.id())) != 0
    }

    /// Returns `true` if the hand contains any card of the given suit.
    pub fn has_any(self, suit: Suit) -> (r: bool)
        ensures
            r == exists|c: Card| self.spec_has(c) && c.suit == suit,
    {
        let s: u32 = suit.n();
        let r = (self.0 & (0xffu32 << (8 * s))) != 0;
        proof {
            let h = self.0;
            assert((h & (0xffu32 << (8 * s)) != 0) == ((h & (1u32 << (8 * s)) != 0) || (h & (1u32
                << (8 * s + 1)) != 0) || (h & (1u32 << (8 * s + 2)) != 0) || (h & (1u32 << (8 * s
                + 3)) != 0) || (h & (1u32 << (8 * s + 4)) != 0) || (h & (1u32 << (8 * s + 5)) != 0)
                || (h & (1u32 << (8 * s + 6)) != 0) || (h & (1u32 << (8 * s + 7)) != 0)))
                by (bit_vector)
                requires
                    s < 4,
            ;
            if r {
                let k: int = if h & (1u32 << (8 * s)) != 0 {
                    0
                } else if h & (1u32 << (8 * s + 1)) != 0 {
                    1
                } else if h & (1u32 << (8 * s + 2)) != 0 {
                    2
                } else if h & (1u32 << (8 * s + 3)) != 0 {
                    3
                } else if h & (1u32 << (8 * s + 4)) != 0 {
                    4
                } else if h & (1u32 << (8 * s + 5)) != 0 {
                    5
                } else if h & (1u32 << (8 * s + 6)) != 0 {
                    6
                } else {
                    7
                };
                let c = Card { suit, rank: Rank::spec_from_n(k) };
                assert(c.spec_id() == 8 * s + k);
                assert(self.spec_has(c) && c.suit == suit);
            }
            if exists|c: Card| self.spec_has(c) && c.suit == suit {
                let c = choose|c: Card| self.spec_has(c) && c.suit == suit;
                let rn = c.rank.spec_n();
                assert(c.spec_id() == 8 * s + rn);
                assert(0 <= rn < 8);
                assert(id_bit(h, (8 * s + rn) as u32));
            }
        }
        r
    }

    /// Returns `true` if `self` contains no card.
    pub fn is_empty(self) -> (r: bool)
        ensures
            r == (self.spec_size() == 0),
            r == (forall|c: Card| !self.spec_has(c)),
    {
        let r = self.0 == 0;
        proof {
            let h = self.0;
            lemma_list_props(h, 32);
            if h == 0 {
                assert(forall|j: u32| 0u32 & (1u32 << j) == 0) by (bit_vector);
                if self.spec_list().len() > 0 {
                    assert(self.spec_list().contains(self.spec_list()[0]));
                }
            } else {
                if forall|j: u32| j < 32 ==> h & (1u32 << j) == 0 {
                    lemma_all_bits_clear_zero(h);
                }
                let j = choose|j: u32| j < 32 && h & (1u32 << j) != 0;
                lemma_id_of_card_from_id(j as int);
                assert(self.spec_has(Card::spec_from_id(j as int)));
                assert(self.spec_list().contains(Card::spec_from_id(j as int)));
            }
        }
        r
    }

    /// Returns the card of the hand with the lowest dense number.
    pub fn get_card(self) -> (c: Card)
        requires
            self.spec_size() != 0,
        ensures
            self.spec_has(c),
            forall|c2: Card| self.spec_has(c2) ==> c.spec_id() <= c2.spec_id(),
    {
        let mut i: u32 = 0;
        while i < 32
            invariant
                i <= 32,
                forall|c2: Card| self.spec_has(c2) ==> c2.spec_id() >= i,
            decreases 32 - i,
        {
            let c = Card::from_id(i);
            if self.has(c) {
                return c;
            }
            proof {
                assert forall|c2: Card| self.spec_has(c2) implies c2.spec_id() >= i + 1 by {
                    lemma_card_from_id_of_id(c2);
                }
            }
            i = i + 1;
        }
        proof {
            lemma_list_props(self.0, 32);
            let e = self.spec_list()[0];
            assert(self.spec_list().contains(e));
            assert(id_bit(self.0, e.spec_id() as u32));
            assert(self.spec_has(e));
            assert(false);
        }
        vstd::pervasive::unreached()
    }

    /// Returns the cards contained in `self` as a `Vec`, in ascending order
    /// of dense number.
    pub fn list(self) -> (r: Vec<Card>)
        ensures
            r@ == self.spec_list(),
            r@.len() == self.spec_size(),
            forall|c: Card| #[trigger] r@.contains(c) <==> self.spec_has(c),
            forall|k1: int, k2: int|
                0 <= k1 < k2 < r@.len() ==> r@[k1].spec_id() < r@[k2].spec_id(),
    {
        let mut cards: Vec<Card> = Vec::new();
        let mut i: u32 = 0;
        while i < 32
            invariant
                i <= 32,
                cards@ == ids_list(self.0, i as int),
            decreases 32 - i,
        {
            let c = Card::from_id(i);
            proof {
                lemma_id_of_card_from_id(i as int);
            }
            if self.has(c) {
                cards.push(c);
            }
            i = i + 1;
        }
        proof {
            lemma_list_props(self.0, 32);
            assert forall|c: Card| #[trigger] cards@.contains(c) <==> self.spec_has(c) by {
                if self.spec_has(c) {
                    lemma_card_from_id_of_id(c);
                }
            }
        }
        cards
    }

    /// Returns the number of cards in `self`.
    pub fn size(self) -> (r: usize)
        ensures
            r == self.spec_size(),
    {
        self.list().len()
    }

    /// Returns a string representation of `self`: the cards in ascending
    /// order of dense number, each followed by a comma, between brackets.
    pub fn to_string(self) -> (r: String)
        ensures
            r@ == "["@ + spec_cards_str(self.spec_list()) + "]"@,
    {
        let cards = self.list();
        let mut s: String = "[".to_owned();
        let mut i: usize = 0;
        while i < cards.len()
            invariant
                i <= cards@.len(),
                cards@ == self.spec_list(),
                s@ == "["@ + spec_cards_str(cards@.take(i as int)),
            decreases cards@.len() - i,
        {
            let cs = cards[i].to_string();
            s.append(cs.as_str());
            s.append(",");
            proof {
                let t = cards@.take(i + 1);
                assert(t.drop_last() =~= cards@.take(i as int));
                assert(t.last() == cards@[i as int]);
                assert(s@ =~= "["@ + spec_cards_str(t));
            }
            i = i + 1;
        }
        proof {
            assert(cards@.take(cards@.len() as int) =~= cards@);
        }
        s.append("]");
        s
    }
}

/// The text of a sequence of cards: each card's text followed by a comma.
pub open spec fn spec_cards_str(s: Seq<Card>) -> Seq<char>
    decreases s.len(),
{
    if s.len() == 0 {
        Seq::empty()
    } else {
        spec_cards_str(s.drop_last()) + s.last().spec_str() + ","@
    }
}

/// Relies on `rand::thread_rng` and `rand::seq::SliceRandom::shuffle`:
/// an in-place Fisher-Yates reordering of the slice, so the cards after
/// the call are a permutation of the cards before it.
#[verifier::external_body]
fn shuffle_cards(cards: &mut Vec<Card>)
    ensures
        final(cards)@.to_multiset() == old(cards)@.to_multiset(),
{
    cards.as_mut_slice().shuffle(&mut rand::thread_rng());
}

/// Relies on `rand::rngs::StdRng::seed_from_u64` and
/// `rand::seq::SliceRandom::shuffle`: an in-place Fisher-Yates reordering of
/// the slice, so the cards after the call are a permutation of the cards
/// before it.
#[verifier::external_body]
fn shuffle_cards_seeded(cards: &mut Vec<Card>, seed: u64)
    ensures
        final(cards)@.to_multiset() == old(cards)@.to_multiset(),
{
    let mut rng = rand::rngs::StdRng::seed_from_u64(seed);
    cards.as_mut_slice().shuffle(&mut rng);
}

/// A deck of cards.
pub struct Deck {
    cards: Vec<Card>,
}

/// The deck's cards hold no duplicates, and the given hands hold no card of
/// the deck: dealing from such a deck hands every player fresh cards.
pub open spec fn spec_fresh_deal(deck: Seq<Card>, hands: Seq<Hand>) -> bool {
    &&& deck.no_duplicates()
    &&& forall|i: int, c: Card|
        0 <= i < hands.len() && (#[trigger] hands[i].spec_has(c)) ==> !deck.contains(c)
}

impl Deck {
    /// The cards of the deck, bottom first: the last is drawn next.
    pub closed spec fn spec_cards(self) -> Seq<Card> {
        self.cards@
    }

    /// Returns a full, sorted deck of 32 cards.
    pub fn new() -> (d: Deck)
        ensures
            d.spec_cards().len() == 32,
            forall|i: int| 0 <= i < 32 ==> (#[trigger] d.spec_cards()[i]) == Card::spec_from_id(i),
            d.spec_cards().no_duplicates(),
            forall|c: Card| d.spec_cards().contains(c),
    {
        let mut cards: Vec<Card> = Vec::new();
        let mut i: u32 = 0;
        while i < 32
            invariant
                i <= 32,
                cards@.len() == i,
                forall|k: int| 0 <= k < i ==> (#[trigger] cards@[k]) == Card::spec_from_id(k),
            decreases 32 - i,
        {
            cards.push(Card::from_id(i));
            i = i + 1;
        }
        let d = Deck { cards };
        proof {
            assert forall|k1: int, k2: int|
                0 <= k1 < k2 < 32 implies d.spec_cards()[k1] != d.spec_cards()[k2] by {
                lemma_id_of_card_from_id(k1);
                lemma_id_of_card_from_id(k2);
            }
            assert forall|c: Card| d.spec_cards().contains(c) by {
                lemma_card_from_id_of_id(c);
                assert(d.spec_cards()[c.spec_id()] == c);
            }
        }
        d
    }

    /// Shuffle this deck: the cards after the call are a permutation of the
    /// cards before it.
    pub fn shuffle(&mut self)
        ensures
            final(self).spec_cards().to_multiset() == old(self).spec_cards().to_multiset(),
    {
        shuffle_cards(&mut self.cards);
    }

    /// Shuffle this deck with the given random seed.
    ///
    /// The resulting order is determined by the seed.
    pub fn shuffle_seeded(&mut self, seed: &[u32])
        ensures
            final(self).spec_cards().to_multiset() == old(self).spec_cards().to_multiset(),
    {
        let mut s: u64 = 0;
        let mut i: usize = 0;
        while i < seed.len()
            decreases seed@.len() - i,
        {
            s = s.wrapping_mul(0x100000001b3).wrapping_add(seed[i] as u64);
            i = i + 1;
        }
        shuffle_cards_seeded(&mut self.cards, s);
    }

    /// Draw the top card from the deck.
    pub fn draw(&mut self) -> (c: Card)
        requires
            old(self).spec_cards().len() > 0,
        ensures
            c == old(self).spec_cards().last(),
            final(self).spec_cards() == old(self).spec_cards().drop_last(),
    {
        let c = self.cards.pop();
        match c {
            Some(c) => c,
            None => vstd::pervasive::unreached(),
        }
    }

    /// Returns `true` if this deck is empty.
    pub fn is_empty(&self) -> (r: bool)
        ensures
            r == (self.spec_cards().len() == 0),
    {
        self.cards.len() == 0
    }

    /// Returns the number of cards left in this deck.
    pub fn len(&self) -> (r: usize)
        ensures
            r == self.spec_cards().len(),
    {
        self.cards.len()
    }

    /// Returns a string representation of this deck's cards, bottom first.
    pub fn to_string(&self) -> (r: String)
        ensures
            r@ == "["@ + spec_cards_str(self.spec_cards()) + "]"@,
    {
        let mut s: String = "[".to_owned();
        let mut i: usize = 0;
        while i < self.cards.len()
            invariant
                i <= self.cards@.len(),
                s@ == "["@ + spec_cards_str(self.cards@.take(i as int)),
            decreases self.cards@.len() - i,
        {
            let cs = self.cards[i].to_string();
            s.append(cs.as_str());
            s.append(",");
            proof {
                let t = self.cards@.take(i + 1);
                assert(t.drop_last() =~= self.cards@.take(i as int));
                assert(t.last() == self.cards@[i as int]);
                assert(s@ =~= "["@ + spec_cards_str(t));
            }
            i = i + 1;
        }
        proof {
            assert(self.cards@.take(self.cards@.len() as int) =~= self.cards@);
        }
        s.append("]");
        s
    }

    /// Deal `n` cards to each hand: the top `n` cards of the deck go to the
    /// first hand, the next `n` to the second, and so on.
    pub fn deal_each(&mut self, hands: &mut [Hand; 4], n: usize)
        requires
            4 * n <= old(self).spec_cards().len(),
        ensures
            final(self).spec_cards() == old(self).spec_cards().take(
                old(self).spec_cards().len() - 4 * n,
            ),
            forall|i: int, c: Card|
                0 <= i < 4 ==> ((#[trigger] final(hands)@[i].spec_has(c)) <==> (old(
                    hands,
                )@[i].spec_has(c) || old(self).spec_cards().subrange(
                    old(self).spec_cards().len() - (i + 1) * n,
                    old(self).spec_cards().len() - i * n,
                ).contains(c))),
            spec_fresh_deal(old(self).spec_cards(), old(hands)@) ==> (forall|i: int|
                0 <= i < 4 ==> (#[trigger] final(hands)@[i]).spec_size() == old(
                    hands,
                )@[i].spec_size() + n) && spec_fresh_deal(final(self).spec_cards(), final(hands)@),
    {
        let ghost deck0 = self.spec_cards();
        let ghost hands0 = hands@;
        let ghost len0 = self.spec_cards().len() as int;
        let mut hi: usize = 0;
        while hi < 4
            invariant
                hi <= 4,
                4 * n <= len0,
                len0 == deck0.len(),
                self.spec_cards() == deck0.take(len0 - hi * n),
                forall|i: int, c: Card|
                    0 <= i < hi ==> ((#[trigger] hands@[i].spec_has(c)) <==> (
                    hands0[i].spec_has(c) || deck0.subrange(
                        len0 - (i + 1) * n,
                        len0 - i * n,
                    ).contains(c))),
                forall|i: int| hi <= i < 4 ==> hands@[i] == hands0[i],
                spec_fresh_deal(deck0, hands0) ==> (forall|i: int|
                    0 <= i < hi ==> (#[trigger] hands@[i]).spec_size() == hands0[i].spec_size()
                        + n) && spec_fresh_deal(self.spec_cards(), hands@),
            decreases 4 - hi,
        {
            let ghost hands1 = hands@;
            let ghost len1 = len0 - hi * n;
            proof {
                assert(hi * n >= 0 && hi * n + n <= 4 * n) by (nonlinear_arith)
                    requires
                        0 <= hi < 4,
                        n >= 0,
                ;
            }
            let mut j: usize = 0;
            while j < n
                invariant
                    j <= n,
                    hi < 4,
                    n >= 0,
                    4 * n <= len0,
                    len0 == deck0.len(),
                    0 <= len1 - n && len1 <= len0,
                    len1 == len0 - hi * n,
                    hands@.len() == 4,
                    hands1.len() == 4,
                    self.spec_cards() == deck0.take(len1 - j),
                    forall|i: int| 0 <= i < 4 && i != hi ==> hands@[i] == hands1[i],
                    forall|c: Card|
                        (#[trigger] hands@[hi as int].spec_has(c)) <==> (hands1[hi as int].spec_has(c) || deck0.subrange(len1 - j, len1).contains(c)),
                    spec_fresh_deal(deck0, hands0) ==> hands@[hi as int].spec_size() == hands1[hi as int].spec_size() + j && spec_fresh_deal(self.spec_cards(), hands@),
                decreases n - j,
            {
                let ghost deck_before = self.spec_cards();
                let ghost hands_before = hands@;
                let card = self.draw();
                proof {
                    assert(card == deck0[len1 - j - 1]);
                    assert(self.spec_cards() =~= deck0.take(len1 - j - 1));
                }
                let mut h = hands[hi];
                let ghost had = h.spec_has(card);
                h.add(card);
                hands[hi] = h;
                proof {
                    assert forall|c: Card|
                        (#[trigger] hands@[hi as int].spec_has(c)) <==> (hands1[hi as int].spec_has(c) || deck0.subrange(len1 - j - 1, len1).contains(c)) by {
                        lemma_subrange_uncons(deck0, len1 - j - 1, len1, c);
                    }
                    if spec_fresh_deal(deck0, hands0) {
                        // the drawn card was still in the deck, so no hand held it
                        assert(deck_before[len1 - j - 1] == card);
                        assert(deck_before.contains(card));
                        assert(spec_fresh_deal(deck_before, hands_before));
                        assert(!had);
                        lemma_take_no_duplicates(deck0, len1 - j - 1);
                        assert forall|i: int, c: Card|
                            0 <= i < 4 && (#[trigger] hands@[i].spec_has(c)) implies !deck0.take(
                            len1 - j - 1,
                        ).contains(c) by {
                            if deck0.take(len1 - j - 1).contains(c) {
                                lemma_take_contains_take(deck0, len1 - j - 1, len1 - j, c);
                                if i == hi as int && c == card {
                                    lemma_take_last_not_in_prefix(deck0, len1 - j);
                                } else {
                                    assert(hands_before[i].spec_has(c));
                                }
                            }
                        }
                    }
                }
                j = j + 1;
            }
            proof {
                assert((hi + 1) * n == hi * n + n && hi * n >= 0) by (nonlinear_arith)
                    requires
                        0 <= hi < 4,
                        n >= 0,
                ;
                assert(self.spec_cards() == deck0.take(len0 - (hi + 1) * n));
                assert(deck0.subrange(len1 - n, len1) == deck0.subrange(
                    len0 - (hi as int + 1) * n,
                    len0 - hi as int * n,
                ));
                assert forall|i: int, c: Card|
                    0 <= i < hi + 1 implies ((#[trigger] hands@[i].spec_has(c)) <==> (
                hands0[i].spec_has(c) || deck0.subrange(len0 - (i + 1) * n, len0 - i * n).contains(
                    c,
                ))) by {
                    if i < hi {
                        assert(hands@[i] == hands1[i]);
                    } else {
                        assert(hands1[i] == hands0[i]);
                    }
                }
                if spec_fresh_deal(deck0, hands0) {
                    assert(hands1[hi as int] == hands0[hi as int]);
                    assert forall|i: int|
                        0 <= i < hi + 1 implies (#[trigger] hands@[i]).spec_size()
                        == hands0[i].spec_size() + n by {
                        if i < hi {
                            assert(hands@[i] == hands1[i]);
                            assert(hands1[i].spec_size() == hands0[i].spec_size() + n);
                        }
                    }
                }
            }
            hi = hi + 1;
        }
        proof {
            assert(final(self).spec_cards() == deck0.take(len0 - 4 * n));
        }
    }
}

/// Membership in a subrange either names the first element or falls in the
/// rest.
proof fn lemma_subrange_uncons(s: Seq<Card>, a: int, b: int, c: Card)
    requires
        0 <= a < b <= s.len(),
    ensures
        s.subrange(a, b).contains(c) <==> (c == s[a] || s.subrange(a + 1, b).contains(c)),
{
    if s.subrange(a, b).contains(c) {
        let k = choose|k: int| 0 <= k < b - a && (#[trigger] s.subrange(a, b)[k]) == c;
        if k > 0 {
            assert(s.subrange(a + 1, b)[k - 1] == c);
        }
    }
    if c == s[a] {
        assert(s.subrange(a, b)[0] == c);
    }
    if s.subrange(a + 1, b).contains(c) {
        let k = choose|k: int| 0 <= k < b - a - 1 && (#[trigger] s.subrange(a + 1, b)[k]) == c;
        assert(s.subrange(a, b)[k + 1] == c);
    }
}

/// What a shorter prefix holds, a longer one holds too.
proof fn lemma_take_contains_take(s: Seq<Card>, a: int, b: int, c: Card)
    requires
        0 <= a <= b <= s.len(),
        s.take(a).contains(c),
    ensures
        s.take(b).contains(c),
{
    let k = choose|k: int| 0 <= k < a && (#[trigger] s.take(a)[k]) == c;
    assert(s.take(b)[k] == c);
}

/// In a deck without duplicates, a prefix does not hold the card that comes
/// right after it.
proof fn lemma_take_last_not_in_prefix(s: Seq<Card>, b: int)
    requires
        0 < b <= s.len(),
        s.no_duplicates(),
    ensures
        !s.take(b - 1).contains(s[b - 1]),
{
    if s.take(b - 1).contains(s[b - 1]) {
        let k = choose|k: int| 0 <= k < b - 1 && (#[trigger] s.take(b - 1)[k]) == s[b - 1];
        assert(s[k] == s[b - 1]);
    }
}

/// A prefix of a deck without duplicates has none either.
proof fn lemma_take_no_duplicates(s: Seq<Card>, b: int)
    requires
        0 <= b <= s.len(),
        s.no_duplicates(),
    ensures
        s.take(b).no_duplicates(),
{
    assert forall|k1: int, k2: int|
        0 <= k1 < k2 < b implies s.take(b)[k1] != s.take(b)[k2] by {
        assert(s[k1] == s.take(b)[k1] && s[k2] == s.take(b)[k2]);
    }
}

} // verus!
