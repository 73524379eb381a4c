//! Rules engine for coinche, a four-player, two-team trick-taking card game
//! played with a 32-card deck.
//!
//! A round has two phases. The auction ([`bid::Auction`]) establishes a
//! contract (trump suit, target score, coinche level); the play phase
//! ([`game::GameState`]) enforces card legality, resolves tricks and scores
//! the round against the contract.

use vstd::prelude::*;

pub mod bid;
pub mod cards;
pub mod game;
pub mod points;
pub mod pos;
pub mod trick;

verus! {

broadcast use vstd::array::group_array_axioms;

/// Some of the four hands holds the card `c`.
pub open spec fn spec_some_hand_has(hands: Seq<cards::Hand>, c: cards::Card) -> bool {
    exists|i: int| 0 <= i < 4 && (#[trigger] hands[i].spec_has(c))
}

/// A proper deal: four hands of eight cards each, no card in two hands, and
/// every one of the 32 cards in some hand.
pub open spec fn spec_dealt_hands(hands: Seq<cards::Hand>) -> bool {
    &&& hands.len() == 4
    &&& forall|i: int| 0 <= i < 4 ==> (#[trigger] hands[i]).spec_size() == 8
    &&& forall|i: int, j: int, c: cards::Card|
        0 <= i < 4 && 0 <= j < 4 && (#[trigger] hands[i].spec_has(c)) && (#[trigger] hands[j].spec_has(
            c,
        )) ==> i == j
    &&& forall|c: cards::Card| spec_some_hand_has(hands, c)
}

/// Quick method to get cards for 4 players.
///
/// Deals cards to 4 players randomly.
pub fn deal_hands() -> (hands: [cards::Hand; 4])
    ensures
        spec_dealt_hands(hands@),
{
    let mut hands = [cards::Hand::new(); 4];

    let mut d = cards::Deck::new();
    let ghost d0 = d;
    d.shuffle();
    proof {
        lemma_shuffled_deck(d0.spec_cards(), d.spec_cards());
    }

    deal_batches(&mut d, &mut hands);

    hands
}

/// Deal cards for 4 players deterministically.
///
/// The same seed always gives the same four hands within one build of the
/// library.
pub fn deal_seeded_hands(seed: &[u32]) -> (hands: [cards::Hand; 4])
    ensures
        spec_dealt_hands(hands@),
{
    let mut hands = [cards::Hand::new(); 4];

    let mut d = cards::Deck::new();
    let ghost d0 = d;
    d.shuffle_seeded(seed);
    proof {
        lemma_shuffled_deck(d0.spec_cards(), d.spec_cards());
    }

    deal_batches(&mut d, &mut hands);

    hands
}

/// A permutation of a full deck still holds each of the 32 cards exactly
/// once.
proof fn lemma_shuffled_deck(s0: Seq<cards::Card>, s: Seq<cards::Card>)
    requires
        s0.len() == 32,
        s0.no_duplicates(),
        forall|c: cards::Card| s0.contains(c),
        s.to_multiset() == s0.to_multiset(),
    ensures
        s.len() == 32,
        s.no_duplicates(),
        forall|c: cards::Card| s.contains(c),
{
    broadcast use vstd::seq_lib::group_to_multiset_ensures;

    assert(s.len() == s.to_multiset().len());
    assert(s0.len() == s0.to_multiset().len());
    s0.lemma_multiset_has_no_duplicates();
    s.lemma_multiset_has_no_duplicates_conv();
    assert forall|c: cards::Card| s.contains(c) by {
        assert(s0.contains(c));
        assert(s0.to_multiset().count(c) > 0);
    }
}

/// Deal the 32 cards of a full, duplicate-free deck to four empty hands in
/// batches of 3, 2 and 3 cards each.
fn deal_batches(d: &mut cards::Deck, hands: &mut [cards::Hand; 4])
    requires
        old(d).spec_cards().len() == 32,
        old(d).spec_cards().no_duplicates(),
        forall|c: cards::Card| old(d).spec_cards().contains(c),
        forall|i: int| 0 <= i < 4 ==> (#[trigger] old(hands)@[i]).spec_size() == 0,
        forall|i: int, c: cards::Card| 0 <= i < 4 ==> !(#[trigger] old(hands)@[i].spec_has(c)),
    ensures
        spec_dealt_hands(final(hands)@),
{
    let ghost deck = d.spec_cards();
    let ghost hands0 = hands@;

    d.deal_each(hands, 3);
    let ghost h1 = hands@;
    proof {
        assert(cards::spec_fresh_deal(deck, hands0));
        assert(d.spec_cards() =~= deck.take(20));
    }

    d.deal_each(hands, 2);
    let ghost h2 = hands@;
    proof {
        assert(d.spec_cards() =~= deck.take(12));
        assert forall|i: int| 0 <= i < 4 implies (#[trigger] h2[i]).spec_size() == 5 by {
            assert(h1[i].spec_size() == 3);
        }
    }

    d.deal_each(hands, 3);
    let ghost h3 = hands@;
    proof {
        assert forall|i: int| 0 <= i < 4 implies (#[trigger] h3[i]).spec_size() == 8 by {
            assert(h2[i].spec_size() == 5);
        }
        // each hand holds the cards of its three slices of the shuffled deck
        assert forall|i: int, c: cards::Card|
            0 <= i < 4 implies ((#[trigger] h3[i].spec_has(c)) <==> (deck.subrange(
            29 - 3 * i,
            32 - 3 * i,
        ).contains(c) || deck.subrange(18 - 2 * i, 20 - 2 * i).contains(c) || deck.subrange(
            9 - 3 * i,
            12 - 3 * i,
        ).contains(c))) by {
            assert(deck.take(20).subrange(20 - (i + 1) * 2, 20 - i * 2) =~= deck.subrange(
                18 - 2 * i,
                20 - 2 * i,
            ));
            assert(deck.take(12).subrange(12 - (i + 1) * 3, 12 - i * 3) =~= deck.subrange(
                9 - 3 * i,
                12 - 3 * i,
            ));
            assert(deck.subrange(32 - (i + 1) * 3, 32 - i * 3) == deck.subrange(
                29 - 3 * i,
                32 - 3 * i,
            ));
        }
        // no card sits in two hands: its two deck positions would be equal
        assert forall|i: int, j: int, c: cards::Card|
            0 <= i < 4 && 0 <= j < 4 && (#[trigger] h3[i].spec_has(c)) && (#[trigger] h3[j].spec_has(
                c,
            )) implies i == j by {
            let ki = lemma_hand_slice_index(deck, i, c);
            let kj = lemma_hand_slice_index(deck, j, c);
            if ki != kj {
                assert(deck[ki] == deck[kj]);
                assert(false);
            }
        }
        // every card is at some position of the deck, and every position
        // falls in some hand's slice
        assert forall|c: cards::Card| spec_some_hand_has(h3, c) by {
            assert(deck.contains(c));
            let k = choose|k: int| 0 <= k < 32 && deck[k] == c;
            let i = lemma_deck_index_hand(deck, k);
            assert(h3[i].spec_has(c));
        }
    }
}

/// A card held by hand `i` after the three batches sits at a deck position
/// in one of that hand's three slices; returns that position.
proof fn lemma_hand_slice_index(deck: Seq<cards::Card>, i: int, c: cards::Card) -> (k: int)
    requires
        deck.len() == 32,
        0 <= i < 4,
        deck.subrange(29 - 3 * i, 32 - 3 * i).contains(c) || deck.subrange(
            18 - 2 * i,
            20 - 2 * i,
        ).contains(c) || deck.subrange(9 - 3 * i, 12 - 3 * i).contains(c),
    ensures
        0 <= k < 32,
        deck[k] == c,
        (29 - 3 * i <= k < 32 - 3 * i) || (18 - 2 * i <= k < 20 - 2 * i) || (9 - 3 * i <= k < 12
            - 3 * i),
{
    if deck.subrange(29 - 3 * i, 32 - 3 * i).contains(c) {
        let m = choose|m: int|
            0 <= m < 3 && (#[trigger] deck.subrange(29 - 3 * i, 32 - 3 * i)[m]) == c;
        29 - 3 * i + m
    } else if deck.subrange(18 - 2 * i, 20 - 2 * i).contains(c) {
        let m = choose|m: int|
            0 <= m < 2 && (#[trigger] deck.subrange(18 - 2 * i, 20 - 2 * i)[m]) == c;
        18 - 2 * i + m
    } else {
        let m = choose|m: int|
            0 <= m < 3 && (#[trigger] deck.subrange(9 - 3 * i, 12 - 3 * i)[m]) == c;
        9 - 3 * i + m
    }
}

/// Every deck position falls in one of the slices dealt to some hand;
/// returns that hand.
proof fn lemma_deck_index_hand(deck: Seq<cards::Card>, k: int) -> (i: int)
    requires
        deck.len() == 32,
        0 <= k < 32,
    ensures
        0 <= i < 4,
        deck.subrange(29 - 3 * i, 32 - 3 * i).contains(deck[k]) || deck.subrange(
            18 - 2 * i,
            20 - 2 * i,
        ).contains(deck[k]) || deck.subrange(9 - 3 * i, 12 - 3 * i).contains(deck[k]),
{
    if k >= 20 {
        let i = (31 - k) / 3;
        vstd::arithmetic::div_mod::lemma_fundamental_div_mod(31 - k, 3);
        assert(29 - 3 * i <= k < 32 - 3 * i);
        assert(deck.subrange(29 - 3 * i, 32 - 3 * i)[k - (29 - 3 * i)] == deck[k]);
        i
    } else if k >= 12 {
        let i = (19 - k) / 2;
        vstd::arithmetic::div_mod::lemma_fundamental_div_mod(19 - k, 2);
        assert(18 - 2 * i <= k < 20 - 2 * i);
        assert(deck.subrange(18 - 2 * i, 20 - 2 * i)[k - (18 - 2 * i)] == deck[k]);
        i
    } else {
        let i = (11 - k) / 3;
        vstd::arithmetic::div_mod::lemma_fundamental_div_mod(11 - k, 3);
        assert(9 - 3 * i <= k < 12 - 3 * i);
        assert(deck.subrange(9 - 3 * i, 12 - 3 * i)[k - (9 - 3 * i)] == deck[k]);
        i
    }
}

} // verus!
