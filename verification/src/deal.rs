//! Shuffling a deck and dealing it out into columns.

use crate::game::{Card, Rank, Suit};
use rand::seq::SliceRandom;
use vstd::prelude::*;
use vstd::seq_lib::lemma_multiset_commutative;

verus! {

/// `SliceRandom::shuffle` of the `rand` crate, with the thread's generator
/// from `rand::thread_rng`: it swaps elements of the slice among
/// themselves, so the cards are the same afterwards, each as often as
/// before; their order is left open. The generator is seeded by the
/// operating system and fails where that has no randomness to give.
#[verifier::external_body]
pub(crate) fn shuffle(cards: &mut Vec<Card>)
    ensures
        final(cards)@.to_multiset() == old(cards)@.to_multiset(),
{
    cards.shuffle(&mut rand::thread_rng());
}

/// The deck of fifty-two holds every card once.
pub proof fn default_deck_is_distinct()
    ensures
        Card::spec_default_deck().no_duplicates(),
        Card::spec_default_deck().len() == 52,
        forall|card: Card| Card::spec_default_deck().to_multiset().count(card) <= 1,
{
    let deck = Card::spec_default_deck();
    assert forall|i: int, j: int| 0 <= i < deck.len() && 0 <= j < deck.len() && i != j implies deck[i]
        != deck[j] by {
        assert(deck[i].spec_code() == i);
        assert(deck[j].spec_code() == j);
    }
    deck.lemma_multiset_has_no_duplicates();
}

/// The card at a place of the short deck of thirty-six: suit by suit, the
/// ace and then six to king.
pub open spec fn short_card(i: int) -> Card {
    Card {
        suit: Suit::spec_at(i / 9),
        rank: Rank::spec_of_number(
            if i % 9 == 0 {
                1
            } else {
                i % 9 + 5
            },
        ),
    }
}

/// The deck without twos, threes, fours and fives.
pub open spec fn spec_short_deck() -> Seq<Card> {
    Seq::new(36, |i: int| short_card(i))
}

/// The short deck holds thirty-six different cards, none a two, three,
/// four or five.
pub proof fn short_deck_is_distinct()
    ensures
        spec_short_deck().no_duplicates(),
        spec_short_deck().len() == 36,
        forall|card: Card| spec_short_deck().to_multiset().count(card) <= 1,
        forall|i: int|
            0 <= i < 36 ==> !(2 <= (#[trigger] spec_short_deck()[i]).rank.spec_number() <= 5),
{
    let deck = spec_short_deck();
    assert forall|i: int, j: int| 0 <= i < deck.len() && 0 <= j < deck.len() && i != j implies deck[i]
        != deck[j] by {
        assert(deck[i].spec_code() == (i / 9) * 13 + (if i % 9 == 0 {
            0
        } else {
            i % 9 + 4
        }));
        assert(deck[j].spec_code() == (j / 9) * 13 + (if j % 9 == 0 {
            0
        } else {
            j % 9 + 4
        }));
    }
    deck.lemma_multiset_has_no_duplicates();
}

/// The deck without twos, threes, fours and fives, in order.
pub fn short_deck() -> (deck: Vec<Card>)
    ensures
        deck@ == spec_short_deck(),
{
    let mut deck: Vec<Card> = Vec::new();
    let mut s: u8 = 0;
    while s < 4
        invariant
            s <= 4,
            deck@ == spec_short_deck().take(9 * s),
        decreases 4 - s,
    {
        deck.push(Card { suit: Suit::at(s), rank: Rank::Ace });
        assert(deck@ == spec_short_deck().take(9 * s + 1));
        let mut r: u8 = 6;
        while r <= 13
            invariant
                s < 4,
                6 <= r <= 14,
                deck@ == spec_short_deck().take(9 * s + (r - 5)),
            decreases 14 - r,
        {
            deck.push(Card { suit: Suit::at(s), rank: Rank::of_number(r) });
            r = r + 1;
        }
        s = s + 1;
    }
    deck
}

/// Takes the last `n` cards off the deck.
pub(crate) fn take_hand(cards: &mut Vec<Card>, n: usize) -> (hand: Vec<Card>)
    requires
        n <= old(cards).len(),
    ensures
        hand.len() == n,
        final(cards).len() + n == old(cards).len(),
        final(cards)@ + hand@ == old(cards)@,
        final(cards)@.to_multiset().add(hand@.to_multiset()) == old(cards)@.to_multiset(),
{
    let at: usize = cards.len() - n;
    let hand = cards.split_off(at);
    proof {
        assert(cards@ + hand@ =~= old(cards)@);
        lemma_multiset_commutative(cards@, hand@);
    }
    hand
}

} // verus!
