//! Fixed deals to play and to test with.

use crate::cribbage::{labelled_deal_is_valid, CribbageSolitaire};
use crate::fortune;
use crate::fortune::Suit::{Cups, Pentacles, Swords, Wands};
use crate::fortune::TarotCard::{Major, Minor};
use crate::fortune::{
    distinct_opening_is_valid, FortunesFoundation, Layout, MajorArcana, TarotCard,
};
use crate::game::{Card, Rank};
use crate::game::Rank::{
    Ace, Eight, Five, Four, Jack, King, Nine, Queen, Seven, Six, Ten, Three, Two,
};
use crate::game::Suit::{Club, Diamond, Heart, Spade};
use crate::game::piles;
use crate::russian::{distinct_deal_is_valid, ProletariatsPatience};
use vstd::prelude::*;

verus! {

/// A deal of cribbage solitaire: fifty-two cards, thirteen to a column.
pub fn state_0001() -> (state: CribbageSolitaire)
    ensures
        state@.score == 0,
        state@.stack.len() == 0,
        state@.history.len() == 0,
        state@.valid(),
        state@.tableau == deal_0001(),
{
    let state = CribbageSolitaire::new([
        vec![
            Card {
                suit: Heart,
                rank: Seven,
            },
            Card {
                suit: Spade,
                rank: Eight,
            },
            Card {
                suit: Diamond,
                rank: King,
            },
            Card {
                suit: Club,
                rank: Four,
            },
            Card {
                suit: Heart,
                rank: Jack,
            },
            Card {
                suit: Diamond,
                rank: Nine,
            },
            Card {
                suit: Diamond,
                rank: Five,
            },
            Card {
                suit: Spade,
                rank: Nine,
            },
            Card {
                suit: Club,
                rank: Jack,
            },
            Card {
                suit: Heart,
                rank: Nine,
            },
            Card {
                suit: Club,
                rank: Two,
            },
            Card {
                suit: Heart,
                rank: Ten,
            },
            Card {
                suit: Spade,
                rank: Two,
            },
        ],
        vec![
            Card {
                suit: Diamond,
                rank: Seven,
            },
            Card {
                suit: Heart,
                rank: Three,
            },
            Card {
                suit: Spade,
                rank: Jack,
            },
            Card {
                suit: Club,
                rank: Ace,
            },
            Card {
                suit: Heart,
                rank: King,
            },
            Card {
                suit: Club,
                rank: Six,
            },
            Card {
                suit: Heart,
                rank: Five,
            },
            Card {
                suit: Spade,
                rank: Five,
            },
            Card {
                suit: Club,
                rank: Nine,
            },
            Card {
                suit: Club,
                rank: Seven,
            },
            Card {
                suit: Spade,
                rank: King,
            },
            Card {
                suit: Club,
                rank: Ace,
            },
            Card {
                suit: Heart,
                rank: Ace,
            },
        ],
        vec![
            Card {
                suit: Club,
                rank: King,
            },
            Card {
                suit: Diamond,
                rank: Ten,
            },
            Card {
                suit: Spade,
                rank: Ten,
            },
            Card {
                suit: Spade,
                rank: Ace,
            },
            Card {
                suit: Club,
                rank: Three,
            },
            Card {
                suit: Diamond,
                rank: Queen,
            },
            Card {
                suit: Diamond,
                rank: Three,
            },
            Card {
                suit: Diamond,
                rank: Eight,
            },
            Card {
                suit: Spade,
                rank: Four,
            },
            Card {
                suit: Diamond,
                rank: Four,
            },
            Card {
                suit: Diamond,
                rank: Two,
            },
            Card {
                suit: Spade,
                rank: Three,
            },
            Card {
                suit: Heart,
                rank: Eight,
            },
        ],
        vec![
            Card {
                suit: Club,
                rank: Ten,
            },
            Card {
                suit: Diamond,
                rank: Six,
            },
            Card {
                suit: Club,
                rank: Eight,
            },
            Card {
                suit: Spade,
                rank: Six,
            },
            Card {
                suit: Heart,
                rank: Queen,
            },
            Card {
                suit: Heart,
                rank: Four,
            },
            Card {
                suit: Club,
                rank: Queen,
            },
            Card {
                suit: Spade,
                rank: Seven,
            },
            Card {
                suit: Diamond,
                rank: Jack,
            },
            Card {
                suit: Heart,
                rank: Six,
            },
            Card {
                suit: Club,
                rank: Five,
            },
            Card {
                suit: Spade,
                rank: Queen,
            },
            Card {
                suit: Heart,
                rank: Two,
            },
        ],
    ]);
    proof {
        assert(state@.tableau[0] =~= deal_0001()[0]);
        assert(state@.tableau[1] =~= deal_0001()[1]);
        assert(state@.tableau[2] =~= deal_0001()[2]);
        assert(state@.tableau[3] =~= deal_0001()[3]);
        assert(state@.tableau =~= deal_0001());
        // The ace of clubs lies twice in this deal, the ace of diamonds not
        // at all: the second ace of clubs counts as the fourth ace.
        let deal = state@.tableau;
        let label = Seq::new(
            52,
            |m: int|
            if m == 24 {
                1int
            } else {
                4 * (deal[m / 13][m % 13].rank.spec_number() - 1) + if deal[m / 13][m % 13].suit
                    == Diamond {
                    1int
                } else if deal[m / 13][m % 13].suit == Heart {
                    0int
                } else if deal[m / 13][m % 13].suit == Club {
                    2int
                } else {
                    3int
                }
            },
        );
        labelled_deal_is_valid(state@, label);
    }
    state
}

/// A deal of Proletariat's Patience.
pub fn russian() -> (state: ProletariatsPatience)
    ensures
        state@.free_cell is None,
        state@.history.len() == 0,
        state@.valid(),
        state@.tableau == russian_deal(),
{
    let state = ProletariatsPatience::new([
        vec![
            Card {
                rank: Seven,
                suit: Heart,
            },
            Card {
                rank: Eight,
                suit: Club,
            },
            Card {
                rank: King,
                suit: Spade,
            },
            Card {
                rank: Nine,
                suit: Spade,
            },
        ],
        vec![
            Card {
                rank: Seven,
                suit: Spade,
            },
            Card {
                rank: Queen,
                suit: Heart,
            },
            Card {
                rank: Jack,
                suit: Diamond,
            },
            Card {
                rank: King,
                suit: Club,
            },
        ],
        vec![
            Card {
                rank: Nine,
                suit: Diamond,
            },
            Card {
                rank: King,
                suit: Diamond,
            },
            Card {
                rank: Nine,
                suit: Club,
            },
            Card {
                rank: Six,
                suit: Diamond,
            },
        ],
        vec![
            Card {
                rank: Ten,
                suit: Heart,
            },
            Card {
                rank: Six,
                suit: Heart,
            },
            Card {
                rank: Queen,
                suit: Diamond,
            },
            Card {
                rank: Seven,
                suit: Diamond,
            },
        ],
        vec![
            Card {
                rank: Seven,
                suit: Club,
            },
            Card {
                rank: Queen,
                suit: Club,
            },
            Card {
                rank: Six,
                suit: Spade,
            },
            Card {
                rank: Ten,
                suit: Spade,
            },
        ],
        vec![
            Card {
                rank: Jack,
                suit: Spade,
            },
            Card {
                rank: Queen,
                suit: Spade,
            },
            Card {
                rank: Ten,
                suit: Club,
            },
            Card {
                rank: Ace,
                suit: Spade,
            },
        ],
        vec![
            Card {
                rank: Eight,
                suit: Heart,
            },
            Card {
                rank: Ace,
                suit: Club,
            },
            Card {
                rank: Jack,
                suit: Heart,
            },
            Card {
                rank: Jack,
                suit: Club,
            },
        ],
        vec![
            Card {
                rank: Six,
                suit: Club,
            },
            Card {
                rank: Ace,
                suit: Heart,
            },
            Card {
                rank: Eight,
                suit: Spade,
            },
            Card {
                rank: Nine,
                suit: Heart,
            },
        ],
        vec![
            Card {
                rank: King,
                suit: Heart,
            },
            Card {
                rank: Eight,
                suit: Diamond,
            },
            Card {
                rank: Ten,
                suit: Diamond,
            },
            Card {
                rank: Ace,
                suit: Diamond,
            },
        ],
    ]);
    proof {
        assert(state@.tableau[0] =~= russian_deal()[0]);
        assert(state@.tableau[1] =~= russian_deal()[1]);
        assert(state@.tableau[2] =~= russian_deal()[2]);
        assert(state@.tableau[3] =~= russian_deal()[3]);
        assert(state@.tableau[4] =~= russian_deal()[4]);
        assert(state@.tableau[5] =~= russian_deal()[5]);
        assert(state@.tableau[6] =~= russian_deal()[6]);
        assert(state@.tableau[7] =~= russian_deal()[7]);
        assert(state@.tableau[8] =~= russian_deal()[8]);
        assert(state@.tableau =~= russian_deal());
        distinct_deal_is_valid(state@);
    }
    state
}

/// A second deal of Proletariat's Patience.
pub fn russian_2() -> (state: ProletariatsPatience)
    ensures
        state@.free_cell is None,
        state@.history.len() == 0,
        state@.valid(),
        state@.tableau == russian_2_deal(),
{
    let state = ProletariatsPatience::new([
        vec![
            Card {
                rank: Six,
                suit: Club,
            },
            Card {
                rank: Queen,
                suit: Diamond,
            },
            Card {
                rank: Nine,
                suit: Club,
            },
            Card {
                rank: Ace,
                suit: Diamond,
            },
        ],
        vec![
            Card {
                rank: Seven,
                suit: Heart,
            },
            Card {
                rank: Jack,
                suit: Diamond,
            },
            Card {
                rank: Ace,
                suit: Club,
            },
            Card {
                rank: Ace,
                suit: Spade,
            },
        ],
        vec![
            Card {
                rank: Eight,
                suit: Club,
            },
            Card {
                rank: Seven,
                suit: Club,
            },
            Card {
                rank: Queen,
                suit: Club,
            },
            Card {
                rank: Ten,
                suit: Diamond,
            },
        ],
        vec![
            Card {
                rank: Eight,
                suit: Spade,
            },
            Card {
                rank: Jack,
                suit: Spade,
            },
            Card {
                rank: Six,
                suit: Spade,
            },
            Card {
                rank: Nine,
                suit: Heart,
            },
        ],
        vec![
            Card {
                rank: King,
                suit: Diamond,
            },
            Card {
                rank: Nine,
                suit: Spade,
            },
            Card {
                rank: Eight,
                suit: Diamond,
            },
            Card {
                rank: Queen,
                suit: Heart,
            },
        ],
        vec![
            Card {
                rank: Ten,
                suit: Club,
            },
            Card {
                rank: Six,
                suit: Diamond,
            },
            Card {
                rank: Nine,
                suit: Diamond,
            },
            Card {
                rank: King,
                suit: Heart,
            },
        ],
        vec![
            Card {
                rank: Eight,
                suit: Heart,
            },
            Card {
                rank: King,
                suit: Club,
            },
            Card {
                rank: Seven,
                suit: Diamond,
            },
            Card {
                rank: Jack,
                suit: Heart,
            },
        ],
        vec![
            Card {
                rank: Seven,
                suit: Spade,
            },
            Card {
                rank: Queen,
                suit: Spade,
            },
            Card {
                rank: Ace,
                suit: Heart,
            },
            Card {
                rank: Jack,
                suit: Club,
            },
        ],
        vec![
            Card {
                rank: Ten,
                suit: Spade,
            },
            Card {
                rank: Six,
                suit: Heart,
            },
            Card {
                rank: King,
                suit: Spade,
            },
            Card {
                rank: Ten,
                suit: Heart,
            },
        ],
    ]);
    proof {
        assert(state@.tableau[0] =~= russian_2_deal()[0]);
        assert(state@.tableau[1] =~= russian_2_deal()[1]);
        assert(state@.tableau[2] =~= russian_2_deal()[2]);
        assert(state@.tableau[3] =~= russian_2_deal()[3]);
        assert(state@.tableau[4] =~= russian_2_deal()[4]);
        assert(state@.tableau[5] =~= russian_2_deal()[5]);
        assert(state@.tableau[6] =~= russian_2_deal()[6]);
        assert(state@.tableau[7] =~= russian_2_deal()[7]);
        assert(state@.tableau[8] =~= russian_2_deal()[8]);
        assert(state@.tableau =~= russian_2_deal());
        distinct_deal_is_valid(state@);
    }
    state
}

/// A third deal of Proletariat's Patience.
pub fn russian_3() -> (state: ProletariatsPatience)
    ensures
        state@.free_cell is None,
        state@.history.len() == 0,
        state@.valid(),
        state@.tableau == russian_3_deal(),
{
    let state = ProletariatsPatience::new([
        vec![
            Card {
                rank: Jack,
                suit: Club,
            },
            Card {
                rank: King,
                suit: Heart,
            },
            Card {
                rank: Nine,
                suit: Club,
            },
            Card {
                rank: Queen,
                suit: Spade,
            },
        ],
        vec![
            Card {
                rank: Nine,
                suit: Heart,
            },
            Card {
                rank: Ten,
                suit: Spade,
            },
            Card {
                rank: Ace,
                suit: Heart,
            },
            Card {
                rank: Seven,
                suit: Heart,
            },
        ],
        vec![
            Card {
                rank: Ace,
                suit: Diamond,
            },
            Card {
                rank: Six,
                suit: Club,
            },
            Card {
                rank: King,
                suit: Diamond,
            },
            Card {
                rank: Nine,
                suit: Spade,
            },
        ],
        vec![
            Card {
                rank: Six,
                suit: Heart,
            },
            Card {
                rank: Eight,
                suit: Club,
            },
            Card {
                rank: Six,
                suit: Diamond,
            },
            Card {
                rank: Queen,
                suit: Club,
            },
        ],
        vec![
            Card {
                rank: Seven,
                suit: Diamond,
            },
            Card {
                rank: King,
                suit: Spade,
            },
            Card {
                rank: Ten,
                suit: Diamond,
            },
            Card {
                rank: Ten,
                suit: Heart,
            },
        ],
        vec![
            Card {
                rank: Ace,
                suit: Spade,
            },
            Card {
                rank: Eight,
                suit: Spade,
            },
            Card {
                rank: Jack,
                suit: Spade,
            },
            Card {
                rank: Nine,
                suit: Diamond,
            },
        ],
        vec![
            Card {
                rank: Jack,
                suit: Heart,
            },
            Card {
                rank: Eight,
                suit: Diamond,
            },
            Card {
                rank: Queen,
                suit: Heart,
            },
            Card {
                rank: King,
                suit: Club,
            },
        ],
        vec![
            Card {
                rank: Ten,
                suit: Club,
            },
            Card {
                rank: Six,
                suit: Spade,
            },
            Card {
                rank: Jack,
                suit: Diamond,
            },
            Card {
                rank: Queen,
                suit: Diamond,
            },
        ],
        vec![
            Card {
                rank: Seven,
                suit: Club,
            },
            Card {
                rank: Ace,
                suit: Club,
            },
            Card {
                rank: Seven,
                suit: Spade,
            },
            Card {
                rank: Eight,
                suit: Heart,
            },
        ],
    ]);
    proof {
        assert(state@.tableau[0] =~= russian_3_deal()[0]);
        assert(state@.tableau[1] =~= russian_3_deal()[1]);
        assert(state@.tableau[2] =~= russian_3_deal()[2]);
        assert(state@.tableau[3] =~= russian_3_deal()[3]);
        assert(state@.tableau[4] =~= russian_3_deal()[4]);
        assert(state@.tableau[5] =~= russian_3_deal()[5]);
        assert(state@.tableau[6] =~= russian_3_deal()[6]);
        assert(state@.tableau[7] =~= russian_3_deal()[7]);
        assert(state@.tableau[8] =~= russian_3_deal()[8]);
        assert(state@.tableau =~= russian_3_deal());
        distinct_deal_is_valid(state@);
    }
    state
}

/// A deal of Fortune's Foundation: the whole deck, the aces on their
/// foundations.
pub fn fortune_1() -> (state: FortunesFoundation)
    ensures
        state@ == Layout::opening(fortune_1_deal()),
        state@.valid(),
        state@.card_count() == 74,
{
    let tableau = [
        vec![
            Minor(fortune::Card {
                rank: Ten,
                suit: Pentacles,
            }),
            Minor(fortune::Card {
                rank: Jack,
                suit: Pentacles,
            }),
            Major(MajorArcana { rank: 17 }),
            Minor(fortune::Card {
                rank: Five,
                suit: Cups,
            }),
            Minor(fortune::Card {
                rank: King,
                suit: Swords,
            }),
            Major(MajorArcana { rank: 3 }),
            Minor(fortune::Card {
                rank: Queen,
                suit: Wands,
            }),
        ],
        vec![
            Major(MajorArcana { rank: 20 }),
            Minor(fortune::Card {
                rank: Queen,
                suit: Swords,
            }),
            Minor(fortune::Card {
                rank: Ten,
                suit: Cups,
            }),
            Minor(fortune::Card {
                rank: Jack,
                suit: Swords,
            }),
            Minor(fortune::Card {
                rank: Seven,
                suit: Pentacles,
            }),
            Minor(fortune::Card {
                rank: Nine,
                suit: Pentacles,
            }),
            Major(MajorArcana { rank: 5 }),
        ],
        vec![
            Major(MajorArcana { rank: 21 }),
            Minor(fortune::Card {
                rank: Six,
                suit: Wands,
            }),
            Minor(fortune::Card {
                rank: Three,
                suit: Pentacles,
            }),
            Minor(fortune::Card {
                rank: Six,
                suit: Pentacles,
            }),
            Minor(fortune::Card {
                rank: Three,
                suit: Swords,
            }),
            Minor(fortune::Card {
                rank: Five,
                suit: Wands,
            }),
            Major(MajorArcana { rank: 14 }),
        ],
        vec![
            Minor(fortune::Card {
                rank: Two,
                suit: Cups,
            }),
            Minor(fortune::Card {
                rank: Five,
                suit: Pentacles,
            }),
            Major(MajorArcana { rank: 19 }),
            Minor(fortune::Card {
                rank: Four,
                suit: Cups,
            }),
            Minor(fortune::Card {
                rank: Ten,
                suit: Swords,
            }),
            Major(MajorArcana { rank: 18 }),
            Minor(fortune::Card {
                rank: Nine,
                suit: Wands,
            }),
        ],
        vec![
            Minor(fortune::Card {
                rank: Six,
                suit: Cups,
            }),
            Major(MajorArcana { rank: 15 }),
            Major(MajorArcana { rank: 9 }),
            Minor(fortune::Card {
                rank: Two,
                suit: Swords,
            }),
            Minor(fortune::Card {
                rank: Three,
                suit: Cups,
            }),
            Minor(fortune::Card {
                rank: Queen,
                suit: Cups,
            }),
            Minor(fortune::Card {
                rank: Seven,
                suit: Swords,
            }),
        ],
        vec![
            // Empty column
        ],
        vec![
            Minor(fortune::Card {
                rank: Three,
                suit: Wands,
            }),
            Minor(fortune::Card {
                rank: Four,
                suit: Pentacles,
            }),
            Minor(fortune::Card {
                rank: King,
                suit: Cups,
            }),
            Minor(fortune::Card {
                rank: Eight,
                suit: Cups,
            }),
            Minor(fortune::Card {
                rank: Nine,
                suit: Swords,
            }),
            Major(MajorArcana { rank: 2 }),
            Major(MajorArcana { rank: 10 }),
        ],
        vec![
            Major(MajorArcana { rank: 4 }),
            Minor(fortune::Card {
                rank: Seven,
                suit: Wands,
            }),
            Minor(fortune::Card {
                rank: Eight,
                suit: Pentacles,
            }),
            Minor(fortune::Card {
                rank: Eight,
                suit: Wands,
            }),
            Minor(fortune::Card {
                rank: Queen,
                suit: Pentacles,
            }),
            Minor(fortune::Card {
                rank: Two,
                suit: Pentacles,
            }),
            Minor(fortune::Card {
                rank: King,
                suit: Pentacles,
            }),
        ],
        vec![
            Minor(fortune::Card {
                rank: Five,
                suit: Swords,
            }),
            Minor(fortune::Card {
                rank: Four,
                suit: Swords,
            }),
            Minor(fortune::Card {
                rank: Eight,
                suit: Swords,
            }),
            Major(MajorArcana { rank: 1 }),
            Minor(fortune::Card {
                rank: Jack,
                suit: Wands,
            }),
            Major(MajorArcana { rank: 8 }),
            Major(MajorArcana { rank: 12 }),
        ],
        vec![
            Minor(fortune::Card {
                rank: Seven,
                suit: Cups,
            }),
            Minor(fortune::Card {
                rank: Six,
                suit: Swords,
            }),
            Major(MajorArcana { rank: 11 }),
            Minor(fortune::Card {
                rank: Nine,
                suit: Cups,
            }),
            Minor(fortune::Card {
                rank: Two,
                suit: Wands,
            }),
            Major(MajorArcana { rank: 13 }),
            Minor(fortune::Card {
                rank: Jack,
                suit: Cups,
            }),
        ],
        vec![
            Minor(fortune::Card {
                rank: Four,
                suit: Wands,
            }),
            Major(MajorArcana { rank: 16 }),
            Major(MajorArcana { rank: 6 }),
            Major(MajorArcana { rank: 0 }),
            Major(MajorArcana { rank: 7 }),
            Minor(fortune::Card {
                rank: Ten,
                suit: Wands,
            }),
            Minor(fortune::Card {
                rank: King,
                suit: Wands,
            }),
        ],
    ];
    proof {
        assert(piles(tableau)[0] =~= fortune_1_deal()[0]);
        assert(piles(tableau)[1] =~= fortune_1_deal()[1]);
        assert(piles(tableau)[2] =~= fortune_1_deal()[2]);
        assert(piles(tableau)[3] =~= fortune_1_deal()[3]);
        assert(piles(tableau)[4] =~= fortune_1_deal()[4]);
        assert(piles(tableau)[5] =~= fortune_1_deal()[5]);
        assert(piles(tableau)[6] =~= fortune_1_deal()[6]);
        assert(piles(tableau)[7] =~= fortune_1_deal()[7]);
        assert(piles(tableau)[8] =~= fortune_1_deal()[8]);
        assert(piles(tableau)[9] =~= fortune_1_deal()[9]);
        assert(piles(tableau)[10] =~= fortune_1_deal()[10]);
        assert(piles(tableau) =~= fortune_1_deal());
        distinct_opening_is_valid(piles(tableau));
    }
    FortunesFoundation::new(tableau)
}

/// A deal of Fortune's Foundation: the whole deck, the aces on their
/// foundations.
pub fn fortune_2() -> (state: FortunesFoundation)
    ensures
        state@ == Layout::opening(fortune_2_deal()),
        state@.valid(),
        state@.card_count() == 74,
{
    let tableau = [
        vec![
            Major(MajorArcana { rank: 9 }),
            Major(MajorArcana { rank: 3 }),
            Minor(fortune::Card {
                rank: Four,
                suit: Swords,
            }),
            Major(MajorArcana { rank: 4 }),
            Major(MajorArcana { rank: 20 }),
            Minor(fortune::Card {
                rank: King,
                suit: Swords,
            }),
            Minor(fortune::Card {
                rank: Five,
                suit: Cups,
            }),
        ],
        vec![
            Minor(fortune::Card {
                rank: Five,
                suit: Swords,
            }),
            Minor(fortune::Card {
                rank: Seven,
                suit: Swords,
            }),
            Minor(fortune::Card {
                rank: Three,
                suit: Wands,
            }),
            Major(MajorArcana { rank: 8 }),
            Minor(fortune::Card {
                rank: Eight,
                suit: Wands,
            }),
            Minor(fortune::Card {
                rank: Five,
                suit: Wands,
            }),
            Minor(fortune::Card {
                rank: Queen,
                suit: Wands,
            }),
        ],
        vec![
            Major(MajorArcana { rank: 18 }),
            Major(MajorArcana { rank: 14 }),
            Minor(fortune::Card {
                rank: Six,
                suit: Swords,
            }),
            Minor(fortune::Card {
                rank: Eight,
                suit: Swords,
            }),
            Minor(fortune::Card {
                rank: King,
                suit: Cups,
            }),
            Minor(fortune::Card {
                rank: Jack,
                suit: Swords,
            }),
            Minor(fortune::Card {
                rank: Six,
                suit: Wands,
            }),
        ],
        vec![
            Minor(fortune::Card {
                rank: Three,
                suit: Cups,
            }),
            Minor(fortune::Card {
                rank: Nine,
                suit: Cups,
            }),
            Major(MajorArcana { rank: 1 }),
            Minor(fortune::Card {
                rank: Four,
                suit: Cups,
            }),
            Major(MajorArcana { rank: 6 }),
            Major(MajorArcana { rank: 21 }),
            Minor(fortune::Card {
                rank: Jack,
                suit: Pentacles,
            }),
        ],
        vec![
            Major(MajorArcana { rank: 5 }),
            Major(MajorArcana { rank: 11 }),
            Minor(fortune::Card {
                rank: Four,
                suit: Wands,
            }),
            Minor(fortune::Card {
                rank: Nine,
                suit: Pentacles,
            }),
            Minor(fortune::Card {
                rank: Jack,
                suit: Cups,
            }),
            Minor(fortune::Card {
                rank: Seven,
                suit: Wands,
            }),
            Major(MajorArcana { rank: 12 }),
        ],
        vec![
            // Empty column
        ],
        vec![
            Minor(fortune::Card {
                rank: Ten,
                suit: Wands,
            }),
            Major(MajorArcana { rank: 13 }),
            Minor(fortune::Card {
                rank: Two,
                suit: Swords,
            }),
            Minor(fortune::Card {
                rank: Two,
                suit: Pentacles,
            }),
            Major(MajorArcana { rank: 0 }),
            Minor(fortune::Card {
                rank: Three,
                suit: Swords,
            }),
            Major(MajorArcana { rank: 15 }),
        ],
        vec![
            Major(MajorArcana { rank: 2 }),
            Minor(fortune::Card {
                rank: Three,
                suit: Pentacles,
            }),
            Minor(fortune::Card {
                rank: Two,
                suit: Cups,
            }),
            Minor(fortune::Card {
                rank: Eight,
                suit: Pentacles,
            }),
            Minor(fortune::Card {
                rank: Six,
                suit: Cups,
            }),
            Minor(fortune::Card {
                rank: Seven,
                suit: Pentacles,
            }),
            Minor(fortune::Card {
                rank: King,
                suit: Pentacles,
            }),
        ],
        vec![
            Major(MajorArcana { rank: 10 }),
            Minor(fortune::Card {
                rank: Queen,
                suit: Cups,
            }),
            Major(MajorArcana { rank: 19 }),
            Minor(fortune::Card {
                rank: King,
                suit: Wands,
            }),
            Minor(fortune::Card {
                rank: Four,
                suit: Pentacles,
            }),
            Major(MajorArcana { rank: 16 }),
            Minor(fortune::Card {
                rank: Queen,
                suit: Pentacles,
            }),
        ],
        vec![
            Minor(fortune::Card {
                rank: Ten,
                suit: Swords,
            }),
            Minor(fortune::Card {
                rank: Two,
                suit: Wands,
            }),
            Minor(fortune::Card {
                rank: Queen,
                suit: Swords,
            }),
            Major(MajorArcana { rank: 7 }),
            Minor(fortune::Card {
                rank: Seven,
                suit: Cups,
            }),
            Minor(fortune::Card {
                rank: Nine,
                suit: Swords,
            }),
            Minor(fortune::Card {
                rank: Nine,
                suit: Wands,
            }),
        ],
        vec![
            Major(MajorArcana { rank: 17 }),
            Minor(fortune::Card {
                rank: Ten,
                suit: Pentacles,
            }),
            Minor(fortune::Card {
                rank: Ten,
                suit: Cups,
            }),
            Minor(fortune::Card {
                rank: Six,
                suit: Pentacles,
            }),
            Minor(fortune::Card {
                rank: Five,
                suit: Pentacles,
            }),
            Minor(fortune::Card {
                rank: Jack,
                suit: Wands,
            }),
            Minor(fortune::Card {
                rank: Eight,
                suit: Cups,
            }),
        ],
    ];
    proof {
        assert(piles(tableau)[0] =~= fortune_2_deal()[0]);
        assert(piles(tableau)[1] =~= fortune_2_deal()[1]);
        assert(piles(tableau)[2] =~= fortune_2_deal()[2]);
        assert(piles(tableau)[3] =~= fortune_2_deal()[3]);
        assert(piles(tableau)[4] =~= fortune_2_deal()[4]);
        assert(piles(tableau)[5] =~= fortune_2_deal()[5]);
        assert(piles(tableau)[6] =~= fortune_2_deal()[6]);
        assert(piles(tableau)[7] =~= fortune_2_deal()[7]);
        assert(piles(tableau)[8] =~= fortune_2_deal()[8]);
        assert(piles(tableau)[9] =~= fortune_2_deal()[9]);
        assert(piles(tableau)[10] =~= fortune_2_deal()[10]);
        assert(piles(tableau) =~= fortune_2_deal());
        distinct_opening_is_valid(piles(tableau));
    }
    FortunesFoundation::new(tableau)
}

/// A deal of Fortune's Foundation: the whole deck, the aces on their
/// foundations.
pub fn fortune_3() -> (state: FortunesFoundation)
    ensures
        state@ == Layout::opening(fortune_3_deal()),
        state@.valid(),
        state@.card_count() == 74,
{
    let tableau = [
        vec![
            Major(MajorArcana { rank: 17 }),
            Major(MajorArcana { rank: 9 }),
            Minor(fortune::Card {
                rank: Four,
                suit: Swords,
            }),
            Minor(fortune::Card {
                rank: Ten,
                suit: Swords,
            }),
            Minor(fortune::Card {
                rank: Ten,
                suit: Pentacles,
            }),
            Major(MajorArcana { rank: 5 }),
            Minor(fortune::Card {
                rank: Ten,
                suit: Cups,
            }),
        ],
        vec![
            Minor(fortune::Card {
                rank: Three,
                suit: Pentacles,
            }),
            Minor(fortune::Card {
                rank: Eight,
                suit: Cups,
            }),
            Minor(fortune::Card {
                rank: Ten,
                suit: Wands,
            }),
            Minor(fortune::Card {
                rank: Eight,
                suit: Wands,
            }),
            Minor(fortune::Card {
                rank: Five,
                suit: Pentacles,
            }),
            Minor(fortune::Card {
                rank: King,
                suit: Wands,
            }),
            Major(MajorArcana { rank: 19 }),
        ],
        vec![
            Minor(fortune::Card {
                rank: Seven,
                suit: Pentacles,
            }),
            Minor(fortune::Card {
                rank: Jack,
                suit: Swords,
            }),
            Major(MajorArcana { rank: 10 }),
            Major(MajorArcana { rank: 11 }),
            Minor(fortune::Card {
                rank: Seven,
                suit: Wands,
            }),
            Major(MajorArcana { rank: 14 }),
            Major(MajorArcana { rank: 8 }),
        ],
        vec![
            Major(MajorArcana { rank: 16 }),
            Minor(fortune::Card {
                rank: Nine,
                suit: Wands,
            }),
            Major(MajorArcana { rank: 4 }),
            Minor(fortune::Card {
                rank: Two,
                suit: Cups,
            }),
            Minor(fortune::Card {
                rank: Eight,
                suit: Pentacles,
            }),
            Minor(fortune::Card {
                rank: Nine,
                suit: Swords,
            }),
            Minor(fortune::Card {
                rank: Six,
                suit: Swords,
            }),
        ],
        vec![
            Major(MajorArcana { rank: 7 }),
            Major(MajorArcana { rank: 1 }),
            Major(MajorArcana { rank: 0 }),
            Minor(fortune::Card {
                rank: Five,
                suit: Cups,
            }),
            Minor(fortune::Card {
                rank: Two,
                suit: Wands,
            }),
            Major(MajorArcana { rank: 21 }),
            Minor(fortune::Card {
                rank: King,
                suit: Cups,
            }),
        ],
        vec![
            // Empty column
        ],
        vec![
            Minor(fortune::Card {
                rank: Nine,
                suit: Pentacles,
            }),
            Major(MajorArcana { rank: 13 }),
            Minor(fortune::Card {
                rank: Three,
                suit: Cups,
            }),
            Major(MajorArcana { rank: 20 }),
            Minor(fortune::Card {
                rank: Four,
                suit: Wands,
            }),
            Major(MajorArcana { rank: 18 }),
            Major(MajorArcana { rank: 12 }),
        ],
        vec![
            Minor(fortune::Card {
                rank: Jack,
                suit: Pentacles,
            }),
            Minor(fortune::Card {
                rank: King,
                suit: Swords,
            }),
            Minor(fortune::Card {
                rank: Two,
                suit: Swords,
            }),
            Minor(fortune::Card {
                rank: Four,
                suit: Pentacles,
            }),
            Minor(fortune::Card {
                rank: Five,
                suit: Swords,
            }),
            Minor(fortune::Card {
                rank: Nine,
                suit: Cups,
            }),
            Minor(fortune::Card {
                rank: Queen,
                suit: Cups,
            }),
        ],
        vec![
            Minor(fortune::Card {
                rank: Queen,
                suit: Wands,
            }),
            Major(MajorArcana { rank: 15 }),
            Minor(fortune::Card {
                rank: Seven,
                suit: Cups,
            }),
            Major(MajorArcana { rank: 3 }),
            Minor(fortune::Card {
                rank: Six,
                suit: Pentacles,
            }),
            Minor(fortune::Card {
                rank: Jack,
                suit: Wands,
            }),
            Minor(fortune::Card {
                rank: King,
                suit: Pentacles,
            }),
        ],
        vec![
            Minor(fortune::Card {
                rank: Two,
                suit: Pentacles,
            }),
            Major(MajorArcana { rank: 2 }),
            Minor(fortune::Card {
                rank: Three,
                suit: Wands,
            }),
            Minor(fortune::Card {
                rank: Queen,
                suit: Swords,
            }),
            Minor(fortune::Card {
                rank: Eight,
                suit: Swords,
            }),
            Minor(fortune::Card {
                rank: Five,
                suit: Wands,
            }),
            Minor(fortune::Card {
                rank: Six,
                suit: Wands,
            }),
        ],
        vec![
            Minor(fortune::Card {
                rank: Three,
                suit: Swords,
            }),
            Major(MajorArcana { rank: 6 }),
            Minor(fortune::Card {
                rank: Four,
                suit: Cups,
            }),
            Minor(fortune::Card {
                rank: Seven,
                suit: Swords,
            }),
            Minor(fortune::Card {
                rank: Queen,
                suit: Pentacles,
            }),
            Minor(fortune::Card {
                rank: Six,
                suit: Cups,
            }),
            Minor(fortune::Card {
                rank: Jack,
                suit: Cups,
            }),
        ],
    ];
    proof {
        assert(piles(tableau)[0] =~= fortune_3_deal()[0]);
        assert(piles(tableau)[1] =~= fortune_3_deal()[1]);
        assert(piles(tableau)[2] =~= fortune_3_deal()[2]);
        assert(piles(tableau)[3] =~= fortune_3_deal()[3]);
        assert(piles(tableau)[4] =~= fortune_3_deal()[4]);
        assert(piles(tableau)[5] =~= fortune_3_deal()[5]);
        assert(piles(tableau)[6] =~= fortune_3_deal()[6]);
        assert(piles(tableau)[7] =~= fortune_3_deal()[7]);
        assert(piles(tableau)[8] =~= fortune_3_deal()[8]);
        assert(piles(tableau)[9] =~= fortune_3_deal()[9]);
        assert(piles(tableau)[10] =~= fortune_3_deal()[10]);
        assert(piles(tableau) =~= fortune_3_deal());
        distinct_opening_is_valid(piles(tableau));
    }
    FortunesFoundation::new(tableau)
}

/// A deal of Fortune's Foundation: the whole deck, the aces on their
/// foundations.
pub fn fortune_4() -> (state: FortunesFoundation)
    ensures
        state@ == Layout::opening(fortune_4_deal()),
        state@.valid(),
        state@.card_count() == 74,
{
    let tableau = [
        vec![
            Major(MajorArcana { rank: 18 }),
            Minor(fortune::Card {
                rank: Queen,
                suit: Pentacles,
            }),
            Minor(fortune::Card {
                rank: Seven,
                suit: Wands,
            }),
            Major(MajorArcana { rank: 9 }),
            Minor(fortune::Card {
                rank: King,
                suit: Cups,
            }),
            Minor(fortune::Card {
                rank: Seven,
                suit: Cups,
            }),
            Minor(fortune::Card {
                rank: Five,
                suit: Pentacles,
            }),
        ],
        vec![
            Minor(fortune::Card {
                rank: Six,
                suit: Pentacles,
            }),
            Minor(fortune::Card {
                rank: Three,
                suit: Pentacles,
            }),
            Minor(fortune::Card {
                rank: Eight,
                suit: Cups,
            }),
            Major(MajorArcana { rank: 11 }),
            Minor(fortune::Card {
                rank: Jack,
                suit: Cups,
            }),
            Minor(fortune::Card {
                rank: Four,
                suit: Pentacles,
            }),
            Major(MajorArcana { rank: 16 }),
        ],
        vec![
            Major(MajorArcana { rank: 8 }),
            Major(MajorArcana { rank: 13 }),
            Minor(fortune::Card {
                rank: Three,
                suit: Cups,
            }),
            Minor(fortune::Card {
                rank: Nine,
                suit: Cups,
            }),
            Major(MajorArcana { rank: 5 }),
            Minor(fortune::Card {
                rank: Nine,
                suit: Wands,
            }),
            Minor(fortune::Card {
                rank: Jack,
                suit: Pentacles,
            }),
        ],
        vec![
            Major(MajorArcana { rank: 19 }),
            Major(MajorArcana { rank: 6 }),
            Major(MajorArcana { rank: 10 }),
            Minor(fortune::Card {
                rank: Five,
                suit: Swords,
            }),
            Minor(fortune::Card {
                rank: Seven,
                suit: Swords,
            }),
            Major(MajorArcana { rank: 15 }),
            Minor(fortune::Card {
                rank: Eight,
                suit: Pentacles,
            }),
        ],
        vec![
            Major(MajorArcana { rank: 1 }),
            Minor(fortune::Card {
                rank: King,
                suit: Pentacles,
            }),
            Minor(fortune::Card {
                rank: Ten,
                suit: Wands,
            }),
            Major(MajorArcana { rank: 14 }),
            Major(MajorArcana { rank: 3 }),
            Minor(fortune::Card {
                rank: Three,
                suit: Swords,
            }),
            Minor(fortune::Card {
                rank: Nine,
                suit: Pentacles,
            }),
        ],
        vec![
            // Empty column
        ],
        vec![
            Minor(fortune::Card {
                rank: Four,
                suit: Cups,
            }),
            Major(MajorArcana { rank: 2 }),
            Minor(fortune::Card {
                rank: Four,
                suit: Wands,
            }),
            Minor(fortune::Card {
                rank: Ten,
                suit: Swords,
            }),
            Minor(fortune::Card {
                rank: Two,
                suit: Pentacles,
            }),
            Major(MajorArcana { rank: 7 }),
            Minor(fortune::Card {
                rank: Seven,
                suit: Pentacles,
            }),
        ],
        vec![
            Minor(fortune::Card {
                rank: Ten,
                suit: Pentacles,
            }),
            Minor(fortune::Card {
                rank: Six,
                suit: Cups,
            }),
            Minor(fortune::Card {
                rank: Two,
                suit: Swords,
            }),
            Major(MajorArcana { rank: 21 }),
            Minor(fortune::Card {
                rank: Queen,
                suit: Swords,
            }),
            Minor(fortune::Card {
                rank: Two,
                suit: Wands,
            }),
            Minor(fortune::Card {
                rank: Queen,
                suit: Cups,
            }),
        ],
        vec![
            Major(MajorArcana { rank: 20 }),
            Minor(fortune::Card {
                rank: King,
                suit: Wands,
            }),
            Minor(fortune::Card {
                rank: Five,
                suit: Wands,
            }),
            Minor(fortune::Card {
                rank: Six,
                suit: Wands,
            }),
            Minor(fortune::Card {
                rank: Nine,
                suit: Swords,
            }),
            Major(MajorArcana { rank: 4 }),
            Minor(fortune::Card {
                rank: Four,
                suit: Swords,
            }),
        ],
        vec![
            Minor(fortune::Card {
                rank: Two,
                suit: Cups,
            }),
            Minor(fortune::Card {
                rank: Ten,
                suit: Cups,
            }),
            Major(MajorArcana { rank: 17 }),
            Minor(fortune::Card {
                rank: King,
                suit: Swords,
            }),
            Minor(fortune::Card {
                rank: Jack,
                suit: Wands,
            }),
            Minor(fortune::Card {
                rank: Jack,
                suit: Swords,
            }),
            Minor(fortune::Card {
                rank: Six,
                suit: Swords,
            }),
        ],
        vec![
            Major(MajorArcana { rank: 12 }),
            Major(MajorArcana { rank: 0 }),
            Minor(fortune::Card {
                rank: Eight,
                suit: Wands,
            }),
            Minor(fortune::Card {
                rank: Queen,
                suit: Wands,
            }),
            Minor(fortune::Card {
                rank: Five,
                suit: Cups,
            }),
            Minor(fortune::Card {
                rank: Eight,
                suit: Swords,
            }),
            Minor(fortune::Card {
                rank: Three,
                suit: Wands,
            }),
        ],
    ];
    proof {
        assert(piles(tableau)[0] =~= fortune_4_deal()[0]);
        assert(piles(tableau)[1] =~= fortune_4_deal()[1]);
        assert(piles(tableau)[2] =~= fortune_4_deal()[2]);
        assert(piles(tableau)[3] =~= fortune_4_deal()[3]);
        assert(piles(tableau)[4] =~= fortune_4_deal()[4]);
        assert(piles(tableau)[5] =~= fortune_4_deal()[5]);
        assert(piles(tableau)[6] =~= fortune_4_deal()[6]);
        assert(piles(tableau)[7] =~= fortune_4_deal()[7]);
        assert(piles(tableau)[8] =~= fortune_4_deal()[8]);
        assert(piles(tableau)[9] =~= fortune_4_deal()[9]);
        assert(piles(tableau)[10] =~= fortune_4_deal()[10]);
        assert(piles(tableau) =~= fortune_4_deal());
        distinct_opening_is_valid(piles(tableau));
    }
    FortunesFoundation::new(tableau)
}

/// A deal of Fortune's Foundation: the whole deck, the aces on their
/// foundations.
pub fn fortune_5() -> (state: FortunesFoundation)
    ensures
        state@ == Layout::opening(fortune_5_deal()),
        state@.valid(),
        state@.card_count() == 74,
{
    let tableau = [
        vec![
            Minor(fortune::Card {
                rank: Queen,
                suit: Cups,
            }),
            Minor(fortune::Card {
                rank: King,
                suit: Wands,
            }),
            Minor(fortune::Card {
                rank: Seven,
                suit: Swords,
            }),
            Major(MajorArcana { rank: 10 }),
            Minor(fortune::Card {
                rank: Queen,
                suit: Swords,
            }),
            Minor(fortune::Card {
                rank: Eight,
                suit: Swords,
            }),
            Major(MajorArcana { rank: 18 }),
        ],
        vec![
            Minor(fortune::Card {
                rank: Three,
                suit: Swords,
            }),
            Minor(fortune::Card {
                rank: Queen,
                suit: Wands,
            }),
            Minor(fortune::Card {
                rank: Ten,
                suit: Swords,
            }),
            Minor(fortune::Card {
                rank: Four,
                suit: Pentacles,
            }),
            Minor(fortune::Card {
                rank: Nine,
                suit: Cups,
            }),
            Major(MajorArcana { rank: 2 }),
            Major(MajorArcana { rank: 11 }),
        ],
        vec![
            Minor(fortune::Card {
                rank: Nine,
                suit: Wands,
            }),
            Minor(fortune::Card {
                rank: Five,
                suit: Wands,
            }),
            Major(MajorArcana { rank: 16 }),
            Major(MajorArcana { rank: 5 }),
            Minor(fortune::Card {
                rank: Seven,
                suit: Pentacles,
            }),
            Minor(fortune::Card {
                rank: Six,
                suit: Pentacles,
            }),
            Minor(fortune::Card {
                rank: Queen,
                suit: Pentacles,
            }),
        ],
        vec![
            Minor(fortune::Card {
                rank: Two,
                suit: Swords,
            }),
            Minor(fortune::Card {
                rank: Five,
                suit: Swords,
            }),
            Minor(fortune::Card {
                rank: Five,
                suit: Cups,
            }),
            Minor(fortune::Card {
                rank: Six,
                suit: Swords,
            }),
            Minor(fortune::Card {
                rank: Ten,
                suit: Cups,
            }),
            Minor(fortune::Card {
                rank: Five,
                suit: Pentacles,
            }),
            Minor(fortune::Card {
                rank: Eight,
                suit: Wands,
            }),
        ],
        vec![
            Minor(fortune::Card {
                rank: Three,
                suit: Cups,
            }),
            Major(MajorArcana { rank: 20 }),
            Major(MajorArcana { rank: 4 }),
            Minor(fortune::Card {
                rank: Two,
                suit: Wands,
            }),
            Minor(fortune::Card {
                rank: Seven,
                suit: Cups,
            }),
            Major(MajorArcana { rank: 21 }),
            Major(MajorArcana { rank: 17 }),
        ],
        vec![
            // Empty column
        ],
        vec![
            Minor(fortune::Card {
                rank: Six,
                suit: Cups,
            }),
            Major(MajorArcana { rank: 19 }),
            Major(MajorArcana { rank: 3 }),
            Minor(fortune::Card {
                rank: Three,
                suit: Pentacles,
            }),
            Minor(fortune::Card {
                rank: King,
                suit: Pentacles,
            }),
            Minor(fortune::Card {
                rank: Jack,
                suit: Cups,
            }),
            Major(MajorArcana { rank: 6 }),
        ],
        vec![
            Minor(fortune::Card {
                rank: Three,
                suit: Wands,
            }),
            Minor(fortune::Card {
                rank: Two,
                suit: Cups,
            }),
            Minor(fortune::Card {
                rank: Two,
                suit: Pentacles,
            }),
            Major(MajorArcana { rank: 14 }),
            Minor(fortune::Card {
                rank: Eight,
                suit: Cups,
            }),
            Major(MajorArcana { rank: 15 }),
            Minor(fortune::Card {
                rank: Ten,
                suit: Wands,
            }),
        ],
        vec![
            Minor(fortune::Card {
                rank: Four,
                suit: Swords,
            }),
            Major(MajorArcana { rank: 1 }),
            Minor(fortune::Card {
                rank: King,
                suit: Swords,
            }),
            Minor(fortune::Card {
                rank: Jack,
                suit: Pentacles,
            }),
            Minor(fortune::Card {
                rank: Six,
                suit: Wands,
            }),
            Major(MajorArcana { rank: 8 }),
            Minor(fortune::Card {
                rank: Four,
                suit: Wands,
            }),
        ],
        vec![
            Minor(fortune::Card {
                rank: Four,
                suit: Cups,
            }),
            Minor(fortune::Card {
                rank: Nine,
                suit: Swords,
            }),
            Minor(fortune::Card {
                rank: Ten,
                suit: Pentacles,
            }),
            Major(MajorArcana { rank: 13 }),
            Minor(fortune::Card {
                rank: Jack,
                suit: Wands,
            }),
            Major(MajorArcana { rank: 7 }),
            Minor(fortune::Card {
                rank: Jack,
                suit: Swords,
            }),
        ],
        vec![
            Minor(fortune::Card {
                rank: Eight,
                suit: Pentacles,
            }),
            Major(MajorArcana { rank: 0 }),
            Major(MajorArcana { rank: 9 }),
            Minor(fortune::Card {
                rank: Nine,
                suit: Pentacles,
            }),
            Major(MajorArcana { rank: 12 }),
            Minor(fortune::Card {
                rank: King,
                suit: Cups,
            }),
            Minor(fortune::Card {
                rank: Seven,
                suit: Wands,
            }),
        ],
    ];
    proof {
        assert(piles(tableau)[0] =~= fortune_5_deal()[0]);
        assert(piles(tableau)[1] =~= fortune_5_deal()[1]);
        assert(piles(tableau)[2] =~= fortune_5_deal()[2]);
        assert(piles(tableau)[3] =~= fortune_5_deal()[3]);
        assert(piles(tableau)[4] =~= fortune_5_deal()[4]);
        assert(piles(tableau)[5] =~= fortune_5_deal()[5]);
        assert(piles(tableau)[6] =~= fortune_5_deal()[6]);
        assert(piles(tableau)[7] =~= fortune_5_deal()[7]);
        assert(piles(tableau)[8] =~= fortune_5_deal()[8]);
        assert(piles(tableau)[9] =~= fortune_5_deal()[9]);
        assert(piles(tableau)[10] =~= fortune_5_deal()[10]);
        assert(piles(tableau) =~= fortune_5_deal());
        distinct_opening_is_valid(piles(tableau));
    }
    FortunesFoundation::new(tableau)
}

/// A deal of Fortune's Foundation: the whole deck, the aces on their
/// foundations.
pub fn fortune_6() -> (state: FortunesFoundation)
    ensures
        state@ == Layout::opening(fortune_6_deal()),
        state@.valid(),
        state@.card_count() == 74,
{
    let tableau = [
        vec![
            Major(MajorArcana { rank: 12 }),
            Minor(fortune::Card {
                rank: Eight,
                suit: Pentacles,
            }),
            Minor(fortune::Card {
                rank: Ten,
                suit: Wands,
            }),
            Minor(fortune::Card {
                rank: Nine,
                suit: Pentacles,
            }),
            Major(MajorArcana { rank: 18 }),
            Minor(fortune::Card {
                rank: Jack,
                suit: Wands,
            }),
            Major(MajorArcana { rank: 7 }),
        ],
        vec![
            Minor(fortune::Card {
                rank: Six,
                suit: Swords,
            }),
            Minor(fortune::Card {
                rank: King,
                suit: Pentacles,
            }),
            Minor(fortune::Card {
                rank: Two,
                suit: Wands,
            }),
            Minor(fortune::Card {
                rank: Queen,
                suit: Swords,
            }),
            Minor(fortune::Card {
                rank: Jack,
                suit: Cups,
            }),
            Minor(fortune::Card {
                rank: Two,
                suit: Swords,
            }),
            Major(MajorArcana { rank: 19 }),
        ],
        vec![
            Minor(fortune::Card {
                rank: Two,
                suit: Pentacles,
            }),
            Minor(fortune::Card {
                rank: Ten,
                suit: Pentacles,
            }),
            Minor(fortune::Card {
                rank: Four,
                suit: Pentacles,
            }),
            Major(MajorArcana { rank: 11 }),
            Minor(fortune::Card {
                rank: Seven,
                suit: Swords,
            }),
            Minor(fortune::Card {
                rank: Nine,
                suit: Cups,
            }),
            Minor(fortune::Card {
                rank: Five,
                suit: Wands,
            }),
        ],
        vec![
            Minor(fortune::Card {
                rank: Five,
                suit: Pentacles,
            }),
            Major(MajorArcana { rank: 8 }),
            Minor(fortune::Card {
                rank: Four,
                suit: Wands,
            }),
            Major(MajorArcana { rank: 9 }),
            Minor(fortune::Card {
                rank: Nine,
                suit: Swords,
            }),
            Minor(fortune::Card {
                rank: Queen,
                suit: Cups,
            }),
            Major(MajorArcana { rank: 20 }),
        ],
        vec![
            Minor(fortune::Card {
                rank: Seven,
                suit: Wands,
            }),
            Major(MajorArcana { rank: 21 }),
            Minor(fortune::Card {
                rank: Three,
                suit: Pentacles,
            }),
            Major(MajorArcana { rank: 1 }),
            Minor(fortune::Card {
                rank: Three,
                suit: Swords,
            }),
            Minor(fortune::Card {
                rank: Six,
                suit: Wands,
            }),
            Major(MajorArcana { rank: 2 }),
        ],
        vec![
            // Empty column
        ],
        vec![
            Minor(fortune::Card {
                rank: Queen,
                suit: Pentacles,
            }),
            Major(MajorArcana { rank: 13 }),
            Minor(fortune::Card {
                rank: Seven,
                suit: Pentacles,
            }),
            Minor(fortune::Card {
                rank: Six,
                suit: Cups,
            }),
            Major(MajorArcana { rank: 10 }),
            Minor(fortune::Card {
                rank: Seven,
                suit: Cups,
            }),
            Minor(fortune::Card {
                rank: Jack,
                suit: Pentacles,
            }),
        ],
        vec![
            Major(MajorArcana { rank: 14 }),
            Minor(fortune::Card {
                rank: Eight,
                suit: Wands,
            }),
            Minor(fortune::Card {
                rank: Six,
                suit: Pentacles,
            }),
            Minor(fortune::Card {
                rank: Four,
                suit: Cups,
            }),
            Minor(fortune::Card {
                rank: King,
                suit: Swords,
            }),
            Minor(fortune::Card {
                rank: Two,
                suit: Cups,
            }),
            Major(MajorArcana { rank: 4 }),
        ],
        vec![
            Minor(fortune::Card {
                rank: Queen,
                suit: Wands,
            }),
            Minor(fortune::Card {
                rank: Ten,
                suit: Swords,
            }),
            Minor(fortune::Card {
                rank: Three,
                suit: Wands,
            }),
            Minor(fortune::Card {
                rank: Jack,
                suit: Swords,
            }),
            Minor(fortune::Card {
                rank: Ten,
                suit: Cups,
            }),
            Major(MajorArcana { rank: 0 }),
            Minor(fortune::Card {
                rank: Four,
                suit: Swords,
            }),
        ],
        vec![
            Minor(fortune::Card {
                rank: King,
                suit: Cups,
            }),
            Minor(fortune::Card {
                rank: Three,
                suit: Cups,
            }),
            Minor(fortune::Card {
                rank: Five,
                suit: Cups,
            }),
            Minor(fortune::Card {
                rank: Nine,
                suit: Wands,
            }),
            Major(MajorArcana { rank: 15 }),
            Minor(fortune::Card {
                rank: King,
                suit: Wands,
            }),
            Minor(fortune::Card {
                rank: Eight,
                suit: Cups,
            }),
        ],
        vec![
            Minor(fortune::Card {
                rank: Five,
                suit: Swords,
            }),
            Minor(fortune::Card {
                rank: Eight,
                suit: Swords,
            }),
            Major(MajorArcana { rank: 16 }),
            Major(MajorArcana { rank: 5 }),
            Major(MajorArcana { rank: 6 }),
            Major(MajorArcana { rank: 3 }),
            Major(MajorArcana { rank: 17 }),
        ],
    ];
    proof {
        assert(piles(tableau)[0] =~= fortune_6_deal()[0]);
        assert(piles(tableau)[1] =~= fortune_6_deal()[1]);
        assert(piles(tableau)[2] =~= fortune_6_deal()[2]);
        assert(piles(tableau)[3] =~= fortune_6_deal()[3]);
        assert(piles(tableau)[4] =~= fortune_6_deal()[4]);
        assert(piles(tableau)[5] =~= fortune_6_deal()[5]);
        assert(piles(tableau)[6] =~= fortune_6_deal()[6]);
        assert(piles(tableau)[7] =~= fortune_6_deal()[7]);
        assert(piles(tableau)[8] =~= fortune_6_deal()[8]);
        assert(piles(tableau)[9] =~= fortune_6_deal()[9]);
        assert(piles(tableau)[10] =~= fortune_6_deal()[10]);
        assert(piles(tableau) =~= fortune_6_deal());
        distinct_opening_is_valid(piles(tableau));
    }
    FortunesFoundation::new(tableau)
}

/// The heart of the rank with the given number: the ace is 1, the jack 11,
/// the queen 12 and the king 13.
pub open spec fn heart(number: int) -> Card {
    Card { suit: Heart, rank: Rank::spec_of_number(number) }
}

/// The diamond of the rank with the given number.
pub open spec fn diamond(number: int) -> Card {
    Card { suit: Diamond, rank: Rank::spec_of_number(number) }
}

/// The club of the rank with the given number.
pub open spec fn club(number: int) -> Card {
    Card { suit: Club, rank: Rank::spec_of_number(number) }
}

/// The spade of the rank with the given number.
pub open spec fn spade(number: int) -> Card {
    Card { suit: Spade, rank: Rank::spec_of_number(number) }
}

/// The cards of `state_0001`, column by column, each from the bottom card up.
pub open spec fn deal_0001() -> Seq<Seq<Card>> {
    seq![
        seq![
            heart(7), spade(8), diamond(13), club(4), heart(11), diamond(9), diamond(5),
            spade(9), club(11), heart(9), club(2), heart(10), spade(2),
        ],
        seq![
            diamond(7), heart(3), spade(11), club(1), heart(13), club(6), heart(5),
            spade(5), club(9), club(7), spade(13), club(1), heart(1),
        ],
        seq![
            club(13), diamond(10), spade(10), spade(1), club(3), diamond(12), diamond(3),
            diamond(8), spade(4), diamond(4), diamond(2), spade(3), heart(8),
        ],
        seq![
            club(10), diamond(6), club(8), spade(6), heart(12), heart(4), club(12),
            spade(7), diamond(11), heart(6), club(5), spade(12), heart(2),
        ],
    ]
}

/// The cards of `russian`, column by column, each from the bottom card up.
pub open spec fn russian_deal() -> Seq<Seq<Card>> {
    seq![
        seq![heart(7), club(8), spade(13), spade(9)],
        seq![spade(7), heart(12), diamond(11), club(13)],
        seq![diamond(9), diamond(13), club(9), diamond(6)],
        seq![heart(10), heart(6), diamond(12), diamond(7)],
        seq![club(7), club(12), spade(6), spade(10)],
        seq![spade(11), spade(12), club(10), spade(1)],
        seq![heart(8), club(1), heart(11), club(11)],
        seq![club(6), heart(1), spade(8), heart(9)],
        seq![heart(13), diamond(8), diamond(10), diamond(1)],
    ]
}

/// The cards of `russian_2`, column by column, each from the bottom card up.
pub open spec fn russian_2_deal() -> Seq<Seq<Card>> {
    seq![
        seq![club(6), diamond(12), club(9), diamond(1)],
        seq![heart(7), diamond(11), club(1), spade(1)],
        seq![club(8), club(7), club(12), diamond(10)],
        seq![spade(8), spade(11), spade(6), heart(9)],
        seq![diamond(13), spade(9), diamond(8), heart(12)],
        seq![club(10), diamond(6), diamond(9), heart(13)],
        seq![heart(8), club(13), diamond(7), heart(11)],
        seq![spade(7), spade(12), heart(1), club(11)],
        seq![spade(10), heart(6), spade(13), heart(10)],
    ]
}

/// The cards of `russian_3`, column by column, each from the bottom card up.
pub open spec fn russian_3_deal() -> Seq<Seq<Card>> {
    seq![
        seq![club(11), heart(13), club(9), spade(12)],
        seq![heart(9), spade(10), heart(1), heart(7)],
        seq![diamond(1), club(6), diamond(13), spade(9)],
        seq![heart(6), club(8), diamond(6), club(12)],
        seq![diamond(7), spade(13), diamond(10), heart(10)],
        seq![spade(1), spade(8), spade(11), diamond(9)],
        seq![heart(11), diamond(8), heart(12), club(13)],
        seq![club(10), spade(6), diamond(11), diamond(12)],
        seq![club(7), club(1), spade(7), heart(8)],
    ]
}

/// The wand of the rank with the given number: the ace is 1, the jack 11,
/// the queen 12 and the king 13.
pub open spec fn wands(number: int) -> TarotCard {
    Minor(fortune::Card { rank: Rank::spec_of_number(number), suit: Wands })
}

/// The sword of the rank with the given number.
pub open spec fn swords(number: int) -> TarotCard {
    Minor(fortune::Card { rank: Rank::spec_of_number(number), suit: Swords })
}

/// The cup of the rank with the given number.
pub open spec fn cups(number: int) -> TarotCard {
    Minor(fortune::Card { rank: Rank::spec_of_number(number), suit: Cups })
}

/// The pentacle of the rank with the given number.
pub open spec fn pentacles(number: int) -> TarotCard {
    Minor(fortune::Card { rank: Rank::spec_of_number(number), suit: Pentacles })
}

/// The major arcanum of the given rank.
pub open spec fn major(rank: u8) -> TarotCard {
    Major(MajorArcana { rank })
}

/// The cards of `fortune_1`, column by column, each from the bottom card up.
pub open spec fn fortune_1_deal() -> Seq<Seq<TarotCard>> {
    seq![
        seq![pentacles(10), pentacles(11), major(17), cups(5), swords(13), major(3), wands(12)],
        seq![major(20), swords(12), cups(10), swords(11), pentacles(7), pentacles(9), major(5)],
        seq![major(21), wands(6), pentacles(3), pentacles(6), swords(3), wands(5), major(14)],
        seq![cups(2), pentacles(5), major(19), cups(4), swords(10), major(18), wands(9)],
        seq![cups(6), major(15), major(9), swords(2), cups(3), cups(12), swords(7)],
        Seq::empty(),
        seq![wands(3), pentacles(4), cups(13), cups(8), swords(9), major(2), major(10)],
        seq![
            major(4), wands(7), pentacles(8), wands(8),
            pentacles(12), pentacles(2), pentacles(13),
        ],
        seq![swords(5), swords(4), swords(8), major(1), wands(11), major(8), major(12)],
        seq![cups(7), swords(6), major(11), cups(9), wands(2), major(13), cups(11)],
        seq![wands(4), major(16), major(6), major(0), major(7), wands(10), wands(13)],
    ]
}

/// The cards of `fortune_2`, column by column, each from the bottom card up.
pub open spec fn fortune_2_deal() -> Seq<Seq<TarotCard>> {
    seq![
        seq![major(9), major(3), swords(4), major(4), major(20), swords(13), cups(5)],
        seq![swords(5), swords(7), wands(3), major(8), wands(8), wands(5), wands(12)],
        seq![major(18), major(14), swords(6), swords(8), cups(13), swords(11), wands(6)],
        seq![cups(3), cups(9), major(1), cups(4), major(6), major(21), pentacles(11)],
        seq![major(5), major(11), wands(4), pentacles(9), cups(11), wands(7), major(12)],
        Seq::empty(),
        seq![wands(10), major(13), swords(2), pentacles(2), major(0), swords(3), major(15)],
        seq![major(2), pentacles(3), cups(2), pentacles(8), cups(6), pentacles(7), pentacles(13)],
        seq![major(10), cups(12), major(19), wands(13), pentacles(4), major(16), pentacles(12)],
        seq![swords(10), wands(2), swords(12), major(7), cups(7), swords(9), wands(9)],
        seq![major(17), pentacles(10), cups(10), pentacles(6), pentacles(5), wands(11), cups(8)],
    ]
}

/// The cards of `fortune_3`, column by column, each from the bottom card up.
pub open spec fn fortune_3_deal() -> Seq<Seq<TarotCard>> {
    seq![
        seq![major(17), major(9), swords(4), swords(10), pentacles(10), major(5), cups(10)],
        seq![pentacles(3), cups(8), wands(10), wands(8), pentacles(5), wands(13), major(19)],
        seq![pentacles(7), swords(11), major(10), major(11), wands(7), major(14), major(8)],
        seq![major(16), wands(9), major(4), cups(2), pentacles(8), swords(9), swords(6)],
        seq![major(7), major(1), major(0), cups(5), wands(2), major(21), cups(13)],
        Seq::empty(),
        seq![pentacles(9), major(13), cups(3), major(20), wands(4), major(18), major(12)],
        seq![pentacles(11), swords(13), swords(2), pentacles(4), swords(5), cups(9), cups(12)],
        seq![wands(12), major(15), cups(7), major(3), pentacles(6), wands(11), pentacles(13)],
        seq![pentacles(2), major(2), wands(3), swords(12), swords(8), wands(5), wands(6)],
        seq![swords(3), major(6), cups(4), swords(7), pentacles(12), cups(6), cups(11)],
    ]
}

/// The cards of `fortune_4`, column by column, each from the bottom card up.
pub open spec fn fortune_4_deal() -> Seq<Seq<TarotCard>> {
    seq![
        seq![major(18), pentacles(12), wands(7), major(9), cups(13), cups(7), pentacles(5)],
        seq![pentacles(6), pentacles(3), cups(8), major(11), cups(11), pentacles(4), major(16)],
        seq![major(8), major(13), cups(3), cups(9), major(5), wands(9), pentacles(11)],
        seq![major(19), major(6), major(10), swords(5), swords(7), major(15), pentacles(8)],
        seq![major(1), pentacles(13), wands(10), major(14), major(3), swords(3), pentacles(9)],
        Seq::empty(),
        seq![cups(4), major(2), wands(4), swords(10), pentacles(2), major(7), pentacles(7)],
        seq![pentacles(10), cups(6), swords(2), major(21), swords(12), wands(2), cups(12)],
        seq![major(20), wands(13), wands(5), wands(6), swords(9), major(4), swords(4)],
        seq![cups(2), cups(10), major(17), swords(13), wands(11), swords(11), swords(6)],
        seq![major(12), major(0), wands(8), wands(12), cups(5), swords(8), wands(3)],
    ]
}

/// The cards of `fortune_5`, column by column, each from the bottom card up.
pub open spec fn fortune_5_deal() -> Seq<Seq<TarotCard>> {
    seq![
        seq![cups(12), wands(13), swords(7), major(10), swords(12), swords(8), major(18)],
        seq![swords(3), wands(12), swords(10), pentacles(4), cups(9), major(2), major(11)],
        seq![wands(9), wands(5), major(16), major(5), pentacles(7), pentacles(6), pentacles(12)],
        seq![swords(2), swords(5), cups(5), swords(6), cups(10), pentacles(5), wands(8)],
        seq![cups(3), major(20), major(4), wands(2), cups(7), major(21), major(17)],
        Seq::empty(),
        seq![cups(6), major(19), major(3), pentacles(3), pentacles(13), cups(11), major(6)],
        seq![wands(3), cups(2), pentacles(2), major(14), cups(8), major(15), wands(10)],
        seq![swords(4), major(1), swords(13), pentacles(11), wands(6), major(8), wands(4)],
        seq![cups(4), swords(9), pentacles(10), major(13), wands(11), major(7), swords(11)],
        seq![pentacles(8), major(0), major(9), pentacles(9), major(12), cups(13), wands(7)],
    ]
}

/// The cards of `fortune_6`, column by column, each from the bottom card up.
pub open spec fn fortune_6_deal() -> Seq<Seq<TarotCard>> {
    seq![
        seq![major(12), pentacles(8), wands(10), pentacles(9), major(18), wands(11), major(7)],
        seq![swords(6), pentacles(13), wands(2), swords(12), cups(11), swords(2), major(19)],
        seq![pentacles(2), pentacles(10), pentacles(4), major(11), swords(7), cups(9), wands(5)],
        seq![pentacles(5), major(8), wands(4), major(9), swords(9), cups(12), major(20)],
        seq![wands(7), major(21), pentacles(3), major(1), swords(3), wands(6), major(2)],
        Seq::empty(),
        seq![pentacles(12), major(13), pentacles(7), cups(6), major(10), cups(7), pentacles(11)],
        seq![major(14), wands(8), pentacles(6), cups(4), swords(13), cups(2), major(4)],
        seq![wands(12), swords(10), wands(3), swords(11), cups(10), major(0), swords(4)],
        seq![cups(13), cups(3), cups(5), wands(9), major(15), wands(13), cups(8)],
        seq![swords(5), swords(8), major(16), major(5), major(6), major(3), major(17)],
    ]
}

} // verus!
