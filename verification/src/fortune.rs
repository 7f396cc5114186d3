//! Fortune's Foundation: a tarot solitaire on eleven columns.
//!
//! - Cards are stacked within a suit, one rank up or down; one card moves at
//!   a time.
//! - The game is won once all cards lie on the foundations.
//! - The major arcana are built up from 0 and down from 21 until they meet.
//! - The minor arcana are built up by suit from the ace.
//! - A card in the free cell blocks the minor foundations.

use crate::game::{arrival, piles, playable, EndState, Rank, Score, State};
use crate::order::{
    add_holds, arranged, arranged_len, push_holds, tier, tier_of_suffix, tiers, tiers_hold,
};
use crate::piles::{
    count, count_grows, count_upto, empties_upto, empties_within, pile_within_count,
    scanned_within, twin_counts, units, units_after_pop, units_after_push, units_upto,
};
use std::cmp::Ordering;
use std::hash::Hash;
use std::hash::Hasher;
use vstd::multiset::Multiset;
use vstd::prelude::*;

verus! {

#[derive(Copy, Clone, Debug, Eq, PartialEq, Hash, Structural)]
pub struct MajorArcana {
    pub rank: u8,
}

impl MajorArcana {
    /// Major arcana rest on their neighbours in rank.
    pub open spec fn spec_can_stack_on(&self, other: &MajorArcana) -> bool {
        self.rank == other.rank + 1 || other.rank == self.rank + 1
    }

    #[verifier::when_used_as_spec(spec_can_stack_on)]
    pub fn can_stack_on(&self, other: &MajorArcana) -> (b: bool)
        ensures
            b == self.spec_can_stack_on(other),
    {
        if self.rank > other.rank {
            self.rank - other.rank == 1
        } else {
            other.rank - self.rank == 1
        }
    }
}

#[derive(Copy, Clone, Debug, Eq, PartialEq, Hash, Structural)]
pub enum Suit {
    Wands,
    Swords,
    Cups,
    Pentacles,
}

impl Suit {
    /// Position of the suit among the four.
    pub open spec fn spec_ordinal(self) -> int {
        match self {
            Suit::Wands => 0,
            Suit::Swords => 1,
            Suit::Cups => 2,
            Suit::Pentacles => 3,
        }
    }

    pub fn ordinal(self) -> (k: usize)
        ensures
            k == self.spec_ordinal(),
    {
        match self {
            Suit::Wands => 0,
            Suit::Swords => 1,
            Suit::Cups => 2,
            Suit::Pentacles => 3,
        }
    }
}

#[derive(Copy, Clone, Debug, Eq, PartialEq, Hash, Structural)]
pub struct Card {
    pub rank: Rank,
    pub suit: Suit,
}

#[derive(Copy, Clone, Debug, Eq, PartialEq, Hash, Structural)]
pub enum TarotCard {
    Minor(Card),
    Major(MajorArcana),
}

impl TarotCard {
    /// A number for each card, no two cards with the same: the minor arcana
    /// suit by suit from 0, the major arcana from 52.
    pub open spec fn spec_code(&self) -> int {
        match *self {
            TarotCard::Minor(card) => card.suit.spec_ordinal() * 13 + card.rank.spec_number() - 1,
            TarotCard::Major(card) => 52 + card.rank,
        }
    }

    pub fn code(&self) -> (k: usize)
        ensures
            k == self.spec_code(),
            k < 308,
    {
        match self {
            TarotCard::Minor(card) => {
                let number: u8 = card.rank.number();
                card.suit.ordinal() * 13 + (number - 1) as usize
            },
            TarotCard::Major(card) => 52 + card.rank as usize,
        }
    }

    pub open spec fn spec_is_major(&self) -> bool {
        *self is Major
    }

    #[verifier::when_used_as_spec(spec_is_major)]
    pub fn is_major(&self) -> (b: bool)
        ensures
            b == self.spec_is_major(),
    {
        matches!(self, TarotCard::Major(..))
    }

    /// A card rests on a card of its own family that neighbours it in rank;
    /// minor arcana must also share the suit.
    pub open spec fn spec_can_stack_on(&self, other: &TarotCard) -> bool {
        match (*self, *other) {
            (TarotCard::Major(a), TarotCard::Major(b)) => a.spec_can_stack_on(&b),
            (TarotCard::Minor(a), TarotCard::Minor(b)) => a.suit == b.suit && (
            a.rank.spec_number() == b.rank.spec_number() + 1 || b.rank.spec_number()
                == a.rank.spec_number() + 1),
            _ => false,
        }
    }

    #[verifier::when_used_as_spec(spec_can_stack_on)]
    pub fn can_stack_on(&self, other: &TarotCard) -> (b: bool)
        ensures
            b == self.spec_can_stack_on(other),
    {
        match (self, other) {
            (TarotCard::Major(a), TarotCard::Major(b)) => a.can_stack_on(b),
            (TarotCard::Minor(a), TarotCard::Minor(b)) => {
                let mine: u8 = a.rank.number();
                let theirs: u8 = b.rank.number();
                a.suit == b.suit && (mine == theirs + 1 || theirs == mine + 1)
            },
            _ => false,
        }
    }
}

#[derive(Copy, Clone, Debug, Eq, Hash, PartialEq, Structural)]
pub enum Move {
    Stack { card: TarotCard, from: usize, to: usize },
    Build { card: TarotCard, from: usize },
    Free { card: TarotCard, from: usize },
    Unfree { card: TarotCard, to: usize },
}

impl PartialOrd for Move {
    /// Moves compare by their priority alone.
    fn partial_cmp(&self, other: &Self) -> (order: Option<Ordering>) {
        let mine: u8 = self.priority();
        let theirs: u8 = other.priority();
        if mine < theirs {
            Some(Ordering::Less)
        } else if mine > theirs {
            Some(Ordering::Greater)
        } else {
            Some(Ordering::Equal)
        }
    }
}

impl vstd::std_specs::cmp::PartialOrdSpecImpl for Move {
    open spec fn obeys_partial_cmp_spec() -> bool {
        true
    }

    open spec fn partial_cmp_spec(&self, other: &Self) -> Option<Ordering> {
        if self.spec_priority() < other.spec_priority() {
            Some(Ordering::Less)
        } else if self.spec_priority() > other.spec_priority() {
            Some(Ordering::Greater)
        } else {
            Some(Ordering::Equal)
        }
    }
}

impl Move {
    pub open spec fn spec_is_free(&self) -> bool {
        *self is Free
    }

    #[verifier::when_used_as_spec(spec_is_free)]
    pub fn is_free(&self) -> (b: bool)
        ensures
            b == self.spec_is_free(),
    {
        matches!(self, Move::Free { .. })
    }

    pub open spec fn spec_is_unfree(&self) -> bool {
        *self is Unfree
    }

    #[verifier::when_used_as_spec(spec_is_unfree)]
    pub fn is_unfree(&self) -> (b: bool)
        ensures
            b == self.spec_is_unfree(),
    {
        matches!(self, Move::Unfree { .. })
    }

    /// The card that the move carries.
    pub open spec fn spec_card(&self) -> TarotCard {
        match *self {
            Move::Stack { card, .. } => card,
            Move::Build { card, .. } => card,
            Move::Free { card, .. } => card,
            Move::Unfree { card, .. } => card,
        }
    }

    #[verifier::when_used_as_spec(spec_card)]
    pub fn card(&self) -> (card: TarotCard)
        ensures
            card == self.spec_card(),
    {
        match *self {
            Move::Stack { card, .. } => card,
            Move::Build { card, .. } => card,
            Move::Free { card, .. } => card,
            Move::Unfree { card, .. } => card,
        }
    }

    /// Building a foundation comes before moving between columns, that
    /// before leaving the free cell, and that before entering it.
    pub open spec fn spec_priority(&self) -> int {
        match *self {
            Move::Build { .. } => 3,
            Move::Stack { .. } => 2,
            Move::Unfree { .. } => 1,
            Move::Free { .. } => 0,
        }
    }

    pub fn priority(&self) -> (p: u8)
        ensures
            p == self.spec_priority(),
    {
        match *self {
            Move::Build { .. } => 3,
            Move::Stack { .. } => 2,
            Move::Unfree { .. } => 1,
            Move::Free { .. } => 0,
        }
    }
}

/// How many of the latest history entries bar a move from being repeated.
pub const RECENT: usize = 11;

/// What a layout of the deck that is not won can be worth at the most, in
/// quarter points.
pub const WORTH_LIMIT: Score = 2504;

/// The move was made within the last `k` turns.
pub open spec fn recently(history: Seq<Move>, k: int, m: Move) -> bool {
    exists|i: int| 0 <= i < history.len() && history.len() - k <= i && history[i] == m
}

/// The minor arcana of some piles as tarot cards.
pub open spec fn minor_piles(piles: Seq<Seq<Card>>) -> Seq<Seq<TarotCard>> {
    piles.map_values(|pile: Seq<Card>| pile.map_values(|c: Card| TarotCard::Minor(c)))
}

/// The major arcana of some piles as tarot cards.
pub open spec fn major_piles(piles: Seq<Seq<MajorArcana>>) -> Seq<Seq<TarotCard>> {
    piles.map_values(|pile: Seq<MajorArcana>| pile.map_values(|c: MajorArcana| TarotCard::Major(c)))
}

/// The foundation pile takes the card next: same suit, one rank higher.
pub open spec fn accepts(pile: Seq<Card>, card: Card) -> bool {
    pile.len() > 0 && card.suit == pile.last().suit && card.rank.spec_number()
        == pile.last().rank.spec_number() + 1
}

/// The credit a column earns for the run at its top: one point for each
/// card resting on the one beneath it, and one more where a minor card rests
/// on the next higher rank.
pub open spec fn run_credit(pile: Seq<TarotCard>) -> int
    decreases pile.len(),
{
    if pile.len() < 2 {
        0
    } else {
        let upper = pile[pile.len() - 1];
        let lower = pile[pile.len() - 2];
        if upper.spec_can_stack_on(&lower) {
            run_credit(pile.drop_last()) + if upper is Minor && lower is Minor
                && upper->Minor_0.rank.spec_number() + 1 == lower->Minor_0.rank.spec_number() {
                2int
            } else {
                1int
            }
        } else {
            0
        }
    }
}

/// The run credit of the first `n` columns together.
pub open spec fn credit_upto(tableau: Seq<Seq<TarotCard>>, n: int) -> int
    decreases n,
{
    if n <= 0 {
        0
    } else {
        credit_upto(tableau, n - 1) + run_credit(tableau[n - 1])
    }
}

/// The mathematical value of a game of Fortune's Foundation.
pub struct Layout {
    pub minor_foundations: Seq<Seq<Card>>,
    pub major_foundations: Seq<Seq<MajorArcana>>,
    pub tableau: Seq<Seq<TarotCard>>,
    pub free_cell: Option<TarotCard>,
    pub history: Seq<Move>,
}

impl Layout {
    /// The card in the free cell, if any, as a collection.
    pub open spec fn cell_units(self) -> Multiset<TarotCard> {
        match self.free_cell {
            Some(card) => Multiset::singleton(card),
            None => Multiset::empty(),
        }
    }

    /// Every card of the game: tableau, free cell and foundations.
    pub open spec fn units(self) -> Multiset<TarotCard> {
        units(self.tableau).add(self.cell_units()).add(
            units(minor_piles(self.minor_foundations)),
        ).add(units(major_piles(self.major_foundations)))
    }

    /// The number of cards of the game.
    pub open spec fn card_count(self) -> nat {
        count(self.tableau) + self.cell_units().len() + count(self.minor_foundations) + count(
            self.major_foundations,
        )
    }

    /// The free cell as a pile of one card or none.
    pub open spec fn cell_pile(self) -> Seq<TarotCard> {
        match self.free_cell {
            Some(card) => seq![card],
            None => Seq::empty(),
        }
    }

    /// All piles of the game: the columns, the free cell, the minor and the
    /// major foundations.
    pub open spec fn all_piles(self) -> Seq<Seq<TarotCard>> {
        seq![
            self.tableau[0],
            self.tableau[1],
            self.tableau[2],
            self.tableau[3],
            self.tableau[4],
            self.tableau[5],
            self.tableau[6],
            self.tableau[7],
            self.tableau[8],
            self.tableau[9],
            self.tableau[10],
            self.cell_pile(),
            minor_piles(self.minor_foundations)[0],
            minor_piles(self.minor_foundations)[1],
            minor_piles(self.minor_foundations)[2],
            minor_piles(self.minor_foundations)[3],
            major_piles(self.major_foundations)[0],
            major_piles(self.major_foundations)[1],
        ]
    }

    /// A sound deal: eleven columns, four started minor foundations of
    /// different suits, two major foundations, no card twice, and no more
    /// cards than the deck of seventy-four holds.
    pub open spec fn valid(self) -> bool {
        &&& self.tableau.len() == 11
        &&& self.minor_foundations.len() == 4
        &&& self.major_foundations.len() == 2
        &&& forall|i: int| 0 <= i < 4 ==> (#[trigger] self.minor_foundations[i]).len() > 0
        &&& forall|i: int, j: int|
            0 <= i < j < 4 ==> (#[trigger] self.minor_foundations[i]).last().suit != (
            #[trigger] self.minor_foundations[j]).last().suit
        &&& forall|card: TarotCard| self.units().count(card) <= 1
        &&& self.card_count() <= 74
    }

    /// The layout before the first move: the four aces on their foundations,
    /// the major foundations and the free cell empty.
    pub open spec fn opening(tableau: Seq<Seq<TarotCard>>) -> Layout {
        Layout {
            minor_foundations: seq![
                seq![Card { rank: Rank::Ace, suit: Suit::Pentacles }],
                seq![Card { rank: Rank::Ace, suit: Suit::Cups }],
                seq![Card { rank: Rank::Ace, suit: Suit::Wands }],
                seq![Card { rank: Rank::Ace, suit: Suit::Swords }],
            ],
            major_foundations: seq![Seq::empty(), Seq::empty()],
            tableau,
            free_cell: None,
            history: Seq::empty(),
        }
    }

    /// What makes two games the same state: everything but the history.
    pub open spec fn same_state(self, other: Layout) -> bool {
        &&& self.minor_foundations == other.minor_foundations
        &&& self.major_foundations == other.major_foundations
        &&& self.tableau == other.tableau
        &&& self.free_cell == other.free_cell
    }

    pub open spec fn top(self, column: int) -> TarotCard {
        self.tableau[column].last()
    }

    /// Column `i` is empty and no column before it is.
    pub open spec fn is_first_empty(self, i: int) -> bool {
        &&& self.tableau[i].len() == 0
        &&& forall|j: int| 0 <= j < i ==> (#[trigger] self.tableau[j]).len() > 0
    }

    pub open spec fn tableau_is_empty(self) -> bool {
        forall|i: int| 0 <= i < 11 ==> (#[trigger] self.tableau[i]).len() == 0
    }

    /// The card is the next one of a foundation. Minor arcana reach their
    /// foundation only while the free cell is empty.
    pub open spec fn builds(self, card: TarotCard) -> bool {
        match card {
            TarotCard::Major(inner) => {
                let left = self.major_foundations[0];
                let right = self.major_foundations[1];
                ||| inner.rank == 0
                ||| (left.len() > 0 && inner.rank == left.last().rank + 1)
                ||| inner.rank == 21
                ||| (right.len() > 0 && inner.rank + 1 == right.last().rank)
            },
            TarotCard::Minor(inner) => {
                &&& self.free_cell is None
                &&& (accepts(self.minor_foundations[0], inner) || accepts(
                    self.minor_foundations[1],
                    inner,
                ) || accepts(self.minor_foundations[2], inner) || accepts(
                    self.minor_foundations[3],
                    inner,
                ))
            },
        }
    }

    /// The first of the first `n` columns whose top card builds a foundation.
    pub open spec fn first_build(self, n: int) -> Option<int>
        decreases n,
    {
        if n <= 0 {
            None
        } else {
            match self.first_build(n - 1) {
                Some(i) => Some(i),
                None => if self.tableau[n - 1].len() > 0 && self.builds(self.top(n - 1)) {
                    Some(n - 1)
                } else {
                    None
                },
            }
        }
    }

    /// What the free cell offers at a column that holds cards: to take its
    /// top card while the cell is empty, else to give its card where it rests.
    pub open spec fn cell_offer(self, from: int) -> Seq<Move> {
        match self.free_cell {
            Some(card) => if card.spec_can_stack_on(&self.top(from)) {
                seq![Move::Unfree { card, to: from as usize }]
            } else {
                Seq::empty()
            },
            None => seq![Move::Free { card: self.top(from), from: from as usize }],
        }
    }

    /// The top card of `from` may go to column `to`: onto a card it rests
    /// on, or into the first empty column unless it is the last card of its
    /// own column.
    pub open spec fn offers_stack(self, from: int, to: int) -> bool {
        &&& to != from
        &&& if self.tableau[to].len() == 0 {
            self.tableau[from].len() > 1 && self.is_first_empty(to)
        } else {
            self.top(from).spec_can_stack_on(&self.top(to))
        }
    }

    /// The moves of the top card of `from` to the first `n` columns.
    pub open spec fn stack_offers(self, from: int, n: int) -> Seq<Move>
        decreases n,
    {
        if n <= 0 {
            Seq::empty()
        } else if self.offers_stack(from, n - 1) {
            self.stack_offers(from, n - 1).push(
                Move::Stack { card: self.top(from), from: from as usize, to: (n - 1) as usize },
            )
        } else {
            self.stack_offers(from, n - 1)
        }
    }

    /// Everything column `from` gives rise to. An empty column only takes
    /// the free cell's card, and only the first empty column does.
    pub open spec fn column_offers(self, from: int) -> Seq<Move> {
        if self.tableau[from].len() == 0 {
            if self.free_cell is Some && self.is_first_empty(from) {
                seq![Move::Unfree { card: self.free_cell.unwrap(), to: from as usize }]
            } else {
                Seq::empty()
            }
        } else {
            self.cell_offer(from) + self.stack_offers(from, 11)
        }
    }

    /// The moves that the first `n` columns give rise to, column by column.
    pub open spec fn candidates(self, n: int) -> Seq<Move>
        decreases n,
    {
        if n <= 0 {
            Seq::empty()
        } else {
            self.candidates(n - 1) + self.column_offers(n - 1)
        }
    }

    /// The column that a candidate belongs to: the one its card leaves, or
    /// for the free card the one it goes to.
    pub open spec fn column_of(m: Move) -> int {
        match m {
            Move::Stack { from, .. } => from as int,
            Move::Build { from, .. } => from as int,
            Move::Free { from, .. } => from as int,
            Move::Unfree { to, .. } => to as int,
        }
    }

    /// What the rules of movement allow, whatever was played before:
    /// - the top card of a column may enter the empty free cell;
    /// - the free card may go onto a card it rests on, or to the first
    ///   empty column;
    /// - the top card of a column may go onto a card it rests on, or, unless
    ///   it is the last of its column, to the first empty column.
    pub open spec fn allows(self, m: Move) -> bool {
        match m {
            Move::Build { .. } => false,
            Move::Free { card, from } => {
                &&& from < 11
                &&& self.tableau[from as int].len() > 0
                &&& card == self.top(from as int)
                &&& self.free_cell is None
            },
            Move::Unfree { card, to } => {
                &&& to < 11
                &&& self.free_cell == Some(card)
                &&& if self.tableau[to as int].len() == 0 {
                    self.is_first_empty(to as int)
                } else {
                    card.spec_can_stack_on(&self.top(to as int))
                }
            },
            Move::Stack { card, from, to } => {
                &&& from < 11
                &&& to < 11
                &&& self.tableau[from as int].len() > 0
                &&& card == self.top(from as int)
                &&& self.offers_stack(from as int, to as int)
            },
        }
    }

    /// The move passes the guards against cycles: it was not made within
    /// the last eleven turns, does not carry the card that moved last, and
    /// does not empty the free cell right after it was filled.
    pub open spec fn keeps(self, m: Move) -> bool {
        &&& !recently(self.history, RECENT as int, m)
        &&& self.history.len() > 0 ==> {
            &&& m.spec_card() != self.history.last().spec_card()
            &&& self.history.last() is Free ==> !(m is Unfree)
        }
    }

    /// The moves on offer. A top card that builds a foundation must be
    /// built: the first such column's build is then the only move. Otherwise
    /// the candidates that pass the guards, by descending priority.
    pub open spec fn legal(self) -> Seq<Move> {
        match self.first_build(11) {
            Some(from) => seq![Move::Build { card: self.top(from), from: from as usize }],
            None => arranged(
                self.candidates(11).filter(|m: Move| self.keeps(m)),
                |m: Move| m.spec_priority(),
                3,
            ),
        }
    }

    /// The move fits the layout: it takes the card it names from where it
    /// lies and puts it where it can go.
    pub open spec fn fits(self, m: Move) -> bool {
        match m {
            Move::Build { card, from } => {
                &&& from < 11
                &&& self.tableau[from as int].len() > 0
                &&& card == self.top(from as int)
                &&& self.builds(card)
            },
            Move::Free { card, from } => {
                &&& from < 11
                &&& self.tableau[from as int].len() > 0
                &&& card == self.top(from as int)
                &&& self.free_cell is None
            },
            Move::Unfree { card, to } => to < 11 && self.free_cell == Some(card),
            Move::Stack { card, from, to } => {
                &&& from < 11
                &&& to < 11
                &&& from != to
                &&& self.tableau[from as int].len() > 0
                &&& card == self.top(from as int)
            },
        }
    }

    /// The major foundations after `card` was built: on the left one if it
    /// is the 0 or neighbours the left top card, else on the right one if
    /// it is the 21 or neighbours the right top card.
    pub open spec fn with_major(self, card: MajorArcana) -> Seq<Seq<MajorArcana>> {
        let left = self.major_foundations[0];
        let right = self.major_foundations[1];
        if card.rank == 0 || (left.len() > 0 && card.spec_can_stack_on(&left.last())) {
            self.major_foundations.update(0, left.push(card))
        } else if card.rank == 21 || (right.len() > 0 && card.spec_can_stack_on(&right.last())) {
            self.major_foundations.update(1, right.push(card))
        } else {
            self.major_foundations
        }
    }

    /// The minor foundations after `card` was built on each that accepts it.
    pub open spec fn with_minor(self, card: Card) -> Seq<Seq<Card>> {
        Seq::new(
            4,
            |i: int|
                if accepts(self.minor_foundations[i], card) {
                    self.minor_foundations[i].push(card)
                } else {
                    self.minor_foundations[i]
                },
        )
    }

    /// The layout after a move.
    pub open spec fn apply(self, m: Move) -> Layout {
        match m {
            Move::Free { card, from } => Layout {
                free_cell: Some(card),
                tableau: self.tableau.update(from as int, self.tableau[from as int].drop_last()),
                history: self.history.push(m),
                ..self
            },
            Move::Unfree { card, to } => Layout {
                free_cell: None,
                tableau: self.tableau.update(to as int, self.tableau[to as int].push(card)),
                history: self.history.push(m),
                ..self
            },
            Move::Build { card, from } => Layout {
                tableau: self.tableau.update(from as int, self.tableau[from as int].drop_last()),
                minor_foundations: match card {
                    TarotCard::Minor(inner) => self.with_minor(inner),
                    TarotCard::Major(_) => self.minor_foundations,
                },
                major_foundations: match card {
                    TarotCard::Minor(_) => self.major_foundations,
                    TarotCard::Major(inner) => self.with_major(inner),
                },
                history: self.history.push(m),
                ..self
            },
            Move::Stack { card, from, to } => {
                let lifted = self.tableau.update(
                    from as int,
                    self.tableau[from as int].drop_last(),
                );
                Layout {
                    tableau: lifted.update(to as int, lifted[to as int].push(card)),
                    history: self.history.push(m),
                    ..self
                }
            },
        }
    }

    /// The game is won once each minor foundation holds thirteen cards and
    /// the major foundations hold twenty-two together.
    pub open spec fn is_win(self) -> bool {
        &&& forall|i: int| 0 <= i < 4 ==> (#[trigger] self.minor_foundations[i]).len() == 13
        &&& self.major_foundations[0].len() + self.major_foundations[1].len() == 22
    }

    /// The game is over once no move is on offer.
    pub open spec fn is_terminal(self) -> bool {
        self.legal().len() == 0
    }

    pub open spec fn status(self) -> Option<EndState> {
        if self.is_terminal() {
            if self.is_win() {
                Some(EndState::Win)
            } else {
                Some(EndState::Loss)
            }
        } else {
            None
        }
    }

    /// The worth of a won game after so many moves, in quarter points:
    /// 10,000 points less one per move made, and at the least a quarter
    /// point more than any other layout can be worth.
    pub open spec fn win_worth(moves: int) -> int {
        if 4 * (10_000 - moves) > WORTH_LIMIT {
            4 * (10_000 - moves)
        } else {
            WORTH_LIMIT + 1
        }
    }

    /// The worth of a layout in quarter points. A won game is worth what
    /// `win_worth` says. Otherwise each card on a foundation counts 7.5,
    /// each point of run credit 0.5, each empty column 3, an empty free cell
    /// 5, each move on offer 0.25, and each card left in the tableau costs 1.
    pub open spec fn worth(self) -> int {
        if self.is_win() {
            Layout::win_worth(self.history.len() as int)
        } else {
            30 * (count(self.minor_foundations) + count(self.major_foundations)) + 2 * credit_upto(
                self.tableau,
                11,
            ) + 12 * empties_upto(self.tableau, 11) + (if self.free_cell is None {
                20int
            } else {
                0int
            }) + self.legal().len() - 4 * count(self.tableau)
        }
    }
}

fn same_minor(a: &Vec<Card>, b: &Vec<Card>) -> (same: bool)
    ensures
        same == (a@ == b@),
{
    if a.len() != b.len() {
        return false;
    }
    let mut i: usize = 0;
    while i < a.len()
        invariant
            i <= a.len() == b.len(),
            a@.take(i as int) == b@.take(i as int),
        decreases a.len() - i,
    {
        if a[i] != b[i] {
            return false;
        }
        assert(a@.take(i + 1) == a@.take(i as int).push(a@[i as int]));
        assert(b@.take(i + 1) == b@.take(i as int).push(b@[i as int]));
        i = i + 1;
    }
    assert(a@.take(i as int) == a@ && b@.take(i as int) == b@);
    true
}

fn same_major(a: &Vec<MajorArcana>, b: &Vec<MajorArcana>) -> (same: bool)
    ensures
        same == (a@ == b@),
{
    if a.len() != b.len() {
        return false;
    }
    let mut i: usize = 0;
    while i < a.len()
        invariant
            i <= a.len() == b.len(),
            a@.take(i as int) == b@.take(i as int),
        decreases a.len() - i,
    {
        if a[i] != b[i] {
            return false;
        }
        assert(a@.take(i + 1) == a@.take(i as int).push(a@[i as int]));
        assert(b@.take(i + 1) == b@.take(i as int).push(b@[i as int]));
        i = i + 1;
    }
    assert(a@.take(i as int) == a@ && b@.take(i as int) == b@);
    true
}

fn same_pile(a: &Vec<TarotCard>, b: &Vec<TarotCard>) -> (same: bool)
    ensures
        same == (a@ == b@),
{
    if a.len() != b.len() {
        return false;
    }
    let mut i: usize = 0;
    while i < a.len()
        invariant
            i <= a.len() == b.len(),
            a@.take(i as int) == b@.take(i as int),
        decreases a.len() - i,
    {
        if a[i] != b[i] {
            return false;
        }
        assert(a@.take(i + 1) == a@.take(i as int).push(a@[i as int]));
        assert(b@.take(i + 1) == b@.take(i as int).push(b@[i as int]));
        i = i + 1;
    }
    assert(a@.take(i as int) == a@ && b@.take(i as int) == b@);
    true
}

/// Puts moves in the order of their priority, highest first; among moves of
/// one priority the one generated later comes first.
pub fn arrange(moves: &Vec<Move>) -> (out: Vec<Move>)
    ensures
        out@ == arranged(moves@, |m: Move| m.spec_priority(), 3),
{
    let mut out: Vec<Move> = Vec::new();
    let mut r: u8 = 4;
    while r > 0
        invariant
            r <= 4,
            out@ == tiers(moves@, |m: Move| m.spec_priority(), 3, r as int),
        decreases r,
    {
        r = r - 1;
        let mut i: usize = moves.len();
        let ghost above = out@;
        assert(moves@.skip(i as int).len() == 0);
        while i > 0
            invariant
                i <= moves.len(),
                r < 4,
                out@ == above + tier(moves@.skip(i as int), |m: Move| m.spec_priority(), r as int),
            decreases i,
        {
            i = i - 1;
            proof {
                tier_of_suffix(moves@, |m: Move| m.spec_priority(), r as int, i as int);
            }
            if moves[i].priority() == r {
                out.push(moves[i]);
            }
        }
        assert(moves@.skip(0) == moves@);
    }
    out
}

/// The run credit of a column, counted from its top card down.
fn column_credit(pile: &Vec<TarotCard>) -> (credit: Score)
    ensures
        credit == run_credit(pile@),
        0 <= credit <= 2 * pile.len(),
{
    let mut credit: Score = 0;
    let mut i: usize = pile.len();
    proof {
        assert(pile@.take(i as int) == pile@);
    }
    while i >= 2 && pile[i - 1].can_stack_on(&pile[i - 2])
        invariant
            i <= pile.len(),
            run_credit(pile@) == credit + run_credit(pile@.take(i as int)),
            0 <= credit <= 2 * (pile.len() - i),
        decreases i,
    {
        proof {
            assert(pile@.take(i as int).drop_last() == pile@.take(i - 1));
        }
        let descends: bool = match (pile[i - 1], pile[i - 2]) {
            (TarotCard::Minor(upper), TarotCard::Minor(lower)) => upper.rank.number() + 1
                == lower.rank.number(),
            _ => false,
        };
        if descends {
            credit = credit + 2;
        } else {
            credit = credit + 1;
        }
        i = i - 1;
    }
    credit
}

#[derive(Debug)]
pub struct FortunesFoundation {
    minor_foundations: [Vec<Card>; 4],
    major_foundations: [Vec<MajorArcana>; 2],
    tableau: [Vec<TarotCard>; 11],
    free_cell: Option<TarotCard>,
    history: Vec<Move>,
}

impl View for FortunesFoundation {
    type V = Layout;

    closed spec fn view(&self) -> Layout {
        Layout {
            minor_foundations: piles(self.minor_foundations),
            major_foundations: piles(self.major_foundations),
            tableau: piles(self.tableau),
            free_cell: self.free_cell,
            history: self.history@,
        }
    }
}

impl Clone for FortunesFoundation {
    fn clone(&self) -> (copy: Self)
        ensures
            copy@ == self@,
    {
        let copy = Self {
            minor_foundations: self.minor_foundations.clone(),
            major_foundations: self.major_foundations.clone(),
            tableau: self.tableau.clone(),
            free_cell: self.free_cell,
            history: self.history.clone(),
        };
        assert(copy@.minor_foundations =~= self@.minor_foundations);
        assert(copy@.major_foundations =~= self@.major_foundations);
        assert(copy@.tableau =~= self@.tableau);
        copy
    }
}

impl PartialEq for FortunesFoundation {
    /// Two games are equal when they hold the same cards in the same
    /// places, whatever moves led there.
    fn eq(&self, other: &Self) -> (same: bool) {
        if self.free_cell != other.free_cell {
            return false;
        }
        let mut i: usize = 0;
        while i < 4
            invariant
                i <= 4,
                forall|j: int| 0 <= j < i ==> self.minor_foundations[j]@ == other.minor_foundations[j]@,
            decreases 4 - i,
        {
            if !same_minor(&self.minor_foundations[i], &other.minor_foundations[i]) {
                assert(self@.minor_foundations[i as int] != other@.minor_foundations[i as int]);
                return false;
            }
            i = i + 1;
        }
        let mut i: usize = 0;
        while i < 2
            invariant
                i <= 2,
                forall|j: int| 0 <= j < i ==> self.major_foundations[j]@ == other.major_foundations[j]@,
            decreases 2 - i,
        {
            if !same_major(&self.major_foundations[i], &other.major_foundations[i]) {
                assert(self@.major_foundations[i as int] != other@.major_foundations[i as int]);
                return false;
            }
            i = i + 1;
        }
        let mut i: usize = 0;
        while i < 11
            invariant
                i <= 11,
                forall|j: int| 0 <= j < i ==> self.tableau[j]@ == other.tableau[j]@,
            decreases 11 - i,
        {
            if !same_pile(&self.tableau[i], &other.tableau[i]) {
                assert(self@.tableau[i as int] != other@.tableau[i as int]);
                return false;
            }
            i = i + 1;
        }
        assert(self@.minor_foundations =~= other@.minor_foundations);
        assert(self@.major_foundations =~= other@.major_foundations);
        assert(self@.tableau =~= other@.tableau);
        true
    }
}

impl vstd::std_specs::cmp::PartialEqSpecImpl for FortunesFoundation {
    open spec fn obeys_eq_spec() -> bool {
        true
    }

    open spec fn eq_spec(&self, other: &Self) -> bool {
        self@.same_state(other@)
    }
}

impl Eq for FortunesFoundation {

}

impl Hash for FortunesFoundation {
    /// `Hash::hash` of the standard library, on the tuple of what equality
    /// compares: foundations, tableau and free cell, not the history.
    /// Nothing is claimed of what the hasher takes from it.
    #[verifier::external_body]
    fn hash<H: Hasher>(&self, state: &mut H) {
        (&self.minor_foundations, &self.major_foundations, &self.tableau, &self.free_cell).hash(
            state,
        )
    }
}

impl FortunesFoundation {
    /// A game on the given columns, with the four aces on their foundations.
    pub fn new(tableau: [Vec<TarotCard>; 11]) -> (game: Self)
        ensures
            game@ == Layout::opening(piles(tableau)),
    {
        let game = Self {
            minor_foundations: [
                vec![Card { rank: Rank::Ace, suit: Suit::Pentacles }],
                vec![Card { rank: Rank::Ace, suit: Suit::Cups }],
                vec![Card { rank: Rank::Ace, suit: Suit::Wands }],
                vec![Card { rank: Rank::Ace, suit: Suit::Swords }],
            ],
            major_foundations: [Vec::new(), Vec::new()],
            tableau,
            free_cell: None,
            history: Vec::new(),
        };
        proof {
            let opening = Layout::opening(piles(tableau));
            assert(game.minor_foundations[0]@ =~= opening.minor_foundations[0]);
            assert(game.minor_foundations[1]@ =~= opening.minor_foundations[1]);
            assert(game.minor_foundations[2]@ =~= opening.minor_foundations[2]);
            assert(game.minor_foundations[3]@ =~= opening.minor_foundations[3]);
            assert(game@.minor_foundations =~= opening.minor_foundations);
            assert(game@.major_foundations =~= opening.major_foundations);
        }
        game
    }

    /// A game with an empty tableau.
    pub fn default() -> (game: Self)
        ensures
            game@ == Layout::opening(Seq::new(11, |i: int| Seq::empty())),
    {
        let game = Self::new(
            [
                Vec::new(),
                Vec::new(),
                Vec::new(),
                Vec::new(),
                Vec::new(),
                Vec::new(),
                Vec::new(),
                Vec::new(),
                Vec::new(),
                Vec::new(),
                Vec::new(),
            ],
        );
        assert(game@.tableau =~= Seq::new(11, |i: int| Seq::empty()));
        game
    }

    pub fn is_terminal(&self) -> (over: bool)
        requires
            self@.valid(),
        ensures
            over == self@.is_terminal(),
    {
        self.possible_actions().len() == 0
    }

    pub fn is_win(&self) -> (won: bool)
        ensures
            won == self@.is_win(),
    {
        let mut i: usize = 0;
        while i < 4
            invariant
                i <= 4,
                forall|j: int| 0 <= j < i ==> (#[trigger] self@.minor_foundations[j]).len() == 13,
            decreases 4 - i,
        {
            if self.minor_foundations[i].len() != 13 {
                assert(self@.minor_foundations[i as int].len() != 13);
                return false;
            }
            i = i + 1;
        }
        let left: usize = self.major_foundations[0].len();
        let right: usize = self.major_foundations[1].len();
        left <= 22 && right == 22 - left
    }

    pub fn tableau(&self) -> (tableau: &[Vec<TarotCard>; 11])
        ensures
            piles(*tableau) == self@.tableau,
    {
        &self.tableau
    }

    pub fn minor_foundations(&self) -> (foundations: &[Vec<Card>; 4])
        ensures
            piles(*foundations) == self@.minor_foundations,
    {
        &self.minor_foundations
    }

    pub fn major_foundations(&self) -> (foundations: &[Vec<MajorArcana>; 2])
        ensures
            piles(*foundations) == self@.major_foundations,
    {
        &self.major_foundations
    }

    pub fn free_cell(&self) -> (cell: Option<TarotCard>)
        ensures
            cell == self@.free_cell,
    {
        self.free_cell
    }

    pub fn history(&self) -> (history: &Vec<Move>)
        ensures
            history@ == self@.history,
    {
        &self.history
    }

    /// The first empty column, if there is one.
    fn first_empty(&self) -> (first: Option<usize>)
        ensures
            match first {
                Some(i) => i < 11 && self@.is_first_empty(i as int),
                None => forall|j: int| 0 <= j < 11 ==> (#[trigger] self@.tableau[j]).len() > 0,
            },
    {
        let mut i: usize = 0;
        while i < 11
            invariant
                i <= 11,
                forall|j: int| 0 <= j < i ==> (#[trigger] self@.tableau[j]).len() > 0,
            decreases 11 - i,
        {
            if self.tableau[i].len() == 0 {
                return Some(i);
            }
            i = i + 1;
        }
        None
    }

    /// Whether the card is the next one of a foundation.
    fn builds(&self, card: &TarotCard) -> (b: bool)
        requires
            self@.valid(),
        ensures
            b == self@.builds(*card),
    {
        match card {
            TarotCard::Major(inner) => {
                let left = &self.major_foundations[0];
                let right = &self.major_foundations[1];
                if inner.rank == 0 {
                    true
                } else if left.len() > 0 && left[left.len() - 1].rank < 255 && inner.rank
                    == left[left.len() - 1].rank + 1 {
                    true
                } else if inner.rank == 21 {
                    true
                } else {
                    right.len() > 0 && inner.rank < 255 && inner.rank + 1 == right[right.len()
                        - 1].rank
                }
            },
            TarotCard::Minor(inner) => {
                if self.free_cell.is_some() {
                    return false;
                }
                let mut i: usize = 0;
                while i < 4
                    invariant
                        i <= 4,
                        self@.valid(),
                        self@.free_cell is None,
                        *card == TarotCard::Minor(*inner),
                        forall|j: int|
                            0 <= j < i ==> !accepts(#[trigger] self@.minor_foundations[j], *inner),
                    decreases 4 - i,
                {
                    let pile = &self.minor_foundations[i];
                    assert(self@.minor_foundations[i as int].len() > 0);
                    let top = &pile[pile.len() - 1];
                    if inner.suit == top.suit && inner.rank.number() == top.rank.number() + 1 {
                        assert(accepts(self@.minor_foundations[i as int], *inner));
                        assert(i == 0 || i == 1 || i == 2 || i == 3);
                        return true;
                    }
                    i = i + 1;
                }
                false
            },
        }
    }

    /// The build that must be made, if a top card builds a foundation.
    fn forced_build(&self) -> (forced: Option<Move>)
        requires
            self@.valid(),
        ensures
            match self@.first_build(11) {
                Some(from) => forced == Some(
                    Move::Build { card: self@.top(from), from: from as usize },
                ),
                None => forced is None,
            },
    {
        let mut from: usize = 0;
        while from < 11
            invariant
                from <= 11,
                self@.valid(),
                self@.first_build(from as int) is None,
            decreases 11 - from,
        {
            let pile = &self.tableau[from];
            if pile.len() > 0 {
                let top = pile[pile.len() - 1];
                if self.builds(&top) {
                    proof {
                        first_build_is_first(self@, 11);
                        first_build_is_first(self@, from as int);
                        assert(self@.tableau[from as int].len() > 0);
                    }
                    return Some(Move::Build { card: top, from });
                }
            }
            from = from + 1;
        }
        None
    }

    /// All moves that the columns give rise to, before the guards.
    fn candidates(&self) -> (moves: Vec<Move>)
        ensures
            moves@ == self@.candidates(11),
    {
        let first_empty = self.first_empty();
        let mut moves: Vec<Move> = Vec::new();
        let mut from: usize = 0;
        while from < 11
            invariant
                from <= 11,
                moves@ == self@.candidates(from as int),
                match first_empty {
                    Some(i) => i < 11 && self@.is_first_empty(i as int),
                    None => forall|j: int| 0 <= j < 11 ==> (#[trigger] self@.tableau[j]).len() > 0,
                },
            decreases 11 - from,
        {
            let pile = &self.tableau[from];
            if pile.len() == 0 {
                match (self.free_cell, first_empty) {
                    (Some(card), Some(i)) => {
                        if i == from {
                            moves.push(Move::Unfree { card, to: from });
                        } else {
                            assert(!self@.is_first_empty(from as int)) by {
                                if i < from {
                                    assert(self@.tableau[i as int].len() == 0);
                                } else {
                                    assert(self@.tableau[from as int].len() == 0);
                                }
                            }
                        }
                    },
                    (Some(card), None) => {
                        assert(self@.tableau[from as int].len() > 0);
                    },
                    _ => {},
                }
                assert(moves@ == self@.candidates(from as int) + self@.column_offers(from as int));
            } else {
                let top = pile[pile.len() - 1];
                match self.free_cell {
                    Some(card) => {
                        if card.can_stack_on(&top) {
                            moves.push(Move::Unfree { card, to: from });
                        }
                    },
                    None => {
                        moves.push(Move::Free { card: top, from });
                    },
                }
                let ghost before = self@.candidates(from as int) + self@.cell_offer(from as int);
                assert(moves@ == before);
                let mut to: usize = 0;
                while to < 11
                    invariant
                        to <= 11,
                        from < 11,
                        pile == &self.tableau[from as int],
                        pile.len() > 0,
                        top == self@.top(from as int),
                        moves@ == before + self@.stack_offers(from as int, to as int),
                        match first_empty {
                            Some(i) => i < 11 && self@.is_first_empty(i as int),
                            None => forall|j: int|
                                0 <= j < 11 ==> (#[trigger] self@.tableau[j]).len() > 0,
                        },
                    decreases 11 - to,
                {
                    if to != from {
                        let target = &self.tableau[to];
                        if target.len() == 0 {
                            let is_first = match first_empty {
                                Some(i) => i == to,
                                None => false,
                            };
                            assert(is_first == self@.is_first_empty(to as int)) by {
                                match first_empty {
                                    Some(i) => {
                                        if i < to {
                                            assert(self@.tableau[i as int].len() == 0);
                                        } else if to < i {
                                            assert(self@.tableau[to as int].len() == 0);
                                        }
                                    },
                                    None => {
                                        assert(self@.tableau[to as int].len() > 0);
                                    },
                                }
                            }
                            if is_first && pile.len() > 1 {
                                moves.push(Move::Stack { card: top, from, to });
                            }
                        } else {
                            if top.can_stack_on(&target[target.len() - 1]) {
                                moves.push(Move::Stack { card: top, from, to });
                            }
                        }
                    }
                    to = to + 1;
                }
                assert(moves@ == self@.candidates(from as int) + self@.column_offers(from as int));
            }
            from = from + 1;
        }
        moves
    }

    /// Whether the move was made within the last eleven turns.
    fn recently_made(&self, m: &Move) -> (made: bool)
        ensures
            made == recently(self@.history, RECENT as int, *m),
    {
        let n: usize = self.history.len();
        let start: usize = if n > RECENT {
            n - RECENT
        } else {
            0
        };
        let mut i: usize = start;
        while i < n
            invariant
                start <= i <= n,
                n == self.history.len(),
                start == if n > RECENT {
                    n - RECENT
                } else {
                    0
                },
                forall|j: int| start <= j < i ==> self.history@[j] != *m,
            decreases n - i,
        {
            if self.history[i] == *m {
                return true;
            }
            i = i + 1;
        }
        false
    }

    /// Whether the move passes the guards against cycles.
    fn keeps(&self, m: &Move) -> (kept: bool)
        ensures
            kept == self@.keeps(*m),
    {
        if self.recently_made(m) {
            return false;
        }
        let n: usize = self.history.len();
        if n > 0 {
            let last = self.history[n - 1];
            if m.card() == last.card() {
                return false;
            }
            if last.is_free() && m.is_unfree() {
                return false;
            }
        }
        true
    }

    /// The candidates that pass the guards, in their order.
    fn guarded(&self, candidates: &Vec<Move>) -> (kept: Vec<Move>)
        ensures
            kept@ == candidates@.filter(|m: Move| self@.keeps(m)),
    {
        let mut kept: Vec<Move> = Vec::new();
        let mut i: usize = 0;
        proof {
            reveal(Seq::filter);
            assert(candidates@.take(0).len() == 0);
        }
        while i < candidates.len()
            invariant
                i <= candidates.len(),
                kept@ == candidates@.take(i as int).filter(|m: Move| self@.keeps(m)),
            decreases candidates.len() - i,
        {
            proof {
                reveal(Seq::filter);
                assert(candidates@.take(i + 1).drop_last() == candidates@.take(i as int));
            }
            if self.keeps(&candidates[i]) {
                kept.push(candidates[i]);
            }
            i = i + 1;
        }
        assert(candidates@.take(i as int) == candidates@);
        kept
    }

    /// Whether the game holds a sound deal: four started minor foundations
    /// of different suits and no more than seventy-four cards in all.
    pub fn is_sound(&self) -> (ok: bool)
        ensures
            ok == self@.valid(),
    {
        broadcast use vstd::multiset::group_multiset_axioms;

        let mut i: usize = 0;
        while i < 4
            invariant
                i <= 4,
                forall|k: int| 0 <= k < i ==> (#[trigger] self@.minor_foundations[k]).len() > 0,
            decreases 4 - i,
        {
            if self.minor_foundations[i].len() == 0 {
                assert(self@.minor_foundations[i as int].len() == 0);
                return false;
            }
            i = i + 1;
        }
        let mut i: usize = 0;
        while i < 4
            invariant
                i <= 4,
                forall|k: int| 0 <= k < 4 ==> (#[trigger] self@.minor_foundations[k]).len() > 0,
                forall|a: int, b: int|
                    0 <= a < b < i ==> (#[trigger] self@.minor_foundations[a]).last().suit != (
                    #[trigger] self@.minor_foundations[b]).last().suit,
            decreases 4 - i,
        {
            let mut j: usize = 0;
            while j < i
                invariant
                    j <= i < 4,
                    forall|k: int| 0 <= k < 4 ==> (#[trigger] self@.minor_foundations[k]).len() > 0,
                    forall|a: int|
                        0 <= a < j ==> (#[trigger] self@.minor_foundations[a]).last().suit
                            != self@.minor_foundations[i as int].last().suit,
                decreases i - j,
            {
                let mine = &self.minor_foundations[i];
                let theirs = &self.minor_foundations[j];
                assert(self@.minor_foundations[i as int].len() > 0);
                assert(self@.minor_foundations[j as int].len() > 0);
                if mine[mine.len() - 1].suit == theirs[theirs.len() - 1].suit {
                    assert(self@.minor_foundations[j as int].last().suit
                        == self@.minor_foundations[i as int].last().suit);
                    return false;
                }
                j = j + 1;
            }
            i = i + 1;
        }
        let mut cards: usize = if self.free_cell.is_some() {
            1
        } else {
            0
        };
        let mut i: usize = 0;
        while i < 4
            invariant
                i <= 4,
                cards <= 74,
                cards == self@.cell_units().len() + count_upto(self@.minor_foundations, i as int),
            decreases 4 - i,
        {
            proof {
                count_grows(self@.minor_foundations, i + 1, 4);
            }
            if self.minor_foundations[i].len() > 74 - cards {
                return false;
            }
            cards = cards + self.minor_foundations[i].len();
            i = i + 1;
        }
        let mut i: usize = 0;
        while i < 2
            invariant
                i <= 2,
                cards <= 74,
                cards == self@.cell_units().len() + count(self@.minor_foundations) + count_upto(
                    self@.major_foundations,
                    i as int,
                ),
            decreases 2 - i,
        {
            proof {
                count_grows(self@.major_foundations, i + 1, 2);
            }
            if self.major_foundations[i].len() > 74 - cards {
                return false;
            }
            cards = cards + self.major_foundations[i].len();
            i = i + 1;
        }
        let mut i: usize = 0;
        while i < 11
            invariant
                i <= 11,
                cards <= 74,
                cards == self@.cell_units().len() + count(self@.minor_foundations) + count(
                    self@.major_foundations,
                ) + count_upto(self@.tableau, i as int),
            decreases 11 - i,
        {
            proof {
                count_grows(self@.tableau, i + 1, 11);
            }
            if self.tableau[i].len() > 74 - cards {
                return false;
            }
            cards = cards + self.tableau[i].len();
            i = i + 1;
        }
        self.cards_differ()
    }

    /// How many cards lie in one of the eighteen piles.
    fn pile_len(&self, i: usize) -> (n: usize)
        requires
            i < 18,
        ensures
            n == self@.all_piles()[i as int].len(),
    {
        if i < 11 {
            self.tableau[i].len()
        } else if i == 11 {
            if self.free_cell.is_some() {
                1
            } else {
                0
            }
        } else if i < 16 {
            self.minor_foundations[i - 12].len()
        } else {
            self.major_foundations[i - 16].len()
        }
    }

    /// A card of one of the eighteen piles.
    fn pile_card(&self, i: usize, j: usize) -> (card: TarotCard)
        requires
            i < 18,
            j < self@.all_piles()[i as int].len(),
        ensures
            card == self@.all_piles()[i as int][j as int],
    {
        if i < 11 {
            self.tableau[i][j]
        } else if i == 11 {
            match self.free_cell {
                Some(card) => card,
                None => TarotCard::Major(MajorArcana { rank: 0 }),
            }
        } else if i < 16 {
            TarotCard::Minor(self.minor_foundations[i - 12][j])
        } else {
            TarotCard::Major(self.major_foundations[i - 16][j])
        }
    }

    /// Whether no card lies twice in the game.
    fn cards_differ(&self) -> (ok: bool)
        ensures
            ok == (forall|card: TarotCard| self@.units().count(card) <= 1),
    {
        broadcast use vstd::multiset::group_multiset_axioms;

        proof {
            units_of_all_piles(self@);
        }
        let mut seen: Vec<bool> = Vec::new();
        while seen.len() < 308
            invariant
                seen.len() <= 308,
                forall|k: int| 0 <= k < seen.len() ==> !seen@[k],
            decreases 308 - seen.len(),
        {
            seen.push(false);
        }
        let ghost piles = self@.all_piles();
        let ghost mut scanned: Multiset<TarotCard> = Multiset::empty();
        let mut i: usize = 0;
        while i < 18
            invariant
                i <= 18,
                seen.len() == 308,
                piles == self@.all_piles(),
                self@.units() == units_upto(piles, 18),
                scanned == units_upto(piles, i as int),
                forall|c: TarotCard| #[trigger] seen@[c.spec_code()] == (scanned.count(c) > 0),
                forall|c: TarotCard| scanned.count(c) <= 1,
            decreases 18 - i,
        {
            let n: usize = self.pile_len(i);
            let ghost pile = piles[i as int];
            let ghost before = scanned;
            let mut j: usize = 0;
            proof {
                pile.take(0).to_multiset_ensures();
                vstd::multiset::lemma_multiset_empty_len(pile.take(0).to_multiset());
                assert(scanned =~= before.add(pile.take(0).to_multiset()));
            }
            while j < n
                invariant
                    j <= n == pile.len(),
                    i < 18,
                    seen.len() == 308,
                    piles == self@.all_piles(),
                    pile == piles[i as int],
                    self@.units() == units_upto(piles, 18),
                    before == units_upto(piles, i as int),
                    scanned == before.add(pile.take(j as int).to_multiset()),
                    forall|c: TarotCard| #[trigger] seen@[c.spec_code()] == (scanned.count(c) > 0),
                    forall|c: TarotCard| scanned.count(c) <= 1,
                decreases n - j,
            {
                let card = self.pile_card(i, j);
                let k: usize = card.code();
                proof {
                    scanned_within(piles, i as int, j + 1, 18);
                    assert(pile.take(j + 1) == pile.take(j as int).push(card));
                    pile.take(j as int).to_multiset_ensures();
                    assert(pile.take(j as int).push(card).to_multiset() =~= pile.take(
                        j as int,
                    ).to_multiset().insert(card));
                }
                if seen[k] {
                    proof {
                        let part = pile.take(j as int).to_multiset();
                        assert(scanned.count(card) > 0);
                        assert(before.add(pile.take(j + 1).to_multiset()).count(card)
                            <= units_upto(piles, 18).count(card));
                        assert(pile.take(j + 1).to_multiset().count(card) == part.count(card) + 1);
                        assert(self@.units().count(card) >= 2);
                    }
                    return false;
                }
                seen.set(k, true);
                proof {
                    scanned = scanned.insert(card);
                    assert(scanned =~= before.add(pile.take(j + 1).to_multiset()));
                    assert forall|c: TarotCard| #[trigger]
                        seen@[c.spec_code()] == (scanned.count(c) > 0) by {
                        if c.spec_code() == card.spec_code() {
                            tarot_code_is_injective(c, card);
                        }
                    }
                }
                j = j + 1;
            }
            proof {
                assert(pile.take(j as int) == pile);
                assert(scanned =~= units_upto(piles, i + 1));
            }
            i = i + 1;
        }
        true
    }
}

impl State for FortunesFoundation {
    type Action = Move;

    type Model = Layout;

    type Step = Move;

    open spec fn model(&self) -> Layout {
        self@
    }

    open spec fn step(action: &Move) -> Move {
        *action
    }

    open spec fn valid(m: Layout) -> bool {
        m.valid()
    }

    open spec fn status(m: Layout) -> Option<EndState> {
        m.status()
    }

    open spec fn options(m: Layout) -> Seq<Move> {
        m.legal()
    }

    open spec fn outcome(m: Layout, s: Move) -> Layout {
        m.apply(s)
    }

    open spec fn worth(m: Layout) -> int {
        m.worth()
    }

    proof fn outcome_is_valid(m: Layout, s: Move) {
        legal_fits(m, s);
        apply_keeps_units(m, s);
    }

    proof fn unfinished_iff_options(m: Layout) {
    }

    fn end_status(&self) -> (status: Option<EndState>) {
        if self.is_terminal() {
            if self.is_win() {
                Some(EndState::Win)
            } else {
                Some(EndState::Loss)
            }
        } else {
            None
        }
    }

    /// Legal moves:
    /// - every top card can be freed while the free cell is empty;
    /// - a top card can move to a column whose top card it rests on, or to
    ///   the first empty column;
    /// - the free card can go where it rests, or to the first empty column;
    /// - a top card that builds a foundation must be built, and is then the
    ///   only move.
    fn possible_actions(&self) -> (actions: Vec<Move>) {
        let actions = match self.forced_build() {
            Some(build) => vec![build],
            None => {
                let candidates = self.candidates();
                let kept = self.guarded(&candidates);
                arrange(&kept)
            },
        };
        assert(actions@.map_values(|a: Move| Self::step(&a)) =~= actions@);
        actions
    }

    fn act(&self, action: &Move) -> (next: Self) {
        proof {
            legal_fits(self@, *action);
            apply_keeps_units(self@, *action);
        }
        let mut history = self.history.clone();
        history.push(*action);
        let mut tableau = self.tableau.clone();
        let next = match *action {
            Move::Free { card, from } => {
                tableau[from].pop();
                Self {
                    free_cell: Some(card),
                    tableau,
                    minor_foundations: self.minor_foundations.clone(),
                    major_foundations: self.major_foundations.clone(),
                    history,
                }
            },
            Move::Unfree { card, to } => {
                tableau[to].push(card);
                Self {
                    free_cell: None,
                    tableau,
                    minor_foundations: self.minor_foundations.clone(),
                    major_foundations: self.major_foundations.clone(),
                    history,
                }
            },
            Move::Build { card, from } => {
                tableau[from].pop();
                let mut major_foundations = self.major_foundations.clone();
                let mut minor_foundations = self.minor_foundations.clone();
                match card {
                    TarotCard::Major(inner) => {
                        let left_takes: bool = inner.rank == 0 || (major_foundations[0].len() > 0
                            && inner.can_stack_on(
                            &major_foundations[0][major_foundations[0].len() - 1],
                        ));
                        let right_takes: bool = inner.rank == 21 || (major_foundations[1].len() > 0
                            && inner.can_stack_on(
                            &major_foundations[1][major_foundations[1].len() - 1],
                        ));
                        if left_takes {
                            major_foundations[0].push(inner);
                        } else if right_takes {
                            major_foundations[1].push(inner);
                        }
                        assert(piles(major_foundations) =~= self@.with_major(inner));
                        assert(piles(minor_foundations) =~= self@.minor_foundations);
                    },
                    TarotCard::Minor(inner) => {
                        let mut i: usize = 0;
                        while i < 4
                            invariant
                                i <= 4,
                                self@.valid(),
                                forall|j: int|
                                    0 <= j < i ==> (#[trigger] minor_foundations[j])@
                                        == self@.with_minor(inner)[j],
                                forall|j: int|
                                    i <= j < 4 ==> (#[trigger] minor_foundations[j])@
                                        == self@.minor_foundations[j],
                            decreases 4 - i,
                        {
                            assert(self@.minor_foundations[i as int].len() > 0);
                            let top = minor_foundations[i][minor_foundations[i].len() - 1];
                            if inner.suit == top.suit && inner.rank.number() == top.rank.number()
                                + 1 {
                                minor_foundations[i].push(inner);
                            }
                            i = i + 1;
                        }
                        assert(piles(minor_foundations) =~= self@.with_minor(inner));
                        assert(piles(major_foundations) =~= self@.major_foundations);
                    },
                }
                Self {
                    major_foundations,
                    minor_foundations,
                    tableau,
                    free_cell: self.free_cell,
                    history,
                }
            },
            Move::Stack { card, from, to } => {
                tableau[from].pop();
                tableau[to].push(card);
                Self {
                    tableau,
                    minor_foundations: self.minor_foundations.clone(),
                    major_foundations: self.major_foundations.clone(),
                    free_cell: self.free_cell,
                    history,
                }
            },
        };
        assert(next@.tableau =~= self@.apply(*action).tableau);
        assert(next@.minor_foundations =~= self@.apply(*action).minor_foundations);
        assert(next@.major_foundations =~= self@.apply(*action).major_foundations);
        next
    }

    fn evaluate(&self, print_components: bool) -> (score: Score) {
        if self.is_win() {
            let moves: Score = self.history.len() as Score;
            let worth: Score = 4 * (10_000 - moves);
            return if worth > WORTH_LIMIT {
                worth
            } else {
                WORTH_LIMIT + 1
            };
        }
        let mut built: Score = 0;
        let mut i: usize = 0;
        while i < 4
            invariant
                i <= 4,
                built == count_upto(self@.minor_foundations, i as int),
                0 <= built <= i * usize::MAX,
            decreases 4 - i,
        {
            built = built + self.minor_foundations[i].len() as Score;
            i = i + 1;
        }
        let left: Score = self.major_foundations[0].len() as Score;
        let right: Score = self.major_foundations[1].len() as Score;
        proof {
            reveal_with_fuel(count_upto, 3);
            assert(count(self@.major_foundations) == left + right);
        }
        let mut credit: Score = 0;
        let mut empty: Score = 0;
        let mut left_over: Score = 0;
        let mut i: usize = 0;
        while i < 11
            invariant
                i <= 11,
                credit == credit_upto(self@.tableau, i as int),
                empty == empties_upto(self@.tableau, i as int),
                left_over == count_upto(self@.tableau, i as int),
                0 <= credit <= 2 * i * usize::MAX,
                0 <= empty <= i,
                0 <= left_over <= i * usize::MAX,
            decreases 11 - i,
        {
            let pile = &self.tableau[i];
            credit = credit + column_credit(pile);
            if pile.len() == 0 {
                empty = empty + 1;
            }
            left_over = left_over + pile.len() as Score;
            i = i + 1;
        }
        let cell: Score = if self.free_cell.is_none() {
            20
        } else {
            0
        };
        let offered: Score = self.possible_actions().len() as Score;
        30 * (built + left + right) + 2 * credit + 12 * empty + cell + offered - 4 * left_over
    }
}

/// A column's moves between columns fit the layout, and there is at most
/// one for each destination.
pub proof fn stack_offers_fit(l: Layout, from: int, n: int)
    requires
        0 <= from < 11,
        0 <= n <= 11,
        l.tableau[from].len() > 0,
    ensures
        l.stack_offers(from, n).len() <= n,
        forall|i: int|
            0 <= i < l.stack_offers(from, n).len() ==> l.fits(#[trigger] l.stack_offers(from, n)[i])
                && l.stack_offers(from, n)[i] is Stack,
    decreases n,
{
    if n > 0 {
        stack_offers_fit(l, from, n - 1);
    }
}

/// What a column gives rise to fits the layout, is never a build, and is at
/// most twelve moves.
pub proof fn column_offers_fit(l: Layout, from: int)
    requires
        0 <= from < 11,
    ensures
        l.column_offers(from).len() <= 12,
        forall|i: int|
            0 <= i < l.column_offers(from).len() ==> l.fits(#[trigger] l.column_offers(from)[i])
                && !(l.column_offers(from)[i] is Build),
{
    if l.tableau[from].len() > 0 {
        stack_offers_fit(l, from, 11);
    }
}

/// Every candidate fits the layout and none is a build; a column gives rise
/// to at most twelve.
pub proof fn candidates_fit(l: Layout, n: int)
    requires
        0 <= n <= 11,
    ensures
        l.candidates(n).len() <= 12 * n,
        forall|i: int|
            0 <= i < l.candidates(n).len() ==> l.fits(#[trigger] l.candidates(n)[i]) && !(
            l.candidates(n)[i] is Build),
    decreases n,
{
    if n > 0 {
        candidates_fit(l, n - 1);
        column_offers_fit(l, n - 1);
    }
}

/// The forced build is that of the first column whose top card builds.
pub proof fn first_build_is_first(l: Layout, n: int)
    requires
        0 <= n,
    ensures
        match l.first_build(n) {
            Some(i) => {
                &&& 0 <= i < n
                &&& l.tableau[i].len() > 0
                &&& l.builds(l.top(i))
                &&& forall|j: int|
                    0 <= j < i ==> !((#[trigger] l.tableau[j]).len() > 0 && l.builds(l.top(j)))
            },
            None => forall|j: int|
                0 <= j < n ==> !((#[trigger] l.tableau[j]).len() > 0 && l.builds(l.top(j))),
        },
    decreases n,
{
    if n > 0 {
        first_build_is_first(l, n - 1);
    }
}

/// Whatever is on offer fits the layout.
pub proof fn legal_fits(l: Layout, m: Move)
    requires
        l.legal().contains(m),
    ensures
        l.fits(m),
{
    first_build_is_first(l, 11);
    match l.first_build(11) {
        Some(from) => {
            assert(l.legal()[0] == m);
        },
        None => {
            let kept = l.candidates(11).filter(|m: Move| l.keeps(m));
            tiers_hold(kept, |m: Move| m.spec_priority(), 3, 0, m);
            l.candidates(11).lemma_filter_contains_rev(|m: Move| l.keeps(m), m);
            candidates_fit(l, 11);
        },
    }
}

/// At most 132 moves are ever on offer, and the guards only remove moves.
pub proof fn legal_is_short(l: Layout)
    ensures
        l.legal().len() <= 132,
        l.first_build(11) is None ==> l.legal().len() == l.candidates(11).filter(
            |m: Move| l.keeps(m),
        ).len(),
{
    if l.first_build(11) is None {
        let kept = l.candidates(11).filter(|m: Move| l.keeps(m));
        arranged_len(kept, |m: Move| m.spec_priority(), 3);
        l.candidates(11).lemma_filter_len(|m: Move| l.keeps(m));
        candidates_fit(l, 11);
    }
}

proof fn minor_piles_after_push(piles: Seq<Seq<Card>>, i: int, card: Card)
    requires
        0 <= i < piles.len(),
    ensures
        units(minor_piles(piles.update(i, piles[i].push(card)))) == units(minor_piles(piles)).insert(
            TarotCard::Minor(card),
        ),
{
    let wrapped = minor_piles(piles);
    assert(minor_piles(piles.update(i, piles[i].push(card))) =~= wrapped.update(
        i,
        wrapped[i].push(TarotCard::Minor(card)),
    )) by {
        assert(piles[i].push(card).map_values(|c: Card| TarotCard::Minor(c)) =~= wrapped[i].push(
            TarotCard::Minor(card),
        ));
    }
    units_after_push(wrapped, i, TarotCard::Minor(card));
}

proof fn major_piles_after_push(piles: Seq<Seq<MajorArcana>>, i: int, card: MajorArcana)
    requires
        0 <= i < piles.len(),
    ensures
        units(major_piles(piles.update(i, piles[i].push(card)))) == units(major_piles(piles)).insert(
            TarotCard::Major(card),
        ),
{
    let wrapped = major_piles(piles);
    assert(major_piles(piles.update(i, piles[i].push(card))) =~= wrapped.update(
        i,
        wrapped[i].push(TarotCard::Major(card)),
    )) by {
        assert(piles[i].push(card).map_values(|c: MajorArcana| TarotCard::Major(c))
            =~= wrapped[i].push(TarotCard::Major(card)));
    }
    units_after_push(wrapped, i, TarotCard::Major(card));
}

/// A move that fits a sound layout carries its card from one place to
/// another: the cards of the game stay the same, and the layout stays sound.
pub proof fn apply_keeps_units(l: Layout, m: Move)
    requires
        l.valid(),
        l.fits(m),
    ensures
        l.apply(m).units() == l.units(),
        l.apply(m).card_count() == l.card_count(),
        l.apply(m).valid(),
{
    broadcast use vstd::multiset::group_multiset_axioms;

    let next = l.apply(m);
    match m {
        Move::Free { card, from } => {
            units_after_pop(l.tableau, from as int);
            assert(next.units() =~= l.units());
        },
        Move::Unfree { card, to } => {
            units_after_push(l.tableau, to as int, card);
            assert(next.units() =~= l.units());
        },
        Move::Stack { card, from, to } => {
            let lifted = l.tableau.update(from as int, l.tableau[from as int].drop_last());
            units_after_pop(l.tableau, from as int);
            units_after_push(lifted, to as int, card);
            assert(next.units() =~= l.units());
        },
        Move::Build { card, from } => {
            units_after_pop(l.tableau, from as int);
            match card {
                TarotCard::Major(inner) => {
                    let left = l.major_foundations[0];
                    let right = l.major_foundations[1];
                    if inner.rank == 0 || (left.len() > 0 && inner.spec_can_stack_on(&left.last())) {
                        major_piles_after_push(l.major_foundations, 0, inner);
                        units_after_push(l.major_foundations, 0, inner);
                    } else {
                        major_piles_after_push(l.major_foundations, 1, inner);
                        units_after_push(l.major_foundations, 1, inner);
                    }
                    assert(next.units() =~= l.units());
                },
                TarotCard::Minor(inner) => {
                    let k = if accepts(l.minor_foundations[0], inner) {
                        0int
                    } else if accepts(l.minor_foundations[1], inner) {
                        1int
                    } else if accepts(l.minor_foundations[2], inner) {
                        2int
                    } else {
                        3int
                    };
                    assert(accepts(l.minor_foundations[k], inner));
                    assert forall|j: int| 0 <= j < 4 && j != k implies !accepts(
                        #[trigger] l.minor_foundations[j],
                        inner,
                    ) by {
                        if j < k {
                            assert(l.minor_foundations[j].last().suit
                                != l.minor_foundations[k].last().suit);
                        } else {
                            assert(l.minor_foundations[k].last().suit
                                != l.minor_foundations[j].last().suit);
                        }
                    }
                    assert(l.with_minor(inner) =~= l.minor_foundations.update(
                        k,
                        l.minor_foundations[k].push(inner),
                    ));
                    minor_piles_after_push(l.minor_foundations, k, inner);
                    units_after_push(l.minor_foundations, k, inner);
                    assert(next.units() =~= l.units());
                    assert forall|i: int, j: int| 0 <= i < j < 4 implies (
                    #[trigger] next.minor_foundations[i]).last().suit != (
                    #[trigger] next.minor_foundations[j]).last().suit by {
                        assert(l.minor_foundations[i].last().suit
                            != l.minor_foundations[j].last().suit);
                    }
                },
            }
        },
    }
}

/// The run credit of at most two points a card never passes twice the
/// number of cards.
pub proof fn credit_within_count(tableau: Seq<Seq<TarotCard>>, n: int)
    requires
        0 <= n <= tableau.len(),
    ensures
        0 <= credit_upto(tableau, n) <= 2 * count_upto(tableau, n),
    decreases n,
{
    if n > 0 {
        credit_within_count(tableau, n - 1);
        run_credit_within(tableau[n - 1]);
    }
}

proof fn run_credit_within(pile: Seq<TarotCard>)
    ensures
        0 <= run_credit(pile) <= 2 * pile.len(),
    decreases pile.len(),
{
    if pile.len() >= 2 {
        run_credit_within(pile.drop_last());
    }
}

/// The card at a place of a deal of ten columns of seven around an empty
/// sixth column, counted column by column.
pub open spec fn dealt_at(tableau: Seq<Seq<TarotCard>>, n: int) -> TarotCard {
    tableau[if n / 7 < 5 {
        n / 7
    } else {
        n / 7 + 1
    }][n % 7]
}

/// The card is the ace of a suit.
pub open spec fn is_ace(card: TarotCard) -> bool {
    card matches TarotCard::Minor(inner) && inner.rank == Rank::Ace
}

proof fn units_of_deal(tableau: Seq<Seq<TarotCard>>, k: int)
    requires
        tableau.len() == 11,
        0 <= k <= 11,
        tableau[5].len() == 0,
        forall|i: int| 0 <= i < 11 && i != 5 ==> (#[trigger] tableau[i]).len() == 7,
    ensures
        units_upto(tableau, k) == Seq::new(
            (7 * if k <= 5 {
                k
            } else {
                k - 1
            }) as nat,
            |n: int| dealt_at(tableau, n),
        ).to_multiset(),
    decreases k,
{
    broadcast use vstd::multiset::group_multiset_axioms;

    let filled = if k <= 5 {
        k
    } else {
        k - 1
    };
    let flat = Seq::new((7 * filled) as nat, |n: int| dealt_at(tableau, n));
    if k == 0 {
        flat.to_multiset_ensures();
        vstd::multiset::lemma_multiset_empty_len(flat.to_multiset());
        assert(units_upto(tableau, k) =~= flat.to_multiset());
    } else {
        units_of_deal(tableau, k - 1);
        let before = Seq::new(
            (7 * if k - 1 <= 5 {
                k - 1
            } else {
                k - 2
            }) as nat,
            |n: int| dealt_at(tableau, n),
        );
        assert(flat =~= before + tableau[k - 1]);
        vstd::seq_lib::lemma_multiset_commutative(before, tableau[k - 1]);
    }
}

/// The opening layout on a deal of ten columns of seven around an empty
/// sixth column is sound if no two of the seventy cards are alike and none
/// is an ace; it holds seventy-four cards.
pub proof fn distinct_opening_is_valid(tableau: Seq<Seq<TarotCard>>)
    requires
        tableau.len() == 11,
        tableau[5].len() == 0,
        forall|i: int| 0 <= i < 11 && i != 5 ==> (#[trigger] tableau[i]).len() == 7,
        forall|n: int| 0 <= n < 70 ==> !is_ace(#[trigger] dealt_at(tableau, n)),
        forall|m: int, n: int|
            0 <= m < n < 70 ==> (#[trigger] dealt_at(tableau, m)).spec_code() != (
            #[trigger] dealt_at(tableau, n)).spec_code(),
    ensures
        Layout::opening(tableau).valid(),
        Layout::opening(tableau).card_count() == 74,
{
    broadcast use vstd::multiset::group_multiset_axioms;

    let opening = Layout::opening(tableau);
    let flat = Seq::new(70, |n: int| dealt_at(tableau, n));
    units_of_deal(tableau, 11);
    assert forall|m: int, n: int| 0 <= m < flat.len() && 0 <= n < flat.len() && m != n implies flat[m]
        != flat[n] by {
        if m < n {
            assert(dealt_at(tableau, m).spec_code() != dealt_at(tableau, n).spec_code());
        } else {
            assert(dealt_at(tableau, n).spec_code() != dealt_at(tableau, m).spec_code());
        }
    }
    flat.lemma_multiset_has_no_duplicates();
    flat.to_multiset_ensures();
    assert(units(tableau) == flat.to_multiset());
    let aces = units(minor_piles(opening.minor_foundations));
    assert forall|card: TarotCard| #[trigger]
        aces.count(card) <= 1 && (aces.count(card) > 0 ==> is_ace(card)) by {
        reveal_with_fuel(units_upto, 5);
        let wrapped = minor_piles(opening.minor_foundations);
        assert forall|i: int| 0 <= i < 4 implies (#[trigger] wrapped[i]).to_multiset()
            =~= Multiset::empty().insert(wrapped[i][0]) by {
            let pile = wrapped[i];
            let none = Seq::<TarotCard>::empty();
            none.to_multiset_ensures();
            vstd::multiset::lemma_multiset_empty_len(none.to_multiset());
            assert(pile =~= none.push(pile[0]));
        }
        assert(wrapped[0][0] == TarotCard::Minor(opening.minor_foundations[0][0]));
        assert(wrapped[1][0] == TarotCard::Minor(opening.minor_foundations[1][0]));
        assert(wrapped[2][0] == TarotCard::Minor(opening.minor_foundations[2][0]));
        assert(wrapped[3][0] == TarotCard::Minor(opening.minor_foundations[3][0]));
    }
    let majors = units(major_piles(opening.major_foundations));
    assert(majors =~= Multiset::empty()) by {
        reveal_with_fuel(units_upto, 3);
        let wrapped = major_piles(opening.major_foundations);
        let none = Seq::<TarotCard>::empty();
        none.to_multiset_ensures();
        vstd::multiset::lemma_multiset_empty_len(none.to_multiset());
        assert(wrapped[0] =~= none);
        assert(wrapped[1] =~= none);
    }
    assert forall|card: TarotCard| opening.units().count(card) <= 1 by {
        let dealt = flat.to_multiset().count(card);
        assert(opening.cell_units().count(card) == 0);
        assert(majors.count(card) == 0);
        assert(opening.units().count(card) == dealt + aces.count(card));
        if dealt > 0 {
            assert(flat.to_multiset().contains(card));
            assert(dealt == 1);
            assert(flat.contains(card));
            let n = choose|n: int| 0 <= n < 70 && flat[n] == card;
            assert(!is_ace(dealt_at(tableau, n)));
            assert(aces.count(card) == 0);
        } else {
            assert(aces.count(card) <= 1);
        }
        assert(dealt + aces.count(card) <= 1);
    }
    reveal_with_fuel(count_upto, 12);
    assert(count(opening.minor_foundations) == 4);
    assert(count(opening.major_foundations) == 0);
    assert(count(tableau) == 70);
}

/// Conservation. Along every playable path from a sound layout the cards
/// of the game stay the same: none appears twice, none vanishes.
pub proof fn play_keeps_units(l: Layout, path: Seq<Move>)
    requires
        l.valid(),
        playable::<FortunesFoundation>(l, path),
    ensures
        arrival::<FortunesFoundation>(l, path).units() == l.units(),
        arrival::<FortunesFoundation>(l, path).valid(),
    decreases path.len(),
{
    if path.len() > 0 {
        legal_fits(l, path[0]);
        apply_keeps_units(l, path[0]);
        play_keeps_units(l.apply(path[0]), path.drop_first());
    }
}

/// Terminal classification. The game goes on exactly as long as a move is
/// on offer.
pub proof fn unfinished_iff_moves(l: Layout)
    ensures
        l.status() is None <==> l.legal().len() > 0,
{
}

/// In a sound layout a won game is over: all cards lie on the foundations,
/// none in the tableau or the free cell, and nothing is on offer.
pub proof fn won_game_is_over(l: Layout)
    requires
        l.valid(),
        l.is_win(),
    ensures
        l.tableau_is_empty(),
        l.free_cell is None,
        l.legal().len() == 0,
        l.status() == Some(EndState::Win),
{
    broadcast use vstd::multiset::group_multiset_axioms;

    reveal_with_fuel(count_upto, 5);
    assert(count(l.minor_foundations) == 52);
    assert(count(l.major_foundations) == 22);
    assert forall|i: int| 0 <= i < 11 implies (#[trigger] l.tableau[i]).len() == 0 by {
        pile_within_count(l.tableau, 11, i);
    }
    assert(l.cell_units().len() == 0);
    first_build_is_first(l, 11);
    let candidates = l.candidates(11);
    if candidates.len() > 0 {
        assert(candidates.contains(candidates[0]));
        candidates_hold(l, 11, candidates[0]);
    }
    legal_is_short(l);
    candidates.lemma_filter_len(|m: Move| l.keeps(m));
}

/// A layout that is not won is worth at most 626 points.
pub proof fn worth_is_bounded(l: Layout)
    requires
        l.valid(),
        !l.is_win(),
    ensures
        l.worth() <= WORTH_LIMIT,
{
    broadcast use vstd::multiset::group_multiset_axioms;

    legal_is_short(l);
    credit_within_count(l.tableau, 11);
    empties_within(l.tableau, 11);
    assert(l.cell_units().len() >= 0);
}

/// Evaluator ordering. A won game outscores every sound game that is not
/// won, be it lost or still going on.
pub proof fn win_outscores(won: Layout, other: Layout)
    requires
        won.status() == Some(EndState::Win),
        other.valid(),
        other.status() != Some(EndState::Win),
    ensures
        won.worth() > other.worth(),
{
    if other.is_win() {
        won_game_is_over(other);
    }
    worth_is_bounded(other);
}

/// A top card that can be built must be built: the build of the first such
/// column is then the only move on offer.
pub proof fn build_is_forced(l: Layout, from: int)
    requires
        0 <= from < 11,
        l.tableau[from].len() > 0,
        l.builds(l.top(from)),
    ensures
        l.first_build(11) matches Some(first) && first <= from && l.builds(l.top(first))
            && l.legal() == seq![Move::Build { card: l.top(first), from: first as usize }],
{
    first_build_is_first(l, 11);
}

/// Nothing enters a full free cell.
pub proof fn full_cell_takes_no_card(l: Layout, m: Move)
    requires
        l.free_cell is Some,
        l.legal().contains(m),
    ensures
        !(m is Free),
{
    legal_fits(l, m);
}

/// Unless a build is forced, every move on offer passes the guards against
/// cycles: it was not made within the last eleven turns, does not carry the
/// card that moved last, and takes nothing out of the free cell right after
/// a card went in.
pub proof fn offers_pass_guards(l: Layout, m: Move)
    requires
        l.first_build(11) is None,
        l.legal().contains(m),
    ensures
        l.keeps(m),
        l.candidates(11).contains(m),
{
    let keeps = |m: Move| l.keeps(m);
    let kept = l.candidates(11).filter(keeps);
    tiers_hold(kept, |m: Move| m.spec_priority(), 3, 0, m);
    let i = choose|i: int| 0 <= i < kept.len() && kept[i] == m;
    l.candidates(11).lemma_filter_pred(keeps, i);
    l.candidates(11).lemma_filter_contains_rev(keeps, m);
}

/// A candidate that passes the guards is on offer, unless a build is forced.
pub proof fn guarded_candidates_are_offered(l: Layout, m: Move)
    requires
        l.first_build(11) is None,
        l.candidates(11).contains(m),
        l.keeps(m),
    ensures
        l.legal().contains(m),
{
    let keeps = |m: Move| l.keeps(m);
    let kept = l.candidates(11).filter(keeps);
    let i = choose|i: int| 0 <= i < l.candidates(11).len() && l.candidates(11)[i] == m;
    l.candidates(11).lemma_filter_contains(keeps, i);
    tiers_hold(kept, |m: Move| m.spec_priority(), 3, 0, m);
}

proof fn stack_offers_hold(l: Layout, from: int, n: int, m: Move)
    requires
        0 <= from < 11,
        0 <= n <= 11,
        l.tableau[from].len() > 0,
    ensures
        l.stack_offers(from, n).contains(m) <==> (m matches Move::Stack { card, from: f, to } && f
            == from && to < n && l.allows(m)),
    decreases n,
{
    if n > 0 {
        stack_offers_hold(l, from, n - 1, m);
        if l.offers_stack(from, n - 1) {
            push_holds(
                l.stack_offers(from, n - 1),
                Move::Stack { card: l.top(from), from: from as usize, to: (n - 1) as usize },
                m,
            );
        }
    }
}

proof fn column_offers_hold(l: Layout, from: int, m: Move)
    requires
        0 <= from < 11,
    ensures
        l.column_offers(from).contains(m) <==> l.allows(m) && Layout::column_of(m) == from,
{
    if l.tableau[from].len() == 0 {
        if l.free_cell is Some && l.is_first_empty(from) {
            let only = Move::Unfree { card: l.free_cell.unwrap(), to: from as usize };
            push_holds(Seq::empty(), only, m);
            assert(seq![only] =~= Seq::empty().push(only));
        }
    } else {
        stack_offers_hold(l, from, 11, m);
        add_holds(l.cell_offer(from), l.stack_offers(from, 11), m);
        match l.free_cell {
            Some(card) => {
                if card.spec_can_stack_on(&l.top(from)) {
                    let only = Move::Unfree { card, to: from as usize };
                    push_holds(Seq::empty(), only, m);
                    assert(seq![only] =~= Seq::empty().push(only));
                }
            },
            None => {
                let only = Move::Free { card: l.top(from), from: from as usize };
                push_holds(Seq::empty(), only, m);
                assert(seq![only] =~= Seq::empty().push(only));
            },
        }
    }
}

proof fn candidates_hold(l: Layout, n: int, m: Move)
    requires
        0 <= n <= 11,
    ensures
        l.candidates(n).contains(m) <==> l.allows(m) && Layout::column_of(m) < n,
    decreases n,
{
    if n > 0 {
        candidates_hold(l, n - 1, m);
        column_offers_hold(l, n - 1, m);
        add_holds(l.candidates(n - 1), l.column_offers(n - 1), m);
    }
}

/// Unless a build is forced, the moves on offer are exactly those that the
/// rules of movement allow and that pass the guards against cycles.
pub proof fn offered_iff_allowed(l: Layout, m: Move)
    requires
        l.first_build(11) is None,
    ensures
        l.legal().contains(m) <==> l.allows(m) && l.keeps(m),
{
    candidates_hold(l, 11, m);
    if l.legal().contains(m) {
        offers_pass_guards(l, m);
    }
    if l.allows(m) && l.keeps(m) {
        guarded_candidates_are_offered(l, m);
    }
}

/// An empty column is the first one, or has one before it.
proof fn first_empty_exists(l: Layout, i: int)
    requires
        0 <= i,
        l.tableau[i].len() == 0,
    ensures
        exists|j: int| 0 <= j <= i && l.is_first_empty(j),
    decreases i,
{
    if l.is_first_empty(i) {
    } else {
        let j = choose|j: int| 0 <= j < i && l.tableau[j].len() == 0;
        first_empty_exists(l, j);
    }
}

/// Free-cell exclusion. Unless a build is forced, a card in the free cell
/// is offered a way out wherever a column takes it: onto a card that it
/// rests on, and into the first empty column if there is an empty one.
/// The guards must let it pass: the card did not enter the cell or move in
/// the last turn, and the way out was not taken in the last eleven turns.
pub proof fn free_card_is_offered(l: Layout, card: TarotCard, to: int)
    requires
        l.first_build(11) is None,
        l.free_cell == Some(card),
        0 <= to < 11,
        l.tableau[to].len() == 0 || card.spec_can_stack_on(&l.top(to)),
        l.history.len() > 0 ==> !(l.history.last() is Free) && l.history.last().spec_card() != card,
        forall|at: usize| !recently(l.history, RECENT as int, Move::Unfree { card, to: at }),
    ensures
        exists|at: int|
            0 <= at <= to && ((#[trigger] l.tableau[at]).len() == 0 || card.spec_can_stack_on(
                &l.top(at),
            )) && l.legal().contains(Move::Unfree { card, to: at as usize }),
{
    let at = if l.tableau[to].len() == 0 {
        first_empty_exists(l, to);
        choose|j: int| 0 <= j <= to && l.is_first_empty(j)
    } else {
        to
    };
    let way_out = Move::Unfree { card, to: at as usize };
    assert(l.allows(way_out));
    assert(!recently(l.history, RECENT as int, Move::Unfree { card, to: at as usize }));
    assert(l.keeps(way_out));
    offered_iff_allowed(l, way_out);
}

/// Different cards have different numbers.
pub proof fn tarot_code_is_injective(a: TarotCard, b: TarotCard)
    requires
        a.spec_code() == b.spec_code(),
    ensures
        a == b,
{
}

/// The cards of the game are those of its eighteen piles.
pub proof fn units_of_all_piles(l: Layout)
    requires
        l.tableau.len() == 11,
        l.minor_foundations.len() == 4,
        l.major_foundations.len() == 2,
    ensures
        l.units() == units_upto(l.all_piles(), 18),
{
    broadcast use vstd::multiset::group_multiset_axioms;

    reveal_with_fuel(units_upto, 19);
    let cell = l.cell_pile();
    assert(cell.to_multiset() =~= l.cell_units()) by {
        Seq::<TarotCard>::empty().to_multiset_ensures();
        vstd::multiset::lemma_multiset_empty_len(Seq::<TarotCard>::empty().to_multiset());
        if l.free_cell is Some {
            assert(cell =~= Seq::<TarotCard>::empty().push(l.free_cell.unwrap()));
        }
    }
    assert(l.units() =~= units_upto(l.all_piles(), 18));
}

/// In a sound layout the top cards of two columns differ, and so do the two
/// upper cards of one column.
pub proof fn tops_differ(l: Layout, i: int, j: int, k: int, n: int)
    requires
        l.valid(),
        0 <= i < 11,
        0 <= k < 11,
        0 <= j < l.tableau[i].len(),
        0 <= n < l.tableau[k].len(),
        i != k || j != n,
    ensures
        l.tableau[i][j] != l.tableau[k][n],
{
    broadcast use vstd::multiset::group_multiset_axioms;

    if l.tableau[i][j] == l.tableau[k][n] {
        if i < k || (i == k && j < n) {
            twin_counts(l.tableau, i, j, k, n);
        } else {
            twin_counts(l.tableau, k, n, i, j);
        }
        assert(l.units().count(l.tableau[i][j]) >= 2);
    }
}

/// Anti-cycle. After a card has moved from one column to another, no move
/// on offer carries that card: the guards keep it where it is, and it is
/// not the card of a forced build either.
pub proof fn moved_card_rests(l: Layout, m: Move, next: Move)
    requires
        l.valid(),
        l.legal().contains(m),
        m is Stack,
        l.apply(m).legal().contains(next),
    ensures
        next.spec_card() != m.spec_card(),
{
    let s = l.apply(m);
    legal_fits(l, m);
    apply_keeps_units(l, m);
    first_build_is_first(s, 11);
    match m {
        Move::Stack { card, from, to } => {
            assert(s.history.last() == m);
            match s.first_build(11) {
                None => {
                    offers_pass_guards(s, next);
                },
                Some(i) => {
                    assert(s.legal()[0] == next);
                    let pile = l.tableau[from as int];
                    if i == to as int {
                        assert(s.top(i) == card);
                        assert(l.builds(card));
                        build_is_forced(l, from as int);
                        assert(l.legal()[0] == m);
                    } else if i == from as int {
                        assert(s.top(i) == pile[pile.len() - 2]);
                        tops_differ(l, from as int, pile.len() - 2, from as int, pile.len() - 1);
                    } else {
                        assert(s.tableau[i] == l.tableau[i]);
                        tops_differ(
                            l,
                            i,
                            l.tableau[i].len() - 1,
                            from as int,
                            pile.len() - 1,
                        );
                    }
                },
            }
        },
        _ => {},
    }
}

} // verus!
