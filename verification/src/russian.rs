//! Proletariat's Patience: thirty-six cards on nine columns and a free cell.
//!
//! - Number cards are stacked by alternating colour and decreasing value, and
//!   can be moved as a stack of any size.
//! - Face cards and aces are stacked by suit in any order, and can also be
//!   moved as a stack. A completed stack of them becomes immovable.
//! - The game is won with four completed stacks of number cards and four
//!   completed stacks of face cards.
//! - The free cell can store a single card of any type.

use crate::game::{
    arrival, code_is_injective, piles, playable, Card, EndState as Outcome, Rank, Score, State,
};
use crate::deal::{shuffle, short_deck, short_deck_is_distinct, spec_short_deck, take_hand};
use crate::order::{
    add_holds, arranged, arranged_len, push_holds, tier, tier_of_suffix, tiers, tiers_hold,
};
use crate::piles::{
    count, count_upto, pile_within_count, scanned_within, units, units_after_pop,
    units_after_push, units_len, units_of_update, units_upto,
};
use std::cmp::Ordering;
use std::collections::hash_map::RandomState;
use std::collections::HashSet;
use std::hash::Hash;
use std::hash::Hasher;
use vstd::multiset::Multiset;
use vstd::prelude::*;
use vstd::seq_lib::lemma_multiset_commutative;
use vstd::std_specs::hash::{builds_valid_hashers, obeys_key_model};

verus! {

#[derive(Debug, Hash)]
pub enum Move {
    Stack { cards: Vec<Card>, from: usize, to: usize },
    Free { card: Card, from: usize },
    Unfree { card: Card, to: usize },
}

impl View for Move {
    type V = Step;

    open spec fn view(&self) -> Step {
        match *self {
            Move::Stack { cards, from, to } => Step::Stack { cards: cards@, from, to },
            Move::Free { card, from } => Step::Free { card, from },
            Move::Unfree { card, to } => Step::Unfree { card, to },
        }
    }
}

impl Clone for Move {
    fn clone(&self) -> (copy: Self)
        ensures
            copy@ == self@,
    {
        match self {
            Move::Stack { cards, from, to } => Move::Stack {
                cards: cards.clone(),
                from: *from,
                to: *to,
            },
            Move::Free { card, from } => Move::Free { card: *card, from: *from },
            Move::Unfree { card, to } => Move::Unfree { card: *card, to: *to },
        }
    }
}

impl PartialEq for Move {
    fn eq(&self, other: &Self) -> (same: bool) {
        match (self, other) {
            (
                Move::Stack { cards, from, to },
                Move::Stack { cards: other_cards, from: other_from, to: other_to },
            ) => *from == *other_from && *to == *other_to && same_cards(cards, other_cards),
            (Move::Free { card, from }, Move::Free { card: other_card, from: other_from }) => {
                *card == *other_card && *from == *other_from
            },
            (Move::Unfree { card, to }, Move::Unfree { card: other_card, to: other_to }) => {
                *card == *other_card && *to == *other_to
            },
            _ => false,
        }
    }
}

impl vstd::std_specs::cmp::PartialEqSpecImpl for Move {
    open spec fn obeys_eq_spec() -> bool {
        true
    }

    open spec fn eq_spec(&self, other: &Self) -> bool {
        self@ == other@
    }
}

impl Eq for Move {

}

impl PartialOrd for Move {
    /// Bigger stacks come before smaller ones, every stack before leaving
    /// the free cell, and that before entering it.
    fn partial_cmp(&self, other: &Self) -> (order: Option<Ordering>) {
        match (self, other) {
            (Move::Stack { cards, .. }, Move::Stack { cards: other_cards, .. }) => {
                if cards.len() < other_cards.len() {
                    Some(Ordering::Less)
                } else if cards.len() > other_cards.len() {
                    Some(Ordering::Greater)
                } else {
                    Some(Ordering::Equal)
                }
            },
            (Move::Stack { .. }, _) => Some(Ordering::Greater),
            (_, Move::Stack { .. }) => Some(Ordering::Less),
            (Move::Unfree { .. }, Move::Free { .. }) => Some(Ordering::Greater),
            (Move::Free { .. }, Move::Unfree { .. }) => Some(Ordering::Less),
            _ => Some(Ordering::Equal),
        }
    }
}

impl vstd::std_specs::cmp::PartialOrdSpecImpl for Move {
    open spec fn obeys_partial_cmp_spec() -> bool {
        true
    }

    open spec fn partial_cmp_spec(&self, other: &Self) -> Option<Ordering> {
        match (self@, other@) {
            (Step::Stack { cards, .. }, Step::Stack { cards: other_cards, .. }) => {
                if cards.len() < other_cards.len() {
                    Some(Ordering::Less)
                } else if cards.len() > other_cards.len() {
                    Some(Ordering::Greater)
                } else {
                    Some(Ordering::Equal)
                }
            },
            (Step::Stack { .. }, _) => Some(Ordering::Greater),
            (_, Step::Stack { .. }) => Some(Ordering::Less),
            (Step::Unfree { .. }, Step::Free { .. }) => Some(Ordering::Greater),
            (Step::Free { .. }, Step::Unfree { .. }) => Some(Ordering::Less),
            _ => Some(Ordering::Equal),
        }
    }
}

impl Move {
    pub fn is_free(&self) -> (b: bool)
        ensures
            b == (self@ is Free),
    {
        match *self {
            Move::Free { .. } => true,
            _ => false,
        }
    }

    pub fn is_unfree(&self) -> (b: bool)
        ensures
            b == (self@ is Unfree),
    {
        match *self {
            Move::Unfree { .. } => true,
            _ => false,
        }
    }

    /// Whether the move has the given priority.
    pub fn has_priority(&self, r: usize) -> (b: bool)
        ensures
            b == (self@.priority() == r),
    {
        match self {
            Move::Stack { cards, .. } => r >= 1 && cards.len() == r - 1,
            Move::Unfree { .. } => r == 1,
            Move::Free { .. } => r == 0,
        }
    }

    /// Whether two moves carry the same cards.
    pub fn same_load(&self, other: &Move) -> (same: bool)
        ensures
            same == (self@.cards() == other@.cards()),
    {
        match (self, other) {
            (Move::Stack { cards, .. }, Move::Stack { cards: other_cards, .. }) => same_cards(
                cards,
                other_cards,
            ),
            (Move::Stack { cards, .. }, Move::Free { card, .. })
            | (Move::Stack { cards, .. }, Move::Unfree { card, .. })
            | (Move::Free { card, .. }, Move::Stack { cards, .. })
            | (Move::Unfree { card, .. }, Move::Stack { cards, .. }) => {
                let same = cards.len() == 1 && cards[0] == *card;
                proof {
                    if same {
                        assert(cards@ =~= seq![*card]);
                    } else if cards.len() == 1 {
                        assert(seq![*card][0] == *card);
                    } else {
                        assert(seq![*card].len() == 1);
                    }
                }
                same
            },
            (Move::Free { card, .. }, Move::Free { card: other_card, .. })
            | (Move::Free { card, .. }, Move::Unfree { card: other_card, .. })
            | (Move::Unfree { card, .. }, Move::Free { card: other_card, .. })
            | (Move::Unfree { card, .. }, Move::Unfree { card: other_card, .. }) => {
                let same = *card == *other_card;
                proof {
                    if !same {
                        assert(seq![*card][0] != seq![*other_card][0]);
                    }
                }
                same
            },
        }
    }
}

/// The mathematical value of a move.
pub enum Step {
    Stack { cards: Seq<Card>, from: usize, to: usize },
    Free { card: Card, from: usize },
    Unfree { card: Card, to: usize },
}

impl Step {
    /// The cards that the move carries.
    pub open spec fn cards(self) -> Seq<Card> {
        match self {
            Step::Stack { cards, .. } => cards,
            Step::Free { card, .. } => seq![card],
            Step::Unfree { card, .. } => seq![card],
        }
    }

    /// Bigger stacks come before smaller ones, those before leaving the free
    /// cell, and that before entering it.
    pub open spec fn priority(self) -> int {
        match self {
            Step::Stack { cards, .. } => 1 + cards.len() as int,
            Step::Unfree { .. } => 1,
            Step::Free { .. } => 0,
        }
    }
}

/// What the worth of an unfinished game is made of.
#[derive(Debug, Copy, Clone, Eq, PartialEq, Structural)]
pub struct Components {
    /// Columns that are completed stacks; each is worth 10 points.
    pub completed_stacks: usize,
    /// Cards that rest on the card beneath them in a run; each is worth 2.
    pub stack_progress: usize,
    /// How far number cards lie from where their rank wants them; each step
    /// costs 1 point.
    pub depth_error: usize,
    /// Moves on offer; each is worth half a point.
    pub moves_available: usize,
    /// Moves made that repeat an earlier one; each costs 1 point.
    pub repetitions: usize,
    /// Moves made; each costs a quarter of a point.
    pub depth: usize,
}

impl View for Components {
    type V = Parts;

    open spec fn view(&self) -> Parts {
        Parts {
            completed_stacks: self.completed_stacks as int,
            stack_progress: self.stack_progress as int,
            depth_error: self.depth_error as int,
            moves_available: self.moves_available as int,
            repetitions: self.repetitions as int,
            depth: self.depth as int,
        }
    }
}

impl Components {
    /// The worth in quarter points.
    pub fn total(&self) -> (score: Score)
        ensures
            score == self@.total(),
    {
        WEIGHT_COMPLETED_STACKS * (self.completed_stacks as Score) + WEIGHT_STACK_PROGRESS * (
        self.stack_progress as Score) + WEIGHT_DEPTH_ERROR * (self.depth_error as Score)
            + WEIGHT_MOVES_AVAILABLE * (self.moves_available as Score) + WEIGHT_REPETITION * (
        self.repetitions as Score) + WEIGHT_DEPTH * (self.depth as Score)
    }
}

/// The mathematical value of the components of a worth.
pub struct Parts {
    pub completed_stacks: int,
    pub stack_progress: int,
    pub depth_error: int,
    pub moves_available: int,
    pub repetitions: int,
    pub depth: int,
}

impl Parts {
    /// The worth in quarter points.
    pub open spec fn total(self) -> int {
        WEIGHT_COMPLETED_STACKS * self.completed_stacks + WEIGHT_STACK_PROGRESS
            * self.stack_progress + WEIGHT_DEPTH_ERROR * self.depth_error + WEIGHT_MOVES_AVAILABLE
            * self.moves_available + WEIGHT_REPETITION * self.repetitions + WEIGHT_DEPTH
            * self.depth
    }
}

#[derive(Debug)]
pub enum EndState {
    Win,
    Loss,
}

pub struct Player;

impl Player {
    /// What an outcome is worth, in quarter points: a thousand points for a
    /// win, as much below zero for a loss.
    pub fn reward_when_outcome_is(&self, outcome: &EndState) -> (reward: Score)
        ensures
            reward == match *outcome {
                EndState::Win => 4_000int,
                EndState::Loss => -4_000int,
            },
    {
        match outcome {
            EndState::Win => 4_000,
            EndState::Loss => -4_000,
        }
    }
}

/// How many of the latest history entries bar a move from being repeated.
pub const RECENT: usize = 8;

/// What each completed stack is worth, in quarter points.
pub const WEIGHT_COMPLETED_STACKS: Score = 40;

/// What each card resting in a run is worth, in quarter points.
pub const WEIGHT_STACK_PROGRESS: Score = 8;

/// What each step of depth error is worth, in quarter points.
pub const WEIGHT_DEPTH_ERROR: Score = -4;

/// What each move on offer is worth, in quarter points.
pub const WEIGHT_MOVES_AVAILABLE: Score = 2;

/// What each repeated move is worth, in quarter points.
pub const WEIGHT_REPETITION: Score = -4;

/// What each move made is worth, in quarter points.
pub const WEIGHT_DEPTH: Score = -1;

/// The highest priority a move can have in a deal of thirty-six cards.
pub const TOP_PRIORITY: usize = 37;

/// The mathematical values of a list of moves.
pub open spec fn steps_of(moves: Seq<Move>) -> Seq<Step> {
    moves.map_values(|m: Move| m@)
}

/// The move was made within the last `k` turns.
pub open spec fn recently(history: Seq<Step>, k: int, m: Step) -> bool {
    exists|i: int| 0 <= i < history.len() && history.len() - k <= i && history[i] == m
}

/// How many entries of a history repeat an earlier entry.
pub open spec fn repeats(history: Seq<Step>) -> nat
    decreases history.len(),
{
    if history.len() == 0 {
        0
    } else {
        repeats(history.drop_last()) + if history.drop_last().contains(history.last()) {
            1nat
        } else {
            0nat
        }
    }
}

/// The number of cards at the top of a pile that rest on one another.
pub open spec fn run_len(pile: Seq<Card>) -> nat
    decreases pile.len(),
{
    if pile.len() == 0 {
        0
    } else if pile.len() >= 2 && pile[pile.len() - 1].spec_can_stack_on(&pile[pile.len() - 2]) {
        1 + run_len(pile.drop_last())
    } else {
        1
    }
}

/// Four face cards or aces of one suit.
pub open spec fn completed_face_stack(pile: Seq<Card>) -> bool {
    &&& pile.len() == 4
    &&& forall|i: int|
        0 <= i < 4 ==> (#[trigger] pile[i]).spec_is_face_or_ace() && pile[i].suit == pile[0].suit
}

/// Ten, nine, eight, seven and six from the bottom up, colours alternating.
pub open spec fn completed_number_stack(pile: Seq<Card>) -> bool {
    &&& pile.len() == 5
    &&& pile[0].rank == Rank::Ten
    &&& pile[1].rank == Rank::Nine
    &&& pile[2].rank == Rank::Eight
    &&& pile[3].rank == Rank::Seven
    &&& pile[4].rank == Rank::Six
    &&& pile[1].spec_color() != pile[0].spec_color()
    &&& pile[2].spec_color() != pile[1].spec_color()
    &&& pile[3].spec_color() != pile[2].spec_color()
    &&& pile[4].spec_color() != pile[3].spec_color()
}

/// How far number cards lie from where their rank wants them: a six belongs
/// on top, a seven one below it, and so on.
pub open spec fn depth_error(pile: Seq<Card>) -> nat
    decreases pile.len(),
{
    if pile.len() == 0 {
        0
    } else {
        let card = pile[0];
        let depth = pile.len() - 1;
        let goal = card.rank.spec_number() - 6;
        depth_error(pile.drop_first()) + if card.spec_is_face_or_ace() {
            0nat
        } else if goal >= depth {
            (goal - depth) as nat
        } else {
            (depth - goal) as nat
        }
    }
}

/// The key under which a card is remembered as seen: its place among the
/// fifty-two.
pub open spec fn key_of(card: Card) -> usize {
    card.spec_code() as usize
}

/// The deck leaves out the twos, threes, fours and fives.
pub open spec fn in_deck(card: Card) -> bool {
    !(2 <= card.rank.spec_number() <= 5)
}

/// The card at a place of a deal of nine columns of four, column by column.
pub open spec fn card_at(tableau: Seq<Seq<Card>>, n: int) -> Card {
    tableau[n / 4][n % 4]
}

/// The mathematical value of a game of Proletariat's Patience.
pub struct Position {
    pub free_cell: Option<Card>,
    pub tableau: Seq<Seq<Card>>,
    pub history: Seq<Step>,
}

impl Position {
    /// The card in the free cell, if any, as a collection.
    pub open spec fn cell_units(self) -> Multiset<Card> {
        match self.free_cell {
            Some(card) => Multiset::singleton(card),
            None => Multiset::empty(),
        }
    }

    /// Every card of the game: tableau and free cell.
    pub open spec fn units(self) -> Multiset<Card> {
        units(self.tableau).add(self.cell_units())
    }

    /// A sound deal: nine columns that hold, together with the free cell,
    /// thirty-six different cards, none of them a two, three, four or five.
    pub open spec fn valid(self) -> bool {
        &&& self.tableau.len() == 9
        &&& self.units().len() == 36
        &&& forall|card: Card| self.units().count(card) <= 1
        &&& forall|i: int, j: int|
            0 <= i < 9 && 0 <= j < self.tableau[i].len() ==> in_deck(
                #[trigger] self.tableau[i][j],
            )
        &&& self.free_cell matches Some(card) ==> in_deck(card)
    }

    /// What makes two games the same state: everything but the history.
    pub open spec fn same_state(self, other: Position) -> bool {
        self.free_cell == other.free_cell && self.tableau == other.tableau
    }

    pub open spec fn top(self, column: int) -> Card {
        self.tableau[column].last()
    }

    /// The top `j` cards of a column, lowest first.
    pub open spec fn run(self, column: int, j: int) -> Seq<Card> {
        self.tableau[column].skip(self.tableau[column].len() - j)
    }

    /// The run of `j` cards of column `from` is offered to column `to`,
    /// given whether it was already offered to an earlier column. A run goes
    /// onto a card that its lowest card rests on. It goes to an empty column
    /// only if it has not been offered anywhere yet, and never if the run at
    /// the top of its column is the whole column.
    pub open spec fn offers_target(self, from: int, j: int, to: int, offered: bool) -> bool {
        let pile = self.tableau[from];
        let target = self.tableau[to];
        &&& to != from
        &&& !(target.len() == 0 && run_len(pile) == pile.len())
        &&& if target.len() == 0 {
            !offered
        } else {
            pile[pile.len() - j].spec_can_stack_on(&target.last())
        }
    }

    /// The offers of the run of `j` cards of column `from` to the first `n`
    /// columns.
    pub open spec fn prefix_offers(self, from: int, j: int, n: int) -> Seq<Step>
        decreases n,
    {
        if n <= 0 {
            Seq::empty()
        } else {
            let before = self.prefix_offers(from, j, n - 1);
            if self.offers_target(from, j, n - 1, before.len() > 0) {
                before.push(
                    Step::Stack { cards: self.run(from, j), from: from as usize, to: (n - 1) as usize },
                )
            } else {
                before
            }
        }
    }

    /// The offers of the `done` longest runs of column `from`, longest first.
    pub open spec fn run_offers(self, from: int, done: int) -> Seq<Step>
        decreases done,
    {
        if done <= 0 {
            Seq::empty()
        } else {
            self.run_offers(from, done - 1) + self.prefix_offers(
                from,
                run_len(self.tableau[from]) - (done - 1),
                9,
            )
        }
    }

    /// The offer to put the top card of a column into the empty free cell.
    pub open spec fn free_offer(self, from: int) -> Seq<Step> {
        if self.free_cell is None {
            seq![Step::Free { card: self.top(from), from: from as usize }]
        } else {
            Seq::empty()
        }
    }

    /// Everything column `from` gives rise to. Empty columns and completed
    /// face stacks give nothing.
    pub open spec fn column_offers(self, from: int) -> Seq<Step> {
        let pile = self.tableau[from];
        if pile.len() == 0 || completed_face_stack(pile) {
            Seq::empty()
        } else {
            self.free_offer(from) + self.run_offers(from, run_len(pile) as int)
        }
    }

    /// The moves that the first `n` columns give rise to, column by column.
    pub open spec fn tableau_offers(self, n: int) -> Seq<Step>
        decreases n,
    {
        if n <= 0 {
            Seq::empty()
        } else {
            self.tableau_offers(n - 1) + self.column_offers(n - 1)
        }
    }

    /// The free card may go to column `to`: it is empty, or the card rests
    /// on its top card.
    pub open spec fn takes_free_card(self, to: int) -> bool {
        self.free_cell is Some && (self.tableau[to].len() == 0
            || self.free_cell.unwrap().spec_can_stack_on(&self.top(to)))
    }

    /// The offers of the free card to the first `n` columns.
    pub open spec fn cell_offers(self, n: int) -> Seq<Step>
        decreases n,
    {
        if n <= 0 {
            Seq::empty()
        } else if self.takes_free_card(n - 1) {
            self.cell_offers(n - 1).push(
                Step::Unfree { card: self.free_cell.unwrap(), to: (n - 1) as usize },
            )
        } else {
            self.cell_offers(n - 1)
        }
    }

    /// All moves before the guards: those of the columns, then those of the
    /// free card.
    pub open spec fn candidates(self) -> Seq<Step> {
        self.tableau_offers(9) + self.cell_offers(9)
    }

    /// What the rules of movement allow, whatever was played before:
    /// - the top card of a column may enter the empty free cell, unless the
    ///   column is a completed face stack;
    /// - the free card may go to an empty column or onto a card it rests on;
    /// - a run at the top of a column that is no completed face stack may go
    ///   onto a card that its lowest card rests on; to an empty column it
    ///   goes only if no column before that one takes it and the longest run
    ///   is not the whole column.
    pub open spec fn allows(self, m: Step) -> bool {
        match m {
            Step::Free { card, from } => {
                &&& from < 9
                &&& self.tableau[from as int].len() > 0
                &&& !completed_face_stack(self.tableau[from as int])
                &&& card == self.top(from as int)
                &&& self.free_cell is None
            },
            Step::Unfree { card, to } => {
                &&& to < 9
                &&& self.free_cell == Some(card)
                &&& self.takes_free_card(to as int)
            },
            Step::Stack { cards, from, to } => {
                &&& from < 9
                &&& to < 9
                &&& self.tableau[from as int].len() > 0
                &&& !completed_face_stack(self.tableau[from as int])
                &&& 1 <= cards.len() <= run_len(self.tableau[from as int])
                &&& cards == self.run(from as int, cards.len() as int)
                &&& self.offers_target(
                    from as int,
                    cards.len() as int,
                    to as int,
                    self.prefix_offers(from as int, cards.len() as int, to as int).len() > 0,
                )
            },
        }
    }

    /// The move passes the guards against cycles: it was not made within
    /// the last eight turns, does not carry the cards that moved last, and
    /// does not empty the free cell right after it was filled.
    pub open spec fn keeps(self, m: Step) -> bool {
        &&& !recently(self.history, RECENT as int, m)
        &&& self.history.len() > 0 ==> {
            &&& m.cards() != self.history.last().cards()
            &&& self.history.last() is Free ==> !(m is Unfree)
        }
    }

    /// The moves on offer: none once the game is won, else the candidates
    /// that pass the guards, by descending priority.
    pub open spec fn legal(self) -> Seq<Step> {
        if self.is_win() {
            Seq::empty()
        } else {
            arranged(
                self.candidates().filter(|m: Step| self.keeps(m)),
                |m: Step| m.priority(),
                TOP_PRIORITY as int,
            )
        }
    }

    /// The move can be carried out: it names the cards that lie on top of
    /// its column, and the free cell is empty before a card enters it and
    /// full before a card leaves it.
    pub open spec fn can_apply(self, m: Step) -> bool {
        match m {
            Step::Free { card, from } => {
                &&& from < 9
                &&& self.tableau[from as int].len() > 0
                &&& self.top(from as int) == card
                &&& self.free_cell is None
            },
            Step::Unfree { card, to } => to < 9 && self.free_cell is Some,
            Step::Stack { cards, from, to } => {
                &&& from < 9
                &&& to < 9
                &&& cards.len() <= self.tableau[from as int].len()
                &&& self.run(from as int, cards.len() as int) == cards
            },
        }
    }

    /// The move fits the position: it can be carried out, and a card that
    /// leaves the free cell is the one that lies there.
    pub open spec fn fits(self, m: Step) -> bool {
        &&& self.can_apply(m)
        &&& m matches Step::Unfree { card, .. } ==> self.free_cell == Some(card)
    }

    /// The position after a move.
    pub open spec fn apply(self, m: Step) -> Position {
        match m {
            Step::Free { card, from } => Position {
                free_cell: Some(card),
                tableau: self.tableau.update(from as int, self.tableau[from as int].drop_last()),
                history: self.history.push(m),
            },
            Step::Unfree { card, to } => Position {
                free_cell: None,
                tableau: self.tableau.update(to as int, self.tableau[to as int].push(card)),
                history: self.history.push(m),
            },
            Step::Stack { cards, from, to } => {
                let pile = self.tableau[from as int];
                let lifted = self.tableau.update(from as int, pile.take(pile.len() - cards.len()));
                Position {
                    free_cell: self.free_cell,
                    tableau: lifted.update(to as int, lifted[to as int] + cards),
                    history: self.history.push(m),
                }
            },
        }
    }

    /// The move can be taken back: it is the last one made, and the cards
    /// it brought lie where it put them.
    pub open spec fn can_revert(self, m: Step) -> bool {
        &&& self.history.len() > 0
        &&& self.history.last() == m
        &&& match m {
            Step::Free { card, from } => from < 9 && self.free_cell is Some,
            Step::Unfree { card, to } => {
                &&& to < 9
                &&& self.tableau[to as int].len() > 0
                &&& self.top(to as int) == card
                &&& self.free_cell is None
            },
            Step::Stack { cards, from, to } => {
                &&& from < 9
                &&& to < 9
                &&& cards.len() <= self.tableau[to as int].len()
            },
        }
    }

    /// The position before the last move.
    pub open spec fn revert(self, m: Step) -> Position {
        match m {
            Step::Free { card, from } => Position {
                free_cell: None,
                tableau: self.tableau.update(from as int, self.tableau[from as int].push(card)),
                history: self.history.drop_last(),
            },
            Step::Unfree { card, to } => Position {
                free_cell: Some(card),
                tableau: self.tableau.update(to as int, self.tableau[to as int].drop_last()),
                history: self.history.drop_last(),
            },
            Step::Stack { cards, from, to } => {
                let pile = self.tableau[to as int];
                let lowered = self.tableau.update(to as int, pile.take(pile.len() - cards.len()));
                Position {
                    free_cell: self.free_cell,
                    tableau: lowered.update(from as int, lowered[from as int] + cards),
                    history: self.history.drop_last(),
                }
            },
        }
    }

    /// How many of the first `n` columns are completed number stacks.
    pub open spec fn number_stacks(self, n: int) -> nat
        decreases n,
    {
        if n <= 0 {
            0
        } else {
            self.number_stacks(n - 1) + if completed_number_stack(self.tableau[n - 1]) {
                1nat
            } else {
                0nat
            }
        }
    }

    /// How many of the first `n` columns are completed face stacks.
    pub open spec fn face_stacks(self, n: int) -> nat
        decreases n,
    {
        if n <= 0 {
            0
        } else {
            self.face_stacks(n - 1) + if completed_face_stack(self.tableau[n - 1]) {
                1nat
            } else {
                0nat
            }
        }
    }

    /// The game is won with four completed stacks of each kind.
    pub open spec fn is_win(self) -> bool {
        self.number_stacks(9) == 4 && self.face_stacks(9) == 4
    }

    /// The game is over once no move is on offer; a won game offers none.
    pub open spec fn is_terminal(self) -> bool {
        self.legal().len() == 0
    }

    pub open spec fn status(self) -> Option<Outcome> {
        if self.is_terminal() {
            if self.is_win() {
                Some(Outcome::Win)
            } else {
                Some(Outcome::Loss)
            }
        } else {
            None
        }
    }

    /// The cards of the first `n` columns that rest on the card beneath them
    /// in the run at the top of their column.
    pub open spec fn progress(self, n: int) -> nat
        decreases n,
    {
        if n <= 0 {
            0
        } else {
            self.progress(n - 1) + if self.tableau[n - 1].len() == 0 {
                0nat
            } else {
                (run_len(self.tableau[n - 1]) - 1) as nat
            }
        }
    }

    /// The depth error of the first `n` columns together.
    pub open spec fn misplacement(self, n: int) -> nat
        decreases n,
    {
        if n <= 0 {
            0
        } else {
            self.misplacement(n - 1) + depth_error(self.tableau[n - 1])
        }
    }

    /// What the worth of an unfinished game is made of.
    pub open spec fn components(self) -> Parts {
        Parts {
            completed_stacks: (self.number_stacks(9) + self.face_stacks(9)) as int,
            stack_progress: self.progress(9) as int,
            depth_error: self.misplacement(9) as int,
            moves_available: self.legal().len() as int,
            repetitions: repeats(self.history) as int,
            depth: self.history.len() as int,
        }
    }

    /// The worth of an unfinished game in quarter points: 10 points for
    /// each completed stack, 2 for each card resting in a run, half a point
    /// for each move on offer, less 1 for each point of depth error, 1 for
    /// each repeated move and a quarter for each move made.
    pub open spec fn heuristic(self) -> int {
        self.components().total()
    }

    /// A won game is worth 1,000 points, a lost one as much below zero.
    pub open spec fn worth(self) -> int {
        match self.status() {
            Some(Outcome::Win) => 4_000,
            Some(Outcome::Loss) => -4_000,
            None => self.heuristic(),
        }
    }
}

fn same_cards(a: &Vec<Card>, b: &Vec<Card>) -> (same: bool)
    ensures
        same == (a@ == b@),
{
    if a.len() != b.len() {
        return false;
    }
    let mut i: usize = 0;
    while i < a.len()
        invariant
            i <= a.len() == b.len(),
            a@.take(i as int) == b@.take(i as int),
        decreases a.len() - i,
    {
        if a[i] != b[i] {
            return false;
        }
        assert(a@.take(i + 1) == a@.take(i as int).push(a@[i as int]));
        assert(b@.take(i + 1) == b@.take(i as int).push(b@[i as int]));
        i = i + 1;
    }
    assert(a@.take(i as int) == a@ && b@.take(i as int) == b@);
    true
}

/// The top `n` cards of a pile, lowest first.
fn top_cards(pile: &Vec<Card>, n: usize) -> (cards: Vec<Card>)
    requires
        n <= pile.len(),
    ensures
        cards@ == pile@.skip(pile.len() - n),
{
    let start: usize = pile.len() - n;
    let mut cards: Vec<Card> = Vec::new();
    let mut i: usize = start;
    while i < pile.len()
        invariant
            start <= i <= pile.len(),
            cards@ == pile@.subrange(start as int, i as int),
        decreases pile.len() - i,
    {
        cards.push(pile[i]);
        i = i + 1;
    }
    assert(pile@.subrange(start as int, pile.len() as int) == pile@.skip(start as int));
    cards
}

/// Copies a list of moves.
fn copy_moves(moves: &Vec<Move>) -> (copy: Vec<Move>)
    ensures
        steps_of(copy@) == steps_of(moves@),
{
    let mut copy: Vec<Move> = Vec::new();
    let mut i: usize = 0;
    while i < moves.len()
        invariant
            i <= moves.len(),
            steps_of(copy@) == steps_of(moves@).take(i as int),
        decreases moves.len() - i,
    {
        let m = moves[i].clone();
        let ghost before = copy@;
        copy.push(m);
        assert(steps_of(copy@) =~= steps_of(before).push(m@));
        assert(steps_of(copy@) =~= steps_of(moves@).take(i + 1));
        i = i + 1;
    }
    assert(steps_of(moves@).take(i as int) =~= steps_of(moves@));
    copy
}

/// Puts moves in the order of their priority, highest first; among moves of
/// one priority the one generated later comes first.
pub fn arrange(moves: &Vec<Move>) -> (out: Vec<Move>)
    ensures
        steps_of(out@) == arranged(steps_of(moves@), |m: Step| m.priority(), TOP_PRIORITY as int),
{
    let ghost all = steps_of(moves@);
    let mut out: Vec<Move> = Vec::new();
    let mut r: usize = TOP_PRIORITY + 1;
    assert(steps_of(out@) =~= tiers(all, |m: Step| m.priority(), TOP_PRIORITY as int, r as int));
    while r > 0
        invariant
            r <= TOP_PRIORITY + 1,
            all == steps_of(moves@),
            steps_of(out@) == tiers(all, |m: Step| m.priority(), TOP_PRIORITY as int, r as int),
        decreases r,
    {
        r = r - 1;
        let mut i: usize = moves.len();
        let ghost above = steps_of(out@);
        assert(all.skip(i as int).len() == 0);
        assert(steps_of(out@) =~= above + tier(all.skip(i as int), |m: Step| m.priority(), r as int));
        while i > 0
            invariant
                i <= moves.len(),
                r <= TOP_PRIORITY,
                all == steps_of(moves@),
                steps_of(out@) == above + tier(all.skip(i as int), |m: Step| m.priority(), r as int),
            decreases i,
        {
            i = i - 1;
            proof {
                tier_of_suffix(all, |m: Step| m.priority(), r as int, i as int);
            }
            if moves[i].has_priority(r) {
                let m = moves[i].clone();
                let ghost before = out@;
                out.push(m);
                assert(steps_of(out@) =~= steps_of(before).push(m@));
                assert(all[i as int] == m@);
                assert(steps_of(out@) =~= above + tier(
                    all.skip(i as int),
                    |m: Step| m.priority(),
                    r as int,
                ));
            }
        }
        assert(all.skip(0) == all);
    }
    out
}

#[derive(Debug)]
pub struct ProletariatsPatience {
    free_cell: Option<Card>,
    tableau: [Vec<Card>; 9],
    history: Vec<Move>,
}

impl View for ProletariatsPatience {
    type V = Position;

    closed spec fn view(&self) -> Position {
        Position {
            free_cell: self.free_cell,
            tableau: piles(self.tableau),
            history: steps_of(self.history@),
        }
    }
}

impl Clone for ProletariatsPatience {
    fn clone(&self) -> (copy: Self)
        ensures
            copy@ == self@,
    {
        let copy = Self {
            free_cell: self.free_cell,
            tableau: self.tableau.clone(),
            history: copy_moves(&self.history),
        };
        assert(copy@.tableau =~= self@.tableau);
        copy
    }
}

impl PartialEq for ProletariatsPatience {
    /// Two games are equal when they hold the same cards in the same
    /// places, whatever moves led there.
    fn eq(&self, other: &Self) -> (same: bool) {
        if self.free_cell != other.free_cell {
            return false;
        }
        let mut i: usize = 0;
        while i < 9
            invariant
                i <= 9,
                forall|j: int| 0 <= j < i ==> self.tableau[j]@ == other.tableau[j]@,
            decreases 9 - i,
        {
            if !same_cards(&self.tableau[i], &other.tableau[i]) {
                assert(self@.tableau[i as int] != other@.tableau[i as int]);
                return false;
            }
            i = i + 1;
        }
        assert(self@.tableau =~= other@.tableau);
        true
    }
}

impl vstd::std_specs::cmp::PartialEqSpecImpl for ProletariatsPatience {
    open spec fn obeys_eq_spec() -> bool {
        true
    }

    open spec fn eq_spec(&self, other: &Self) -> bool {
        self@.same_state(other@)
    }
}

impl Eq for ProletariatsPatience {

}

impl Hash for ProletariatsPatience {
    /// `Hash::hash` of the standard library, on the pair of what equality
    /// compares: free cell and tableau, not the history. Nothing is claimed
    /// of what the hasher takes from it.
    #[verifier::external_body]
    fn hash<H: Hasher>(&self, state: &mut H) {
        (&self.free_cell, &self.tableau).hash(state)
    }
}

impl ProletariatsPatience {
    /// A game on the given columns, with an empty free cell.
    pub fn new(tableau: [Vec<Card>; 9]) -> (game: Self)
        ensures
            game@ == (Position {
                free_cell: None,
                tableau: piles(tableau),
                history: Seq::empty(),
            }),
    {
        let game = Self { free_cell: None, tableau, history: Vec::new() };
        assert(game@.history =~= Seq::empty());
        game
    }

    pub fn apply_move(&self, mv: Move) -> (next: Self)
        requires
            self@.can_apply(mv@),
        ensures
            next@ == self@.apply(mv@),
    {
        let mut history = copy_moves(&self.history);
        history.push(mv.clone());
        assert(steps_of(history@) =~= self@.history.push(mv@));
        let mut tableau = self.tableau.clone();
        match mv {
            Move::Free { card, from } => {
                tableau[from].pop();
                let next = Self { free_cell: Some(card), tableau, history };
                assert(next@.tableau =~= self@.apply(mv@).tableau);
                next
            },
            Move::Unfree { card, to } => {
                tableau[to].push(card);
                let next = Self { free_cell: None, tableau, history };
                assert(next@.tableau =~= self@.apply(mv@).tableau);
                next
            },
            Move::Stack { cards, from, to } => {
                let keep: usize = tableau[from].len() - cards.len();
                tableau[from].truncate(keep);
                let ghost lifted = piles(tableau);
                assert(lifted =~= self@.tableau.update(
                    from as int,
                    self@.tableau[from as int].take(keep as int),
                ));
                let mut i: usize = 0;
                while i < cards.len()
                    invariant
                        i <= cards.len(),
                        to < 9,
                        lifted.len() == 9,
                        piles(tableau) == lifted.update(
                            to as int,
                            lifted[to as int] + cards@.take(i as int),
                        ),
                    decreases cards.len() - i,
                {
                    let ghost prior = piles(tableau);
                    assert(prior[to as int] == tableau[to as int]@);
                    tableau[to].push(cards[i]);
                    assert(piles(tableau) =~= lifted.update(
                        to as int,
                        lifted[to as int] + cards@.take(i + 1),
                    )) by {
                        assert(cards@.take(i + 1) == cards@.take(i as int).push(cards@[i as int]));
                        assert(tableau[to as int]@ == prior[to as int].push(cards@[i as int]));
                        assert(tableau[to as int]@ =~= lifted[to as int] + cards@.take(i + 1));
                        let goal = lifted.update(to as int, lifted[to as int] + cards@.take(i + 1));
                        assert(piles(tableau).len() == 9 && goal.len() == 9);
                        assert forall|k: int| 0 <= k < 9 implies piles(tableau)[k] == goal[k] by {
                            if k != to {
                                assert(tableau[k]@ == prior[k]);
                                assert(prior[k] == lifted[k]);
                            }
                        }
                    }
                    i = i + 1;
                }
                assert(cards@.take(i as int) == cards@);
                let next = Self { free_cell: self.free_cell, tableau, history };
                assert(next@.tableau =~= self@.apply(mv@).tableau);
                next
            },
        }
    }

    pub fn revert_move(&self, mv: &Move) -> (before: Self)
        requires
            self@.can_revert(mv@),
        ensures
            before@ == self@.revert(mv@),
    {
        let mut history = copy_moves(&self.history);
        history.pop();
        assert(steps_of(history@) =~= self@.history.drop_last());
        let mut tableau = self.tableau.clone();
        match mv {
            Move::Free { card, from } => {
                tableau[*from].push(*card);
                let before = Self { free_cell: None, tableau, history };
                assert(before@.tableau =~= self@.revert(mv@).tableau);
                before
            },
            Move::Unfree { card, to } => {
                tableau[*to].pop();
                let before = Self { free_cell: Some(*card), tableau, history };
                assert(before@.tableau =~= self@.revert(mv@).tableau);
                before
            },
            Move::Stack { cards, from, to } => {
                let keep: usize = tableau[*to].len() - cards.len();
                tableau[*to].truncate(keep);
                let ghost lowered = piles(tableau);
                assert(lowered =~= self@.tableau.update(
                    *to as int,
                    self@.tableau[*to as int].take(keep as int),
                ));
                let mut i: usize = 0;
                while i < cards.len()
                    invariant
                        i <= cards.len(),
                        *from < 9,
                        lowered.len() == 9,
                        piles(tableau) == lowered.update(
                            *from as int,
                            lowered[*from as int] + cards@.take(i as int),
                        ),
                    decreases cards.len() - i,
                {
                    let ghost prior = piles(tableau);
                    assert(prior[*from as int] == tableau[*from as int]@);
                    tableau[*from].push(cards[i]);
                    assert(piles(tableau) =~= lowered.update(
                        *from as int,
                        lowered[*from as int] + cards@.take(i + 1),
                    )) by {
                        assert(cards@.take(i + 1) == cards@.take(i as int).push(cards@[i as int]));
                        assert(tableau[*from as int]@ == prior[*from as int].push(cards@[i as int]));
                        assert(tableau[*from as int]@ =~= lowered[*from as int] + cards@.take(
                            i + 1,
                        ));
                        let goal = lowered.update(
                            *from as int,
                            lowered[*from as int] + cards@.take(i + 1),
                        );
                        assert(piles(tableau).len() == 9 && goal.len() == 9);
                        assert forall|k: int| 0 <= k < 9 implies piles(tableau)[k] == goal[k] by {
                            if k != *from {
                                assert(tableau[k]@ == prior[k]);
                                assert(prior[k] == lowered[k]);
                            }
                        }
                    }
                    i = i + 1;
                }
                assert(cards@.take(i as int) == cards@);
                let before = Self { free_cell: self.free_cell, tableau, history };
                assert(before@.tableau =~= self@.revert(mv@).tableau);
                before
            },
        }
    }

    /// Whether `top` may rest on `bottom`.
    pub fn can_stack(top: &Card, bottom: &Card) -> (b: bool)
        ensures
            b == top.spec_can_stack_on(bottom),
    {
        top.can_stack_on(bottom)
    }

    /// The number of cards at the top of a pile that rest on one another.
    fn run_length(pile: &Vec<Card>) -> (n: usize)
        ensures
            n == run_len(pile@),
            n <= pile.len(),
    {
        if pile.len() == 0 {
            return 0;
        }
        let mut i: usize = pile.len();
        let mut n: usize = 1;
        proof {
            assert(pile@.take(i as int) == pile@);
            run_within_pile(pile@);
        }
        while i >= 2 && Self::can_stack(&pile[i - 1], &pile[i - 2])
            invariant
                1 <= i <= pile.len(),
                n + i == pile.len() + 1,
                run_len(pile@) + 1 == n + run_len(pile@.take(i as int)),
            decreases i,
        {
            proof {
                assert(pile@.take(i as int).drop_last() == pile@.take(i - 1));
            }
            n = n + 1;
            i = i - 1;
        }
        n
    }

    pub fn is_completed_number_stack(stack: &Vec<Card>) -> (done: bool)
        ensures
            done == completed_number_stack(stack@),
    {
        if stack.len() != 5 {
            return false;
        }
        stack[0].rank == Rank::Ten && stack[1].rank == Rank::Nine && stack[2].rank == Rank::Eight
            && stack[3].rank == Rank::Seven && stack[4].rank == Rank::Six && stack[1].color()
            != stack[0].color() && stack[2].color() != stack[1].color() && stack[3].color()
            != stack[2].color() && stack[4].color() != stack[3].color()
    }

    pub fn is_completed_face_stack(stack: &Vec<Card>) -> (done: bool)
        ensures
            done == completed_face_stack(stack@),
    {
        if stack.len() != 4 {
            return false;
        }
        let suit = stack[0].suit;
        let mut i: usize = 0;
        while i < 4
            invariant
                i <= 4,
                stack.len() == 4,
                suit == stack@[0].suit,
                forall|k: int|
                    0 <= k < i ==> (#[trigger] stack@[k]).spec_is_face_or_ace() && stack@[k].suit
                        == suit,
            decreases 4 - i,
        {
            if !stack[i].is_face_or_ace() || stack[i].suit != suit {
                assert(!completed_face_stack(stack@)) by {
                    let card = stack@[i as int];
                }
                return false;
            }
            i = i + 1;
        }
        true
    }

    pub fn is_win(&self) -> (won: bool)
        ensures
            won == self@.is_win(),
    {
        let (number_stacks, face_stacks) = self.completed_stacks();
        number_stacks == 4 && face_stacks == 4
    }

    /// How many columns are completed number stacks, and how many are
    /// completed face stacks.
    fn completed_stacks(&self) -> (done: (usize, usize))
        ensures
            done.0 == self@.number_stacks(9),
            done.1 == self@.face_stacks(9),
            done.0 + done.1 <= 9,
    {
        let mut number_stacks: usize = 0;
        let mut face_stacks: usize = 0;
        let mut i: usize = 0;
        while i < 9
            invariant
                i <= 9,
                number_stacks == self@.number_stacks(i as int),
                face_stacks == self@.face_stacks(i as int),
                number_stacks + face_stacks <= i,
            decreases 9 - i,
        {
            if Self::is_completed_number_stack(&self.tableau[i]) {
                number_stacks = number_stacks + 1;
            } else if Self::is_completed_face_stack(&self.tableau[i]) {
                face_stacks = face_stacks + 1;
            }
            i = i + 1;
        }
        (number_stacks, face_stacks)
    }

    pub fn free_cell(&self) -> (cell: Option<Card>)
        ensures
            cell == self@.free_cell,
    {
        self.free_cell
    }

    pub fn tableau(&self) -> (tableau: &[Vec<Card>; 9])
        ensures
            piles(*tableau) == self@.tableau,
    {
        &self.tableau
    }

    pub fn history(&self) -> (history: &Vec<Move>)
        ensures
            steps_of(history@) == self@.history,
    {
        &self.history
    }

    pub fn peek_column(&self, column: usize) -> (top: Option<&Card>)
        requires
            column < 9,
        ensures
            match top {
                Some(card) => self@.tableau[column as int].len() > 0 && *card == self@.top(
                    column as int,
                ),
                None => self@.tableau[column as int].len() == 0,
            },
    {
        let pile = &self.tableau[column];
        if pile.len() > 0 {
            Some(&pile[pile.len() - 1])
        } else {
            None
        }
    }

    /// All moves that the columns and the free card give rise to, before
    /// the guards.
    fn candidates(&self) -> (moves: Vec<Move>)
        ensures
            steps_of(moves@) == self@.candidates(),
    {
        let mut moves: Vec<Move> = Vec::new();
        let mut from: usize = 0;
        assert(steps_of(moves@) =~= self@.tableau_offers(0));
        while from < 9
            invariant
                from <= 9,
                steps_of(moves@) == self@.tableau_offers(from as int),
            decreases 9 - from,
        {
            let pile = &self.tableau[from];
            if pile.len() == 0 || Self::is_completed_face_stack(pile) {
                assert(steps_of(moves@) =~= self@.tableau_offers(from as int) + self@.column_offers(
                    from as int,
                ));
            } else {
                let top = pile[pile.len() - 1];
                let ghost before = steps_of(moves@);
                if self.free_cell.is_none() {
                    let ghost prior = moves@;
                    moves.push(Move::Free { card: top, from });
                    assert(steps_of(moves@) =~= steps_of(prior).push(
                        Step::Free { card: top, from },
                    ));
                }
                let ghost base = before + self@.free_offer(from as int);
                assert(steps_of(moves@) =~= base);
                let longest: usize = Self::run_length(pile);
                let entire: bool = longest == pile.len();
                let mut done: usize = 0;
                assert(steps_of(moves@) =~= base + self@.run_offers(from as int, 0));
                while done < longest
                    invariant
                        done <= longest,
                        from < 9,
                        pile == &self.tableau[from as int],
                        pile@ == self@.tableau[from as int],
                        longest == run_len(pile@),
                        longest <= pile.len(),
                        entire == (longest == pile.len()),
                        steps_of(moves@) == base + self@.run_offers(from as int, done as int),
                    decreases longest - done,
                {
                    let j: usize = longest - done;
                    let lowest = pile[pile.len() - j];
                    let ghost so_far = steps_of(moves@);
                    let mut offered: bool = false;
                    let mut to: usize = 0;
                    assert(steps_of(moves@) =~= so_far + self@.prefix_offers(
                        from as int,
                        j as int,
                        0,
                    ));
                    while to < 9
                        invariant
                            to <= 9,
                            from < 9,
                            1 <= j <= pile.len(),
                            pile == &self.tableau[from as int],
                            pile@ == self@.tableau[from as int],
                            longest == run_len(pile@),
                            entire == (longest == pile.len()),
                            lowest == pile@[pile.len() - j],
                            offered == (self@.prefix_offers(from as int, j as int, to as int).len()
                                > 0),
                            steps_of(moves@) == so_far + self@.prefix_offers(
                                from as int,
                                j as int,
                                to as int,
                            ),
                        decreases 9 - to,
                    {
                        if to != from {
                            let target = &self.tableau[to];
                            assert(target@ == self@.tableau[to as int]);
                            if !(target.len() == 0 && entire) {
                                let takes: bool = if target.len() == 0 {
                                    !offered
                                } else {
                                    lowest.can_stack_on(&target[target.len() - 1])
                                };
                                if takes {
                                    let cards = top_cards(pile, j);
                                    let ghost prior = moves@;
                                    moves.push(Move::Stack { cards, from, to });
                                    assert(steps_of(moves@) =~= steps_of(prior).push(
                                        Step::Stack { cards: cards@, from, to },
                                    ));
                                    offered = true;
                                }
                            }
                        }
                        to = to + 1;
                    }
                    done = done + 1;
                    assert(steps_of(moves@) =~= base + self@.run_offers(from as int, done as int));
                }
                assert(steps_of(moves@) =~= self@.tableau_offers(from as int) + self@.column_offers(
                    from as int,
                ));
            }
            from = from + 1;
        }
        let ghost columns = steps_of(moves@);
        match self.free_cell {
            Some(card) => {
                let mut to: usize = 0;
                assert(steps_of(moves@) =~= columns + self@.cell_offers(0));
                while to < 9
                    invariant
                        to <= 9,
                        self.free_cell == Some(card),
                        steps_of(moves@) == columns + self@.cell_offers(to as int),
                    decreases 9 - to,
                {
                    let target = &self.tableau[to];
                    assert(target@ == self@.tableau[to as int]);
                    if target.len() == 0 || card.can_stack_on(&target[target.len() - 1]) {
                        let ghost prior = moves@;
                        moves.push(Move::Unfree { card, to });
                        assert(steps_of(moves@) =~= steps_of(prior).push(
                            Step::Unfree { card, to },
                        ));
                    }
                    to = to + 1;
                }
            },
            None => {
                assert(self@.cell_offers(9) =~= Seq::empty()) by {
                    reveal_with_fuel(Position::cell_offers, 10);
                }
                assert(steps_of(moves@) =~= columns + self@.cell_offers(9));
            },
        }
        moves
    }

    /// Whether the move was made within the last eight turns.
    fn recently_made(&self, m: &Move) -> (made: bool)
        ensures
            made == recently(self@.history, RECENT as int, m@),
    {
        let n: usize = self.history.len();
        let start: usize = if n > RECENT {
            n - RECENT
        } else {
            0
        };
        let mut i: usize = start;
        while i < n
            invariant
                start <= i <= n,
                n == self.history.len(),
                start == if n > RECENT {
                    n - RECENT
                } else {
                    0
                },
                forall|j: int| start <= j < i ==> steps_of(self.history@)[j] != m@,
            decreases n - i,
        {
            if self.history[i] == *m {
                assert(steps_of(self.history@)[i as int] == m@);
                return true;
            }
            i = i + 1;
        }
        false
    }

    /// Whether the move passes the guards against cycles.
    fn keeps(&self, m: &Move) -> (kept: bool)
        ensures
            kept == self@.keeps(m@),
    {
        if self.recently_made(m) {
            return false;
        }
        let n: usize = self.history.len();
        if n > 0 {
            let last = &self.history[n - 1];
            assert(last@ == self@.history.last());
            if m.same_load(last) {
                return false;
            }
            if last.is_free() && m.is_unfree() {
                return false;
            }
        }
        true
    }

    /// The candidates that pass the guards, in their order.
    fn guarded(&self, candidates: &Vec<Move>) -> (kept: Vec<Move>)
        ensures
            steps_of(kept@) == steps_of(candidates@).filter(|m: Step| self@.keeps(m)),
    {
        let ghost all = steps_of(candidates@);
        let mut kept: Vec<Move> = Vec::new();
        let mut i: usize = 0;
        proof {
            reveal(Seq::filter);
            assert(all.take(0).len() == 0);
            assert(steps_of(kept@) =~= all.take(0).filter(|m: Step| self@.keeps(m)));
        }
        while i < candidates.len()
            invariant
                i <= candidates.len(),
                all == steps_of(candidates@),
                steps_of(kept@) == all.take(i as int).filter(|m: Step| self@.keeps(m)),
            decreases candidates.len() - i,
        {
            proof {
                reveal(Seq::filter);
                assert(all.take(i + 1).drop_last() == all.take(i as int));
                assert(all.take(i + 1).last() == candidates@[i as int]@);
            }
            if self.keeps(&candidates[i]) {
                let m = candidates[i].clone();
                let ghost prior = kept@;
                kept.push(m);
                assert(steps_of(kept@) =~= steps_of(prior).push(m@));
            }
            i = i + 1;
        }
        assert(all.take(i as int) == all);
        kept
    }

    /// The moves on offer, best first:
    /// - every top card can go to the free cell while it is empty, unless
    ///   its column is a completed face stack;
    /// - the free card can go to an empty column or onto a card it rests on;
    /// - every run at the top of a column can go onto a card that its lowest
    ///   card rests on, or to an empty column.
    ///
    /// A won game is over, and nothing moves in it.
    pub fn legal_moves(&self) -> (moves: Vec<Move>)
        requires
            self@.valid(),
        ensures
            steps_of(moves@) == self@.legal(),
    {
        if self.is_win() {
            let moves: Vec<Move> = Vec::new();
            assert(steps_of(moves@) =~= Seq::empty());
            return moves;
        }
        let candidates = self.candidates();
        let kept = self.guarded(&candidates);
        arrange(&kept)
    }

    pub fn is_terminal(&self) -> (over: bool)
        requires
            self@.valid(),
        ensures
            over == self@.is_terminal(),
    {
        self.legal_moves().len() == 0
    }

    /// How many entries of the history repeat an earlier entry.
    fn repetitions(&self) -> (n: usize)
        ensures
            n == repeats(self@.history),
            n <= self.history.len(),
    {
        let ghost all = steps_of(self.history@);
        let mut n: usize = 0;
        let mut i: usize = 0;
        assert(all.take(0).len() == 0);
        while i < self.history.len()
            invariant
                i <= self.history.len(),
                all == steps_of(self.history@),
                n == repeats(all.take(i as int)),
                n <= i,
            decreases self.history.len() - i,
        {
            let mut earlier: bool = false;
            let mut j: usize = 0;
            while j < i && !earlier
                invariant
                    j <= i < self.history.len(),
                    all == steps_of(self.history@),
                    earlier ==> all.take(i as int).contains(all[i as int]),
                    !earlier ==> forall|k: int| 0 <= k < j ==> all[k] != all[i as int],
                decreases i - j + if earlier {
                    0int
                } else {
                    1int
                },
            {
                if self.history[j] == self.history[i] {
                    assert(all.take(i as int)[j as int] == all[i as int]);
                    earlier = true;
                } else {
                    j = j + 1;
                }
            }
            proof {
                assert(all.take(i + 1).drop_last() == all.take(i as int));
                assert(all.take(i + 1).last() == all[i as int]);
                if !earlier {
                    assert(!all.take(i as int).contains(all[i as int]));
                }
            }
            if earlier {
                n = n + 1;
            }
            i = i + 1;
        }
        assert(all.take(i as int) == all);
        n
    }

    /// The depth error of a column.
    fn column_depth_error(pile: &Vec<Card>) -> (error: usize)
        requires
            pile.len() <= 36,
            forall|j: int| 0 <= j < pile.len() ==> in_deck(#[trigger] pile@[j]),
        ensures
            error == depth_error(pile@),
            error <= 1296,
    {
        let mut error: usize = 0;
        let mut i: usize = pile.len();
        assert(pile@.skip(i as int).len() == 0);
        while i > 0
            invariant
                i <= pile.len(),
                pile.len() <= 36,
                error == depth_error(pile@.skip(i as int)),
                error <= (pile.len() - i) * 36,
                forall|j: int| 0 <= j < pile.len() ==> in_deck(#[trigger] pile@[j]),
            decreases i,
        {
            i = i - 1;
            proof {
                assert(pile@.skip(i as int).drop_first() == pile@.skip(i + 1));
                assert(pile@.skip(i as int)[0] == pile@[i as int]);
                assert(in_deck(pile@[i as int]));
            }
            let card = pile[i];
            if !card.is_face_or_ace() {
                let depth: usize = pile.len() - 1 - i;
                let goal: usize = (card.rank.number() - 6) as usize;
                if goal >= depth {
                    error = error + (goal - depth);
                } else {
                    error = error + (depth - goal);
                }
            }
        }
        assert(pile@.skip(0) == pile@);
        error
    }

    /// What the worth of an unfinished game is made of.
    pub fn heuristic_components(&self) -> (parts: Components)
        requires
            self@.valid(),
        ensures
            parts@ == self@.components(),
    {
        let (number_stacks, face_stacks) = self.completed_stacks();
        let mut progress: usize = 0;
        let mut misplaced: usize = 0;
        let mut i: usize = 0;
        while i < 9
            invariant
                i <= 9,
                self@.valid(),
                progress == self@.progress(i as int),
                misplaced == self@.misplacement(i as int),
                progress <= i * 36,
                misplaced <= i * 1296,
            decreases 9 - i,
        {
            let pile = &self.tableau[i];
            assert(pile@ == self@.tableau[i as int]);
            proof {
                valid_count(self@);
                pile_within_count(self@.tableau, 9, i as int);
            }
            if pile.len() > 0 {
                progress = progress + (Self::run_length(pile) - 1);
            }
            assert forall|j: int| 0 <= j < pile.len() implies in_deck(#[trigger] pile@[j]) by {
                assert(in_deck(self@.tableau[i as int][j]));
            }
            misplaced = misplaced + Self::column_depth_error(pile);
            i = i + 1;
        }
        Components {
            completed_stacks: number_stacks + face_stacks,
            stack_progress: progress,
            depth_error: misplaced,
            moves_available: self.legal_moves().len(),
            repetitions: self.repetitions(),
            depth: self.history.len(),
        }
    }

    /// The worth of the game while it goes on, in quarter points.
    pub fn heuristic_score(&self, print_components: bool) -> (score: Score)
        requires
            self@.valid(),
        ensures
            score == self@.heuristic(),
    {
        self.heuristic_components().total()
    }

    /// The position before the given move, which must be the last one made.
    pub fn revert(&self, action: &Move) -> (before: Self)
        requires
            self@.can_revert(action@),
        ensures
            before@ == self@.revert(action@),
    {
        self.revert_move(action)
    }

    /// Whether the game holds a sound deal: thirty-six different cards in
    /// the columns and the free cell, none of them a two, three, four or
    /// five.
    pub fn validate_tableau(&self) -> (ok: bool)
        ensures
            ok == self@.valid(),
    {
        broadcast use vstd::multiset::group_multiset_axioms;
        broadcast use vstd::seq_lib::group_to_multiset_ensures;

        broadcast use vstd::std_specs::hash::group_hash_axioms;

        let mut seen: HashSet<usize> = HashSet::new();
        let mut n: usize = 0;
        let ghost mut scanned: Multiset<Card> = Multiset::empty();
        match self.free_cell {
            Some(card) => {
                let number: u8 = card.rank.number();
                if 2 <= number && number <= 5 {
                    return false;
                }
                seen.insert(card.code());
                n = 1;
                proof {
                    scanned = Multiset::singleton(card);
                    assert forall|c: Card| #[trigger]
                        seen@.contains(key_of(c)) == (scanned.count(c) > 0) by {
                        if c.spec_code() == card.spec_code() {
                            code_is_injective(c, card);
                        }
                    }
                }
            },
            None => {},
        }
        proof {
            units_len(self@.tableau, 9);
        }
        let mut i: usize = 0;
        while i < 9
            invariant
                i <= 9,
                obeys_key_model::<usize>(),
                builds_valid_hashers::<RandomState>(),
                n <= 36,
                self.free_cell matches Some(card) ==> in_deck(card),
                scanned == self@.cell_units().add(units_upto(self@.tableau, i as int)),
                n == self@.cell_units().len() + count_upto(self@.tableau, i as int),
                forall|c: Card| scanned.count(c) <= 1,
                forall|c: Card| #[trigger] seen@.contains(key_of(c)) == (scanned.count(c) > 0),
                forall|a: int, b: int|
                    0 <= a < i && 0 <= b < self@.tableau[a].len() ==> in_deck(
                        #[trigger] self@.tableau[a][b],
                    ),
                units(self@.tableau).len() == count(self@.tableau),
            decreases 9 - i,
        {
            let pile = &self.tableau[i];
            assert(pile@ == self@.tableau[i as int]);
            let ghost before = scanned;
            let mut j: usize = 0;
            proof {
                pile@.take(0).to_multiset_ensures();
                vstd::multiset::lemma_multiset_empty_len(pile@.take(0).to_multiset());
            }
            assert(pile@.take(0).to_multiset() =~= Multiset::empty());
            assert(scanned =~= before.add(pile@.take(0).to_multiset()));
            while j < pile.len()
                invariant
                    j <= pile.len(),
                    i < 9,
                    obeys_key_model::<usize>(),
                builds_valid_hashers::<RandomState>(),
                    n <= 36,
                    pile@ == self@.tableau[i as int],
                    self.free_cell matches Some(card) ==> in_deck(card),
                    before == self@.cell_units().add(units_upto(self@.tableau, i as int)),
                    scanned == before.add(pile@.take(j as int).to_multiset()),
                    n == self@.cell_units().len() + count_upto(self@.tableau, i as int) + j,
                    forall|c: Card| scanned.count(c) <= 1,
                    forall|c: Card| #[trigger] seen@.contains(key_of(c)) == (scanned.count(c) > 0),
                    forall|b: int| 0 <= b < j ==> in_deck(#[trigger] pile@[b]),
                    units(self@.tableau).len() == count(self@.tableau),
                decreases pile.len() - j,
            {
                let card = pile[j];
                let number: u8 = card.rank.number();
                if 2 <= number && number <= 5 {
                    assert(!in_deck(self@.tableau[i as int][j as int]));
                    return false;
                }
                proof {
                    scanned_within(self@.tableau, i as int, j + 1, 9);
                    assert(pile@.take(j + 1) == pile@.take(j as int).push(card));
                    pile@.take(j as int).to_multiset_ensures();
                    assert(pile@.take(j as int).push(card).to_multiset() =~= pile@.take(
                        j as int,
                    ).to_multiset().insert(card));
                }
                let k: usize = card.code();
                let ghost was = seen@;
                proof {
                    assert(k == key_of(card));
                    assert(was.contains(key_of(card)) == (scanned.count(card) > 0));
                }
                // If the insert returns `false`, the card was seen before.
                if !seen.insert(k) {
                    proof {
                        assert(scanned.count(card) > 0);
                        let upto = units_upto(self@.tableau, i as int);
                        let part = pile@.take(j as int).to_multiset();
                        assert(upto.add(pile@.take(j + 1).to_multiset()).count(card)
                            <= units_upto(self@.tableau, 9).count(card));
                        assert(pile@.take(j + 1).to_multiset().count(card) == part.count(card) + 1);
                        assert(scanned.count(card) == self@.cell_units().count(card) + upto.count(
                            card,
                        ) + part.count(card));
                        assert(self@.units().count(card) == units_upto(self@.tableau, 9).count(card)
                            + self@.cell_units().count(card));
                        assert(self@.units().count(card) >= 2);
                    }
                    return false;
                }
                if n == 36 {
                    proof {
                        assert(self@.units().len() >= 37);
                    }
                    return false;
                }
                n = n + 1;
                proof {
                    let ghost prior = scanned;
                    scanned = scanned.insert(card);
                    assert(scanned =~= before.add(pile@.take(j + 1).to_multiset()));
                    assert forall|c: Card| #[trigger]
                        seen@.contains(key_of(c)) == (scanned.count(c) > 0) by {
                        assert(was.contains(key_of(c)) == (prior.count(c) > 0));
                        if key_of(c) == key_of(card) {
                            code_is_injective(c, card);
                        }
                    }
                }
                j = j + 1;
            }
            proof {
                assert(pile@.take(j as int) == pile@);
                assert(scanned =~= self@.cell_units().add(units_upto(self@.tableau, i + 1)));
                assert forall|a: int, b: int|
                    0 <= a < i + 1 && 0 <= b < self@.tableau[a].len() implies in_deck(
                    #[trigger] self@.tableau[a][b],
                ) by {
                    if a == i {
                        assert(in_deck(pile@[b]));
                    }
                }
            }
            i = i + 1;
        }
        proof {
            assert(scanned =~= self@.units());
        }
        n == 36
    }

    /// The short deck, shuffled and dealt out four cards to a column.
    fn random_tableau() -> (tableau: [Vec<Card>; 9])
        ensures
            forall|i: int| 0 <= i < 9 ==> (#[trigger] tableau[i])@.len() == 4,
            units(piles(tableau)) == spec_short_deck().to_multiset(),
    {
        let mut cards = short_deck();
        shuffle(&mut cards);
        proof {
            cards@.to_multiset_ensures();
            spec_short_deck().to_multiset_ensures();
        }
        let chunk_size: usize = cards.len() / 9;
        let first = take_hand(&mut cards, chunk_size);
        let second = take_hand(&mut cards, chunk_size);
        let third = take_hand(&mut cards, chunk_size);
        let fourth = take_hand(&mut cards, chunk_size);
        let fifth = take_hand(&mut cards, chunk_size);
        let sixth = take_hand(&mut cards, chunk_size);
        let seventh = take_hand(&mut cards, chunk_size);
        let eighth = take_hand(&mut cards, chunk_size);
        let ninth = take_hand(&mut cards, chunk_size);
        let ghost rest = cards@;
        let tableau = [first, second, third, fourth, fifth, sixth, seventh, eighth, ninth];
        proof {
            broadcast use vstd::multiset::group_multiset_axioms;

            rest.to_multiset_ensures();
            vstd::multiset::lemma_multiset_empty_len(rest.to_multiset());
            reveal_with_fuel(units_upto, 10);
            assert(units(piles(tableau)) =~= spec_short_deck().to_multiset());
        }
        tableau
    }

    /// A fresh game on a random deal of the short deck.
    pub fn default() -> (game: Self)
        ensures
            game@.valid(),
            game@.free_cell is None,
            game@.history.len() == 0,
            game@.units() == spec_short_deck().to_multiset(),
            forall|i: int| 0 <= i < 9 ==> (#[trigger] game@.tableau[i]).len() == 4,
    {
        let game = Self { free_cell: None, tableau: Self::random_tableau(), history: Vec::new() };
        proof {
            broadcast use vstd::multiset::group_multiset_axioms;

            short_deck_is_distinct();
            spec_short_deck().to_multiset_ensures();
            assert(game@.units() =~= spec_short_deck().to_multiset());
            assert forall|i: int, j: int|
                0 <= i < 9 && 0 <= j < game@.tableau[i].len() implies in_deck(
                #[trigger] game@.tableau[i][j],
            ) by {
                let pile = game@.tableau[i];
                let card = pile[j];
                scanned_within(game@.tableau, i, j + 1, 9);
                pile.take(j + 1).to_multiset_ensures();
                assert(pile.take(j + 1)[j] == card);
                assert(pile.take(j + 1).contains(card));
                assert(units_upto(game@.tableau, i).add(pile.take(j + 1).to_multiset()).count(card)
                    >= 1);
                assert(units_upto(game@.tableau, 9).count(card) >= 1);
                assert(spec_short_deck().contains(card));
                let k = choose|k: int| 0 <= k < 36 && spec_short_deck()[k] == card;
                assert(!(2 <= spec_short_deck()[k].rank.spec_number() <= 5));
            }
        }
        game
    }
}

impl State for ProletariatsPatience {
    type Action = Move;

    type Model = Position;

    type Step = Step;

    open spec fn model(&self) -> Position {
        self@
    }

    open spec fn step(action: &Move) -> Step {
        action@
    }

    open spec fn valid(m: Position) -> bool {
        m.valid()
    }

    open spec fn status(m: Position) -> Option<Outcome> {
        m.status()
    }

    open spec fn options(m: Position) -> Seq<Step> {
        m.legal()
    }

    open spec fn outcome(m: Position, s: Step) -> Position {
        m.apply(s)
    }

    open spec fn worth(m: Position) -> int {
        m.worth()
    }

    proof fn outcome_is_valid(m: Position, s: Step) {
        legal_fits(m, s);
        apply_keeps_units(m, s);
    }

    proof fn unfinished_iff_options(m: Position) {
    }

    fn end_status(&self) -> (status: Option<Outcome>) {
        if self.is_terminal() {
            if self.is_win() {
                Some(Outcome::Win)
            } else {
                Some(Outcome::Loss)
            }
        } else {
            None
        }
    }

    fn possible_actions(&self) -> (actions: Vec<Move>) {
        let actions = self.legal_moves();
        assert(actions@.map_values(|a: Move| Self::step(&a)) =~= steps_of(actions@));
        actions
    }

    fn act(&self, action: &Move) -> (next: Self) {
        proof {
            legal_fits(self@, action@);
            apply_keeps_units(self@, action@);
        }
        self.apply_move(action.clone())
    }

    fn evaluate(&self, print_components: bool) -> (score: Score) {
        match self.end_status() {
            Some(Outcome::Win) => Player.reward_when_outcome_is(&EndState::Win),
            Some(Outcome::Loss) => Player.reward_when_outcome_is(&EndState::Loss),
            None => self.heuristic_score(print_components),
        }
    }
}

/// The run at the top of a pile is part of the pile.
pub proof fn run_within_pile(pile: Seq<Card>)
    ensures
        run_len(pile) <= pile.len(),
        pile.len() > 0 ==> run_len(pile) >= 1,
    decreases pile.len(),
{
    if pile.len() >= 2 {
        run_within_pile(pile.drop_last());
    }
}

/// The offers of one run are moves of that run from its column to another,
/// at most one for each column.
pub proof fn prefix_offers_fit(p: Position, from: int, j: int, n: int)
    requires
        0 <= from < 9,
        0 <= n <= 9,
        1 <= j <= p.tableau[from].len(),
    ensures
        p.prefix_offers(from, j, n).len() <= n,
        forall|i: int|
            0 <= i < p.prefix_offers(from, j, n).len() ==> p.fits(
                #[trigger] p.prefix_offers(from, j, n)[i],
            ) && p.prefix_offers(from, j, n)[i].priority() == 1 + j,
    decreases n,
{
    if n > 0 {
        prefix_offers_fit(p, from, j, n - 1);
    }
}

/// The offers of the longest runs of a column fit the position; a run of
/// `j` cards has priority `j + 1`.
pub proof fn run_offers_fit(p: Position, from: int, done: int)
    requires
        0 <= from < 9,
        0 <= done <= run_len(p.tableau[from]),
    ensures
        p.run_offers(from, done).len() <= 9 * done,
        forall|i: int|
            0 <= i < p.run_offers(from, done).len() ==> p.fits(
                #[trigger] p.run_offers(from, done)[i],
            ) && 2 <= p.run_offers(from, done)[i].priority() <= 1 + p.tableau[from].len(),
    decreases done,
{
    run_within_pile(p.tableau[from]);
    if done > 0 {
        run_offers_fit(p, from, done - 1);
        prefix_offers_fit(p, from, run_len(p.tableau[from]) - (done - 1), 9);
    }
}

/// What a column gives rise to fits the position.
pub proof fn column_offers_fit(p: Position, from: int)
    requires
        0 <= from < 9,
    ensures
        p.column_offers(from).len() <= 1 + 9 * p.tableau[from].len(),
        forall|i: int|
            0 <= i < p.column_offers(from).len() ==> p.fits(#[trigger] p.column_offers(from)[i])
                && 0 <= p.column_offers(from)[i].priority() <= 1 + p.tableau[from].len(),
{
    let pile = p.tableau[from];
    run_within_pile(pile);
    if !(pile.len() == 0 || completed_face_stack(pile)) {
        run_offers_fit(p, from, run_len(pile) as int);
        assert(9 * run_len(pile) <= 9 * pile.len()) by (nonlinear_arith)
            requires
                run_len(pile) <= pile.len(),
        ;
    }
}

/// What the columns give rise to fits the position; no priority passes the
/// number of cards in the columns by more than one.
pub proof fn tableau_offers_fit(p: Position, n: int)
    requires
        0 <= n <= 9,
        p.tableau.len() == 9,
    ensures
        p.tableau_offers(n).len() <= n + 9 * count_upto(p.tableau, n),
        forall|i: int|
            0 <= i < p.tableau_offers(n).len() ==> p.fits(#[trigger] p.tableau_offers(n)[i]) && 0
                <= p.tableau_offers(n)[i].priority() <= 1 + count_upto(p.tableau, 9),
    decreases n,
{
    if n > 0 {
        tableau_offers_fit(p, n - 1);
        column_offers_fit(p, n - 1);
        pile_within_count(p.tableau, 9, n - 1);
    }
}

/// The offers of the free card fit the position.
pub proof fn cell_offers_fit(p: Position, n: int)
    requires
        0 <= n <= 9,
    ensures
        p.cell_offers(n).len() <= n,
        forall|i: int|
            0 <= i < p.cell_offers(n).len() ==> p.fits(#[trigger] p.cell_offers(n)[i])
                && p.cell_offers(n)[i].priority() == 1,
    decreases n,
{
    if n > 0 {
        cell_offers_fit(p, n - 1);
    }
}

/// Every candidate fits the position.
pub proof fn candidates_fit(p: Position)
    requires
        p.tableau.len() == 9,
    ensures
        p.candidates().len() <= 18 + 9 * count(p.tableau),
        forall|i: int|
            0 <= i < p.candidates().len() ==> p.fits(#[trigger] p.candidates()[i]) && 0
                <= p.candidates()[i].priority() <= 1 + count(p.tableau),
{
    tableau_offers_fit(p, 9);
    cell_offers_fit(p, 9);
}

/// Whatever is on offer fits the position.
pub proof fn legal_fits(p: Position, m: Step)
    requires
        p.tableau.len() == 9,
        p.legal().contains(m),
    ensures
        p.fits(m),
{
    let kept = p.candidates().filter(|m: Step| p.keeps(m));
    tiers_hold(kept, |m: Step| m.priority(), TOP_PRIORITY as int, 0, m);
    p.candidates().lemma_filter_contains_rev(|m: Step| p.keeps(m), m);
    candidates_fit(p);
}

/// A sound deal has thirty-six cards in its columns, or thirty-five and one
/// in the free cell.
pub proof fn valid_count(p: Position)
    requires
        p.valid(),
    ensures
        count(p.tableau) <= 36,
{
    broadcast use vstd::multiset::group_multiset_axioms;

    units_len(p.tableau, 9);
}

/// In a sound deal the guards and the ordering drop or add no move: until
/// the game is won, as many moves are on offer as candidates pass the
/// guards; at most 342.
pub proof fn legal_is_short(p: Position)
    requires
        p.valid(),
    ensures
        !p.is_win() ==> p.legal().len() == p.candidates().filter(|m: Step| p.keeps(m)).len(),
        p.legal().len() <= 342,
{
    let kept = p.candidates().filter(|m: Step| p.keeps(m));
    valid_count(p);
    candidates_fit(p);
    p.candidates().lemma_filter_len(|m: Step| p.keeps(m));
    assert forall|i: int| 0 <= i < kept.len() implies 0 <= (#[trigger] kept[i]).priority()
        <= TOP_PRIORITY by {
        assert(kept.contains(kept[i]));
        p.candidates().lemma_filter_contains_rev(|m: Step| p.keeps(m), kept[i]);
    }
    arranged_len(kept, |m: Step| m.priority(), TOP_PRIORITY as int);
}

/// Lifting the top cards off pile `i` takes those cards out of the tableau.
pub proof fn units_after_lift(tableau: Seq<Seq<Card>>, i: int, k: int)
    requires
        0 <= i < tableau.len(),
        0 <= k <= tableau[i].len(),
    ensures
        units(tableau.update(i, tableau[i].take(k))).add(tableau[i].skip(k).to_multiset()) == units(
            tableau,
        ),
{
    let pile = tableau[i];
    units_of_update(tableau, i, pile.take(k), tableau.len() as int);
    let next = tableau.update(i, pile.take(k));
    assert(next.len() == tableau.len());
    lemma_multiset_commutative(pile.take(k), pile.skip(k));
    assert(pile.take(k) + pile.skip(k) == pile);
    assert forall|c: Card|
        units(next).add(pile.skip(k).to_multiset()).count(c) == units(tableau).count(c) by {
        assert(units(next).add(pile.to_multiset()).count(c) == units(tableau).add(
            pile.take(k).to_multiset(),
        ).count(c));
    }
    assert(units(next).add(pile.skip(k).to_multiset()) =~= units(tableau));
}

/// Putting cards on pile `i` adds those cards to the tableau.
pub proof fn units_after_drop(tableau: Seq<Seq<Card>>, i: int, cards: Seq<Card>)
    requires
        0 <= i < tableau.len(),
    ensures
        units(tableau.update(i, tableau[i] + cards)) == units(tableau).add(cards.to_multiset()),
{
    let pile = tableau[i];
    units_of_update(tableau, i, pile + cards, tableau.len() as int);
    let next = tableau.update(i, pile + cards);
    assert(next.len() == tableau.len());
    lemma_multiset_commutative(pile, cards);
    assert forall|c: Card|
        units(next).count(c) == units(tableau).add(cards.to_multiset()).count(c) by {
        assert(units(next).add(pile.to_multiset()).count(c) == units(tableau).add(
            (pile + cards).to_multiset(),
        ).count(c));
    }
    assert(units(next) =~= units(tableau).add(cards.to_multiset()));
}

/// A move that fits a sound deal carries its cards from one place to
/// another: the cards of the game stay the same, and the deal stays sound.
pub proof fn apply_keeps_units(p: Position, m: Step)
    requires
        p.valid(),
        p.fits(m),
    ensures
        p.apply(m).units() == p.units(),
        p.apply(m).valid(),
{
    broadcast use vstd::multiset::group_multiset_axioms;

    let next = p.apply(m);
    match m {
        Step::Free { card, from } => {
            units_after_pop(p.tableau, from as int);
            assert(next.units() =~= p.units());
        },
        Step::Unfree { card, to } => {
            units_after_push(p.tableau, to as int, card);
            assert(next.units() =~= p.units());
        },
        Step::Stack { cards, from, to } => {
            let pile = p.tableau[from as int];
            let k = pile.len() - cards.len();
            let lifted = p.tableau.update(from as int, pile.take(k));
            units_after_lift(p.tableau, from as int, k);
            units_after_drop(lifted, to as int, cards);
            assert(next.units() =~= p.units());
            assert forall|i: int, j: int| 0 <= i < 9 && 0 <= j < next.tableau[i].len() implies in_deck(
                #[trigger] next.tableau[i][j],
            ) by {
                if i == to as int {
                    if j < lifted[i].len() {
                        if i == from as int {
                            assert(next.tableau[i][j] == p.tableau[i][j]);
                        } else {
                            assert(next.tableau[i][j] == p.tableau[i][j]);
                        }
                    } else {
                        assert(next.tableau[i][j] == cards[j - lifted[i].len()]);
                        assert(cards[j - lifted[i].len()] == p.tableau[from as int][k + (j
                            - lifted[i].len())]);
                    }
                } else if i == from as int {
                    assert(next.tableau[i][j] == p.tableau[i][j]);
                } else {
                    assert(next.tableau[i][j] == p.tableau[i][j]);
                }
            }
        },
    }
}

/// Taking back a move that fitted the position restores the position,
/// history included.
pub proof fn revert_undoes_apply(p: Position, m: Step)
    requires
        p.tableau.len() == 9,
        p.fits(m),
    ensures
        p.apply(m).can_revert(m),
        p.apply(m).revert(m) == p,
{
    let next = p.apply(m);
    let back = next.revert(m);
    assert(back.history =~= p.history);
    match m {
        Step::Free { card, from } => {
            let pile = p.tableau[from as int];
            assert(pile.drop_last().push(card) =~= pile);
            assert(back.tableau =~= p.tableau);
        },
        Step::Unfree { card, to } => {
            let pile = p.tableau[to as int];
            assert(pile.push(card).drop_last() =~= pile);
            assert(back.tableau =~= p.tableau);
        },
        Step::Stack { cards, from, to } => {
            let pile = p.tableau[from as int];
            let k = pile.len() - cards.len();
            assert(pile.take(k) + cards =~= pile);
            let target = next.tableau[to as int];
            if from == to {
                assert(target.take(target.len() - cards.len()) =~= pile.take(k));
            } else {
                assert(target.take(target.len() - cards.len()) =~= p.tableau[to as int]);
            }
            assert(back.tableau =~= p.tableau);
        },
    }
}

/// Conservation. Along every playable path from a sound deal the cards of
/// the game stay the same: none appears twice, none vanishes.
pub proof fn play_keeps_units(p: Position, path: Seq<Step>)
    requires
        p.valid(),
        playable::<ProletariatsPatience>(p, path),
    ensures
        arrival::<ProletariatsPatience>(p, path).units() == p.units(),
        arrival::<ProletariatsPatience>(p, path).valid(),
    decreases path.len(),
{
    if path.len() > 0 {
        legal_fits(p, path[0]);
        apply_keeps_units(p, path[0]);
        play_keeps_units(p.apply(path[0]), path.drop_first());
    }
}

/// Inverse law. Taking back a move that was on offer restores the position.
pub proof fn revert_undoes_legal_move(p: Position, m: Step)
    requires
        p.tableau.len() == 9,
        p.legal().contains(m),
    ensures
        p.apply(m).can_revert(m),
        p.apply(m).revert(m) == p,
        p.apply(m).revert(m).same_state(p),
{
    legal_fits(p, m);
    revert_undoes_apply(p, m);
}

/// Terminal classification. The game goes on exactly as long as a move is
/// on offer.
pub proof fn unfinished_iff_moves(p: Position)
    ensures
        p.status() is None <==> p.legal().len() > 0,
{
}

/// No more columns are completed than there are.
pub proof fn stacks_within_columns(p: Position, n: int)
    requires
        0 <= n,
    ensures
        p.number_stacks(n) + p.face_stacks(n) <= n,
    decreases n,
{
    if n > 0 {
        stacks_within_columns(p, n - 1);
    }
}

/// No more cards rest in runs than lie in the columns.
pub proof fn progress_within_count(p: Position, n: int)
    requires
        0 <= n,
    ensures
        p.progress(n) <= count_upto(p.tableau, n),
    decreases n,
{
    if n > 0 {
        progress_within_count(p, n - 1);
        run_within_pile(p.tableau[n - 1]);
    }
}

/// An unfinished game of a sound deal is worth at most 333 points.
pub proof fn heuristic_is_bounded(p: Position)
    requires
        p.valid(),
    ensures
        p.heuristic() <= 1332,
{
    legal_is_short(p);
    valid_count(p);
    stacks_within_columns(p, 9);
    progress_within_count(p, 9);
}

/// Evaluator ordering. A won game outscores every game of a sound deal that
/// is not won.
pub proof fn win_outscores(won: Position, other: Position)
    requires
        won.status() == Some(Outcome::Win),
        other.valid(),
        other.status() != Some(Outcome::Win),
    ensures
        won.worth() > other.worth(),
{
    heuristic_is_bounded(other);
}

/// Nothing enters a full free cell.
pub proof fn full_cell_takes_no_card(p: Position, m: Step)
    requires
        p.tableau.len() == 9,
        p.free_cell is Some,
        p.legal().contains(m),
    ensures
        !(m is Free),
{
    legal_fits(p, m);
}

/// Every move on offer passes the guards against cycles: it was not made
/// within the last eight turns, does not carry the cards that moved last,
/// and takes nothing out of the free cell right after a card went in.
pub proof fn offers_pass_guards(p: Position, m: Step)
    requires
        p.legal().contains(m),
    ensures
        p.keeps(m),
        p.candidates().contains(m),
{
    let keeps = |m: Step| p.keeps(m);
    let kept = p.candidates().filter(keeps);
    tiers_hold(kept, |m: Step| m.priority(), TOP_PRIORITY as int, 0, m);
    let i = choose|i: int| 0 <= i < kept.len() && kept[i] == m;
    p.candidates().lemma_filter_pred(keeps, i);
    p.candidates().lemma_filter_contains_rev(keeps, m);
}

/// In a sound deal that is not won a candidate that passes the guards is on
/// offer.
pub proof fn guarded_candidates_are_offered(p: Position, m: Step)
    requires
        p.valid(),
        !p.is_win(),
        p.candidates().contains(m),
        p.keeps(m),
    ensures
        p.legal().contains(m),
{
    let keeps = |m: Step| p.keeps(m);
    let kept = p.candidates().filter(keeps);
    let i = choose|i: int| 0 <= i < p.candidates().len() && p.candidates()[i] == m;
    p.candidates().lemma_filter_contains(keeps, i);
    candidates_fit(p);
    valid_count(p);
    tiers_hold(kept, |m: Step| m.priority(), TOP_PRIORITY as int, 0, m);
}

proof fn units_of_columns(tableau: Seq<Seq<Card>>, k: int)
    requires
        tableau.len() == 9,
        0 <= k <= 9,
        forall|i: int| 0 <= i < 9 ==> (#[trigger] tableau[i]).len() == 4,
    ensures
        units_upto(tableau, k) == Seq::new((4 * k) as nat, |n: int| card_at(tableau, n)).to_multiset(),
    decreases k,
{
    broadcast use vstd::multiset::group_multiset_axioms;

    let flat = Seq::new((4 * k) as nat, |n: int| card_at(tableau, n));
    if k == 0 {
        flat.to_multiset_ensures();
        vstd::multiset::lemma_multiset_empty_len(flat.to_multiset());
        assert(units_upto(tableau, k) =~= flat.to_multiset());
    } else {
        units_of_columns(tableau, k - 1);
        let before = Seq::new((4 * (k - 1)) as nat, |n: int| card_at(tableau, n));
        assert(flat =~= before + tableau[k - 1]);
        lemma_multiset_commutative(before, tableau[k - 1]);
    }
}

/// Nine columns of four cards of the short deck, no two of them alike, are
/// a sound deal.
pub proof fn distinct_deal_is_valid(p: Position)
    requires
        p.tableau.len() == 9,
        p.free_cell is None,
        forall|i: int| 0 <= i < 9 ==> (#[trigger] p.tableau[i]).len() == 4,
        forall|n: int| 0 <= n < 36 ==> in_deck(#[trigger] card_at(p.tableau, n)),
        forall|m: int, n: int|
            0 <= m < n < 36 ==> (#[trigger] card_at(p.tableau, m)).spec_code() != (
            #[trigger] card_at(p.tableau, n)).spec_code(),
    ensures
        p.valid(),
{
    broadcast use vstd::multiset::group_multiset_axioms;

    let flat = Seq::new(36, |n: int| card_at(p.tableau, n));
    units_of_columns(p.tableau, 9);
    assert forall|m: int, n: int| 0 <= m < flat.len() && 0 <= n < flat.len() && m != n implies flat[m]
        != flat[n] by {
        if m < n {
            assert(card_at(p.tableau, m).spec_code() != card_at(p.tableau, n).spec_code());
        } else {
            assert(card_at(p.tableau, n).spec_code() != card_at(p.tableau, m).spec_code());
        }
    }
    flat.lemma_multiset_has_no_duplicates();
    flat.to_multiset_ensures();
    assert(p.units() =~= flat.to_multiset());
    assert forall|i: int, j: int| 0 <= i < 9 && 0 <= j < p.tableau[i].len() implies in_deck(
        #[trigger] p.tableau[i][j],
    ) by {
        assert(card_at(p.tableau, 4 * i + j) == p.tableau[i][j]);
    }
}

proof fn prefix_offers_hold(p: Position, from: int, j: int, n: int, m: Step)
    requires
        0 <= from < 9,
        0 <= n <= 9,
        1 <= j <= p.tableau[from].len(),
    ensures
        p.prefix_offers(from, j, n).contains(m) <==> (m matches Step::Stack { cards, from: f, to }
            && f == from && to < n && cards == p.run(from, j) && p.offers_target(
            from,
            j,
            to as int,
            p.prefix_offers(from, j, to as int).len() > 0,
        )),
    decreases n,
{
    if n > 0 {
        prefix_offers_hold(p, from, j, n - 1, m);
        let before = p.prefix_offers(from, j, n - 1);
        if p.offers_target(from, j, n - 1, before.len() > 0) {
            push_holds(
                before,
                Step::Stack { cards: p.run(from, j), from: from as usize, to: (n - 1) as usize },
                m,
            );
        }
    }
}

proof fn run_offers_hold(p: Position, from: int, done: int, m: Step)
    requires
        0 <= from < 9,
        0 <= done <= run_len(p.tableau[from]),
    ensures
        p.run_offers(from, done).contains(m) <==> (m matches Step::Stack { cards, from: f, to }
            && f == from && to < 9 && run_len(p.tableau[from]) - done < cards.len() <= run_len(
            p.tableau[from],
        ) && cards == p.run(from, cards.len() as int) && p.offers_target(
            from,
            cards.len() as int,
            to as int,
            p.prefix_offers(from, cards.len() as int, to as int).len() > 0,
        )),
    decreases done,
{
    run_within_pile(p.tableau[from]);
    if done > 0 {
        let j = run_len(p.tableau[from]) - (done - 1);
        run_offers_hold(p, from, done - 1, m);
        prefix_offers_hold(p, from, j, 9, m);
        add_holds(p.run_offers(from, done - 1), p.prefix_offers(from, j, 9), m);
        assert(p.run(from, j).len() == j);
    }
}

proof fn column_offers_hold(p: Position, from: int, m: Step)
    requires
        0 <= from < 9,
    ensures
        p.column_offers(from).contains(m) <==> p.allows(m) && !(m is Unfree) && (m matches Step::Free {
            from: f,
            ..
        } ==> f == from) && (m matches Step::Stack { from: f, .. } ==> f == from),
{
    let pile = p.tableau[from];
    run_within_pile(pile);
    if !(pile.len() == 0 || completed_face_stack(pile)) {
        run_offers_hold(p, from, run_len(pile) as int, m);
        add_holds(p.free_offer(from), p.run_offers(from, run_len(pile) as int), m);
        if p.free_cell is None {
            let only = Step::Free { card: p.top(from), from: from as usize };
            push_holds(Seq::empty(), only, m);
            assert(seq![only] =~= Seq::empty().push(only));
        }
    }
}

proof fn tableau_offers_hold(p: Position, n: int, m: Step)
    requires
        0 <= n <= 9,
    ensures
        p.tableau_offers(n).contains(m) <==> p.allows(m) && !(m is Unfree) && (m matches Step::Free {
            from: f,
            ..
        } ==> f < n) && (m matches Step::Stack { from: f, .. } ==> f < n),
    decreases n,
{
    if n > 0 {
        tableau_offers_hold(p, n - 1, m);
        column_offers_hold(p, n - 1, m);
        add_holds(p.tableau_offers(n - 1), p.column_offers(n - 1), m);
    }
}

proof fn cell_offers_hold(p: Position, n: int, m: Step)
    requires
        0 <= n <= 9,
    ensures
        p.cell_offers(n).contains(m) <==> (m matches Step::Unfree { to, .. } && to < n && p.allows(
            m,
        )),
    decreases n,
{
    if n > 0 {
        cell_offers_hold(p, n - 1, m);
        if p.takes_free_card(n - 1) {
            push_holds(
                p.cell_offers(n - 1),
                Step::Unfree { card: p.free_cell.unwrap(), to: (n - 1) as usize },
                m,
            );
        }
    }
}

/// In a sound deal the moves on offer are exactly those that the rules of
/// movement allow and that pass the guards against cycles, as long as the
/// game is not won.
pub proof fn offered_iff_allowed(p: Position, m: Step)
    requires
        p.valid(),
    ensures
        p.candidates().contains(m) <==> p.allows(m),
        p.legal().contains(m) <==> !p.is_win() && p.allows(m) && p.keeps(m),
{
    tableau_offers_hold(p, 9, m);
    cell_offers_hold(p, 9, m);
    add_holds(p.tableau_offers(9), p.cell_offers(9), m);
    if p.legal().contains(m) {
        offers_pass_guards(p, m);
    }
    if !p.is_win() && p.allows(m) && p.keeps(m) {
        guarded_candidates_are_offered(p, m);
    }
}

} // verus!
