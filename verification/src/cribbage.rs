//! Cribbage solitaire: cards are played one at a time from four columns onto
//! a running stack whose pip total may not pass 31; sets and exact totals
//! score points, and 61 points win.

use crate::deal::{default_deck_is_distinct, shuffle, take_hand};
use crate::game::{
    arrival, code_is_injective, piles, playable, Card, EndState, Rank, Score, State, Suit,
};
use crate::order::push_holds;
use crate::piles::{scanned_within, units_upto};
use crate::text::{is_space, text_of, upper, upper_case, white_space};
use std::hash::Hash;
use std::hash::Hasher;
use vstd::multiset::Multiset;
use vstd::prelude::*;

verus! {

#[derive(Copy, Clone, Debug, Eq, Hash, PartialEq, Structural)]
pub enum Column {
    One,
    Two,
    Three,
    Four,
}

impl Column {
    /// Position of the column in the tableau, counted from 0.
    pub open spec fn spec_ordinal(self) -> int {
        match self {
            Column::One => 0,
            Column::Two => 1,
            Column::Three => 2,
            Column::Four => 3,
        }
    }

    pub fn ordinal(self) -> (k: usize)
        ensures
            k == self.spec_ordinal(),
            k < 4,
    {
        match self {
            Column::One => 0,
            Column::Two => 1,
            Column::Three => 2,
            Column::Four => 3,
        }
    }

    /// The column at a position; positions past the third give the fourth.
    pub open spec fn spec_at(k: int) -> Column {
        if k <= 0 {
            Column::One
        } else if k == 1 {
            Column::Two
        } else if k == 2 {
            Column::Three
        } else {
            Column::Four
        }
    }

    pub fn at(k: usize) -> (column: Column)
        ensures
            column == Column::spec_at(k as int),
    {
        if k == 0 {
            Column::One
        } else if k == 1 {
            Column::Two
        } else if k == 2 {
            Column::Three
        } else {
            Column::Four
        }
    }
}

#[derive(Copy, Clone, Debug, Eq, Hash, PartialEq, Structural)]
pub enum Move {
    NewStack,
    Add { column: Column, card: Card },
}

/// What a won game is worth beyond its score, in quarter points: more than
/// any score.
pub const WIN_BONUS: Score = 1024;

/// Where the reading of a layout stands: the rank and the suit read since
/// the last card, the column that the next card goes to, and the columns.
pub struct Reading {
    pub rank: Option<Rank>,
    pub suit: Option<Suit>,
    pub column: int,
    pub tableau: Seq<Seq<Card>>,
}

/// Sum of the pip values of some cards.
pub open spec fn pip_total(cards: Seq<Card>) -> int
    decreases cards.len(),
{
    if cards.len() == 0 {
        0
    } else {
        pip_total(cards.drop_last()) + cards.last().spec_value()
    }
}

/// How many cards at the top of `stack` have the given rank.
pub open spec fn trailing(stack: Seq<Card>, rank: Rank) -> int
    decreases stack.len(),
{
    if stack.len() == 0 || stack.last().rank != rank {
        0
    } else {
        1 + trailing(stack.drop_last(), rank)
    }
}

/// Points for playing a card onto `matches` cards of its own rank: a pair
/// scores 2, three alike 6, four alike 12.
pub open spec fn set_bonus(matches: int) -> int {
    if matches <= 0 {
        0
    } else if matches == 1 {
        2
    } else if matches == 2 {
        6
    } else {
        12
    }
}

/// How many cards of a rank a collection of cards holds.
pub open spec fn copies(cards: Multiset<Card>, rank: Rank) -> nat {
    cards.count(Card { suit: Suit::Heart, rank }) + cards.count(Card { suit: Suit::Diamond, rank })
        + cards.count(Card { suit: Suit::Club, rank }) + cards.count(
        Card { suit: Suit::Spade, rank },
    )
}

/// The reading before the first character: nothing read, the first column
/// next, the columns empty.
pub open spec fn read_start() -> Reading {
    Reading {
        rank: None,
        suit: None,
        column: 0,
        tableau: seq![Seq::empty(), Seq::empty(), Seq::empty(), Seq::empty()],
    }
}

/// The reading after one more character `c`, given what was found out of
/// it: whether it follows a `1`, whether it is white space, and what text
/// it is in upper case. White space is passed over. A character whose text
/// names a rank or a suit is taken down, a `0` behind a `1` as the ten. Once
/// a rank and a suit are known, their card goes to the next column in turn.
pub open spec fn read_on(
    before: Reading,
    c: char,
    after_one: bool,
    space: bool,
    symbol: Seq<char>,
) -> Reading {
    if space {
        before
    } else {
        let rank = if c == '0' && after_one {
            Some(Rank::Ten)
        } else {
            match Rank::spec_from_symbol(symbol) {
                Some(rank) => Some(rank),
                None => before.rank,
            }
        };
        let suit = match Suit::spec_from_symbol(symbol) {
            Some(suit) => Some(suit),
            None => before.suit,
        };
        if rank is Some && suit is Some {
            Reading {
                rank: None,
                suit: None,
                column: (before.column + 1) % 4,
                tableau: before.tableau.update(
                    before.column,
                    before.tableau[before.column].push(
                        Card { suit: suit.unwrap(), rank: rank.unwrap() },
                    ),
                ),
            }
        } else {
            Reading { rank, suit, column: before.column, tableau: before.tableau }
        }
    }
}

/// The reading of the first `n` characters of a layout.
pub open spec fn read(text: Seq<char>, n: int) -> Reading
    decreases n,
{
    if n <= 0 {
        read_start()
    } else {
        read_on(
            read(text, n - 1),
            text[n - 1],
            n >= 2 && text[n - 2] == '1',
            white_space(text[n - 1]),
            upper_case(seq![text[n - 1]]),
        )
    }
}

/// The cards that a history of moves has played.
pub open spec fn played(history: Seq<Move>) -> Multiset<Card>
    decreases history.len(),
{
    if history.len() == 0 {
        Multiset::empty()
    } else {
        match history.last() {
            Move::Add { card, .. } => played(history.drop_last()).insert(card),
            Move::NewStack => played(history.drop_last()),
        }
    }
}

/// The cards of the deal: those still in the columns and those played.
pub open spec fn dealt(t: Table) -> Multiset<Card> {
    played(t.history).add(t.tableau[0].to_multiset()).add(t.tableau[1].to_multiset()).add(
        t.tableau[2].to_multiset(),
    ).add(t.tableau[3].to_multiset())
}

/// How often a card lies at the first `n` places of a deal of four columns
/// of thirteen, counted column by column.
pub open spec fn occurrences(tableau: Seq<Seq<Card>>, card: Card, n: int) -> nat
    decreases n,
{
    if n <= 0 {
        0
    } else {
        occurrences(tableau, card, n - 1) + if tableau[(n - 1) / 13][(n - 1) % 13] == card {
            1nat
        } else {
            0nat
        }
    }
}

/// How often a rank lies in a deal of four columns of thirteen.
pub open spec fn rank_occurrences(tableau: Seq<Seq<Card>>, rank: Rank) -> nat {
    occurrences(tableau, Card { suit: Suit::Heart, rank }, 52) + occurrences(
        tableau,
        Card { suit: Suit::Diamond, rank },
        52,
    ) + occurrences(tableau, Card { suit: Suit::Club, rank }, 52) + occurrences(
        tableau,
        Card { suit: Suit::Spade, rank },
        52,
    )
}

/// How many of the first `n` places of a deal hold a card of a rank.
pub open spec fn rank_places(tableau: Seq<Seq<Card>>, rank: Rank, n: int) -> nat
    decreases n,
{
    if n <= 0 {
        0
    } else {
        rank_places(tableau, rank, n - 1) + if tableau[(n - 1) / 13][(n - 1) % 13].rank == rank {
            1nat
        } else {
            0nat
        }
    }
}

/// How many of the first `n` places carry a label.
pub open spec fn label_places(label: Seq<int>, x: int, n: int) -> nat
    decreases n,
{
    if n <= 0 {
        0
    } else {
        label_places(label, x, n - 1) + if label[n - 1] == x {
            1nat
        } else {
            0nat
        }
    }
}

/// The mathematical value of a game of cribbage solitaire.
pub struct Table {
    pub score: int,
    pub stack: Seq<Card>,
    pub tableau: Seq<Seq<Card>>,
    pub history: Seq<Move>,
}

impl Table {
    /// The cards in play: those on the stack and those still in the columns.
    pub open spec fn units(self) -> Multiset<Card> {
        self.stack.to_multiset().add(self.tableau[0].to_multiset()).add(
            self.tableau[1].to_multiset(),
        ).add(self.tableau[2].to_multiset()).add(self.tableau[3].to_multiset())
    }

    /// A sound game: four columns, a stack within the limit of 31, a score
    /// that fits a byte, and no rank held more than four times.
    pub open spec fn valid(self) -> bool {
        &&& self.tableau.len() == 4
        &&& 0 <= self.score <= 255
        &&& pip_total(self.stack) <= 31
        &&& forall|rank: Rank| copies(self.units(), rank) <= 4
    }

    pub open spec fn top(self, column: Column) -> Option<Card> {
        let pile = self.tableau[column.spec_ordinal()];
        if pile.len() > 0 {
            Some(pile.last())
        } else {
            None
        }
    }

    pub open spec fn remaining(self) -> nat {
        self.tableau[0].len() + self.tableau[1].len() + self.tableau[2].len()
            + self.tableau[3].len()
    }

    /// The top card of the column can be played without passing 31.
    pub open spec fn fits(self, column: Column) -> bool {
        self.top(column) matches Some(card) && pip_total(self.stack) + card.spec_value() <= 31
    }

    /// The plays offered by the first `n` columns, in column order.
    pub open spec fn plays(self, n: int) -> Seq<Move>
        decreases n,
    {
        if n <= 0 {
            Seq::empty()
        } else {
            let column = Column::spec_at(n - 1);
            if self.fits(column) {
                self.plays(n - 1).push(Move::Add { column, card: self.top(column).unwrap() })
            } else {
                self.plays(n - 1)
            }
        }
    }

    /// Once the columns are empty the game is over and nothing is on offer.
    /// Until then every top card that fits must be offered; where none fits,
    /// the only move is to start a new stack.
    pub open spec fn legal_moves(self) -> Seq<Move> {
        if self.remaining() == 0 {
            Seq::empty()
        } else if self.plays(4).len() == 0 {
            seq![Move::NewStack]
        } else {
            self.plays(4)
        }
    }

    /// Points scored by playing `card`: 2 for a jack that opens a stack, 2
    /// for bringing the total to exactly 15 or 31, and the set bonus.
    pub open spec fn gain(self, card: Card) -> int {
        let total = pip_total(self.stack) + card.spec_value();
        (if self.stack.len() == 0 && card.rank == Rank::Jack {
            2int
        } else {
            0int
        }) + (if total == 15 || total == 31 {
            2int
        } else {
            0int
        }) + set_bonus(trailing(self.stack, card.rank))
    }

    /// The move can be carried out: a played card is the top card of its
    /// column, keeps the stack within 31 and is at most the fourth of a set.
    pub open spec fn can_apply(self, mv: Move) -> bool {
        match mv {
            Move::NewStack => true,
            Move::Add { column, card } => {
                &&& self.top(column) == Some(card)
                &&& pip_total(self.stack) + card.spec_value() <= 31
                &&& trailing(self.stack, card.rank) <= 3
            },
        }
    }

    /// The game after a move. The score stops at 255.
    pub open spec fn apply(self, mv: Move) -> Table {
        match mv {
            Move::NewStack => Table {
                score: self.score,
                stack: Seq::empty(),
                tableau: self.tableau,
                history: self.history.push(mv),
            },
            Move::Add { column, card } => Table {
                score: if self.score + self.gain(card) > 255 {
                    255
                } else {
                    self.score + self.gain(card)
                },
                stack: self.stack.push(card),
                tableau: self.tableau.update(
                    column.spec_ordinal(),
                    self.tableau[column.spec_ordinal()].drop_last(),
                ),
                history: self.history.push(mv),
            },
        }
    }

    /// The game is over once the columns are empty; 61 points win it.
    pub open spec fn status(self) -> Option<EndState> {
        if self.remaining() == 0 {
            if self.score >= 61 {
                Some(EndState::Win)
            } else {
                Some(EndState::Loss)
            }
        } else {
            None
        }
    }

    /// The score so far, in quarter points; a won game is worth 256 points
    /// more, which is more than any score.
    pub open spec fn worth(self) -> int {
        if self.status() == Some(EndState::Win) {
            4 * self.score + WIN_BONUS
        } else {
            4 * self.score
        }
    }

    /// What makes two games the same state: everything but the history.
    pub open spec fn same_state(self, other: Table) -> bool {
        self.score == other.score && self.stack == other.stack && self.tableau == other.tableau
    }

    /// The stack and the columns, one pile after the other.
    pub open spec fn all_piles(self) -> Seq<Seq<Card>> {
        seq![self.stack, self.tableau[0], self.tableau[1], self.tableau[2], self.tableau[3]]
    }
}

/// Reads a printed layout character by character.
pub struct Reader {
    rank: Option<Rank>,
    suit: Option<Suit>,
    column: Column,
    tableau: [Vec<Card>; 4],
}

impl View for Reader {
    type V = Reading;

    closed spec fn view(&self) -> Reading {
        Reading {
            rank: self.rank,
            suit: self.suit,
            column: self.column.spec_ordinal(),
            tableau: piles(self.tableau),
        }
    }
}

impl Reader {
    pub fn new() -> (reader: Reader)
        ensures
            reader@ == read_start(),
    {
        let reader = Reader {
            rank: None,
            suit: None,
            column: Column::One,
            tableau: [Vec::new(), Vec::new(), Vec::new(), Vec::new()],
        };
        assert(reader@.tableau =~= read_start().tableau);
        reader
    }

    /// Takes one more character, given what was found out of it: whether
    /// it follows a `1`, whether it is white space, and what text it is in
    /// upper case.
    pub fn take(&mut self, c: char, after_one: bool, space: bool, symbol: &str)
        ensures
            final(self)@ == read_on(old(self)@, c, after_one, space, symbol@),
    {
        if space {
            return ;
        }
        if c == '0' && after_one {
            self.rank = Some(Rank::Ten);
        } else {
            match Rank::from_symbol(symbol) {
                Some(rank) => {
                    self.rank = Some(rank);
                },
                None => {},
            }
        }
        match Suit::from_symbol(symbol) {
            Some(suit) => {
                self.suit = Some(suit);
            },
            None => {},
        }
        match (self.rank, self.suit) {
            (Some(rank), Some(suit)) => {
                let ghost before = piles(self.tableau);
                let at: usize = self.column.ordinal();
                self.tableau[at].push(Card { rank, suit });
                assert(piles(self.tableau) =~= before.update(
                    at as int,
                    before[at as int].push(Card { rank, suit }),
                ));
                self.rank = None;
                self.suit = None;
                self.column = Column::at((at + 1) % 4);
            },
            _ => {},
        }
    }

    /// The columns read so far.
    pub fn tableau(self) -> (tableau: [Vec<Card>; 4])
        ensures
            piles(tableau) == self@.tableau,
    {
        self.tableau
    }
}

fn same_cards(a: &Vec<Card>, b: &Vec<Card>) -> (same: bool)
    ensures
        same == (a@ == b@),
{
    if a.len() != b.len() {
        return false;
    }
    let mut i: usize = 0;
    while i < a.len()
        invariant
            i <= a.len() == b.len(),
            a@.take(i as int) == b@.take(i as int),
        decreases a.len() - i,
    {
        if a[i] != b[i] {
            return false;
        }
        assert(a@.take(i + 1) == a@.take(i as int).push(a@[i as int]));
        assert(b@.take(i + 1) == b@.take(i as int).push(b@[i as int]));
        i = i + 1;
    }
    assert(a@.take(i as int) == a@ && b@.take(i as int) == b@);
    true
}

#[derive(Debug)]
pub struct CribbageSolitaire {
    score: u8,
    stack: Vec<Card>,
    tableau: [Vec<Card>; 4],
    history: Vec<Move>,
}

impl View for CribbageSolitaire {
    type V = Table;

    closed spec fn view(&self) -> Table {
        Table {
            score: self.score as int,
            stack: self.stack@,
            tableau: piles(self.tableau),
            history: self.history@,
        }
    }
}

impl PartialEq for CribbageSolitaire {
    /// Two games are equal when they hold the same cards in the same
    /// places with the same score, whatever moves led there.
    fn eq(&self, other: &Self) -> (same: bool) {
        if self.score != other.score || !same_cards(&self.stack, &other.stack) {
            return false;
        }
        let mut i: usize = 0;
        while i < 4
            invariant
                i <= 4,
                self.score == other.score,
                self.stack@ == other.stack@,
                forall|j: int| 0 <= j < i ==> self.tableau[j]@ == other.tableau[j]@,
            decreases 4 - i,
        {
            if !same_cards(&self.tableau[i], &other.tableau[i]) {
                assert(self@.tableau[i as int] != other@.tableau[i as int]);
                return false;
            }
            i = i + 1;
        }
        assert(self@.tableau =~= other@.tableau);
        true
    }
}

impl vstd::std_specs::cmp::PartialEqSpecImpl for CribbageSolitaire {
    open spec fn obeys_eq_spec() -> bool {
        true
    }

    open spec fn eq_spec(&self, other: &Self) -> bool {
        self@.same_state(other@)
    }
}

impl Eq for CribbageSolitaire {

}

impl Hash for CribbageSolitaire {
    /// `Hash::hash` of the standard library, on the triple of what equality
    /// compares: score, stack and tableau, not the history. Nothing is
    /// claimed of what the hasher takes from it.
    #[verifier::external_body]
    fn hash<H: Hasher>(&self, state: &mut H) {
        (&self.score, &self.stack, &self.tableau).hash(state)
    }
}

impl Clone for CribbageSolitaire {
    fn clone(&self) -> (copy: Self)
        ensures
            copy@ == self@,
    {
        proof {
            use_type_invariant(self);
        }
        let copy = Self {
            score: self.score,
            stack: self.stack.clone(),
            tableau: self.tableau.clone(),
            history: self.history.clone(),
        };
        assert(copy@.tableau =~= self@.tableau);
        copy
    }
}

impl CribbageSolitaire {
    #[verifier::type_invariant]
    closed spec fn within_limit(&self) -> bool {
        pip_total(self.stack@) <= 31
    }

    /// A fresh game on the given columns.
    pub fn new(tableau: [Vec<Card>; 4]) -> (game: Self)
        ensures
            game@ == (Table {
                score: 0,
                stack: Seq::empty(),
                tableau: piles(tableau),
                history: Seq::empty(),
            }),
    {
        Self { score: 0, stack: Vec::new(), tableau, history: Vec::new() }
    }

    pub fn apply_move(&self, mv: Move) -> (next: Self)
        requires
            self@.can_apply(mv),
        ensures
            next@ == self@.apply(mv),
    {
        let mut history = self.history.clone();
        history.push(mv);
        match mv {
            Move::NewStack => {
                let next = Self {
                    score: self.score,
                    stack: Vec::new(),
                    tableau: self.tableau.clone(),
                    history,
                };
                assert(next@.tableau =~= self@.tableau);
                next
            },
            Move::Add { column, card } => {
                let total: u8 = self.stack_total() + card.value();
                let mut gain: u8 = 0;
                if self.stack.len() == 0 && card.rank == Rank::Jack {
                    gain = gain + 2;
                }
                if total == 15 || total == 31 {
                    gain = gain + 2;
                }
                let mut below: usize = self.stack.len();
                let mut matches: u8 = 0;
                proof {
                    assert(self.stack@.take(below as int) == self.stack@);
                }
                while below > 0 && self.stack[below - 1].rank == card.rank
                    invariant
                        below <= self.stack.len(),
                        trailing(self.stack@, card.rank) == matches + trailing(
                            self.stack@.take(below as int),
                            card.rank,
                        ),
                        trailing(self.stack@, card.rank) <= 3,
                        matches <= 3,
                    decreases below,
                {
                    proof {
                        let part = self.stack@.take(below as int);
                        assert(part.drop_last() == self.stack@.take(below - 1));
                        trailing_within_copies(self.stack@.take(below - 1), card.rank);
                    }
                    matches = matches + 1;
                    below = below - 1;
                }
                proof {
                    if below > 0 {
                        assert(self.stack@.take(below as int).last() == self.stack@[below - 1]);
                    }
                }
                if matches == 1 {
                    gain = gain + 2;
                } else if matches == 2 {
                    gain = gain + 6;
                } else if matches == 3 {
                    gain = gain + 12;
                }
                assert(gain == self@.gain(card));
                let score: u8 = if gain > 255 - self.score {
                    255
                } else {
                    self.score + gain
                };
                let mut stack = self.stack.clone();
                stack.push(card);
                let mut tableau = self.tableau.clone();
                tableau[column.ordinal()].pop();
                proof {
                    assert(stack@.drop_last() == self.stack@);
                }
                let next = Self { score, stack, tableau, history };
                assert(next@.tableau =~= self@.apply(mv).tableau);
                next
            },
        }
    }

    /// The moves on offer, plays in column order; none once the game is over.
    pub fn legal_moves(&self) -> (moves: Vec<Move>)
        ensures
            moves@ == self@.legal_moves(),
    {
        let mut moves: Vec<Move> = Vec::new();
        if self.is_terminal() {
            return moves;
        }
        let total: u8 = self.stack_total();
        let mut k: usize = 0;
        while k < 4
            invariant
                k <= 4,
                total == pip_total(self@.stack),
                total <= 31,
                moves@ == self@.plays(k as int),
            decreases 4 - k,
        {
            let column = Column::at(k);
            let pile = &self.tableau[k];
            if pile.len() > 0 {
                let card = pile[pile.len() - 1];
                if total + card.value() <= 31 {
                    moves.push(Move::Add { column, card });
                }
            }
            k = k + 1;
        }
        if moves.len() == 0 {
            moves.push(Move::NewStack);
        }
        moves
    }

    /// The game is over once every column is empty.
    pub fn is_terminal(&self) -> (over: bool)
        ensures
            over == (self@.remaining() == 0),
    {
        self.tableau[0].len() == 0 && self.tableau[1].len() == 0 && self.tableau[2].len() == 0
            && self.tableau[3].len() == 0
    }

    pub fn score(&self) -> (score: u8)
        ensures
            score == self@.score,
    {
        self.score
    }

    pub fn stack(&self) -> (stack: &Vec<Card>)
        ensures
            stack@ == self@.stack,
    {
        &self.stack
    }

    pub fn tableau(&self) -> (tableau: &[Vec<Card>; 4])
        ensures
            piles(*tableau) == self@.tableau,
    {
        &self.tableau
    }

    pub fn history(&self) -> (history: &Vec<Move>)
        ensures
            history@ == self@.history,
    {
        &self.history
    }

    /// Number of cards left in the columns.
    pub fn remaining_cards(&self) -> (count: usize)
        requires
            self@.remaining() <= usize::MAX,
        ensures
            count == self@.remaining(),
    {
        self.tableau[0].len() + self.tableau[1].len() + self.tableau[2].len()
            + self.tableau[3].len()
    }

    pub fn peek_column(&self, column: Column) -> (top: Option<&Card>)
        ensures
            match top {
                Some(card) => self@.top(column) == Some(*card),
                None => self@.top(column) is None,
            },
    {
        let pile = &self.tableau[column.ordinal()];
        if pile.len() > 0 {
            Some(&pile[pile.len() - 1])
        } else {
            None
        }
    }

    /// Pip total of the stack; it never passes 31.
    pub fn stack_total(&self) -> (total: u8)
        ensures
            total == pip_total(self@.stack),
            total <= 31,
    {
        proof {
            use_type_invariant(self);
        }
        let mut total: u8 = 0;
        let mut i: usize = 0;
        while i < self.stack.len()
            invariant
                i <= self.stack.len(),
                total == pip_total(self.stack@.take(i as int)),
                pip_total(self.stack@) <= 31,
            decreases self.stack.len() - i,
        {
            proof {
                pip_total_of_prefix(self.stack@, i as int);
                pip_total_of_prefix(self.stack@, i + 1);
            }
            total = total + self.stack[i].value();
            i = i + 1;
        }
        proof {
            assert(self.stack@.take(self.stack.len() as int) == self.stack@);
        }
        total
    }

    /// The deck, shuffled and dealt out thirteen cards to a column.
    fn random_tableau() -> (tableau: [Vec<Card>; 4])
        ensures
            forall|i: int| 0 <= i < 4 ==> (#[trigger] tableau[i])@.len() == 13,
            tableau[0]@.to_multiset().add(tableau[1]@.to_multiset()).add(
                tableau[2]@.to_multiset(),
            ).add(tableau[3]@.to_multiset()) == Card::spec_default_deck().to_multiset(),
    {
        let mut cards = Card::default_deck();
        shuffle(&mut cards);
        proof {
            cards@.to_multiset_ensures();
            Card::spec_default_deck().to_multiset_ensures();
        }
        let chunk_size: usize = cards.len() / 4;
        let first = take_hand(&mut cards, chunk_size);
        let second = take_hand(&mut cards, chunk_size);
        let third = take_hand(&mut cards, chunk_size);
        let fourth = take_hand(&mut cards, chunk_size);
        let ghost rest = cards@;
        let tableau = [first, second, third, fourth];
        proof {
            broadcast use vstd::multiset::group_multiset_axioms;

            rest.to_multiset_ensures();
            vstd::multiset::lemma_multiset_empty_len(rest.to_multiset());
            assert(tableau[0]@.to_multiset().add(tableau[1]@.to_multiset()).add(
                tableau[2]@.to_multiset(),
            ).add(tableau[3]@.to_multiset()) =~= Card::spec_default_deck().to_multiset());
        }
        tableau
    }

    /// A fresh game on a random deal of the fifty-two cards.
    pub fn default() -> (game: Self)
        ensures
            game@.valid(),
            game@.score == 0,
            game@.stack.len() == 0,
            game@.history.len() == 0,
            game@.units() == Card::spec_default_deck().to_multiset(),
            forall|i: int| 0 <= i < 4 ==> (#[trigger] game@.tableau[i]).len() == 13,
    {
        let game = Self {
            score: 0,
            stack: Vec::new(),
            tableau: Self::random_tableau(),
            history: Vec::new(),
        };
        proof {
            broadcast use vstd::multiset::group_multiset_axioms;

            default_deck_is_distinct();
            game@.stack.to_multiset_ensures();
            vstd::multiset::lemma_multiset_empty_len(game@.stack.to_multiset());
            assert(game@.units() =~= Card::spec_default_deck().to_multiset());
        }
        game
    }

    /// A fresh game on the columns that a printed layout shows: cards are
    /// written as rank and suit, row by row, four to a row.
    pub fn from_str(input: &str) -> (game: Self)
        ensures
            game@ == (Table {
                score: 0,
                stack: Seq::empty(),
                tableau: read(input@, input@.len() as int).tableau,
                history: Seq::empty(),
            }),
    {
        let mut reader = Reader::new();
        let n: usize = input.unicode_len();
        let mut i: usize = 0;
        while i < n
            invariant
                i <= n == input@.len(),
                reader@ == read(input@, i as int),
            decreases n - i,
        {
            let c = input.get_char(i);
            let after_one: bool = i > 0 && input.get_char(i - 1) == '1';
            let symbol = upper(text_of(c).as_str());
            reader.take(c, after_one, is_space(c), symbol.as_str());
            i = i + 1;
        }
        Self::new(reader.tableau())
    }

    /// One of the five piles: the stack first, then the columns.
    fn pile(&self, i: usize) -> (pile: &Vec<Card>)
        requires
            i < 5,
        ensures
            pile@ == self@.all_piles()[i as int],
    {
        if i == 0 {
            &self.stack
        } else {
            &self.tableau[i - 1]
        }
    }

    /// Whether the game is sound: no rank is held more than four times.
    pub fn is_sound(&self) -> (ok: bool)
        ensures
            ok == self@.valid(),
    {
        broadcast use vstd::multiset::group_multiset_axioms;

        proof {
            use_type_invariant(self);
            units_of_all_piles(self@);
        }
        let mut tally: Vec<u8> = Vec::new();
        while tally.len() < 52
            invariant
                tally.len() <= 52,
                forall|k: int| 0 <= k < tally.len() ==> tally@[k] == 0,
            decreases 52 - tally.len(),
        {
            tally.push(0);
        }
        let ghost piles = self@.all_piles();
        let ghost mut scanned: Multiset<Card> = Multiset::empty();
        let mut i: usize = 0;
        while i < 5
            invariant
                i <= 5,
                tally.len() == 52,
                piles == self@.all_piles(),
                self@.units() == units_upto(piles, 5),
                scanned == units_upto(piles, i as int),
                forall|c: Card| #[trigger] tally@[c.spec_code()] == scanned.count(c),
                forall|c: Card| scanned.count(c) <= 4,
            decreases 5 - i,
        {
            let pile = self.pile(i);
            let ghost before = scanned;
            let mut j: usize = 0;
            proof {
                pile@.take(0).to_multiset_ensures();
                vstd::multiset::lemma_multiset_empty_len(pile@.take(0).to_multiset());
                assert(scanned =~= before.add(pile@.take(0).to_multiset()));
            }
            while j < pile.len()
                invariant
                    j <= pile.len(),
                    i < 5,
                    tally.len() == 52,
                    piles == self@.all_piles(),
                    pile@ == piles[i as int],
                    self@.units() == units_upto(piles, 5),
                    before == units_upto(piles, i as int),
                    scanned == before.add(pile@.take(j as int).to_multiset()),
                    forall|c: Card| #[trigger] tally@[c.spec_code()] == scanned.count(c),
                    forall|c: Card| scanned.count(c) <= 4,
                decreases pile.len() - j,
            {
                let card = pile[j];
                let k: usize = card.code();
                proof {
                    scanned_within(piles, i as int, j + 1, 5);
                    assert(pile@.take(j + 1) == pile@.take(j as int).push(card));
                    pile@.take(j as int).to_multiset_ensures();
                    assert(pile@.take(j as int).push(card).to_multiset() =~= pile@.take(
                        j as int,
                    ).to_multiset().insert(card));
                }
                if tally[k] == 4 {
                    proof {
                        let part = pile@.take(j as int).to_multiset();
                        assert(before.add(pile@.take(j + 1).to_multiset()).count(card)
                            <= units_upto(piles, 5).count(card));
                        assert(pile@.take(j + 1).to_multiset().count(card) == part.count(card) + 1);
                        assert(self@.units().count(card) >= 5);
                        assert(card == Card { suit: card.suit, rank: card.rank });
                        assert(copies(self@.units(), card.rank) >= 5);
                    }
                    return false;
                }
                tally.set(k, tally[k] + 1);
                proof {
                    scanned = scanned.insert(card);
                    assert(scanned =~= before.add(pile@.take(j + 1).to_multiset()));
                    assert forall|c: Card| #[trigger] tally@[c.spec_code()] == scanned.count(c) by {
                        if c.spec_code() == card.spec_code() {
                            code_is_injective(c, card);
                        }
                    }
                }
                j = j + 1;
            }
            proof {
                assert(pile@.take(j as int) == pile@);
                assert(scanned =~= units_upto(piles, i + 1));
            }
            i = i + 1;
        }
        let mut number: u8 = 1;
        while number <= 13
            invariant
                1 <= number <= 14,
                tally.len() == 52,
                scanned == self@.units(),
                forall|c: Card| #[trigger] tally@[c.spec_code()] == scanned.count(c),
                forall|c: Card| scanned.count(c) <= 4,
                forall|rank: Rank|
                    rank.spec_number() < number ==> copies(self@.units(), rank) <= 4,
            decreases 14 - number,
        {
            let rank = Rank::of_number(number);
            let at: usize = (number - 1) as usize;
            proof {
                assert((Card { suit: Suit::Heart, rank }).spec_code() == at);
                assert((Card { suit: Suit::Diamond, rank }).spec_code() == at + 13);
                assert((Card { suit: Suit::Club, rank }).spec_code() == at + 26);
                assert((Card { suit: Suit::Spade, rank }).spec_code() == at + 39);
            }
            let held: u8 = tally[at] + tally[at + 13] + tally[at + 26] + tally[at + 39];
            assert(held == copies(self@.units(), rank));
            if held > 4 {
                return false;
            }
            proof {
                assert forall|other: Rank| other.spec_number() < number + 1 implies copies(
                    self@.units(),
                    other,
                ) <= 4 by {
                    if other.spec_number() == number {
                        assert(other == rank);
                    }
                }
            }
            number = number + 1;
        }
        assert forall|rank: Rank| copies(self@.units(), rank) <= 4 by {
            assert(rank.spec_number() < 14);
        }
        true
    }
}

impl State for CribbageSolitaire {
    type Action = Move;

    type Model = Table;

    type Step = Move;

    open spec fn model(&self) -> Table {
        self@
    }

    open spec fn step(action: &Move) -> Move {
        *action
    }

    open spec fn valid(m: Table) -> bool {
        m.valid()
    }

    open spec fn status(m: Table) -> Option<EndState> {
        m.status()
    }

    open spec fn options(m: Table) -> Seq<Move> {
        m.legal_moves()
    }

    open spec fn outcome(m: Table, s: Move) -> Table {
        m.apply(s)
    }

    open spec fn worth(m: Table) -> int {
        m.worth()
    }

    proof fn outcome_is_valid(m: Table, s: Move) {
        legal_can_apply(m, s);
        apply_keeps_valid(m, s);
    }

    proof fn unfinished_iff_options(m: Table) {
    }

    fn end_status(&self) -> (status: Option<EndState>) {
        if self.is_terminal() {
            if self.score >= 61 {
                Some(EndState::Win)
            } else {
                Some(EndState::Loss)
            }
        } else {
            None
        }
    }

    fn possible_actions(&self) -> (actions: Vec<Move>) {
        let actions = self.legal_moves();
        assert(actions@.map_values(|a: Move| Self::step(&a)) =~= actions@);
        actions
    }

    fn act(&self, action: &Move) -> (next: Self) {
        proof {
            legal_can_apply(self@, *action);
            apply_keeps_valid(self@, *action);
        }
        self.apply_move(*action)
    }

    fn evaluate(&self, print_components: bool) -> (score: Score) {
        let points: Score = self.score as Score;
        match self.end_status() {
            Some(EndState::Win) => 4 * points + WIN_BONUS,
            _ => 4 * points,
        }
    }
}

/// A stack never holds more cards of a rank at its top than it holds at all.
pub proof fn trailing_within_copies(stack: Seq<Card>, rank: Rank)
    ensures
        0 <= trailing(stack, rank) <= copies(stack.to_multiset(), rank),
    decreases stack.len(),
{
    broadcast use vstd::seq_lib::group_to_multiset_ensures;

    if stack.len() == 0 {
    } else {
        trailing_within_copies(stack.drop_last(), rank);
        assert(stack == stack.drop_last().push(stack.last()));
        let c = stack.last();
        assert(stack.to_multiset() == stack.drop_last().to_multiset().insert(c));
        if c.rank == rank {
            assert(c == Card { suit: c.suit, rank });
        }
    }
}

/// Every listed play is an `Add` of a top card that fits.
pub proof fn plays_fit(t: Table, n: int)
    requires
        n <= 4,
    ensures
        forall|i: int|
            0 <= i < t.plays(n).len() ==> (#[trigger] t.plays(n)[i] matches Move::Add {
                column,
                card,
            } && t.fits(column) && t.top(column) == Some(card)),
    decreases n,
{
    if n > 0 {
        plays_fit(t, n - 1);
    }
}

/// Whatever is offered can be carried out.
pub proof fn legal_can_apply(t: Table, mv: Move)
    requires
        t.valid(),
        t.legal_moves().contains(mv),
    ensures
        t.can_apply(mv),
{
    broadcast use vstd::seq_lib::group_to_multiset_ensures;

    plays_fit(t, 4);
    match mv {
        Move::NewStack => {},
        Move::Add { column, card } => {
            let i = choose|i: int| 0 <= i < t.legal_moves().len() && t.legal_moves()[i] == mv;
            assert(t.plays(4)[i] == mv);
            assert(t.fits(column));
            trailing_within_copies(t.stack, card.rank);
            let pile = t.tableau[column.spec_ordinal()];
            assert(pile == pile.drop_last().push(card));
            assert(pile.to_multiset() == pile.drop_last().to_multiset().insert(card));
            assert(pile.to_multiset().count(card) >= 1);
            assert(card == Card { suit: card.suit, rank: card.rank });
            assert(copies(t.units(), card.rank) >= copies(t.stack.to_multiset(), card.rank) + 1);
        },
    }
}

/// No card appears or vanishes when a card is played: the cards in play
/// stay the same.
pub proof fn add_keeps_units(t: Table, column: Column, card: Card)
    requires
        t.tableau.len() == 4,
        t.top(column) == Some(card),
    ensures
        t.apply(Move::Add { column, card }).units() == t.units(),
{
    broadcast use vstd::seq_lib::group_to_multiset_ensures;

    let pile = t.tableau[column.spec_ordinal()];
    assert(pile == pile.drop_last().push(card));
    assert(pile.to_multiset() == pile.drop_last().to_multiset().insert(card));
    assert(t.stack.push(card).to_multiset() == t.stack.to_multiset().insert(card));
    assert(t.apply(Move::Add { column, card }).units() =~= t.units());
}

/// A move that can be carried out from a sound game leaves a sound game.
pub proof fn apply_keeps_valid(t: Table, mv: Move)
    requires
        t.valid(),
        t.can_apply(mv),
    ensures
        t.apply(mv).valid(),
{
    broadcast use vstd::seq_lib::group_to_multiset_ensures;

    match mv {
        Move::NewStack => {
            let next = t.apply(mv);
            assert(next.stack.to_multiset() =~= Multiset::empty());
            assert forall|rank: Rank| copies(next.units(), rank) <= 4 by {
                assert(copies(next.units(), rank) <= copies(t.units(), rank));
            }
        },
        Move::Add { column, card } => {
            add_keeps_units(t, column, card);
            assert(t.stack.push(card).drop_last() == t.stack);
            trailing_within_copies(t.stack, card.rank);
        },
    }
}

/// The pip total of the first cards of a pile never passes that of the pile,
/// and grows by each card's value.
pub proof fn pip_total_of_prefix(cards: Seq<Card>, n: int)
    requires
        0 <= n <= cards.len(),
    ensures
        pip_total(cards.take(n)) <= pip_total(cards),
        n < cards.len() ==> pip_total(cards.take(n + 1)) == pip_total(cards.take(n))
            + cards[n].spec_value(),
    decreases cards.len() - n,
{
    if n < cards.len() {
        pip_total_of_prefix(cards, n + 1);
        assert(cards.take(n + 1).drop_last() == cards.take(n));
    } else {
        assert(cards.take(n) == cards);
    }
}

/// A move neither adds a card to the deal nor loses one: a card that is
/// played leaves its column and enters the history.
pub proof fn apply_keeps_deal(t: Table, mv: Move)
    requires
        t.tableau.len() == 4,
        t.can_apply(mv),
    ensures
        dealt(t.apply(mv)) == dealt(t),
{
    broadcast use vstd::seq_lib::group_to_multiset_ensures;

    let next = t.apply(mv);
    assert(next.history.drop_last() == t.history);
    match mv {
        Move::NewStack => {
            assert(dealt(next) =~= dealt(t));
        },
        Move::Add { column, card } => {
            let pile = t.tableau[column.spec_ordinal()];
            assert(pile == pile.drop_last().push(card));
            assert(pile.to_multiset() == pile.drop_last().to_multiset().insert(card));
            assert(dealt(next) =~= dealt(t));
        },
    }
}

/// Conservation. Along every playable path from a sound game the cards of
/// the deal stay the same: none appears twice, none vanishes.
pub proof fn play_keeps_deal(t: Table, path: Seq<Move>)
    requires
        t.valid(),
        playable::<CribbageSolitaire>(t, path),
    ensures
        dealt(arrival::<CribbageSolitaire>(t, path)) == dealt(t),
        arrival::<CribbageSolitaire>(t, path).valid(),
    decreases path.len(),
{
    if path.len() > 0 {
        legal_can_apply(t, path[0]);
        apply_keeps_deal(t, path[0]);
        apply_keeps_valid(t, path[0]);
        play_keeps_deal(t.apply(path[0]), path.drop_first());
    }
}

/// Terminal classification. The game goes on exactly as long as a move is
/// on offer: while cards are left, one always is.
pub proof fn unfinished_iff_moves(t: Table)
    ensures
        t.status() is None <==> t.legal_moves().len() > 0,
{
}

/// Evaluator ordering. A won game outscores every sound game that is not
/// won, be it lost or still going on.
pub proof fn win_outscores(won: Table, other: Table)
    requires
        won.status() == Some(EndState::Win),
        other.valid(),
        other.status() != Some(EndState::Win),
    ensures
        won.worth() > other.worth(),
{
}

/// The cards in play are those of the stack and the columns.
pub proof fn units_of_all_piles(t: Table)
    ensures
        t.units() == units_upto(t.all_piles(), 5),
{
    broadcast use vstd::multiset::group_multiset_axioms;

    reveal_with_fuel(units_upto, 6);
    assert(t.units() =~= units_upto(t.all_piles(), 5));
}

proof fn occurrences_in_pile(tableau: Seq<Seq<Card>>, card: Card, k: int, j: int)
    requires
        tableau.len() == 4,
        0 <= k < 4,
        0 <= j <= 13,
        forall|i: int| 0 <= i < 4 ==> (#[trigger] tableau[i]).len() == 13,
    ensures
        occurrences(tableau, card, 13 * k + j) == occurrences(tableau, card, 13 * k)
            + tableau[k].take(j).to_multiset().count(card),
    decreases j,
{
    broadcast use vstd::multiset::group_multiset_axioms;

    let pile = tableau[k];
    if j == 0 {
        pile.take(0).to_multiset_ensures();
        vstd::multiset::lemma_multiset_empty_len(pile.take(0).to_multiset());
    } else {
        occurrences_in_pile(tableau, card, k, j - 1);
        pile.take(j - 1).to_multiset_ensures();
        assert(pile.take(j) == pile.take(j - 1).push(pile[j - 1]));
        assert(pile.take(j - 1).push(pile[j - 1]).to_multiset() =~= pile.take(
            j - 1,
        ).to_multiset().insert(pile[j - 1]));
        assert((13 * k + j - 1) / 13 == k && (13 * k + j - 1) % 13 == j - 1);
    }
}

/// A fresh game on four columns of thirteen in which no rank lies more than
/// four times is sound.
pub proof fn counted_deal_is_valid(t: Table)
    requires
        t.tableau.len() == 4,
        t.score == 0,
        t.stack.len() == 0,
        forall|i: int| 0 <= i < 4 ==> (#[trigger] t.tableau[i]).len() == 13,
        forall|rank: Rank| rank_occurrences(t.tableau, rank) <= 4,
    ensures
        t.valid(),
{
    broadcast use vstd::multiset::group_multiset_axioms;

    t.stack.to_multiset_ensures();
    vstd::multiset::lemma_multiset_empty_len(t.stack.to_multiset());
    assert forall|card: Card| t.units().count(card) == occurrences(t.tableau, card, 52) by {
        occurrences_in_pile(t.tableau, card, 0, 13);
        occurrences_in_pile(t.tableau, card, 1, 13);
        occurrences_in_pile(t.tableau, card, 2, 13);
        occurrences_in_pile(t.tableau, card, 3, 13);
        assert(t.tableau[0].take(13) == t.tableau[0]);
        assert(t.tableau[1].take(13) == t.tableau[1]);
        assert(t.tableau[2].take(13) == t.tableau[2]);
        assert(t.tableau[3].take(13) == t.tableau[3]);
    }
    assert forall|rank: Rank| copies(t.units(), rank) <= 4 by {
        assert(rank_occurrences(t.tableau, rank) <= 4);
    }
    assert(pip_total(t.stack) == 0);
}

proof fn label_is_carried(label: Seq<int>, x: int, n: int)
    requires
        label_places(label, x, n) >= 1,
    ensures
        exists|m: int| 0 <= m < n && #[trigger] label[m] == x,
    decreases n,
{
    if n > 0 && label[n - 1] != x {
        label_is_carried(label, x, n - 1);
    }
}

proof fn label_is_carried_once(label: Seq<int>, x: int, n: int)
    requires
        0 <= n <= 52,
        label.len() == 52,
        forall|a: int, b: int| 0 <= a < b < 52 ==> label[a] != label[b],
    ensures
        label_places(label, x, n) <= 1,
    decreases n,
{
    if n > 0 {
        label_is_carried_once(label, x, n - 1);
        if label[n - 1] == x && label_places(label, x, n - 1) >= 1 {
            label_is_carried(label, x, n - 1);
        }
    }
}

proof fn places_by_label(tableau: Seq<Seq<Card>>, label: Seq<int>, rank: Rank, n: int)
    requires
        0 <= n <= 52,
        label.len() == 52,
        forall|m: int|
            0 <= m < 52 ==> 0 <= #[trigger] label[m] - 4 * (tableau[m / 13][m % 13].rank.spec_number()
                - 1) < 4,
    ensures
        rank_places(tableau, rank, n) == label_places(label, 4 * (rank.spec_number() - 1), n)
            + label_places(label, 4 * (rank.spec_number() - 1) + 1, n) + label_places(
            label,
            4 * (rank.spec_number() - 1) + 2,
            n,
        ) + label_places(label, 4 * (rank.spec_number() - 1) + 3, n),
    decreases n,
{
    if n > 0 {
        places_by_label(tableau, label, rank, n - 1);
        let there = tableau[(n - 1) / 13][(n - 1) % 13].rank;
        assert(0 <= label[n - 1] - 4 * (there.spec_number() - 1) < 4);
        if there != rank {
            assert(there.spec_number() != rank.spec_number());
        }
    }
}

proof fn places_by_suit(tableau: Seq<Seq<Card>>, rank: Rank, n: int)
    requires
        0 <= n,
    ensures
        rank_places(tableau, rank, n) == occurrences(tableau, Card { suit: Suit::Heart, rank }, n)
            + occurrences(tableau, Card { suit: Suit::Diamond, rank }, n) + occurrences(
            tableau,
            Card { suit: Suit::Club, rank },
            n,
        ) + occurrences(tableau, Card { suit: Suit::Spade, rank }, n),
    decreases n,
{
    if n > 0 {
        places_by_suit(tableau, rank, n - 1);
        let there = tableau[(n - 1) / 13][(n - 1) % 13];
        assert(there == Card { suit: there.suit, rank: there.rank });
    }
}

/// A fresh game on four columns of thirteen is sound if its places can be
/// labelled so that no two places carry the same label and every label
/// names one of the four copies of the rank that lies at its place.
pub proof fn labelled_deal_is_valid(t: Table, label: Seq<int>)
    requires
        t.tableau.len() == 4,
        t.score == 0,
        t.stack.len() == 0,
        label.len() == 52,
        forall|i: int| 0 <= i < 4 ==> (#[trigger] t.tableau[i]).len() == 13,
        forall|m: int|
            0 <= m < 52 ==> 0 <= #[trigger] label[m] - 4 * (
            t.tableau[m / 13][m % 13].rank.spec_number() - 1) < 4,
        forall|a: int, b: int| 0 <= a < b < 52 ==> label[a] != label[b],
    ensures
        t.valid(),
{
    assert forall|rank: Rank| rank_occurrences(t.tableau, rank) <= 4 by {
        let first = 4 * (rank.spec_number() - 1);
        places_by_suit(t.tableau, rank, 52);
        places_by_label(t.tableau, label, rank, 52);
        label_is_carried_once(label, first, 52);
        label_is_carried_once(label, first + 1, 52);
        label_is_carried_once(label, first + 2, 52);
        label_is_carried_once(label, first + 3, 52);
    }
    counted_deal_is_valid(t);
}

proof fn plays_hold(t: Table, n: int, m: Move)
    requires
        0 <= n <= 4,
    ensures
        t.plays(n).contains(m) <==> (m matches Move::Add { column, card } && column.spec_ordinal() < n
            && t.fits(column) && t.top(column) == Some(card)),
    decreases n,
{
    if n > 0 {
        plays_hold(t, n - 1, m);
        let column = Column::spec_at(n - 1);
        assert(column.spec_ordinal() == n - 1);
        if t.fits(column) {
            push_holds(t.plays(n - 1), Move::Add { column, card: t.top(column).unwrap() }, m);
        }
        match m {
            Move::Add { column: c, .. } => {
                if c.spec_ordinal() == n - 1 {
                    assert(c == column);
                }
            },
            Move::NewStack => {},
        }
    }
}

/// The moves on offer are exactly the plays of top cards that fit, and
/// starting a new stack is offered exactly when no top card fits.
pub proof fn offered_iff_fits(t: Table, m: Move)
    ensures
        t.legal_moves().contains(m) <==> match m {
            Move::Add { column, card } => t.fits(column) && t.top(column) == Some(card),
            Move::NewStack => t.remaining() > 0 && forall|column: Column| !t.fits(column),
        },
{
    plays_hold(t, 4, m);
    if t.plays(4).len() == 0 {
        assert(seq![Move::NewStack][0] == Move::NewStack);
        assert forall|column: Column| !t.fits(column) by {
            let play = Move::Add { column, card: t.top(column).unwrap() };
            plays_hold(t, 4, play);
            if t.fits(column) {
                assert(t.plays(4).contains(play));
            }
        }
    } else {
        let first = t.plays(4)[0];
        assert(t.plays(4).contains(first));
        plays_hold(t, 4, first);
        plays_fit(t, 4);
    }
}

} // verus!
