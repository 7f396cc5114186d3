//! Playing cards and the contract that every solitaire variant fulfils.

use crate::text::{is_pair, is_symbol, no_conversion, no_conversion_text, upper, upper_case};
use std::hash::Hash;
use vstd::prelude::*;

verus! {

/// A heuristic score, counted in quarter points so that every weight used by
/// the evaluators is a whole number.
pub type Score = i128;

#[derive(Debug, Copy, Clone, Eq, Hash, PartialEq, Structural)]
pub enum Suit {
    Heart,
    Diamond,
    Club,
    Spade,
}

impl Suit {
    /// The suits in dealing order: hearts, diamonds, clubs, spades.
    pub open spec fn spec_at(k: int) -> Suit {
        if k == 0 {
            Suit::Heart
        } else if k == 1 {
            Suit::Diamond
        } else if k == 2 {
            Suit::Club
        } else {
            Suit::Spade
        }
    }

    pub fn at(k: u8) -> (suit: Suit)
        ensures
            suit == Suit::spec_at(k as int),
    {
        if k == 0 {
            Suit::Heart
        } else if k == 1 {
            Suit::Diamond
        } else if k == 2 {
            Suit::Club
        } else {
            Suit::Spade
        }
    }

    /// Position of the suit in dealing order.
    pub open spec fn spec_ordinal(self) -> int {
        match self {
            Suit::Heart => 0,
            Suit::Diamond => 1,
            Suit::Club => 2,
            Suit::Spade => 3,
        }
    }

    pub fn ordinal(self) -> (k: usize)
        ensures
            k == self.spec_ordinal(),
    {
        match self {
            Suit::Heart => 0,
            Suit::Diamond => 1,
            Suit::Club => 2,
            Suit::Spade => 3,
        }
    }

    /// The suit written as `H`, `D`, `C` or `S`.
    pub open spec fn spec_from_symbol(symbol: Seq<char>) -> Option<Suit> {
        if symbol == seq!['H'] {
            Some(Suit::Heart)
        } else if symbol == seq!['D'] {
            Some(Suit::Diamond)
        } else if symbol == seq!['C'] {
            Some(Suit::Club)
        } else if symbol == seq!['S'] {
            Some(Suit::Spade)
        } else {
            None
        }
    }

    /// The suit that a text in upper case names, if it names one.
    pub fn from_symbol(text: &str) -> (suit: Option<Suit>)
        ensures
            suit == Suit::spec_from_symbol(text@),
    {
        if is_symbol(text, 'H') {
            Some(Suit::Heart)
        } else if is_symbol(text, 'D') {
            Some(Suit::Diamond)
        } else if is_symbol(text, 'C') {
            Some(Suit::Club)
        } else if is_symbol(text, 'S') {
            Some(Suit::Spade)
        } else {
            None
        }
    }

    /// Reads a suit from its letter, in either case: the text is put in
    /// upper case and handed to `from_symbol`.
    pub fn try_from(value: String) -> (read: Result<Suit, String>)
        ensures
            match read {
                Ok(suit) => Suit::spec_from_symbol(upper_case(value@)) == Some(suit),
                Err(message) => Suit::spec_from_symbol(upper_case(value@)) is None && message@
                    == no_conversion_text(value@),
            },
    {
        let text = upper(value.as_str());
        match Suit::from_symbol(text.as_str()) {
            Some(suit) => Ok(suit),
            None => Err(no_conversion(value.as_str())),
        }
    }
}

#[derive(Debug, Copy, Clone, Eq, Hash, PartialEq, PartialOrd, Structural)]
pub enum Rank {
    Ace,
    Two,
    Three,
    Four,
    Five,
    Six,
    Seven,
    Eight,
    Nine,
    Ten,
    Jack,
    Queen,
    King,
}

impl Rank {
    /// The ordinal of a rank: 1 for the ace up to 13 for the king.
    pub open spec fn spec_number(self) -> int {
        match self {
            Rank::Ace => 1,
            Rank::Two => 2,
            Rank::Three => 3,
            Rank::Four => 4,
            Rank::Five => 5,
            Rank::Six => 6,
            Rank::Seven => 7,
            Rank::Eight => 8,
            Rank::Nine => 9,
            Rank::Ten => 10,
            Rank::Jack => 11,
            Rank::Queen => 12,
            Rank::King => 13,
        }
    }

    pub fn number(self) -> (n: u8)
        ensures
            n == self.spec_number(),
            1 <= n <= 13,
    {
        match self {
            Rank::Ace => 1,
            Rank::Two => 2,
            Rank::Three => 3,
            Rank::Four => 4,
            Rank::Five => 5,
            Rank::Six => 6,
            Rank::Seven => 7,
            Rank::Eight => 8,
            Rank::Nine => 9,
            Rank::Ten => 10,
            Rank::Jack => 11,
            Rank::Queen => 12,
            Rank::King => 13,
        }
    }

    /// The rank with the given ordinal; ordinals above 12 all give the king.
    pub open spec fn spec_of_number(n: int) -> Rank {
        if n <= 1 {
            Rank::Ace
        } else if n == 2 {
            Rank::Two
        } else if n == 3 {
            Rank::Three
        } else if n == 4 {
            Rank::Four
        } else if n == 5 {
            Rank::Five
        } else if n == 6 {
            Rank::Six
        } else if n == 7 {
            Rank::Seven
        } else if n == 8 {
            Rank::Eight
        } else if n == 9 {
            Rank::Nine
        } else if n == 10 {
            Rank::Ten
        } else if n == 11 {
            Rank::Jack
        } else if n == 12 {
            Rank::Queen
        } else {
            Rank::King
        }
    }

    pub fn of_number(n: u8) -> (rank: Rank)
        ensures
            rank == Rank::spec_of_number(n as int),
            1 <= n <= 13 ==> rank.spec_number() == n,
    {
        if n <= 1 {
            Rank::Ace
        } else if n == 2 {
            Rank::Two
        } else if n == 3 {
            Rank::Three
        } else if n == 4 {
            Rank::Four
        } else if n == 5 {
            Rank::Five
        } else if n == 6 {
            Rank::Six
        } else if n == 7 {
            Rank::Seven
        } else if n == 8 {
            Rank::Eight
        } else if n == 9 {
            Rank::Nine
        } else if n == 10 {
            Rank::Ten
        } else if n == 11 {
            Rank::Jack
        } else if n == 12 {
            Rank::Queen
        } else {
            Rank::King
        }
    }

    /// The rank written as `A`, `2` to `10`, `J`, `Q` or `K`.
    pub open spec fn spec_from_symbol(symbol: Seq<char>) -> Option<Rank> {
        if symbol == seq!['A'] {
            Some(Rank::Ace)
        } else if symbol == seq!['J'] {
            Some(Rank::Jack)
        } else if symbol == seq!['Q'] {
            Some(Rank::Queen)
        } else if symbol == seq!['K'] {
            Some(Rank::King)
        } else if symbol == seq!['2'] {
            Some(Rank::Two)
        } else if symbol == seq!['3'] {
            Some(Rank::Three)
        } else if symbol == seq!['4'] {
            Some(Rank::Four)
        } else if symbol == seq!['5'] {
            Some(Rank::Five)
        } else if symbol == seq!['6'] {
            Some(Rank::Six)
        } else if symbol == seq!['7'] {
            Some(Rank::Seven)
        } else if symbol == seq!['8'] {
            Some(Rank::Eight)
        } else if symbol == seq!['9'] {
            Some(Rank::Nine)
        } else if symbol == seq!['1', '0'] {
            Some(Rank::Ten)
        } else {
            None
        }
    }

    /// The rank that a text in upper case names, if it names one.
    pub fn from_symbol(text: &str) -> (rank: Option<Rank>)
        ensures
            rank == Rank::spec_from_symbol(text@),
    {
        if is_symbol(text, 'A') {
            Some(Rank::Ace)
        } else if is_symbol(text, 'J') {
            Some(Rank::Jack)
        } else if is_symbol(text, 'Q') {
            Some(Rank::Queen)
        } else if is_symbol(text, 'K') {
            Some(Rank::King)
        } else if is_symbol(text, '2') {
            Some(Rank::Two)
        } else if is_symbol(text, '3') {
            Some(Rank::Three)
        } else if is_symbol(text, '4') {
            Some(Rank::Four)
        } else if is_symbol(text, '5') {
            Some(Rank::Five)
        } else if is_symbol(text, '6') {
            Some(Rank::Six)
        } else if is_symbol(text, '7') {
            Some(Rank::Seven)
        } else if is_symbol(text, '8') {
            Some(Rank::Eight)
        } else if is_symbol(text, '9') {
            Some(Rank::Nine)
        } else if is_pair(text, '1', '0') {
            Some(Rank::Ten)
        } else {
            None
        }
    }

    /// Reads a rank from `A`, `2` to `10`, `J`, `Q` or `K`, in either case:
    /// the text is put in upper case and handed to `from_symbol`.
    pub fn try_from(value: String) -> (read: Result<Rank, String>)
        ensures
            match read {
                Ok(rank) => Rank::spec_from_symbol(upper_case(value@)) == Some(rank),
                Err(message) => Rank::spec_from_symbol(upper_case(value@)) is None && message@
                    == no_conversion_text(value@),
            },
    {
        let text = upper(value.as_str());
        match Rank::from_symbol(text.as_str()) {
            Some(rank) => Ok(rank),
            None => Err(no_conversion(value.as_str())),
        }
    }
}

#[derive(Debug, Eq, PartialEq, Structural)]
pub enum Color {
    Red,
    Black,
}

#[derive(Debug, Copy, Clone, Eq, Hash, PartialEq, Structural)]
pub struct Card {
    pub suit: Suit,
    pub rank: Rank,
}

impl Card {
    /// The place of the card among the fifty-two: suit by suit, ace to king.
    pub open spec fn spec_code(&self) -> int {
        self.suit.spec_ordinal() * 13 + self.rank.spec_number() - 1
    }

    pub fn code(&self) -> (k: usize)
        ensures
            k == self.spec_code(),
            k < 52,
    {
        let number: u8 = self.rank.number();
        self.suit.ordinal() * 13 + (number - 1) as usize
    }

    /// Pip value: court cards count ten, every other card its ordinal.
    pub open spec fn spec_value(&self) -> int {
        if self.rank.spec_number() >= 11 {
            10
        } else {
            self.rank.spec_number()
        }
    }

    pub fn value(&self) -> (v: u8)
        ensures
            v == self.spec_value(),
            1 <= v <= 10,
    {
        let n: u8 = self.rank.number();
        if n >= 11 {
            10
        } else {
            n
        }
    }

    pub open spec fn spec_color(&self) -> Color {
        match self.suit {
            Suit::Club | Suit::Spade => Color::Black,
            Suit::Diamond | Suit::Heart => Color::Red,
        }
    }

    #[verifier::when_used_as_spec(spec_color)]
    pub fn color(&self) -> (c: Color)
        ensures
            c == self.spec_color(),
    {
        match self.suit {
            Suit::Club | Suit::Spade => Color::Black,
            Suit::Diamond | Suit::Heart => Color::Red,
        }
    }

    /// The fifty-two cards, suit by suit, each suit from ace to king.
    pub open spec fn spec_default_deck() -> Seq<Card> {
        Seq::new(52, |i: int| Card { suit: Suit::spec_at(i / 13), rank: Rank::spec_of_number(i % 13 + 1) })
    }

    pub fn default_deck() -> (deck: Vec<Card>)
        ensures
            deck@ == Card::spec_default_deck(),
    {
        let mut deck: Vec<Card> = Vec::new();
        let mut s: u8 = 0;
        while s < 4
            invariant
                s <= 4,
                deck@ == Card::spec_default_deck().take(13 * s),
            decreases 4 - s,
        {
            let mut r: u8 = 0;
            while r < 13
                invariant
                    s < 4,
                    r <= 13,
                    deck@ == Card::spec_default_deck().take(13 * s + r),
                decreases 13 - r,
            {
                deck.push(Card { suit: Suit::at(s), rank: Rank::of_number(r + 1) });
                r = r + 1;
            }
            s = s + 1;
        }
        deck
    }

    pub open spec fn spec_is_face(&self) -> bool {
        self.rank.spec_number() >= 11
    }

    #[verifier::when_used_as_spec(spec_is_face)]
    pub fn is_face(&self) -> (b: bool)
        ensures
            b == self.spec_is_face(),
    {
        self.rank.number() >= 11
    }

    pub open spec fn spec_is_face_or_ace(&self) -> bool {
        self.rank == Rank::Ace || self.spec_is_face()
    }

    #[verifier::when_used_as_spec(spec_is_face_or_ace)]
    pub fn is_face_or_ace(&self) -> (b: bool)
        ensures
            b == self.spec_is_face_or_ace(),
    {
        self.rank.number() == 1 || self.is_face()
    }

    /// Court cards and aces rest on each other within a suit; number cards
    /// rest on the next higher number card of the other colour.
    pub open spec fn spec_can_stack_on(&self, other: &Card) -> bool {
        if self.spec_is_face_or_ace() && other.spec_is_face_or_ace() {
            self.suit == other.suit
        } else if !self.spec_is_face_or_ace() && !other.spec_is_face_or_ace() {
            self.spec_color() != other.spec_color() && self.rank.spec_number()
                == other.rank.spec_number() - 1
        } else {
            false
        }
    }

    #[verifier::when_used_as_spec(spec_can_stack_on)]
    pub fn can_stack_on(&self, other: &Card) -> (b: bool)
        ensures
            b == self.spec_can_stack_on(other),
    {
        let mine: bool = self.is_face_or_ace();
        let theirs: bool = other.is_face_or_ace();
        if mine && theirs {
            self.suit == other.suit
        } else if !mine && !theirs {
            self.color() != other.color() && self.rank.number() == other.rank.number() - 1
        } else {
            false
        }
    }
}

/// Different cards have different places among the fifty-two.
pub proof fn code_is_injective(a: Card, b: Card)
    requires
        a.spec_code() == b.spec_code(),
    ensures
        a == b,
{
}

/// A card slot of a printed layout that may be empty.
pub struct MaybeCard(pub Option<Card>);

#[derive(Debug, Copy, Clone, Eq, PartialEq, Structural)]
pub enum EndState {
    Win,
    Loss,
}

impl EndState {
    pub open spec fn spec_is_win(&self) -> bool {
        *self == EndState::Win
    }

    #[verifier::when_used_as_spec(spec_is_win)]
    pub fn is_win(&self) -> (won: bool)
        ensures
            won == self.spec_is_win(),
    {
        matches!(self, EndState::Win)
    }
}

/// The piles of a tableau as sequences of cards, bottom card first.
pub open spec fn piles<T, const N: usize>(tableau: [Vec<T>; N]) -> Seq<Seq<T>> {
    Seq::new(N as nat, |i: int| tableau[i]@)
}

/// A solitaire variant seen as a transition system.
///
/// Every variant names a mathematical model of its states and of its
/// actions, and says over those models which states are sound deals, which
/// actions a state offers and in what order, where an action leads, how a
/// state is classified and what it is worth. The executable methods are held
/// to those statements.
pub trait State: Eq + Hash + Sized {
    type Action;

    /// The mathematical value of a state.
    type Model;

    /// The mathematical value of an action.
    type Step;

    spec fn model(&self) -> Self::Model;

    spec fn step(action: &Self::Action) -> Self::Step;

    /// The state holds a sound deal of the variant's deck.
    spec fn valid(m: Self::Model) -> bool;

    /// `None` while play goes on, else the classification of the finished game.
    spec fn status(m: Self::Model) -> Option<EndState>;

    /// The actions the state offers, in the order in which searches try them.
    spec fn options(m: Self::Model) -> Seq<Self::Step>;

    /// The state that an action leads to.
    spec fn outcome(m: Self::Model, s: Self::Step) -> Self::Model;

    /// The heuristic worth of the state, in quarter points.
    spec fn worth(m: Self::Model) -> int;

    /// Taking an offered action from a sound state gives a sound state.
    proof fn outcome_is_valid(m: Self::Model, s: Self::Step)
        requires
            Self::valid(m),
            Self::options(m).contains(s),
        ensures
            Self::valid(Self::outcome(m, s)),
    ;

    /// The game goes on exactly as long as an action is on offer: a
    /// finished game offers none.
    proof fn unfinished_iff_options(m: Self::Model)
        requires
            Self::valid(m),
        ensures
            Self::status(m) is None <==> Self::options(m).len() > 0,
    ;

    fn end_status(&self) -> (status: Option<EndState>)
        requires
            Self::valid(self.model()),
        ensures
            status == Self::status(self.model()),
    ;

    fn possible_actions(&self) -> (actions: Vec<Self::Action>)
        requires
            Self::valid(self.model()),
        ensures
            actions@.map_values(|a: Self::Action| Self::step(&a)) == Self::options(self.model()),
    ;

    fn act(&self, action: &Self::Action) -> (next: Self)
        requires
            Self::valid(self.model()),
            Self::options(self.model()).contains(Self::step(action)),
        ensures
            next.model() == Self::outcome(self.model(), Self::step(action)),
            Self::valid(next.model()),
    ;

    /// `print_components` asks a front end for a breakdown; it never changes
    /// the score.
    fn evaluate(&self, print_components: bool) -> (score: Score)
        requires
            Self::valid(self.model()),
        ensures
            score == Self::worth(self.model()),
    ;
}

/// The mathematical values of a list of actions.
pub open spec fn steps<S: State>(actions: Seq<S::Action>) -> Seq<S::Step> {
    actions.map_values(|a: S::Action| S::step(&a))
}

/// The state reached from `m` by taking the steps of `path` in turn.
pub open spec fn arrival<S: State>(m: S::Model, path: Seq<S::Step>) -> S::Model
    decreases path.len(),
{
    if path.len() == 0 {
        m
    } else {
        arrival::<S>(S::outcome(m, path[0]), path.drop_first())
    }
}

/// Every step of `path` is offered by the state it is taken from, and none
/// is taken from a finished game.
pub open spec fn playable<S: State>(m: S::Model, path: Seq<S::Step>) -> bool
    decreases path.len(),
{
    path.len() > 0 ==> {
        &&& S::status(m) is None
        &&& S::options(m).contains(path[0])
        &&& playable::<S>(S::outcome(m, path[0]), path.drop_first())
    }
}

/// Along a playable path from a sound state every state is sound.
pub proof fn arrival_is_valid<S: State>(m: S::Model, path: Seq<S::Step>)
    requires
        S::valid(m),
        playable::<S>(m, path),
    ensures
        S::valid(arrival::<S>(m, path)),
    decreases path.len(),
{
    if path.len() > 0 {
        S::outcome_is_valid(m, path[0]);
        arrival_is_valid::<S>(S::outcome(m, path[0]), path.drop_first());
    }
}

} // verus!
