use solitaire::cribbage::{Column, CribbageSolitaire, Move as Play};
use solitaire::dfs::{dfs_r, enter, expand, improve, minute, optimal_dfs, solve, won_in_time};
use std::collections::HashSet;
use solitaire::fortune::Suit::{Cups, Pentacles, Swords, Wands};
use solitaire::fortune::{Card as Minor, FortunesFoundation, MajorArcana, Move, Suit as Arcana, TarotCard};
use solitaire::game::Rank::{Ace, Five, Jack, King, Three, Two};
use solitaire::game::Suit::{Club, Diamond, Heart, Spade};
use solitaire::game::{Card, EndState, Rank, State, Suit};
use solitaire::minimax::{best_move, consider, minimax};
use solitaire::states::{fortune_1, russian};
use std::time::{Duration, Instant};

fn card(rank: Rank, suit: Suit) -> Card {
    Card { suit, rank }
}

fn four_of(rank: Rank) -> Vec<Card> {
    vec![card(rank, Heart), card(rank, Diamond), card(rank, Club), card(rank, Spade)]
}

fn minor(rank: Rank, suit: Arcana) -> TarotCard {
    TarotCard::Minor(Minor { rank, suit })
}

fn major(rank: u8) -> TarotCard {
    TarotCard::Major(MajorArcana { rank })
}

fn columns(filled: Vec<Vec<TarotCard>>) -> [Vec<TarotCard>; 11] {
    let mut tableau: [Vec<TarotCard>; 11] = Default::default();
    for (i, column) in filled.into_iter().enumerate() {
        tableau[i] = column;
    }
    tableau
}

fn ordered_game() -> FortunesFoundation {
    let suit = |suit: Arcana| (2..=13).rev().map(|n| minor(Rank::of_number(n), suit)).collect::<Vec<_>>();
    FortunesFoundation::new(columns(vec![
        suit(Pentacles),
        suit(Cups),
        suit(Wands),
        suit(Swords),
        (0..=21).rev().map(major).collect(),
    ]))
}

fn jack_or_five() -> CribbageSolitaire {
    CribbageSolitaire::new([
        vec![card(Five, Club), card(Jack, Heart)],
        vec![card(King, Diamond), card(Five, Diamond)],
        vec![],
        vec![],
    ])
}

#[test]
fn minimax_returns_the_worth_of_a_leaf() {
    let state = jack_or_five();
    assert_eq!(minimax(&state, 0), (0, vec![]));
    let jack = state.act(&Play::Add { column: Column::One, card: card(Jack, Heart) });
    assert_eq!(minimax(&jack, 0), (8, vec![]));
    // A finished game is a leaf at every depth.
    let done = CribbageSolitaire::new([vec![], vec![], vec![], vec![]]);
    assert_eq!(minimax(&done, 3), (0, vec![]));
}

#[test]
fn minimax_finds_the_best_line() {
    let state = jack_or_five();
    let jack = Play::Add { column: Column::One, card: card(Jack, Heart) };
    let five_of_clubs = Play::Add { column: Column::One, card: card(Five, Club) };
    // The jack that opens the stack scores 2.
    assert_eq!(minimax(&state, 1), (8, vec![jack]));
    // Either five then brings the total to 15; the first one found stays.
    assert_eq!(minimax(&state, 2), (16, vec![jack, five_of_clubs]));
    let (worth, line) = minimax(&state, 10);
    assert_eq!(line.len(), 4);
    let mut end = state.clone();
    for mv in &line {
        assert!(end.possible_actions().contains(mv));
        end = end.act(mv);
    }
    assert_eq!(end.evaluate(false), worth);
    assert!(end.end_status().is_some());
}

#[test]
fn best_move_deepens_the_search() {
    let state = jack_or_five();
    let jack = Play::Add { column: Column::One, card: card(Jack, Heart) };
    let five_of_clubs = Play::Add { column: Column::One, card: card(Five, Club) };
    assert_eq!(best_move(&state, Some(1), None), Some((jack, vec![])));
    assert_eq!(best_move(&state, Some(2), None), Some((jack, vec![five_of_clubs])));
    assert_eq!(
        best_move(&state, Some(2), Some(Duration::from_secs(3600))),
        Some((jack, vec![five_of_clubs]))
    );
    assert_eq!(best_move(&state, Some(0), None), None);
    // Whatever the clock says, one evaluation is made.
    let hurried = best_move(&state, Some(3), Some(Duration::ZERO));
    assert_eq!(hurried, Some((jack, vec![])));
}

#[test]
fn best_move_prefers_the_later_of_equals() {
    let state = CribbageSolitaire::new([
        vec![card(Two, Club)],
        vec![card(Three, Diamond)],
        vec![card(Ace, Spade)],
        vec![],
    ]);
    let last = Play::Add { column: Column::Three, card: card(Ace, Spade) };
    assert_eq!(best_move(&state, Some(1), None), Some((last, vec![])));
}

#[test]
fn best_move_without_moves() {
    let game = FortunesFoundation::default();
    assert!(game.possible_actions().is_empty());
    assert_eq!(best_move(&game, Some(3), None), None);
    assert_eq!(best_move(&game, None, None), None);
    assert_eq!(best_move(&game, None, Some(Duration::from_secs(1))), None);
}

#[test]
fn best_move_returns_a_single_legal_move_at_once() {
    let game = ordered_game();
    let only = game.possible_actions();
    assert_eq!(only.len(), 1);
    // With seventy forced moves ahead and no limit of depth or time, a search
    // would not come back.
    let start = Instant::now();
    assert_eq!(best_move(&game, None, None), Some((only[0], vec![])));
    assert_eq!(best_move(&game, Some(1_000_000), None), Some((only[0], vec![])));
    assert!(start.elapsed() < Duration::from_secs(5));
    // A single move is advised whatever the depth and the time.
    assert_eq!(best_move(&game, Some(0), None), Some((only[0], vec![])));
    assert_eq!(best_move(&game, Some(0), Some(Duration::ZERO)), Some((only[0], vec![])));
    // A finished game offers none.
    let done = CribbageSolitaire::new([vec![], vec![], vec![], vec![]]);
    assert_eq!(best_move(&done, None, None), None);
}

#[test]
fn best_move_advises_a_legal_move() {
    let state = russian();
    assert!(state.validate_tableau());
    let (advised, line) = best_move(&state, Some(2), Some(Duration::from_secs(5))).unwrap();
    assert!(state.possible_actions().contains(&advised));
    let mut next = state.act(&advised);
    for mv in &line {
        assert!(next.possible_actions().contains(mv));
        next = next.act(mv);
    }
    let game = fortune_1();
    let (advised, _) = best_move(&game, Some(2), Some(Duration::from_secs(5))).unwrap();
    assert!(game.possible_actions().contains(&advised));
}

#[test]
fn solver_finds_the_way_to_win() {
    let game = ordered_game();
    let path = dfs_r(game.clone(), None, None).unwrap();
    assert_eq!(path.len(), 70);
    let mut end = game.clone();
    for mv in &path {
        assert!(end.end_status().is_none());
        assert!(end.possible_actions().contains(mv));
        end = end.act(mv);
    }
    assert!(matches!(end.end_status(), Some(EndState::Win)));
    assert_eq!(dfs_r(game.clone(), Some(71), None), Some(path.clone()));
    assert_eq!(dfs_r(game.clone(), Some(70), None), None);
    assert_eq!(optimal_dfs(game), Some(path));
}

#[test]
fn solver_wins_at_cribbage() {
    let game = CribbageSolitaire::new([four_of(Ace), four_of(Two), four_of(Three), vec![]]);
    let path = dfs_r(game.clone(), Some(13), Some(Duration::from_secs(10))).unwrap();
    assert_eq!(path.len(), 12);
    let mut end = game;
    for mv in &path {
        end = end.act(mv);
    }
    assert!(end.score() >= 61);
    assert!(matches!(end.end_status(), Some(EndState::Win)));
    // No way to win is shorter than twelve moves.
    assert_eq!(dfs_r(CribbageSolitaire::new([four_of(Ace), four_of(Two), four_of(Three), vec![]]), Some(12), None), None);
    let best = optimal_dfs(CribbageSolitaire::new([four_of(Ace), four_of(Two), four_of(Three), vec![]]));
    assert_eq!(best.map(|path| path.len()), Some(12));
}

#[test]
fn solver_returns_an_empty_path_for_a_won_game() {
    let mut game = ordered_game();
    while !game.is_terminal() {
        let moves = game.possible_actions();
        game = game.act(&moves[0]);
    }
    assert_eq!(dfs_r(game.clone(), None, None), Some(vec![]));
    assert_eq!(dfs_r(game.clone(), Some(1), None), Some(vec![]));
    assert_eq!(dfs_r(game, Some(0), None), None);
}

#[test]
fn solver_respects_its_bounds() {
    // No deal of seventy cards is won within five moves.
    let start = Instant::now();
    assert_eq!(dfs_r(fortune_1(), Some(5), Some(Duration::from_secs(1))), None);
    assert!(start.elapsed() < Duration::from_secs(10));
    let start = Instant::now();
    assert_eq!(dfs_r(russian(), Some(5), Some(Duration::from_secs(1))), None);
    assert!(start.elapsed() < Duration::from_secs(10));
    // A lost game has no way to win.
    assert_eq!(dfs_r(FortunesFoundation::default(), None, None), None);
    let lost = FortunesFoundation::new(columns(vec![vec![major(5)], vec![major(9)]]));
    assert_eq!(dfs_r(lost, None, Some(Duration::from_secs(5))), None);
    // Out of time before the first state is entered.
    assert_eq!(dfs_r(ordered_game(), None, Some(Duration::ZERO)).map(|path| path.len()), None);
}

#[test]
fn forced_moves_reach_the_solver_too() {
    let game = FortunesFoundation::new(columns(vec![vec![minor(Two, Swords)]]));
    let build = Move::Build { card: minor(Two, Swords), from: 0 };
    assert_eq!(game.possible_actions(), vec![build]);
    assert_eq!(minimax(&game, 1).1, vec![build]);
    // The tableau is empty after the build, but the foundations are not full.
    assert_eq!(dfs_r(game, None, None), None);
}

#[test]
fn advisor_considers_a_move() {
    let jack = Play::Add { column: Column::One, card: card(Jack, Heart) };
    let five = Play::Add { column: Column::Two, card: card(Five, Diamond) };
    let none: (i128, Option<Play>, Vec<Play>) = (i128::MIN, None, vec![]);
    // The first move evaluated is always taken.
    let (first, go_on) = consider(none, jack, 8, vec![five], false);
    assert_eq!(first, (8, Some(jack), vec![five]));
    assert!(go_on);
    // A move that is worth as much replaces the advice, one that is worth less does not.
    let (equal, _) = consider(first.clone(), five, 8, vec![], false);
    assert_eq!(equal, (8, Some(five), vec![]));
    let (less, go_on) = consider(first.clone(), five, 7, vec![], true);
    assert_eq!(less, first);
    // Once the time is up the search stops, whatever the move was worth.
    assert!(!go_on);
    let (_, go_on) = consider(first, five, 9, vec![], true);
    assert!(!go_on);
}

#[test]
fn solver_improves_on_a_first_path() {
    let game = CribbageSolitaire::new([four_of(Ace), four_of(Two), four_of(Three), vec![]]);
    assert_eq!(improve(&game, None, &None), None);
    let first = solve(&game, None, &None).unwrap();
    assert_eq!(first.len(), 12);
    // A longer way to the same win: no shorter one than twelve moves is found.
    let best = improve(&game, Some(first.clone()), &None).unwrap();
    assert_eq!(best, first);
    assert_eq!(solve(&game, Some(12), &None), None);
    assert_eq!(solve(&game, Some(13), &None), Some(first));
    assert_eq!(solve(&game, Some(0), &None), None);
    assert_eq!(minute(), Some(Duration::from_secs(60)));
    assert_eq!(optimal_dfs(game).map(|path| path.len()), Some(12));
}

#[test]
fn solver_steps_follow_the_clock_and_the_set() {
    let mut won = ordered_game();
    while !won.is_terminal() {
        let moves = won.possible_actions();
        won = won.act(&moves[0]);
    }
    let lost = FortunesFoundation::default();
    let open = ordered_game();
    assert!(won_in_time(&won, false));
    assert!(!won_in_time(&won, true));
    assert!(!won_in_time(&lost, false));
    assert!(!won_in_time(&open, false));
    let start = Instant::now();
    let mut path: Vec<Move> = Vec::new();
    let mut cache: HashSet<FortunesFoundation> = HashSet::new();
    // Once the time is up no state is entered, not even a won one.
    assert!(!enter(&won, &mut path, &mut cache, 0, &start, 5, &None, true));
    assert!(!enter(&open, &mut path, &mut cache, 0, &start, 100, &None, true));
    assert!(path.is_empty());
    assert!(cache.is_empty());
    // A state that was entered before is left at once.
    assert!(!expand(&won, &mut path, &mut cache, 0, &start, 5, &None, false));
    assert!(!expand(&open, &mut path, &mut cache, 0, &start, 100, &None, false));
    assert!(path.is_empty());
    // A won game ends the search, a lost one does not.
    assert!(expand(&won, &mut path, &mut cache, 0, &start, 5, &None, true));
    assert!(path.is_empty());
    assert!(!expand(&lost, &mut path, &mut cache, 0, &start, 5, &None, true));
    // In time, a state is entered once: the second time the set knows it.
    assert!(enter(&won, &mut path, &mut cache, 0, &start, 5, &None, false));
    assert_eq!(cache.len(), 1);
    assert!(!enter(&won, &mut path, &mut cache, 0, &start, 5, &None, false));
    // The won game is known to the set now, so the search from the open game
    // is turned back at its end; with a set of its own it finds the seventy builds.
    assert!(!enter(&open, &mut path, &mut cache, 0, &start, 100, &None, false));
    assert!(path.is_empty());
    let mut cache: HashSet<FortunesFoundation> = HashSet::new();
    assert!(enter(&open, &mut path, &mut cache, 0, &start, 100, &None, false));
    assert_eq!(path.len(), 70);
}
