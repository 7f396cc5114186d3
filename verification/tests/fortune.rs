use solitaire::fortune::Suit::{Cups, Pentacles, Swords, Wands};
use solitaire::fortune::{arrange, Card, FortunesFoundation, MajorArcana, Move, Suit, TarotCard};
use solitaire::game::{EndState, Rank, State};
use solitaire::states::{fortune_1, fortune_2, fortune_3, fortune_4, fortune_5, fortune_6};
use std::collections::HashSet;

fn minor(rank: Rank, suit: Suit) -> TarotCard {
    TarotCard::Minor(Card { rank, suit })
}

fn major(rank: u8) -> TarotCard {
    TarotCard::Major(MajorArcana { rank })
}

fn columns(filled: Vec<Vec<TarotCard>>) -> [Vec<TarotCard>; 11] {
    let mut tableau: [Vec<TarotCard>; 11] = Default::default();
    for (i, column) in filled.into_iter().enumerate() {
        tableau[i] = column;
    }
    tableau
}

/// A small game without a build in sight.
fn small_game() -> FortunesFoundation {
    FortunesFoundation::new(columns(vec![
        vec![minor(Rank::Five, Cups), minor(Rank::Nine, Swords)],
        vec![minor(Rank::Ten, Swords)],
        vec![major(7), major(3)],
        vec![major(4)],
    ]))
}

/// The whole deck laid out so that every top card builds a foundation.
fn ordered_game() -> FortunesFoundation {
    let suit = |suit: Suit| (2..=13).rev().map(|n| minor(Rank::of_number(n), suit)).collect::<Vec<_>>();
    FortunesFoundation::new(columns(vec![
        suit(Pentacles),
        suit(Cups),
        suit(Wands),
        suit(Swords),
        (0..=21).rev().map(major).collect(),
    ]))
}

fn card_count(state: &FortunesFoundation) -> usize {
    state.tableau().iter().map(|column| column.len()).sum::<usize>()
        + state.minor_foundations().iter().map(|pile| pile.len()).sum::<usize>()
        + state.major_foundations().iter().map(|pile| pile.len()).sum::<usize>()
        + state.free_cell().iter().count()
}

fn all_cards(state: &FortunesFoundation) -> Vec<String> {
    let mut cards: Vec<String> = Vec::new();
    for column in state.tableau() {
        cards.extend(column.iter().map(|card| format!("{card:?}")));
    }
    for pile in state.minor_foundations() {
        cards.extend(pile.iter().map(|card| format!("{:?}", TarotCard::Minor(*card))));
    }
    for pile in state.major_foundations() {
        cards.extend(pile.iter().map(|card| format!("{:?}", TarotCard::Major(*card))));
    }
    cards.extend(state.free_cell().iter().map(|card| format!("{card:?}")));
    cards.sort();
    cards
}

#[test]
fn fortune_cards_stack_on_their_neighbours() {
    assert!(major(4).can_stack_on(&major(3)));
    assert!(major(3).can_stack_on(&major(4)));
    assert!(!major(3).can_stack_on(&major(5)));
    assert!(!major(3).can_stack_on(&major(3)));
    assert!(MajorArcana { rank: 0 }.can_stack_on(&MajorArcana { rank: 1 }));
    assert!(!MajorArcana { rank: 0 }.can_stack_on(&MajorArcana { rank: 21 }));
    assert!(minor(Rank::Nine, Swords).can_stack_on(&minor(Rank::Ten, Swords)));
    assert!(minor(Rank::Ten, Swords).can_stack_on(&minor(Rank::Nine, Swords)));
    assert!(!minor(Rank::Nine, Swords).can_stack_on(&minor(Rank::Ten, Cups)));
    assert!(!minor(Rank::Nine, Swords).can_stack_on(&minor(Rank::Jack, Swords)));
    assert!(!minor(Rank::Four, Swords).can_stack_on(&major(5)));
    assert!(!major(5).can_stack_on(&minor(Rank::Four, Swords)));
    assert!(major(5).is_major());
    assert!(!minor(Rank::Four, Swords).is_major());
}

#[test]
fn fortune_opening() {
    let game = FortunesFoundation::default();
    assert!(game.tableau().iter().all(|column| column.is_empty()));
    assert_eq!(game.free_cell(), None);
    assert!(game.history().is_empty());
    assert_eq!(game.minor_foundations()[0], vec![Card { rank: Rank::Ace, suit: Pentacles }]);
    assert_eq!(game.minor_foundations()[1], vec![Card { rank: Rank::Ace, suit: Cups }]);
    assert_eq!(game.minor_foundations()[2], vec![Card { rank: Rank::Ace, suit: Wands }]);
    assert_eq!(game.minor_foundations()[3], vec![Card { rank: Rank::Ace, suit: Swords }]);
    assert!(game.major_foundations().iter().all(|pile| pile.is_empty()));
    // An empty tableau ends the game, and with empty foundations it is lost.
    assert!(game.possible_actions().is_empty());
    assert!(game.is_terminal());
    assert!(!game.is_win());
    assert!(matches!(game.end_status(), Some(EndState::Loss)));
    // Four cards built, eleven empty columns, an empty free cell:
    // 30 + 33 + 5 = 68 points.
    assert_eq!(game.evaluate(false), 272);
}

#[test]
fn fortune_moves_come_best_first() {
    let game = small_game();
    let nine = minor(Rank::Nine, Swords);
    let ten = minor(Rank::Ten, Swords);
    let expected = vec![
        Move::Stack { card: major(4), from: 3, to: 2 },
        Move::Stack { card: major(3), from: 2, to: 4 },
        Move::Stack { card: major(3), from: 2, to: 3 },
        Move::Stack { card: ten, from: 1, to: 0 },
        Move::Stack { card: nine, from: 0, to: 4 },
        Move::Stack { card: nine, from: 0, to: 1 },
        Move::Free { card: major(4), from: 3 },
        Move::Free { card: major(3), from: 2 },
        Move::Free { card: ten, from: 1 },
        Move::Free { card: nine, from: 0 },
    ];
    assert_eq!(game.possible_actions(), expected);
    assert_eq!(game.possible_actions(), game.possible_actions());
    assert!(game.end_status().is_none());
    assert!(!game.is_terminal());
    // Four cards built, seven empty columns, an empty free cell, ten moves,
    // six cards left: 30 + 21 + 5 + 2.5 - 6 = 52.5 points.
    assert_eq!(game.evaluate(false), 210);
    assert_eq!(game.evaluate(true), 210);
}

#[test]
fn fortune_run_credit() {
    let game = FortunesFoundation::new(columns(vec![
        vec![minor(Rank::Ten, Swords), minor(Rank::Nine, Swords), minor(Rank::Eight, Swords)],
        vec![minor(Rank::Five, Cups), minor(Rank::Six, Cups)],
        vec![major(9), major(3), major(4)],
    ]));
    // Two descending steps count double, an ascending one and one of major
    // arcana count once: 2 + 2 + 1 + 1 = 6.
    let moves = game.possible_actions().len() as i128;
    assert_eq!(game.evaluate(false), 120 + 2 * 6 + 12 * 8 + 20 + moves - 4 * 8);
}

#[test]
fn fortune_build_is_forced() {
    let two_of_cups = minor(Rank::Two, Cups);
    let two_of_wands = minor(Rank::Two, Wands);
    let game = FortunesFoundation::new(columns(vec![
        vec![minor(Rank::Five, Cups), two_of_cups],
        vec![major(5), major(6)],
        vec![two_of_wands],
        vec![major(7)],
    ]));
    assert_eq!(game.possible_actions(), vec![Move::Build { card: two_of_cups, from: 0 }]);
    let next = game.act(&Move::Build { card: two_of_cups, from: 0 });
    assert_eq!(next.minor_foundations()[1].len(), 2);
    assert_eq!(next.tableau()[0], vec![minor(Rank::Five, Cups)]);
    assert_eq!(next.possible_actions(), vec![Move::Build { card: two_of_wands, from: 2 }]);
    let last = next.act(&Move::Build { card: two_of_wands, from: 2 });
    assert_eq!(last.minor_foundations()[2].len(), 2);
    assert!(last.possible_actions().len() > 1);
    assert!(last.possible_actions().iter().all(|mv| !matches!(mv, Move::Build { .. })));
    // The major arcana start with 0 on the left and 21 on the right.
    let game = FortunesFoundation::new(columns(vec![
        vec![major(20), major(21)],
        vec![major(1), major(0)],
    ]));
    assert_eq!(game.possible_actions(), vec![Move::Build { card: major(21), from: 0 }]);
    let game = game.act(&Move::Build { card: major(21), from: 0 });
    assert_eq!(game.major_foundations()[1], vec![MajorArcana { rank: 21 }]);
    assert_eq!(game.possible_actions(), vec![Move::Build { card: major(20), from: 0 }]);
    let game = game.act(&Move::Build { card: major(20), from: 0 });
    assert_eq!(game.possible_actions(), vec![Move::Build { card: major(0), from: 1 }]);
    let game = game.act(&Move::Build { card: major(0), from: 1 });
    let game = game.act(&Move::Build { card: major(1), from: 1 });
    assert_eq!(game.major_foundations()[0], vec![MajorArcana { rank: 0 }, MajorArcana { rank: 1 }]);
    assert_eq!(
        game.major_foundations()[1],
        vec![MajorArcana { rank: 21 }, MajorArcana { rank: 20 }]
    );
}

#[test]
fn fortune_free_cell_blocks_the_minor_foundations() {
    let two_of_cups = minor(Rank::Two, Cups);
    let game = FortunesFoundation::new(columns(vec![
        vec![minor(Rank::Five, Cups), minor(Rank::Nine, Swords)],
        vec![minor(Rank::Seven, Wands), two_of_cups],
        vec![major(7), major(3)],
    ]));
    assert_eq!(game.possible_actions(), vec![Move::Build { card: two_of_cups, from: 1 }]);
    let blocked = FortunesFoundation::new(columns(vec![
        vec![minor(Rank::Five, Cups), minor(Rank::Nine, Swords)],
        vec![minor(Rank::Seven, Wands)],
        vec![major(7), major(3)],
    ]))
    .act(&Move::Free { card: minor(Rank::Nine, Swords), from: 0 });
    assert_eq!(blocked.free_cell(), Some(minor(Rank::Nine, Swords)));
    assert!(blocked.possible_actions().iter().all(|mv| !matches!(mv, Move::Build { .. })));
}

#[test]
fn fortune_free_cell_holds_one_card() {
    let game = small_game();
    let nine = minor(Rank::Nine, Swords);
    let held = game.act(&Move::Free { card: nine, from: 0 });
    assert_eq!(held.free_cell(), Some(nine));
    assert_eq!(held.tableau()[0], vec![minor(Rank::Five, Cups)]);
    // Right after a card was freed it stays in the cell, and no other enters.
    assert_eq!(
        held.possible_actions(),
        vec![
            Move::Stack { card: major(4), from: 3, to: 2 },
            Move::Stack { card: major(3), from: 2, to: 4 },
            Move::Stack { card: major(3), from: 2, to: 3 },
        ]
    );
    // One turn later it may go onto the ten of swords or to the first empty column.
    let later = held.act(&Move::Stack { card: major(4), from: 3, to: 2 });
    assert_eq!(
        later.possible_actions(),
        vec![Move::Unfree { card: nine, to: 3 }, Move::Unfree { card: nine, to: 1 }]
    );
    let back = later.act(&Move::Unfree { card: nine, to: 1 });
    assert_eq!(back.free_cell(), None);
    assert_eq!(back.tableau()[1], vec![minor(Rank::Ten, Swords), nine]);
    assert!(back.possible_actions().iter().any(|mv| mv.is_free()));
    assert!(back.possible_actions().iter().all(|mv| !mv.is_unfree()));
}

#[test]
fn fortune_no_move_carries_the_card_that_moved_last() {
    let game = small_game();
    let after = game.act(&Move::Stack { card: major(3), from: 2, to: 3 });
    assert_eq!(after.tableau()[3], vec![major(4), major(3)]);
    let moves = after.possible_actions();
    assert!(!moves.is_empty());
    assert!(moves.iter().all(|mv| mv.card() != major(3)));
    // Without the guard the three could go back at once.
    let fresh = FortunesFoundation::new(after.tableau().clone());
    assert!(fresh.possible_actions().iter().any(|mv| mv.card() == major(3)));
}

#[test]
fn fortune_recent_moves_are_not_repeated() {
    let game = small_game();
    let nine = minor(Rank::Nine, Swords);
    let ten = minor(Rank::Ten, Swords);
    let there = Move::Stack { card: nine, from: 0, to: 1 };
    let one = game.act(&there);
    let two = one.act(&Move::Stack { card: major(3), from: 2, to: 3 });
    let three = two.act(&Move::Stack { card: nine, from: 1, to: 0 });
    let four = three.act(&Move::Stack { card: major(3), from: 3, to: 2 });
    assert_eq!(four, game);
    assert_eq!(four.tableau()[1], vec![ten]);
    // The nine could go onto the ten again, but did so within the last eleven turns.
    assert!(game.possible_actions().contains(&there));
    assert!(!four.possible_actions().contains(&there));
}

#[test]
fn fortune_equality_and_hash_ignore_the_history() {
    let game = small_game();
    let there = Move::Stack { card: major(3), from: 2, to: 3 };
    let back = Move::Stack { card: major(4), from: 3, to: 2 };
    let moved = game.act(&there);
    assert_ne!(moved, game);
    let other = game.act(&back);
    assert_ne!(moved, other);
    let same = FortunesFoundation::new(moved.tableau().clone());
    assert!(same.history().is_empty());
    assert_eq!(same, moved);
    let mut seen = HashSet::new();
    assert!(seen.insert(moved));
    assert!(!seen.insert(same));
    assert!(seen.insert(other));
    assert!(seen.insert(game));
    assert_eq!(seen.len(), 3);
}

#[test]
fn fortune_ordered_game_is_won_by_building() {
    let mut game = ordered_game();
    let cards = all_cards(&game);
    assert_eq!(card_count(&game), 74);
    let mut turns = 0;
    while !game.is_terminal() {
        let moves = game.possible_actions();
        assert_eq!(moves.len(), 1);
        assert!(matches!(moves[0], Move::Build { .. }));
        assert!(game.end_status().is_none());
        assert!(!game.is_win());
        game = game.act(&moves[0]);
        assert_eq!(card_count(&game), 74);
        assert_eq!(all_cards(&game), cards);
        turns += 1;
    }
    assert_eq!(turns, 70);
    assert!(game.is_win());
    assert!(matches!(game.end_status(), Some(EndState::Win)));
    assert!(game.minor_foundations().iter().all(|pile| pile.len() == 13));
    assert_eq!(game.major_foundations()[0].len(), 22);
    // 10,000 points less one for each of the seventy moves.
    assert_eq!(game.evaluate(false), 4 * (10_000 - 70));
    for other in [ordered_game(), small_game(), fortune_1(), FortunesFoundation::default()] {
        assert!(game.evaluate(false) > other.evaluate(false));
    }
}

#[test]
fn fortune_fixed_deals() {
    for deal in [fortune_1(), fortune_2(), fortune_3(), fortune_4(), fortune_5(), fortune_6()] {
        assert_eq!(card_count(&deal), 74);
        let mut cards = all_cards(&deal);
        cards.dedup();
        assert_eq!(cards.len(), 74);
        assert_eq!(deal.free_cell(), None);
        assert!(deal.history().is_empty());
        assert!(!deal.is_win());
        assert!(!deal.is_terminal());
        assert_eq!(deal.possible_actions(), deal.possible_actions());
        assert_eq!(deal.end_status().is_none(), !deal.possible_actions().is_empty());
    }
}

#[test]
fn fortune_cards_are_conserved() {
    let mut game = fortune_3();
    let cards = all_cards(&game);
    for turn in 0..60 {
        let moves = game.possible_actions();
        assert_eq!(game.end_status().is_none(), !moves.is_empty());
        if moves.is_empty() {
            break;
        }
        game = game.act(&moves[turn % moves.len()]);
        assert_eq!(all_cards(&game), cards);
        assert_eq!(game.history().len(), turn + 1);
    }
}

#[test]
fn fortune_arrange_keeps_every_move() {
    let nine = minor(Rank::Nine, Swords);
    let moves = vec![
        Move::Free { card: nine, from: 0 },
        Move::Unfree { card: nine, to: 1 },
        Move::Stack { card: nine, from: 0, to: 1 },
        Move::Build { card: nine, from: 0 },
        Move::Stack { card: nine, from: 0, to: 2 },
        Move::Free { card: nine, from: 3 },
    ];
    assert_eq!(
        arrange(&moves),
        vec![
            Move::Build { card: nine, from: 0 },
            Move::Stack { card: nine, from: 0, to: 2 },
            Move::Stack { card: nine, from: 0, to: 1 },
            Move::Unfree { card: nine, to: 1 },
            Move::Free { card: nine, from: 3 },
            Move::Free { card: nine, from: 0 },
        ]
    );
    assert_eq!(Move::Build { card: nine, from: 0 }.priority(), 3);
    assert_eq!(Move::Free { card: nine, from: 0 }.priority(), 0);
}

#[test]
fn fortune_soundness() {
    assert!(small_game().is_sound());
    assert!(ordered_game().is_sound());
    assert!(FortunesFoundation::default().is_sound());
    assert!(fortune_1().is_sound());
    let held = small_game().act(&Move::Free { card: minor(Rank::Nine, Swords), from: 0 });
    assert!(held.is_sound());
    // Seventy-five cards are one too many.
    let mut tableau = ordered_game().tableau().clone();
    tableau[5].push(major(7));
    assert!(!FortunesFoundation::new(tableau).is_sound());
}

#[test]
fn fortune_moves_compare_by_priority() {
    let nine = minor(Rank::Nine, Swords);
    let build = Move::Build { card: nine, from: 0 };
    let stack = Move::Stack { card: nine, from: 0, to: 1 };
    let unfree = Move::Unfree { card: nine, to: 1 };
    let free = Move::Free { card: nine, from: 0 };
    assert!(build > stack && stack > unfree && unfree > free);
    assert!(free < build);
    assert!(!(stack < Move::Stack { card: major(3), from: 4, to: 5 }));
    assert!(stack <= Move::Stack { card: major(3), from: 4, to: 5 });
    assert!(stack >= Move::Stack { card: major(3), from: 4, to: 5 });
}

#[test]
fn fortune_free_card_leaves_for_an_empty_tableau() {
    // Free the five, build the 0: the tableau is empty, the five still in the cell.
    let game = FortunesFoundation::new(columns(vec![vec![major(0), major(5)]]));
    assert!(game.is_sound());
    let held = game.act(&Move::Free { card: major(5), from: 0 });
    assert_eq!(held.possible_actions(), vec![Move::Build { card: major(0), from: 0 }]);
    let empty = held.act(&Move::Build { card: major(0), from: 0 });
    assert!(empty.tableau().iter().all(|column| column.is_empty()));
    assert_eq!(empty.free_cell(), Some(major(5)));
    // The game goes on: the five may go to the first empty column.
    assert_eq!(empty.possible_actions(), vec![Move::Unfree { card: major(5), to: 0 }]);
    assert!(!empty.is_terminal());
    assert!(empty.end_status().is_none());
    // Five cards built, eleven empty columns, one move: 37.5 + 33 + 0.25 points.
    assert_eq!(empty.evaluate(false), 150 + 132 + 1);
    // Back in the tableau the five may not move again at once: the game is lost.
    let back = empty.act(&Move::Unfree { card: major(5), to: 0 });
    assert_eq!(back.tableau()[0], vec![major(5)]);
    assert!(back.possible_actions().is_empty());
    assert!(back.is_terminal());
    assert!(matches!(back.end_status(), Some(EndState::Loss)));
}

#[test]
fn fortune_last_card_is_built_from_the_cell() {
    // The 1 waits in the cell while the 0 is built, and follows it by way of a column.
    let game = FortunesFoundation::new(columns(vec![vec![major(0), major(1)]]));
    let mut state = game.act(&Move::Free { card: major(1), from: 0 });
    state = state.act(&Move::Build { card: major(0), from: 0 });
    assert_eq!(state.possible_actions(), vec![Move::Unfree { card: major(1), to: 0 }]);
    state = state.act(&Move::Unfree { card: major(1), to: 0 });
    assert_eq!(state.possible_actions(), vec![Move::Build { card: major(1), from: 0 }]);
    state = state.act(&Move::Build { card: major(1), from: 0 });
    assert_eq!(state.major_foundations()[0], vec![MajorArcana { rank: 0 }, MajorArcana { rank: 1 }]);
    assert!(state.possible_actions().is_empty());
    assert!(matches!(state.end_status(), Some(EndState::Loss)));
}

#[test]
fn fortune_status_goes_with_the_moves() {
    let mut game = fortune_2();
    for turn in 0..80 {
        let moves = game.possible_actions();
        assert_eq!(game.end_status().is_none(), !moves.is_empty());
        assert_eq!(game.is_terminal(), moves.is_empty());
        if moves.is_empty() {
            break;
        }
        game = game.act(&moves[(turn * 7) % moves.len()]);
    }
    let won = {
        let mut game = ordered_game();
        while !game.is_terminal() {
            let moves = game.possible_actions();
            game = game.act(&moves[0]);
        }
        game
    };
    assert!(won.possible_actions().is_empty());
    assert!(won.evaluate(false) > game.evaluate(false));
}

#[test]
fn fortune_no_card_twice() {
    let twice = FortunesFoundation::new(columns(vec![
        vec![major(3), minor(Rank::Nine, Swords)],
        vec![major(3)],
    ]));
    assert!(!twice.is_sound());
    // The aces lie on the foundations from the start.
    let ace = FortunesFoundation::new(columns(vec![vec![minor(Rank::Ace, Cups)]]));
    assert!(!ace.is_sound());
    let held = small_game().act(&Move::Free { card: minor(Rank::Nine, Swords), from: 0 });
    let mut tableau = held.tableau().clone();
    tableau[6].push(minor(Rank::Nine, Swords));
    assert!(FortunesFoundation::new(tableau.clone()).is_sound());
    for deal in [fortune_1(), fortune_2(), fortune_3(), fortune_4(), fortune_5(), fortune_6()] {
        assert!(deal.is_sound());
    }
}
