use solitaire::deal::short_deck;
use solitaire::game::Rank::{Ace, Eight, Jack, King, Nine, Queen, Seven, Six, Ten, Two};
use solitaire::game::Suit::{Club, Diamond, Heart, Spade};
use solitaire::game::{Card, EndState, Rank, State, Suit};
use solitaire::russian::{arrange, Components, Move, Player, ProletariatsPatience};
use solitaire::states::{russian, russian_2, russian_3};
use std::collections::HashSet;

fn card(rank: Rank, suit: Suit) -> Card {
    Card { suit, rank }
}

fn sorted_cards(state: &ProletariatsPatience) -> Vec<usize> {
    let mut codes: Vec<usize> = Vec::new();
    for column in state.tableau() {
        for card in column {
            codes.push(card.code());
        }
    }
    if let Some(card) = state.free_cell() {
        codes.push(card.code());
    }
    codes.sort();
    codes
}

fn won_game() -> ProletariatsPatience {
    let numbers = |first: Suit, second: Suit| {
        vec![
            card(Ten, first),
            card(Nine, second),
            card(Eight, first),
            card(Seven, second),
            card(Six, first),
        ]
    };
    let faces = |suit: Suit| vec![card(Ace, suit), card(Jack, suit), card(Queen, suit), card(King, suit)];
    ProletariatsPatience::new([
        numbers(Heart, Club),
        numbers(Club, Heart),
        numbers(Diamond, Spade),
        numbers(Spade, Diamond),
        faces(Heart),
        faces(Diamond),
        faces(Club),
        faces(Spade),
        vec![],
    ])
}

#[test]
fn test_legal_moves() {
    let state = russian();
    assert!(state.validate_tableau());
    let legal_moves = state.legal_moves();

    let free_moves = [
        Move::Free {
            card: Card {
                suit: Spade,
                rank: Nine,
            },
            from: 0,
        },
        Move::Free {
            card: Card {
                suit: Club,
                rank: King,
            },
            from: 1,
        },
        Move::Free {
            card: Card {
                suit: Diamond,
                rank: Six,
            },
            from: 2,
        },
        Move::Free {
            card: Card {
                suit: Diamond,
                rank: Seven,
            },
            from: 3,
        },
        Move::Free {
            card: Card {
                suit: Spade,
                rank: Ten,
            },
            from: 4,
        },
        Move::Free {
            card: Card {
                suit: Spade,
                rank: Ace,
            },
            from: 5,
        },
        Move::Free {
            card: Card {
                suit: Club,
                rank: Jack,
            },
            from: 6,
        },
        Move::Free {
            card: Card {
                suit: Heart,
                rank: Nine,
            },
            from: 7,
        },
        Move::Free {
            card: Card {
                suit: Diamond,
                rank: Ace,
            },
            from: 8,
        },
    ];
    for free_move in &free_moves {
        assert!(legal_moves.contains(free_move));
    }

    let stack_moves = [
        Move::Stack {
            cards: vec![Card {
                suit: Heart,
                rank: Nine,
            }],
            from: 7,
            to: 4,
        },
        Move::Stack {
            cards: vec![Card {
                suit: Club,
                rank: King,
            }],
            from: 1,
            to: 6,
        },
        Move::Stack {
            cards: vec![Card {
                suit: Club,
                rank: Jack,
            }],
            from: 6,
            to: 1,
        },
    ];
    for stack_move in &stack_moves {
        assert!(legal_moves.contains(stack_move));
    }

    let additional_moves = legal_moves
        .iter()
        .filter(|m| !free_moves.contains(m) && !stack_moves.contains(m))
        .collect::<Vec<_>>();
    assert_eq!(
        legal_moves.len(),
        free_moves.len() + stack_moves.len(),
        "Additional moves: {additional_moves:?}"
    )
}

#[test]
fn revert_unapplies_action() {
    let state = russian_2();
    assert!(state.validate_tableau());

    for mv in state.legal_moves() {
        let child_state = state.apply_move(mv.clone());
        let reverted_state = child_state.revert_move(&mv);
        assert_eq!(reverted_state, state);
    }
}

#[test]
fn russian_deals_are_sound() {
    assert!(russian().validate_tableau());
    assert!(russian_2().validate_tableau());
    assert!(russian_3().validate_tableau());
}

#[test]
fn russian_moves_come_best_first() {
    let moves = russian().legal_moves();
    let expected = vec![
        Move::Stack { cards: vec![card(Nine, Heart)], from: 7, to: 4 },
        Move::Stack { cards: vec![card(Jack, Club)], from: 6, to: 1 },
        Move::Stack { cards: vec![card(King, Club)], from: 1, to: 6 },
        Move::Free { card: card(Ace, Diamond), from: 8 },
        Move::Free { card: card(Nine, Heart), from: 7 },
        Move::Free { card: card(Jack, Club), from: 6 },
        Move::Free { card: card(Ace, Spade), from: 5 },
        Move::Free { card: card(Ten, Spade), from: 4 },
        Move::Free { card: card(Seven, Diamond), from: 3 },
        Move::Free { card: card(Six, Diamond), from: 2 },
        Move::Free { card: card(King, Club), from: 1 },
        Move::Free { card: card(Nine, Spade), from: 0 },
    ];
    assert_eq!(moves, expected);
}

#[test]
fn russian_heuristic_of_a_fresh_deal() {
    let state = russian();
    // No completed stack, no run, a depth error of 34 and twelve moves:
    // -34 + 6 = -28 points.
    assert_eq!(state.heuristic_score(false), -112);
    assert_eq!(state.evaluate(false), -112);
    assert_eq!(state.evaluate(true), -112);
    assert!(state.end_status().is_none());
}

#[test]
fn russian_heuristic_after_a_move() {
    let state = russian();
    let after = state.apply_move(Move::Stack { cards: vec![card(Nine, Heart)], from: 7, to: 4 });
    assert_eq!(after.history().len(), 1);
    // One card rests in a run, the depth error is 35, twelve moves are on
    // offer and one move was made: 2 - 35 + 6 - 0.25 = -27.25 points.
    assert_eq!(after.legal_moves().len(), 12);
    assert_eq!(after.heuristic_score(false), -109);
}

#[test]
fn russian_heuristic_counts_repeated_moves() {
    let state = russian();
    let there = Move::Stack { cards: vec![card(Jack, Club)], from: 6, to: 1 };
    let back = Move::Stack { cards: vec![card(Jack, Club)], from: 1, to: 6 };
    let mut round = state.apply_move(there.clone());
    round = round.apply_move(back.clone());
    let once = round.heuristic_score(false);
    assert_eq!(round, state);
    round = round.apply_move(there);
    round = round.apply_move(back);
    // Two of the four moves repeat an earlier one: a point each, and half a
    // point for the two further moves made.
    let offered_once = state
        .apply_move(Move::Stack { cards: vec![card(Jack, Club)], from: 6, to: 1 })
        .apply_move(Move::Stack { cards: vec![card(Jack, Club)], from: 1, to: 6 })
        .legal_moves()
        .len() as i128;
    let offered_twice = round.legal_moves().len() as i128;
    assert_eq!(round.heuristic_score(false) - once, 2 * (offered_twice - offered_once) - 8 - 2);
}

#[test]
fn russian_cards_are_conserved() {
    let mut state = russian_3();
    assert!(state.validate_tableau());
    let cards = sorted_cards(&state);
    for _ in 0..40 {
        let moves = state.possible_actions();
        if moves.is_empty() {
            break;
        }
        state = state.act(&moves[moves.len() / 2]);
        assert!(state.validate_tableau());
        assert_eq!(sorted_cards(&state), cards);
    }
    assert!(state.history().len() > 0);
}

#[test]
fn russian_revert_restores_the_history() {
    let root = russian_3();
    let first = root.legal_moves().remove(0);
    let state = root.apply_move(first);
    for mv in state.legal_moves() {
        let child = state.apply_move(mv.clone());
        assert_eq!(child.history().len(), 2);
        let back = child.revert(&mv);
        assert_eq!(back, state);
        assert_eq!(back.history(), state.history());
        assert_eq!(back.free_cell(), state.free_cell());
        assert_eq!(back.tableau(), state.tableau());
    }
}

#[test]
fn russian_game_goes_on_while_moves_are_offered() {
    let mut state = russian_2();
    for _ in 0..25 {
        let moves = state.possible_actions();
        assert!(!state.is_win());
        assert_eq!(state.end_status().is_none(), !moves.is_empty());
        assert_eq!(state.is_terminal(), moves.is_empty());
        if moves.is_empty() {
            break;
        }
        state = state.act(&moves[0]);
    }
}

#[test]
fn russian_win_outscores_every_other_state() {
    let won = won_game();
    assert!(won.validate_tableau());
    assert!(won.is_win());
    assert!(won.is_terminal());
    assert!(matches!(won.end_status(), Some(EndState::Win)));
    assert_eq!(won.evaluate(false), 4_000);
    // A won game is over: nothing moves in it, though a six could be freed.
    assert!(won.possible_actions().is_empty());
    assert!(won.legal_moves().is_empty());
    for other in [russian(), russian_2(), russian_3()] {
        assert!(won.evaluate(false) > other.evaluate(false));
        for mv in other.possible_actions() {
            assert!(won.evaluate(false) > other.act(&mv).evaluate(false));
        }
    }
}

#[test]
fn russian_rewards() {
    assert_eq!(Player.reward_when_outcome_is(&solitaire::russian::EndState::Win), 4_000);
    assert_eq!(Player.reward_when_outcome_is(&solitaire::russian::EndState::Loss), -4_000);
}

#[test]
fn russian_listing_is_stable() {
    let state = russian_2();
    assert_eq!(state.possible_actions(), state.possible_actions());
    let next = state.act(&state.possible_actions()[3]);
    assert_eq!(next.possible_actions(), next.possible_actions());
}

#[test]
fn russian_no_move_carries_the_cards_that_moved_last() {
    let state = russian();
    let there = Move::Stack { cards: vec![card(Nine, Heart)], from: 7, to: 4 };
    let after = state.apply_move(there);
    for mv in after.legal_moves() {
        match mv {
            Move::Stack { cards, .. } => assert_ne!(cards, vec![card(Nine, Heart)]),
            Move::Free { card: moved, .. } => assert_ne!(moved, card(Nine, Heart)),
            Move::Unfree { card: moved, .. } => assert_ne!(moved, card(Nine, Heart)),
        }
    }
}

#[test]
fn russian_free_cell_holds_one_card() {
    let state = russian();
    let freed = card(Nine, Heart);
    let held = state.apply_move(Move::Free { card: freed, from: 7 });
    assert_eq!(held.free_cell(), Some(freed));
    // Right after a card was freed nothing leaves the cell, and nothing
    // enters it while it is full.
    for mv in held.legal_moves() {
        assert!(!mv.is_free());
        assert!(!mv.is_unfree());
    }
    // One turn later the free card is offered to the ten of spades.
    let later = held.apply_move(Move::Stack { cards: vec![card(King, Club)], from: 1, to: 6 });
    let moves = later.legal_moves();
    assert!(moves.iter().all(|mv| !mv.is_free()));
    assert!(moves.contains(&Move::Unfree { card: freed, to: 4 }));
    let back = later.apply_move(Move::Unfree { card: freed, to: 4 });
    assert_eq!(back.free_cell(), None);
    assert_eq!(back.peek_column(4), Some(&freed));
}

#[test]
fn russian_recent_moves_are_not_repeated() {
    let state = russian();
    let there = Move::Stack { cards: vec![card(Jack, Club)], from: 6, to: 1 };
    assert!(state.legal_moves().contains(&there));
    let one = state.apply_move(there.clone());
    let two = one.apply_move(Move::Free { card: card(Jack, Heart), from: 6 });
    let three = two.apply_move(Move::Stack { cards: vec![card(Jack, Club)], from: 1, to: 6 });
    let four = three.apply_move(Move::Stack { cards: vec![card(Nine, Heart)], from: 7, to: 4 });
    // The jack of clubs could go back onto the king, but that move was made
    // within the last eight turns.
    assert_eq!(four.peek_column(6), Some(&card(Jack, Club)));
    assert_eq!(four.peek_column(1), Some(&card(King, Club)));
    assert!(!four.legal_moves().contains(&there));
    // Nine turns later it is on offer again.
    let mut later = four.clone();
    let shuttle = [
        Move::Stack { cards: vec![card(Nine, Heart)], from: 4, to: 7 },
        Move::Stack { cards: vec![card(Nine, Heart)], from: 7, to: 4 },
    ];
    let mut turns = 0;
    while later.history().len() < 4 + 8 {
        let moves = later.legal_moves();
        let next = moves
            .iter()
            .find(|mv| {
                !matches!(mv, Move::Stack { cards, .. } if cards.contains(&card(Jack, Club)))
                    && !shuttle.contains(mv)
                    && !matches!(mv, Move::Stack { from: 6, .. } | Move::Stack { to: 6, .. })
                    && !matches!(mv, Move::Stack { from: 1, .. } | Move::Stack { to: 1, .. })
                    && !matches!(mv, Move::Free { from: 6, .. } | Move::Free { from: 1, .. })
                    && !matches!(mv, Move::Unfree { to: 6, .. } | Move::Unfree { to: 1, .. })
            })
            .cloned();
        match next {
            Some(mv) => later = later.apply_move(mv),
            None => break,
        }
        turns += 1;
        assert!(turns < 20);
    }
    if later.history().len() == 12
        && later.peek_column(6) == Some(&card(Jack, Club))
        && later.peek_column(1) == Some(&card(King, Club))
        && !matches!(later.history().last(), Some(Move::Stack { cards, .. }) if cards == &vec![card(Jack, Club)])
    {
        assert!(later.legal_moves().contains(&there));
    }
}

#[test]
fn russian_equality_and_hash_ignore_the_history() {
    let state = russian();
    let there = Move::Stack { cards: vec![card(King, Club)], from: 1, to: 6 };
    let back = Move::Stack { cards: vec![card(King, Club)], from: 6, to: 1 };
    let round_trip = state.apply_move(there.clone()).apply_move(back);
    assert_eq!(round_trip.history().len(), 2);
    assert_eq!(round_trip, state);
    assert_ne!(state.apply_move(there), state);
    let mut seen = HashSet::new();
    assert!(seen.insert(state.clone()));
    assert!(!seen.insert(round_trip));
    assert!(seen.insert(russian_2()));
    assert_eq!(seen.len(), 2);
}

#[test]
fn russian_random_deal_is_sound_and_shuffled() {
    let mut unshuffled = short_deck();
    assert_eq!(unshuffled.len(), 36);
    let mut in_order: Vec<Vec<Card>> = Vec::new();
    for _ in 0..9 {
        in_order.push(unshuffled.split_off(unshuffled.len() - 4));
    }
    let mut shuffled = false;
    for _ in 0..5 {
        let game = ProletariatsPatience::default();
        assert!(game.validate_tableau());
        assert_eq!(game.free_cell(), None);
        assert!(game.history().is_empty());
        assert!(game.tableau().iter().all(|column| column.len() == 4));
        if game.tableau().to_vec() != in_order {
            shuffled = true;
        }
    }
    assert!(shuffled);
}

#[test]
fn russian_unsound_deals_are_refused() {
    let sound = russian();
    let mut columns = sound.tableau().clone();
    columns[0][0] = columns[1][1];
    assert!(!ProletariatsPatience::new(columns).validate_tableau());
    let mut columns = sound.tableau().clone();
    columns[3][2] = card(Two, Heart);
    assert!(!ProletariatsPatience::new(columns).validate_tableau());
    let mut columns = sound.tableau().clone();
    columns[8].pop();
    assert!(!ProletariatsPatience::new(columns).validate_tableau());
    let mut columns = sound.tableau().clone();
    columns[8].push(card(Rank::Three, Club));
    assert!(!ProletariatsPatience::new(columns).validate_tableau());
}

#[test]
fn russian_completed_stacks() {
    let won = won_game();
    assert!(ProletariatsPatience::is_completed_number_stack(&won.tableau()[0]));
    assert!(!ProletariatsPatience::is_completed_face_stack(&won.tableau()[0]));
    assert!(ProletariatsPatience::is_completed_face_stack(&won.tableau()[4]));
    assert!(!ProletariatsPatience::is_completed_number_stack(&won.tableau()[4]));
    let same_colour = vec![
        card(Ten, Heart),
        card(Nine, Diamond),
        card(Eight, Heart),
        card(Seven, Club),
        card(Six, Heart),
    ];
    assert!(!ProletariatsPatience::is_completed_number_stack(&same_colour));
    let mixed = vec![card(Ace, Heart), card(Jack, Heart), card(Queen, Club), card(King, Heart)];
    assert!(!ProletariatsPatience::is_completed_face_stack(&mixed));
    assert!(ProletariatsPatience::can_stack(&card(Six, Heart), &card(Seven, Club)));
    assert!(!ProletariatsPatience::can_stack(&card(Six, Heart), &card(Seven, Diamond)));
    assert!(ProletariatsPatience::can_stack(&card(Ace, Heart), &card(King, Heart)));
    assert!(!ProletariatsPatience::can_stack(&card(Ace, Heart), &card(Six, Club)));
}

#[test]
fn russian_runs_move_as_one() {
    let mut columns = won_game().tableau().clone();
    // Take the six and the seven off the first stack and put them aside.
    let six = columns[0].pop().unwrap();
    let seven = columns[0].pop().unwrap();
    columns[8].push(seven);
    columns[8].push(six);
    let state = ProletariatsPatience::new(columns);
    assert!(state.validate_tableau());
    let moves = state.legal_moves();
    let run = Move::Stack { cards: vec![seven, six], from: 8, to: 0 };
    assert_eq!(moves[0], run);
    let next = state.apply_move(run.clone());
    assert!(next.is_win());
    assert_eq!(next.revert_move(&run), state);
    // The run is the whole column, so it is not offered to an empty column,
    // and neither is its top card alone.
    assert!(moves.iter().all(|mv| !matches!(mv, Move::Stack { from: 8, to, .. } if *to != 0)));
}

#[test]
fn russian_heuristic_components() {
    let parts = russian().heuristic_components();
    assert_eq!(
        parts,
        Components {
            completed_stacks: 0,
            stack_progress: 0,
            depth_error: 34,
            moves_available: 12,
            repetitions: 0,
            depth: 0,
        }
    );
    assert_eq!(parts.total(), -112);
    let parts = Components {
        completed_stacks: 3,
        stack_progress: 7,
        depth_error: 11,
        moves_available: 5,
        repetitions: 2,
        depth: 9,
    };
    // 30 + 14 - 11 + 2.5 - 2 - 2.25 = 31.25 points.
    assert_eq!(parts.total(), 125);
    let after = russian().apply_move(Move::Stack { cards: vec![card(Nine, Heart)], from: 7, to: 4 });
    let parts = after.heuristic_components();
    assert_eq!((parts.stack_progress, parts.depth_error, parts.depth), (1, 35, 1));
}

#[test]
fn russian_moves_compare_by_priority() {
    let six = card(Six, Heart);
    let free = Move::Free { card: six, from: 0 };
    let unfree = Move::Unfree { card: six, to: 1 };
    let one = Move::Stack { cards: vec![six], from: 0, to: 1 };
    let two = Move::Stack { cards: vec![card(Seven, Club), six], from: 0, to: 1 };
    assert!(two > one && one > unfree && unfree > free);
    assert!(free < two);
    assert!(!(one < Move::Stack { cards: vec![card(Ten, Spade)], from: 3, to: 4 }));
    assert!(one <= Move::Stack { cards: vec![card(Ten, Spade)], from: 3, to: 4 });
    assert!(one.has_priority(2) && two.has_priority(3) && unfree.has_priority(1));
    assert!(free.has_priority(0) && !free.has_priority(1));
    assert!(one.same_load(&free) && !one.same_load(&two) && free.same_load(&unfree));
    let moves = vec![free.clone(), one.clone(), unfree.clone(), two.clone(), free.clone()];
    assert_eq!(arrange(&moves), vec![two, one, unfree, free.clone(), free]);
}
