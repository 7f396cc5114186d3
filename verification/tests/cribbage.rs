use solitaire::cribbage::{Column, CribbageSolitaire, Move, Reader};
use solitaire::game::Rank::{Ace, Five, Jack, King, Queen, Seven, Three, Two};
use solitaire::game::Suit::{Club, Diamond, Heart, Spade};
use solitaire::game::{Card, Color, EndState, Rank, State, Suit};
use solitaire::states::state_0001;

fn card(rank: Rank, suit: Suit) -> Card {
    Card { suit, rank }
}

fn four_of(rank: Rank) -> Vec<Card> {
    vec![card(rank, Heart), card(rank, Diamond), card(rank, Club), card(rank, Spade)]
}

/// Aces, twos and threes, a column each: played in that order they score 62.
fn small_game() -> CribbageSolitaire {
    CribbageSolitaire::new([four_of(Ace), four_of(Two), four_of(Three), vec![]])
}

fn cards_in_play(state: &CribbageSolitaire) -> Vec<usize> {
    let mut codes: Vec<usize> = Vec::new();
    for column in state.tableau() {
        for card in column {
            codes.push(card.code());
        }
    }
    for mv in state.history() {
        if let Move::Add { card, .. } = mv {
            codes.push(card.code());
        }
    }
    codes.sort();
    codes
}

#[test]
fn test_parser() {
    let input = "\
7H  7D  KC  10C
8S  3H  10D 6D
KD  JS  10S 8C
4C  AC  AS  6S
JH  KH  3C  QH
9D  6C  QD  4H
5D  5H  3D  QC
9S  5S  8D  7S
JC  9C  4S  JD
9H  7C  4D  6H
2C  KS  2D  5C
10H AC  3S  QS
2S  AH  8H  2H";
    let state = CribbageSolitaire::from_str(input);
    assert_eq!(state, state_0001());
}

#[test]
fn cribbage_parser_reads_row_by_row() {
    let state = CribbageSolitaire::from_str("ah 10d\n\tQs   2C 5c");
    assert_eq!(state.tableau()[0], vec![card(Ace, Heart), card(Five, Club)]);
    assert_eq!(state.tableau()[1], vec![card(Rank::Ten, Diamond)]);
    assert_eq!(state.tableau()[2], vec![card(Queen, Spade)]);
    assert_eq!(state.tableau()[3], vec![card(Two, Club)]);
    assert_eq!(state.score(), 0);
    assert!(state.stack().is_empty());
    assert!(state.history().is_empty());
    // A lone zero is no ten, what names neither rank nor suit is passed over,
    // and a suit waits for its rank.
    let state = CribbageSolitaire::from_str("0h x 7?s");
    assert_eq!(state.tableau()[0], vec![card(Seven, Heart)]);
    assert_eq!(state.remaining_cards(), 1);
    assert_eq!(CribbageSolitaire::from_str("").remaining_cards(), 0);
}

#[test]
fn symbols_are_read_in_either_case() {
    assert_eq!(Suit::try_from("h".to_string()), Ok(Heart));
    assert_eq!(Suit::try_from("D".to_string()), Ok(Diamond));
    assert_eq!(Suit::try_from("c".to_string()), Ok(Club));
    assert_eq!(Suit::try_from("S".to_string()), Ok(Spade));
    assert_eq!(Rank::try_from("a".to_string()), Ok(Ace));
    assert_eq!(Rank::try_from("10".to_string()), Ok(Rank::Ten));
    assert_eq!(Rank::try_from("9".to_string()), Ok(Rank::Nine));
    assert_eq!(Rank::try_from("q".to_string()), Ok(Queen));
    assert_eq!(Rank::try_from("K".to_string()), Ok(King));
    assert_eq!(
        Suit::try_from("x".to_string()),
        Err("Could not find conversion case for input x".to_string())
    );
    assert_eq!(
        Rank::try_from("1".to_string()),
        Err("Could not find conversion case for input 1".to_string())
    );
    assert_eq!(
        Rank::try_from("".to_string()),
        Err("Could not find conversion case for input ".to_string())
    );
}

#[test]
fn cards_know_their_value_and_colour() {
    assert_eq!(card(Ace, Heart).value(), 1);
    assert_eq!(card(Rank::Nine, Heart).value(), 9);
    assert_eq!(card(Rank::Ten, Heart).value(), 10);
    assert_eq!(card(Jack, Heart).value(), 10);
    assert_eq!(card(King, Spade).value(), 10);
    assert_eq!(card(King, Spade).color(), Color::Black);
    assert_eq!(card(King, Club).color(), Color::Black);
    assert_eq!(card(King, Heart).color(), Color::Red);
    assert_eq!(card(King, Diamond).color(), Color::Red);
    assert!(card(Jack, Heart).is_face());
    assert!(!card(Rank::Ten, Heart).is_face());
    assert!(!card(Ace, Heart).is_face());
    assert!(card(Ace, Heart).is_face_or_ace());
    assert!(card(Seven, Heart).can_stack_on(&card(Rank::Eight, Spade)));
    assert!(!card(Seven, Heart).can_stack_on(&card(Rank::Eight, Diamond)));
    assert!(!card(Seven, Heart).can_stack_on(&card(Rank::Nine, Spade)));
    assert!(card(Queen, Heart).can_stack_on(&card(Ace, Heart)));
    assert!(!card(Queen, Heart).can_stack_on(&card(Ace, Spade)));
    assert!(!card(Queen, Heart).can_stack_on(&card(Rank::Six, Heart)));
    assert_eq!(Rank::King.number(), 13);
    assert_eq!(Rank::of_number(6), Rank::Six);
    assert!(EndState::Win.is_win());
    assert!(!EndState::Loss.is_win());
}

#[test]
fn the_deck_holds_every_card_once() {
    let deck = Card::default_deck();
    assert_eq!(deck.len(), 52);
    assert_eq!(deck[0], card(Ace, Heart));
    assert_eq!(deck[12], card(King, Heart));
    assert_eq!(deck[13], card(Ace, Diamond));
    assert_eq!(deck[51], card(King, Spade));
    let mut codes: Vec<usize> = deck.iter().map(|card| card.code()).collect();
    assert_eq!(codes, (0..52).collect::<Vec<usize>>());
    codes.dedup();
    assert_eq!(codes.len(), 52);
}

#[test]
fn cribbage_random_deal_is_shuffled() {
    let mut unshuffled = Card::default_deck();
    let mut in_order: Vec<Vec<Card>> = Vec::new();
    for _ in 0..4 {
        in_order.push(unshuffled.split_off(unshuffled.len() - 13));
    }
    let mut shuffled = false;
    for _ in 0..5 {
        let game = CribbageSolitaire::default();
        assert_eq!(game.score(), 0);
        assert!(game.stack().is_empty());
        assert!(game.history().is_empty());
        assert_eq!(game.remaining_cards(), 52);
        assert!(game.tableau().iter().all(|column| column.len() == 13));
        assert_eq!(cards_in_play(&game), (0..52).collect::<Vec<usize>>());
        if game.tableau().to_vec() != in_order {
            shuffled = true;
        }
    }
    assert!(shuffled);
}

#[test]
fn cribbage_scoring() {
    // A jack that opens the stack scores 2.
    let state = CribbageSolitaire::new([
        vec![card(Five, Club), card(Jack, Heart)],
        vec![card(King, Diamond), card(Five, Diamond)],
        vec![],
        vec![],
    ]);
    let jack = state.apply_move(Move::Add { column: Column::One, card: card(Jack, Heart) });
    assert_eq!(jack.score(), 2);
    assert_eq!(jack.stack_total(), 10);
    // A total of exactly 15 scores 2.
    let fifteen = jack.apply_move(Move::Add { column: Column::Two, card: card(Five, Diamond) });
    assert_eq!(fifteen.score(), 4);
    assert_eq!(fifteen.stack_total(), 15);
    // A pair scores 2, and so does the 15 reached here without an opening jack.
    let five = state.apply_move(Move::Add { column: Column::Two, card: card(Five, Diamond) });
    assert_eq!(five.score(), 0);
    let late_jack = five.apply_move(Move::Add { column: Column::One, card: card(Jack, Heart) });
    assert_eq!(late_jack.score(), 2);
    let pair = late_jack.apply_move(Move::Add { column: Column::One, card: card(Five, Club) });
    assert_eq!(pair.score(), 2);
    assert_eq!(pair.stack_total(), 20);
    // Sets of two, three and four score 2, 6 and 12.
    let mut sevens = CribbageSolitaire::new([four_of(Seven), vec![], vec![], vec![]]);
    let mut scores = Vec::new();
    for _ in 0..4 {
        let top = *sevens.peek_column(Column::One).unwrap();
        sevens = sevens.apply_move(Move::Add { column: Column::One, card: top });
        scores.push(sevens.score());
    }
    assert_eq!(scores, vec![0, 2, 8, 20]);
    assert_eq!(sevens.stack_total(), 28);
    // A total of exactly 31 scores 2.
    let state = CribbageSolitaire::new([
        vec![card(Ace, Heart), card(King, Heart), card(Queen, Club), card(King, Spade)],
        vec![],
        vec![],
        vec![],
    ]);
    let mut game = state;
    for _ in 0..4 {
        let top = *game.peek_column(Column::One).unwrap();
        game = game.apply_move(Move::Add { column: Column::One, card: top });
    }
    assert_eq!(game.stack_total(), 31);
    assert_eq!(game.score(), 2);
}

#[test]
fn cribbage_moves() {
    let state = CribbageSolitaire::new([
        vec![card(Five, Club), card(Jack, Heart)],
        vec![],
        vec![card(King, Diamond), card(Five, Diamond)],
        vec![],
    ]);
    assert_eq!(
        state.legal_moves(),
        vec![
            Move::Add { column: Column::One, card: card(Jack, Heart) },
            Move::Add { column: Column::Three, card: card(Five, Diamond) },
        ]
    );
    assert_eq!(state.peek_column(Column::Two), None);
    assert_eq!(state.peek_column(Column::Three), Some(&card(Five, Diamond)));
    // With 28 on the stack only the ace and the two and three fit.
    let mut sevens = CribbageSolitaire::new([
        four_of(Seven),
        vec![card(Five, Heart)],
        vec![card(Three, Heart)],
        vec![card(Jack, Club)],
    ]);
    for _ in 0..4 {
        let top = *sevens.peek_column(Column::One).unwrap();
        sevens = sevens.apply_move(Move::Add { column: Column::One, card: top });
    }
    assert_eq!(sevens.legal_moves(), vec![Move::Add { column: Column::Three, card: card(Three, Heart) }]);
    let full = sevens.apply_move(Move::Add { column: Column::Three, card: card(Three, Heart) });
    assert_eq!(full.stack_total(), 31);
    // Nothing fits: the only move is to start a new stack, which keeps the score.
    assert_eq!(full.legal_moves(), vec![Move::NewStack]);
    let fresh = full.apply_move(Move::NewStack);
    assert_eq!(fresh.score(), full.score());
    assert_eq!(fresh.stack_total(), 0);
    assert!(fresh.stack().is_empty());
    assert_eq!(fresh.tableau(), full.tableau());
    assert_eq!(fresh.history().len(), full.history().len() + 1);
    assert_eq!(fresh.history().last(), Some(&Move::NewStack));
}

#[test]
fn cribbage_game_is_won_with_61_points() {
    let mut game = small_game();
    assert!(game.end_status().is_none());
    assert!(!game.is_terminal());
    let cards = cards_in_play(&game);
    let mut turns = 0;
    while !game.is_terminal() {
        let moves = game.possible_actions();
        assert!(!moves.is_empty());
        assert!(game.end_status().is_none());
        assert_eq!(game.possible_actions(), moves);
        game = game.act(&moves[0]);
        assert_eq!(cards_in_play(&game), cards);
        turns += 1;
    }
    assert_eq!(turns, 12);
    assert_eq!(game.remaining_cards(), 0);
    // Three sets of four score 60, and the third two brings the total to 15.
    assert_eq!(game.score(), 62);
    // A won game is worth 256 points more than its score.
    assert_eq!(game.evaluate(false), 4 * (62 + 256));
    assert_eq!(game.evaluate(true), 4 * (62 + 256));
    assert!(matches!(game.end_status(), Some(EndState::Win)));
    // A finished game offers no move, not even a new stack.
    assert!(game.possible_actions().is_empty());
    assert!(game.legal_moves().is_empty());
}

#[test]
fn cribbage_game_is_lost_below_61_points() {
    let mut game = CribbageSolitaire::new([four_of(Ace), four_of(Two), vec![], vec![]]);
    while !game.is_terminal() {
        let moves = game.possible_actions();
        game = game.act(&moves[0]);
    }
    assert_eq!(game.score(), 40);
    assert_eq!(game.evaluate(false), 160);
    assert!(game.possible_actions().is_empty());
    assert!(matches!(game.end_status(), Some(EndState::Loss)));
    let won = {
        let mut game = small_game();
        while !game.is_terminal() {
            let moves = game.possible_actions();
            game = game.act(&moves[0]);
        }
        game
    };
    assert!(won.evaluate(false) > game.evaluate(false));
}

#[test]
fn cribbage_fixed_deal() {
    let state = state_0001();
    assert_eq!(state.remaining_cards(), 52);
    assert_eq!(state.score(), 0);
    assert_eq!(state.stack_total(), 0);
    assert_eq!(state.peek_column(Column::One), Some(&card(Two, Spade)));
    assert_eq!(state.peek_column(Column::Four), Some(&card(Two, Heart)));
    assert_eq!(state.legal_moves().len(), 4);
    assert_eq!(Column::at(2), Column::Three);
    assert_eq!(Column::Four.ordinal(), 3);
}

#[test]
fn cribbage_soundness() {
    // The fixed deal holds the ace of clubs twice, but no rank five times.
    assert!(state_0001().is_sound());
    assert!(small_game().is_sound());
    assert!(CribbageSolitaire::default().is_sound());
    let mut five_aces = four_of(Ace);
    five_aces.push(card(Ace, Heart));
    assert!(!CribbageSolitaire::new([five_aces, vec![], vec![], vec![]]).is_sound());
    let split = CribbageSolitaire::new([four_of(Ace), vec![], vec![card(Ace, Spade)], vec![]]);
    assert!(!split.is_sound());
    // Cards on the stack count too.
    let played = CribbageSolitaire::new([four_of(Ace), four_of(Two), vec![], vec![]])
        .apply_move(Move::Add { column: Column::One, card: card(Ace, Spade) });
    assert!(played.is_sound());
    assert_eq!(played.stack(), &vec![card(Ace, Spade)]);
}

#[test]
fn cribbage_win_outscores_every_other_state() {
    let mut won = small_game();
    let mut others = vec![won.clone()];
    while !won.is_terminal() {
        let moves = won.possible_actions();
        won = won.act(&moves[0]);
        others.push(won.clone());
    }
    others.pop();
    assert!(matches!(won.end_status(), Some(EndState::Win)));
    for other in &others {
        assert!(other.end_status().is_none());
        assert!(!other.possible_actions().is_empty());
        assert!(won.evaluate(false) > other.evaluate(false));
    }
    // An unfinished game with more points than a win has is still worth less.
    let mut rich = CribbageSolitaire::new([
        four_of(Ace),
        four_of(Two),
        four_of(Three),
        vec![card(King, Heart), card(Seven, Heart), card(Seven, Spade), card(Seven, Club)],
    ]);
    for column in [Column::One, Column::Two, Column::Three] {
        for _ in 0..4 {
            let top = *rich.peek_column(column).unwrap();
            rich = rich.apply_move(Move::Add { column, card: top });
        }
    }
    assert_eq!(rich.score(), 62);
    assert!(rich.end_status().is_none());
    assert_eq!(rich.evaluate(false), 248);
    assert!(won.evaluate(false) > rich.evaluate(false));
}

#[test]
fn cribbage_equality_and_hash_ignore_the_history() {
    let game = CribbageSolitaire::new([
        vec![card(Five, Heart)],
        vec![card(Jack, Club), card(King, Club), card(Queen, Heart), card(King, Spade)],
        vec![],
        vec![],
    ]);
    // With 30 on the stack nothing fits; a new stack changes the history and the stack.
    let mut full = game.clone();
    for _ in 0..3 {
        let top = *full.peek_column(Column::Two).unwrap();
        full = full.apply_move(Move::Add { column: Column::Two, card: top });
    }
    assert_eq!(full.legal_moves(), vec![Move::NewStack]);
    let fresh = full.apply_move(Move::NewStack);
    let again = fresh.apply_move(Move::NewStack);
    assert_eq!(again.history().len(), fresh.history().len() + 1);
    assert_eq!(again, fresh);
    assert_ne!(fresh, full);
    let mut seen = std::collections::HashSet::new();
    assert!(seen.insert(fresh));
    assert!(!seen.insert(again));
    assert!(seen.insert(full));
    assert!(seen.insert(game));
}

#[test]
fn symbols_in_upper_case() {
    assert_eq!(Suit::from_symbol("H"), Some(Heart));
    assert_eq!(Suit::from_symbol("D"), Some(Diamond));
    assert_eq!(Suit::from_symbol("C"), Some(Club));
    assert_eq!(Suit::from_symbol("S"), Some(Spade));
    assert_eq!(Suit::from_symbol("h"), None);
    assert_eq!(Suit::from_symbol("HH"), None);
    assert_eq!(Suit::from_symbol(""), None);
    assert_eq!(Rank::from_symbol("A"), Some(Ace));
    assert_eq!(Rank::from_symbol("2"), Some(Two));
    assert_eq!(Rank::from_symbol("10"), Some(Rank::Ten));
    assert_eq!(Rank::from_symbol("J"), Some(Jack));
    assert_eq!(Rank::from_symbol("Q"), Some(Queen));
    assert_eq!(Rank::from_symbol("K"), Some(King));
    assert_eq!(Rank::from_symbol("k"), None);
    assert_eq!(Rank::from_symbol("1"), None);
    assert_eq!(Rank::from_symbol("0"), None);
}

#[test]
fn reader_takes_classified_characters() {
    let mut reader = Reader::new();
    // White space is passed over, whatever else is said of it.
    reader.take('7', false, true, "7");
    reader.take('7', false, false, "7");
    reader.take('h', false, false, "H");
    // A zero behind a one is the ten; a zero alone names nothing.
    reader.take('0', false, false, "0");
    reader.take('s', false, false, "S");
    reader.take('1', false, false, "1");
    reader.take('0', true, false, "0");
    // The suit was taken down before the rank, so the ten is a spade.
    reader.take('d', false, false, "D");
    reader.take('q', false, false, "Q");
    let tableau = reader.tableau();
    assert_eq!(tableau[0], vec![card(Seven, Heart)]);
    assert_eq!(tableau[1], vec![card(Rank::Ten, Spade)]);
    assert_eq!(tableau[2], vec![card(Queen, Diamond)]);
    assert!(tableau[3].is_empty());
    // The fifth card starts the second row.
    let mut reader = Reader::new();
    for symbol in ["A", "H", "2", "H", "3", "H", "5", "H", "K", "S"] {
        reader.take(symbol.chars().next().unwrap(), false, false, symbol);
    }
    let tableau = reader.tableau();
    assert_eq!(tableau[0], vec![card(Ace, Heart), card(King, Spade)]);
    assert_eq!(tableau[3], vec![card(Five, Heart)]);
}

#[test]
fn white_space_is_passed_over() {
    let spaced = "7h\u{a0}8s\u{2003}9d\u{3000}\t10c\u{85}\u{1680}\u{2028}\u{2029}\u{202f}\u{205f}\u{b}\u{c}\rJh";
    let state = CribbageSolitaire::from_str(spaced);
    assert_eq!(state.tableau()[0], vec![card(Seven, Heart), card(Jack, Heart)]);
    assert_eq!(state.tableau()[1], vec![card(Rank::Eight, Spade)]);
    assert_eq!(state.tableau()[2], vec![card(Rank::Nine, Diamond)]);
    assert_eq!(state.tableau()[3], vec![card(Rank::Ten, Club)]);
    // The zero-width space is no white space: it comes between the one and the zero.
    let state = CribbageSolitaire::from_str("1\u{200b}0h 10\u{200a}h");
    assert_eq!(state.tableau()[0], vec![card(Rank::Ten, Heart)]);
    assert_eq!(state.remaining_cards(), 1);
}
