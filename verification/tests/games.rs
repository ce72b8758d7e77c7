use wordle::board::Board;
use wordle::dictionary::{Dictionary, EmptyDictionaryError};
use wordle::engine::{GameEngine, GameStatus};
use wordle::game::GuessError;
use wordle::score::{score, LetterScore};
use wordle::word::Word;

const WORDS: &str = "mango\ncrane\ncrate\napple\ngrape\nlemon\npeach\nknife\n";

fn word(text: &str) -> Word {
    Word::parse(text).unwrap()
}

fn game(secret: &str) -> GameEngine {
    GameEngine::new(Dictionary::load(WORDS).unwrap(), word(secret)).unwrap()
}

#[test]
fn new_game_is_in_progress_with_an_empty_board() {
    let engine = game("mango");
    assert_eq!(engine.status(), GameStatus::InProgress);
    assert_eq!(engine.attempts(), 0);
    assert_eq!(engine.board(), &Board::new());
    assert_eq!(engine.dictionary(), &Dictionary::load(WORDS).unwrap());
}

#[test]
fn new_game_needs_a_secret_from_the_dictionary() {
    let dictionary = Dictionary::load(WORDS).unwrap();
    assert!(GameEngine::new(dictionary, word("zebra")).is_none());
    assert!(GameEngine::new(Dictionary::load("").unwrap(), word("mango")).is_none());
}

#[test]
fn start_picks_a_secret_from_the_dictionary() {
    let mut engine = GameEngine::start(Dictionary::load("mango\n").unwrap()).unwrap();
    assert_eq!(engine.status(), GameStatus::InProgress);
    assert_eq!(engine.attempts(), 0);
    assert_eq!(engine.submit_guess("mango"), Ok(GameStatus::Won(1)));
}

#[test]
fn start_fails_on_an_empty_dictionary() {
    let started = GameEngine::start(Dictionary::load("").unwrap());
    assert_eq!(started.err(), Some(EmptyDictionaryError));
}

#[test]
fn wrong_length_changes_nothing() {
    let mut engine = game("mango");
    assert_eq!(engine.submit_guess("crane"), Ok(GameStatus::InProgress));
    let board = engine.board().clone();
    for raw in ["", "m", "mang", "mangos", "cranes", "crane ", "h\u{e9}ll", "mango\n"] {
        assert_eq!(engine.submit_guess(raw), Err(GuessError::WrongLength), "{:?}", raw);
        assert_eq!(engine.board(), &board);
        assert_eq!(engine.attempts(), 1);
        assert_eq!(engine.status(), GameStatus::InProgress);
    }
}

#[test]
fn unknown_word_changes_nothing() {
    let mut engine = game("mango");
    assert_eq!(engine.submit_guess("crane"), Ok(GameStatus::InProgress));
    let board = engine.board().clone();
    for raw in ["zebra", "zzzzz", "12345", "h\u{e9}llo", "cr ne", "MANGA"] {
        assert_eq!(engine.submit_guess(raw), Err(GuessError::NotInDictionary), "{:?}", raw);
        assert_eq!(engine.board(), &board);
        assert_eq!(engine.attempts(), 1);
        assert_eq!(engine.status(), GameStatus::InProgress);
    }
}

#[test]
fn length_is_checked_before_the_dictionary() {
    let mut engine = game("mango");
    assert_eq!(engine.submit_guess("zebras"), Err(GuessError::WrongLength));
    assert_eq!(engine.submit_guess("zebra"), Err(GuessError::NotInDictionary));
}

#[test]
fn misses_keep_the_game_in_progress() {
    let misses = ["crane", "crate", "apple", "grape", "lemon"];
    let mut engine = game("mango");
    for (k, guess) in misses.iter().enumerate() {
        assert_eq!(engine.board().filled_count(), k);
        assert_eq!(engine.submit_guess(guess), Ok(GameStatus::InProgress));
        assert_eq!(engine.status(), GameStatus::InProgress);
        assert_eq!(engine.board().filled_count(), k + 1);
        assert_eq!(engine.attempts(), k + 1);
    }
}

#[test]
fn rejected_guesses_between_misses_are_not_counted() {
    let mut engine = game("mango");
    assert_eq!(engine.submit_guess("crane"), Ok(GameStatus::InProgress));
    assert_eq!(engine.submit_guess("nope"), Err(GuessError::WrongLength));
    assert_eq!(engine.submit_guess("zebra"), Err(GuessError::NotInDictionary));
    assert_eq!(engine.submit_guess("apple"), Ok(GameStatus::InProgress));
    assert_eq!(engine.attempts(), 2);
    assert_eq!(engine.board().filled_count(), 2);
    assert_eq!(engine.status(), GameStatus::InProgress);
}

#[test]
fn secret_wins_on_every_attempt() {
    let misses = ["crane", "crate", "apple", "grape", "lemon"];
    for k in 1..=6 {
        let mut engine = game("mango");
        for guess in &misses[..k - 1] {
            assert_eq!(engine.submit_guess(guess), Ok(GameStatus::InProgress));
        }
        assert_eq!(engine.submit_guess("mango"), Ok(GameStatus::Won(k)));
        assert_eq!(engine.status(), GameStatus::Won(k));
        assert_eq!(engine.attempts(), k);
        assert_eq!(engine.board().filled_count(), k);
    }
}

#[test]
fn nothing_is_accepted_after_a_win() {
    let mut engine = game("mango");
    assert_eq!(engine.turn("crane"), Some(Ok(GameStatus::InProgress)));
    assert_eq!(engine.turn("mango"), Some(Ok(GameStatus::Won(2))));
    let board = engine.board().clone();
    for raw in ["apple", "mango", "zebra", "no"] {
        assert_eq!(engine.turn(raw), None);
        assert_eq!(engine.status(), GameStatus::Won(2));
        assert_eq!(engine.attempts(), 2);
        assert_eq!(engine.board(), &board);
    }
}

#[test]
fn six_misses_lose_against_mango() {
    let mut engine = game("mango");
    let misses = ["crane", "crate", "apple", "grape", "lemon", "peach"];
    for guess in &misses[..5] {
        assert_eq!(engine.submit_guess(guess), Ok(GameStatus::InProgress));
    }
    assert_eq!(engine.submit_guess(misses[5]), Ok(GameStatus::Lost(word("mango"))));
    assert_eq!(engine.status(), GameStatus::Lost(word("mango")));
    assert_eq!(engine.attempts(), 6);
    match engine.status() {
        GameStatus::Lost(secret) => assert_eq!(secret.to_text(), "mango"),
        other => panic!("the game is {:?}", other),
    }
}

#[test]
fn nothing_is_accepted_after_a_loss() {
    let mut engine = game("mango");
    for guess in ["crane", "crate", "apple", "grape", "lemon", "peach"] {
        assert!(engine.turn(guess).is_some());
    }
    let board = engine.board().clone();
    assert_eq!(engine.turn("mango"), None);
    assert_eq!(engine.turn("knife"), None);
    assert_eq!(engine.status(), GameStatus::Lost(word("mango")));
    assert_eq!(engine.board(), &board);
    assert_eq!(engine.attempts(), 6);
}

#[test]
fn the_same_miss_may_be_repeated() {
    let mut engine = game("mango");
    for _ in 0..5 {
        assert_eq!(engine.submit_guess("crane"), Ok(GameStatus::InProgress));
    }
    assert_eq!(engine.submit_guess("crane"), Ok(GameStatus::Lost(word("mango"))));
}

#[test]
fn guesses_are_lowercased_first() {
    let mut engine = game("knife");
    assert_eq!(engine.submit_guess("CRANE"), Ok(GameStatus::InProgress));
    assert_eq!(engine.board().slot(0), Some(score(&word("crane"), &word("knife"))));
    // The Kelvin sign lowercases to an ordinary 'k'.
    assert_eq!(engine.submit_guess("\u{212A}nife"), Ok(GameStatus::Won(2)));
}

#[test]
fn submit_exact_does_not_lowercase() {
    let mut engine = game("mango");
    assert_eq!(engine.submit_exact("MANGO"), Err(GuessError::NotInDictionary));
    assert_eq!(engine.attempts(), 0);
    assert_eq!(engine.submit_exact("mango"), Ok(GameStatus::Won(1)));
}

#[test]
fn board_rows_are_the_scored_guesses() {
    let mut engine = game("crane");
    assert_eq!(engine.submit_guess("crate"), Ok(GameStatus::InProgress));
    assert_eq!(engine.submit_guess("mango"), Ok(GameStatus::InProgress));
    let board = engine.board();
    assert_eq!(board.slot(0), Some(score(&word("crate"), &word("crane"))));
    assert_eq!(board.slot(1), Some(score(&word("mango"), &word("crane"))));
    assert_eq!(board.slot(2), None);
    let row = board.slot(0).unwrap();
    assert_eq!(row.letter(3), 't');
    assert_eq!(row.score(3), LetterScore::Absent);
    assert_eq!(row.score(4), LetterScore::Correct);
}

#[test]
fn winning_row_is_all_correct() {
    let mut engine = game("crane");
    assert_eq!(engine.submit_guess("crane"), Ok(GameStatus::Won(1)));
    let row = engine.board().slot(0).unwrap();
    for i in 0..5 {
        assert_eq!(row.score(i), LetterScore::Correct);
    }
}
