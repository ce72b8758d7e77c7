use wordle::score::{score, LetterScore, ScoredGuess};
use wordle::word::Word;

fn word(text: &str) -> Word {
    Word::parse(text).unwrap()
}

fn scores_of(row: &ScoredGuess) -> Vec<LetterScore> {
    (0..5).map(|i| row.score(i)).collect()
}

fn letters_of(row: &ScoredGuess) -> String {
    (0..5).map(|i| row.letter(i)).collect()
}

#[test]
fn crate_against_crane() {
    let row = score(&word("crate"), &word("crane"));
    assert_eq!(
        scores_of(&row),
        vec![
            LetterScore::Correct,
            LetterScore::Correct,
            LetterScore::Correct,
            LetterScore::Absent,
            LetterScore::Correct,
        ]
    );
    assert_eq!(letters_of(&row), "crate");
}

#[test]
fn rotated_letters_are_all_present() {
    let row = score(&word("eabcd"), &word("abcde"));
    assert_eq!(scores_of(&row), vec![LetterScore::Present; 5]);
    assert_eq!(letters_of(&row), "eabcd");
}

#[test]
fn word_against_itself_is_all_correct() {
    for text in ["crane", "mango", "aaaaa", "zzzzz", "abcde", "eerie"] {
        let row = score(&word(text), &word(text));
        assert_eq!(scores_of(&row), vec![LetterScore::Correct; 5]);
        assert_eq!(letters_of(&row), text);
    }
}

#[test]
fn scoring_twice_gives_the_same_row() {
    let guess = word("eerie");
    let secret = word("crane");
    let first = score(&guess, &secret);
    let second = score(&guess, &secret);
    assert_eq!(first, second);
    assert_eq!(scores_of(&first).len(), 5);
}

#[test]
fn matching_position_is_correct_whatever_else_holds() {
    // 'a' sits at position 2 of both, and occurs nowhere else in the secret.
    let row = score(&word("aaaaa"), &word("crane"));
    assert_eq!(row.score(2), LetterScore::Correct);
    // 'l' sits twice in both words, at the same positions.
    let row = score(&word("hello"), &word("jelly"));
    assert_eq!(row.score(2), LetterScore::Correct);
    assert_eq!(row.score(3), LetterScore::Correct);
}

#[test]
fn repeated_letter_is_present_at_every_other_position() {
    // The secret has a single 'a', matched at position 2; the other four
    // occurrences in the guess are still present.
    let row = score(&word("aaaaa"), &word("crane"));
    assert_eq!(
        scores_of(&row),
        vec![
            LetterScore::Present,
            LetterScore::Present,
            LetterScore::Correct,
            LetterScore::Present,
            LetterScore::Present,
        ]
    );
    // The single 'e' of the secret is matched at the end; the two in front
    // are present all the same.
    let row = score(&word("eerie"), &word("crane"));
    assert_eq!(
        scores_of(&row),
        vec![
            LetterScore::Present,
            LetterScore::Present,
            LetterScore::Present,
            LetterScore::Absent,
            LetterScore::Correct,
        ]
    );
}

#[test]
fn letters_outside_the_secret_are_absent() {
    let row = score(&word("fghij"), &word("abcde"));
    assert_eq!(scores_of(&row), vec![LetterScore::Absent; 5]);
}

#[test]
fn spells_compares_the_letters() {
    let row = score(&word("crate"), &word("crane"));
    assert!(row.spells(&word("crate")));
    assert!(!row.spells(&word("crane")));
}
