//! Scoring of one guess against the secret word, letter by letter.

use vstd::prelude::*;
use crate::word::{Word, WORD_LENGTH};

verus! {

/// How one guessed letter relates to the secret word.
#[derive(Clone, Copy, Debug, PartialEq, Eq, Structural)]
pub enum LetterScore {
    /// The secret has this letter at this position.
    Correct,
    /// The secret has this letter, though not at this position.
    Present,
    /// The secret does not have this letter at all.
    Absent,
}

/// The score of position `i` of `guess` against `secret`.
///
/// A letter that sits at the same position in both is `Correct`. Any other
/// letter is `Present` as soon as the secret holds it somewhere, however
/// often the guess repeats it and whether or not that occurrence is matched
/// by another position; otherwise it is `Absent`.
pub open spec fn letter_score(guess: Seq<char>, secret: Seq<char>, i: int) -> LetterScore {
    if guess[i] == secret[i] {
        LetterScore::Correct
    } else if secret.contains(guess[i]) {
        LetterScore::Present
    } else {
        LetterScore::Absent
    }
}

/// The scored form of `guess` against `secret`: each letter of the guess, in
/// order, paired with its score.
pub open spec fn scored(guess: Seq<char>, secret: Seq<char>) -> Seq<(char, LetterScore)> {
    Seq::new(guess.len(), |i: int| (guess[i], letter_score(guess, secret, i)))
}

/// The letters of a scored guess, without their scores.
pub open spec fn letters_of(row: Seq<(char, LetterScore)>) -> Seq<char> {
    Seq::new(row.len(), |i: int| row[i].0)
}

/// Tells whether every position of a scored guess is `Correct`.
pub open spec fn all_correct(row: Seq<(char, LetterScore)>) -> bool {
    forall|i: int| 0 <= i < row.len() ==> (#[trigger] row[i]).1 == LetterScore::Correct
}

/// One evaluated attempt: five letters, each with its score.
#[derive(Clone, Copy, Debug, PartialEq, Eq)]
pub struct ScoredGuess {
    letters: [char; 5],
    scores: [LetterScore; 5],
}

impl View for ScoredGuess {
    type V = Seq<(char, LetterScore)>;

    closed spec fn view(&self) -> Seq<(char, LetterScore)> {
        Seq::new(WORD_LENGTH as nat, |i: int| (self.letters@[i], self.scores@[i]))
    }
}

impl ScoredGuess {
    /// The letter at position `i`.
    pub fn letter(&self, i: usize) -> (c: char)
        requires
            i < WORD_LENGTH,
        ensures
            c == self@[i as int].0,
    {
        self.letters[i]
    }

    /// The score at position `i`.
    pub fn score(&self, i: usize) -> (s: LetterScore)
        requires
            i < WORD_LENGTH,
        ensures
            s == self@[i as int].1,
    {
        self.scores[i]
    }

    /// Tells whether the letters of this guess spell `word`.
    pub fn spells(&self, word: &Word) -> (same: bool)
        ensures
            same == (letters_of(self@) == word@),
    {
        proof {
            use_type_invariant(word);
            word.lemma_well_formed();
        }
        let mut i: usize = 0;
        while i < WORD_LENGTH
            invariant
                i <= WORD_LENGTH,
                word@.len() == WORD_LENGTH,
                forall|j: int| 0 <= j < i ==> self.letters@[j] == word@[j],
            decreases WORD_LENGTH - i,
        {
            if self.letters[i] != word.letter(i) {
                assert(letters_of(self@)[i as int] != word@[i as int]);
                return false;
            }
            i += 1;
        }
        assert(letters_of(self@) =~= word@);
        true
    }

    /// Every scored guess has exactly `WORD_LENGTH` positions.
    pub proof fn lemma_len(self)
        ensures
            self@.len() == WORD_LENGTH,
    {
    }
}

/// Tells whether `secret` holds the letter `c` at any position.
fn holds_letter(secret: &Word, c: char) -> (found: bool)
    ensures
        found == secret@.contains(c),
{
    proof {
        use_type_invariant(secret);
        secret.lemma_well_formed();
    }
    let mut i: usize = 0;
    while i < WORD_LENGTH
        invariant
            i <= WORD_LENGTH,
            secret@.len() == WORD_LENGTH,
            forall|j: int| 0 <= j < i ==> secret@[j] != c,
        decreases WORD_LENGTH - i,
    {
        if secret.letter(i) == c {
            return true;
        }
        i += 1;
    }
    false
}

/// Scores `guess` against `secret`.
pub fn score(guess: &Word, secret: &Word) -> (row: ScoredGuess)
    ensures
        row@ == scored(guess@, secret@),
        row@.len() == WORD_LENGTH,
        forall|i: int| 0 <= i < WORD_LENGTH ==> (#[trigger] row@[i]).0 == guess@[i],
        forall|i: int|
            0 <= i < WORD_LENGTH && guess@[i] == secret@[i] ==> (#[trigger] row@[i]).1
                == LetterScore::Correct,
        forall|i: int|
            0 <= i < WORD_LENGTH && guess@[i] != secret@[i] && secret@.contains(guess@[i])
                ==> (#[trigger] row@[i]).1 == LetterScore::Present,
        forall|i: int|
            0 <= i < WORD_LENGTH && guess@[i] != secret@[i] && !secret@.contains(guess@[i])
                ==> (#[trigger] row@[i]).1 == LetterScore::Absent,
{
    proof {
        use_type_invariant(guess);
        use_type_invariant(secret);
        guess.lemma_well_formed();
        secret.lemma_well_formed();
    }
    let mut letters: [char; 5] = ['a'; 5];
    let mut scores: [LetterScore; 5] = [LetterScore::Absent; 5];
    let mut i: usize = 0;
    while i < WORD_LENGTH
        invariant
            i <= WORD_LENGTH,
            guess@.len() == WORD_LENGTH,
            secret@.len() == WORD_LENGTH,
            forall|j: int| 0 <= j < i ==> letters@[j] == guess@[j],
            forall|j: int| 0 <= j < i ==> scores@[j] == letter_score(guess@, secret@, j),
        decreases WORD_LENGTH - i,
    {
        let c = guess.letter(i);
        let s = if c == secret.letter(i) {
            LetterScore::Correct
        } else if holds_letter(secret, c) {
            LetterScore::Present
        } else {
            LetterScore::Absent
        };
        letters[i] = c;
        scores[i] = s;
        i += 1;
    }
    let row = ScoredGuess { letters, scores };
    assert(row@ =~= scored(guess@, secret@));
    row
}

/// A letter at its place in the secret scores `Correct`, whatever else holds
/// of it. Any other letter that the secret holds somewhere scores `Present`,
/// also where that occurrence is already matched by another position of the
/// guess. A letter that the secret does not hold scores `Absent`.
pub proof fn lemma_letter_scores(guess: Seq<char>, secret: Seq<char>, i: int)
    requires
        0 <= i < guess.len(),
    ensures
        scored(guess, secret)[i].0 == guess[i],
        guess[i] == secret[i] ==> scored(guess, secret)[i].1 == LetterScore::Correct,
        guess[i] != secret[i] && secret.contains(guess[i]) ==> scored(guess, secret)[i].1
            == LetterScore::Present,
        guess[i] != secret[i] && !secret.contains(guess[i]) ==> scored(guess, secret)[i].1
            == LetterScore::Absent,
{
}

/// A guess scored against itself is `Correct` at every position.
pub proof fn lemma_score_self(word: Seq<char>)
    ensures
        all_correct(scored(word, word)),
{
}

/// The scored guess has the length of the guess and keeps its letters in
/// order. Being a function of the two words, it is the same whenever they
/// are.
pub proof fn lemma_scored_letters(guess: Seq<char>, secret: Seq<char>)
    ensures
        scored(guess, secret).len() == guess.len(),
        letters_of(scored(guess, secret)) == guess,
{
    assert(letters_of(scored(guess, secret)) =~= guess);
}

/// Between words of equal length, every position is `Correct` exactly when
/// the guess is the secret.
pub proof fn lemma_all_correct_iff_equal(guess: Seq<char>, secret: Seq<char>)
    requires
        guess.len() == secret.len(),
    ensures
        all_correct(scored(guess, secret)) <==> guess == secret,
{
    if all_correct(scored(guess, secret)) {
        assert forall|i: int| 0 <= i < guess.len() implies guess[i] == secret[i] by {
            assert(scored(guess, secret)[i].1 == LetterScore::Correct);
        }
        assert(guess =~= secret);
    }
}

} // verus!
