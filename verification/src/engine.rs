//! The engine of one game: it holds the dictionary, the secret word and the
//! board, takes the player's guesses and tells where the game stands.

use vstd::prelude::*;
use crate::board::{Board, MAX_ATTEMPTS};
use crate::case::{lowercase, to_lowercase};
use crate::dictionary::{Dictionary, EmptyDictionaryError};
use crate::game::{Game, GuessError, Status};
use crate::score::{lemma_scored_letters, letters_of, score, scored, LetterScore};
use crate::word::{characters, Word, WORD_LENGTH};

verus! {

/// Where a game stands after an attempt.
#[derive(Clone, Copy, Debug, PartialEq, Eq)]
pub enum GameStatus {
    /// The secret has not been found and attempts are left.
    InProgress,
    /// The secret was found with the attempt of this number, counted from 1.
    Won(usize),
    /// All attempts were used without finding the secret, which is revealed.
    Lost(Word),
}

impl View for GameStatus {
    type V = Status;

    open spec fn view(&self) -> Status {
        match *self {
            GameStatus::InProgress => Status::InProgress,
            GameStatus::Won(attempt) => Status::Won(attempt as nat),
            GameStatus::Lost(secret) => Status::Lost(secret@),
        }
    }
}

/// One game session. The number of attempts made is the number of filled
/// rows of the board; the status is worked out from the board and the secret
/// whenever it is asked for.
///
/// The view of an engine is the `Game` it stands for.
#[derive(Debug)]
pub struct GameEngine {
    dictionary: Dictionary,
    secret: Word,
    board: Board,
}

impl View for GameEngine {
    type V = Game;

    closed spec fn view(&self) -> Game {
        game_of(self.dictionary@, self.secret@, self.board@)
    }
}

/// The game that a dictionary, a secret and the rows of a board stand for:
/// its guesses are the letters of the rows.
spec fn game_of(
    words: Seq<Seq<char>>,
    secret: Seq<char>,
    rows: Seq<Seq<(char, LetterScore)>>,
) -> Game {
    Game { words, secret, guesses: Seq::new(rows.len(), |i: int| letters_of(rows[i])) }
}

/// Tells whether the rows are those of a valid game: each one a guess scored
/// against the secret.
spec fn consistent(
    words: Seq<Seq<char>>,
    secret: Seq<char>,
    rows: Seq<Seq<(char, LetterScore)>>,
) -> bool {
    &&& game_of(words, secret, rows).valid()
    &&& rows == game_of(words, secret, rows).board()
}

/// Recording an accepted guess, scored against the secret, keeps the rows
/// consistent and adds the guess to the game.
proof fn lemma_record(
    words: Seq<Seq<char>>,
    secret: Seq<char>,
    rows: Seq<Seq<(char, LetterScore)>>,
    guess: Seq<char>,
)
    requires
        consistent(words, secret, rows),
        game_of(words, secret, rows).status() is InProgress,
        game_of(words, secret, rows).verdict(guess) is None,
    ensures
        consistent(words, secret, rows.push(scored(guess, secret))),
        game_of(words, secret, rows.push(scored(guess, secret))) == game_of(
            words,
            secret,
            rows,
        ).submit(guess),
{
    let before = game_of(words, secret, rows);
    let longer = rows.push(scored(guess, secret));
    let after = game_of(words, secret, longer);
    lemma_scored_letters(guess, secret);
    assert(after.guesses =~= before.guesses.push(guess));
    before.lemma_submit_valid(guess);
    assert(longer =~= after.board());
}

impl GameEngine {
    /// The invariant of the type: the game is valid, and every row of the
    /// board is a guess scored against the secret.
    #[verifier::type_invariant]
    pub closed spec fn well_formed(self) -> bool {
        consistent(self.dictionary@, self.secret@, self.board@)
    }

    /// A well-formed engine stands for a valid game.
    pub proof fn lemma_well_formed(self)
        requires
            self.well_formed(),
        ensures
            self@.valid(),
    {
    }

    /// Starts a game with the given secret, which must be an entry of the
    /// dictionary; there is no game otherwise.
    pub fn new(dictionary: Dictionary, secret: Word) -> (engine: Option<GameEngine>)
        ensures
            engine is Some <==> dictionary@.contains(secret@),
            engine matches Some(e) ==> e@ == Game::start(dictionary@, secret@),
    {
        proof {
            use_type_invariant(&dictionary);
            dictionary.lemma_well_formed();
        }
        if !dictionary.has_word(&secret) {
            return None;
        }
        let board = Board::new();
        proof {
            let game = game_of(dictionary@, secret@, board@);
            assert(game.guesses =~= Seq::<Seq<char>>::empty());
            assert(board@ =~= game.board());
        }
        Some(GameEngine { dictionary, secret, board })
    }

    /// Starts a game with a secret picked at random from the dictionary.
    /// Fails when the dictionary is empty.
    pub fn start(dictionary: Dictionary) -> (engine: Result<GameEngine, EmptyDictionaryError>)
        ensures
            engine is Ok <==> dictionary@.len() > 0,
            engine matches Ok(e) ==> dictionary@.contains(e@.secret) && e@ == Game::start(
                dictionary@,
                e@.secret,
            ),
    {
        match dictionary.pick_random() {
            Ok(secret) => {
                match GameEngine::new(dictionary, secret) {
                    Some(engine) => Ok(engine),
                    None => Err(EmptyDictionaryError),
                }
            },
            Err(error) => Err(error),
        }
    }

    /// The dictionary of the game.
    pub fn dictionary(&self) -> (dictionary: &Dictionary)
        ensures
            dictionary@ == self@.words,
    {
        &self.dictionary
    }

    /// The board, for reading.
    pub fn board(&self) -> (board: &Board)
        ensures
            board@ == self@.board(),
    {
        proof {
            use_type_invariant(self);
        }
        &self.board
    }

    /// Number of attempts made, rejected guesses not counted.
    pub fn attempts(&self) -> (count: usize)
        ensures
            count == self@.attempts(),
            count <= MAX_ATTEMPTS,
    {
        self.board.filled_count()
    }

    /// Where the game stands.
    pub fn status(&self) -> (status: GameStatus)
        ensures
            status@ == self@.status(),
    {
        let count = self.board.filled_count();
        if count > 0 {
            match self.board.slot(count - 1) {
                Some(row) => {
                    if row.spells(&self.secret) {
                        return GameStatus::Won(count);
                    }
                },
                None => {},
            }
        }
        if count >= MAX_ATTEMPTS {
            GameStatus::Lost(self.secret)
        } else {
            GameStatus::InProgress
        }
    }

    /// Submits a guess as it stands, without lowercasing it first.
    ///
    /// A guess of the wrong length or outside the dictionary is turned down
    /// and changes nothing. An accepted guess is scored, recorded in the next
    /// row of the board and counted as an attempt; the status that follows is
    /// returned.
    pub fn submit_exact(&mut self, guess: &str) -> (outcome: Result<GameStatus, GuessError>)
        requires
            old(self)@.status() is InProgress,
        ensures
            final(self)@ == old(self)@.submit(guess@),
            match outcome {
                Ok(status) => {
                    &&& old(self)@.verdict(guess@) is None
                    &&& status@ == final(self)@.status()
                },
                Err(error) => {
                    &&& old(self)@.verdict(guess@) == Some(error)
                    &&& *final(self) == *old(self)
                },
            },
    {
        proof {
            use_type_invariant(&*self);
        }
        let chars = characters(guess);
        if chars.len() != WORD_LENGTH {
            return Err(GuessError::WrongLength);
        }
        let word = match self.dictionary.find(&chars) {
            Some(word) => word,
            None => {
                return Err(GuessError::NotInDictionary);
            },
        };
        let row = score(&word, &self.secret);
        proof {
            lemma_record(self.dictionary@, self.secret@, self.board@, guess@);
        }
        let _ = self.board.append(row);
        Ok(self.status())
    }

    /// Submits the player's guess to a game in progress: it is lowercased and
    /// then handled as `submit_exact` handles it.
    pub fn submit_guess(&mut self, raw: &str) -> (outcome: Result<GameStatus, GuessError>)
        requires
            old(self)@.status() is InProgress,
        ensures
            final(self)@ == old(self)@.submit(lowercase(raw@)),
            match outcome {
                Ok(status) => {
                    &&& old(self)@.verdict(lowercase(raw@)) is None
                    &&& status@ == final(self)@.status()
                },
                Err(error) => {
                    &&& old(self)@.verdict(lowercase(raw@)) == Some(error)
                    &&& *final(self) == *old(self)
                },
            },
    {
        let guess = to_lowercase(raw);
        self.submit_exact(guess.as_str())
    }

    /// Takes one turn of play. While the game is in progress the guess is
    /// submitted as `submit_guess` does, and its outcome is returned. Once
    /// the game is won or lost nothing is submitted and nothing changes.
    pub fn turn(&mut self, raw: &str) -> (outcome: Option<Result<GameStatus, GuessError>>)
        ensures
            final(self)@ == old(self)@.turn(lowercase(raw@)),
            match outcome {
                Some(Ok(status)) => {
                    &&& old(self)@.status() is InProgress
                    &&& old(self)@.verdict(lowercase(raw@)) is None
                    &&& status@ == final(self)@.status()
                },
                Some(Err(error)) => {
                    &&& old(self)@.status() is InProgress
                    &&& old(self)@.verdict(lowercase(raw@)) == Some(error)
                    &&& *final(self) == *old(self)
                },
                None => {
                    &&& !(old(self)@.status() is InProgress)
                    &&& *final(self) == *old(self)
                },
            },
    {
        match self.status() {
            GameStatus::InProgress => Some(self.submit_guess(raw)),
            _ => None,
        }
    }
}

} // verus!
