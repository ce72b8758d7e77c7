//! The rules of the game, stated over plain sequences of letters.
//!
//! A `Game` is what an engine stands for: the words that may be guessed, the
//! secret word, and the guesses accepted so far. The status of a game and
//! the board it shows follow from these three alone.

use vstd::prelude::*;
use crate::board::MAX_ATTEMPTS;
use crate::dictionary::all_words;
use crate::score::{scored, LetterScore};
use crate::word::WORD_LENGTH;

verus! {

/// Why a submitted guess was turned down. The player may simply try again.
#[derive(Clone, Copy, Debug, PartialEq, Eq, Structural)]
pub enum GuessError {
    /// The guess does not have exactly five characters.
    WrongLength,
    /// The guess has five characters and is not in the dictionary.
    NotInDictionary,
}

/// Where a game stands.
pub enum Status {
    /// The secret has not been found and attempts are left.
    InProgress,
    /// The secret was found with the attempt of this number, counted from 1.
    Won(nat),
    /// All attempts were used without finding the secret, which is revealed.
    Lost(Seq<char>),
}

/// A game in terms of letters.
pub struct Game {
    /// The entries of the dictionary.
    pub words: Seq<Seq<char>>,
    /// The word to be found.
    pub secret: Seq<char>,
    /// The guesses accepted so far, oldest first.
    pub guesses: Seq<Seq<char>>,
}

impl Game {
    /// A game at its start: no guess has been accepted.
    pub open spec fn start(words: Seq<Seq<char>>, secret: Seq<char>) -> Game {
        Game { words, secret, guesses: Seq::empty() }
    }

    /// What holds of every game that was started with a secret from its
    /// dictionary and played by the rules.
    pub open spec fn valid(self) -> bool {
        &&& all_words(self.words)
        &&& self.words.contains(self.secret)
        &&& self.guesses.len() <= MAX_ATTEMPTS
        &&& forall|i: int|
            0 <= i < self.guesses.len() ==> self.words.contains(#[trigger] self.guesses[i])
        &&& forall|i: int|
            0 <= i < self.guesses.len() - 1 ==> #[trigger] self.guesses[i] != self.secret
    }

    /// Tells whether none of the accepted guesses is the secret.
    pub open spec fn all_missed(self) -> bool {
        forall|i: int| 0 <= i < self.guesses.len() ==> #[trigger] self.guesses[i] != self.secret
    }

    /// Number of accepted guesses.
    pub open spec fn attempts(self) -> nat {
        self.guesses.len()
    }

    /// The status: won as soon as the latest guess is the secret itself, lost
    /// when all attempts are used otherwise, in progress until then.
    pub open spec fn status(self) -> Status {
        if self.guesses.len() > 0 && self.guesses.last() == self.secret {
            Status::Won(self.guesses.len())
        } else if self.guesses.len() >= MAX_ATTEMPTS {
            Status::Lost(self.secret)
        } else {
            Status::InProgress
        }
    }

    /// The rows of the board: each accepted guess scored against the secret.
    pub open spec fn board(self) -> Seq<Seq<(char, LetterScore)>> {
        Seq::new(self.guesses.len(), |i: int| scored(self.guesses[i], self.secret))
    }

    /// Why `guess` is turned down, if it is: its length is checked first,
    /// then the dictionary.
    pub open spec fn verdict(self, guess: Seq<char>) -> Option<GuessError> {
        if guess.len() != WORD_LENGTH {
            Some(GuessError::WrongLength)
        } else if !self.words.contains(guess) {
            Some(GuessError::NotInDictionary)
        } else {
            None
        }
    }

    /// The game after `guess` was submitted: one guess longer if the guess is
    /// accepted, the same game if it is turned down.
    pub open spec fn submit(self, guess: Seq<char>) -> Game {
        if self.verdict(guess) is None {
            Game { guesses: self.guesses.push(guess), ..self }
        } else {
            self
        }
    }

    /// One turn of play: the guess is submitted while the game is in
    /// progress, and ignored once it is over.
    pub open spec fn turn(self, guess: Seq<char>) -> Game {
        if self.status() is InProgress {
            self.submit(guess)
        } else {
            self
        }
    }

    /// The game after the turns `inputs`, in order.
    pub open spec fn after(self, inputs: Seq<Seq<char>>) -> Game
        decreases inputs.len(),
    {
        if inputs.len() == 0 {
            self
        } else {
            self.after(inputs.drop_last()).turn(inputs.last())
        }
    }

    /// A game that starts with a secret from its dictionary is valid.
    pub proof fn lemma_start_valid(words: Seq<Seq<char>>, secret: Seq<char>)
        requires
            all_words(words),
            words.contains(secret),
        ensures
            Game::start(words, secret).valid(),
            Game::start(words, secret).status() is InProgress,
            Game::start(words, secret).board().len() == 0,
    {
    }

    /// Submitting a guess to a game in progress leaves it valid.
    pub proof fn lemma_submit_valid(self, guess: Seq<char>)
        requires
            self.valid(),
            self.status() is InProgress,
        ensures
            self.submit(guess).valid(),
    {
    }

    /// A guess of any length but five is turned down as such, and the game
    /// stays as it was: same board, same number of attempts.
    pub proof fn lemma_wrong_length(self, guess: Seq<char>)
        requires
            guess.len() != WORD_LENGTH,
        ensures
            self.verdict(guess) == Some(GuessError::WrongLength),
            self.submit(guess) == self,
            self.submit(guess).board() == self.board(),
            self.submit(guess).attempts() == self.attempts(),
    {
    }

    /// A guess that the dictionary does not hold is turned down, and the game
    /// stays as it was: same board, same number of attempts.
    pub proof fn lemma_not_in_dictionary(self, guess: Seq<char>)
        requires
            !self.words.contains(guess),
        ensures
            self.verdict(guess) is Some,
            guess.len() == WORD_LENGTH ==> self.verdict(guess) == Some(
                GuessError::NotInDictionary,
            ),
            self.submit(guess) == self,
            self.submit(guess).board() == self.board(),
            self.submit(guess).attempts() == self.attempts(),
    {
    }

    /// A guess is accepted exactly when it is an entry of the dictionary, and
    /// then the game records it as its latest attempt.
    pub proof fn lemma_accepted(self, guess: Seq<char>)
        requires
            all_words(self.words),
        ensures
            self.verdict(guess) is None <==> self.words.contains(guess),
            self.words.contains(guess) ==> self.submit(guess).guesses == self.guesses.push(guess),
            self.words.contains(guess) ==> self.submit(guess).board() == self.board().push(
                scored(guess, self.secret),
            ),
    {
        if self.words.contains(guess) {
            let i = choose|i: int| 0 <= i < self.words.len() && self.words[i] == guess;
            assert(guess.len() == WORD_LENGTH);
            assert(self.submit(guess).board() =~= self.board().push(scored(guess, self.secret)));
        }
    }

    /// While fewer than six guesses were accepted and none of them is the
    /// secret, the game is in progress and its board has one filled row for
    /// each of them.
    pub proof fn lemma_in_progress(self)
        requires
            self.guesses.len() < MAX_ATTEMPTS,
            self.all_missed(),
        ensures
            self.status() is InProgress,
            self.board().len() == self.guesses.len(),
    {
    }

    /// Submitting the secret itself to a game in progress wins it, with the
    /// number of that attempt, which lies between 1 and 6. A won game is no
    /// longer in progress.
    pub proof fn lemma_secret_wins(self)
        requires
            self.valid(),
            self.status() is InProgress,
        ensures
            self.verdict(self.secret) is None,
            self.submit(self.secret).status() == Status::Won(self.guesses.len() + 1),
            1 <= self.guesses.len() + 1 <= MAX_ATTEMPTS,
    {
        let i = choose|i: int| 0 <= i < self.words.len() && self.words[i] == self.secret;
        assert(self.secret.len() == WORD_LENGTH);
    }

    /// Once a game is won or lost it stays so: whatever is played afterwards,
    /// nothing more is accepted.
    pub proof fn lemma_over_is_final(self, inputs: Seq<Seq<char>>)
        requires
            !(self.status() is InProgress),
        ensures
            self.after(inputs) == self,
        decreases inputs.len(),
    {
        if inputs.len() > 0 {
            self.lemma_over_is_final(inputs.drop_last());
        }
    }

    /// Six accepted guesses of which none is the secret lose the game, and
    /// the status reveals the secret.
    pub proof fn lemma_lost(self)
        requires
            self.guesses.len() == MAX_ATTEMPTS,
            self.all_missed(),
        ensures
            self.status() == Status::Lost(self.secret),
    {
    }

    /// Every game reached by turns from a valid game is valid.
    pub proof fn lemma_after_valid(self, inputs: Seq<Seq<char>>)
        requires
            self.valid(),
        ensures
            self.after(inputs).valid(),
        decreases inputs.len(),
    {
        if inputs.len() > 0 {
            self.lemma_after_valid(inputs.drop_last());
            let before = self.after(inputs.drop_last());
            if before.status() is InProgress {
                before.lemma_submit_valid(inputs.last());
            }
        }
    }

    /// Playing `k` dictionary words, none of them the secret, from the start:
    /// all are accepted in order; with `k` under six the game is in progress
    /// with `k` filled rows, and with `k` equal to six it is lost and reveals
    /// the secret.
    pub proof fn lemma_after_misses(words: Seq<Seq<char>>, secret: Seq<char>, inputs: Seq<Seq<char>>)
        requires
            all_words(words),
            words.contains(secret),
            inputs.len() <= MAX_ATTEMPTS,
            forall|i: int| 0 <= i < inputs.len() ==> words.contains(#[trigger] inputs[i]),
            forall|i: int| 0 <= i < inputs.len() ==> #[trigger] inputs[i] != secret,
        ensures
            Game::start(words, secret).after(inputs) == (Game { words, secret, guesses: inputs }),
            Game::start(words, secret).after(inputs).board().len() == inputs.len(),
            inputs.len() < MAX_ATTEMPTS ==> Game::start(words, secret).after(inputs).status()
                is InProgress,
            inputs.len() == MAX_ATTEMPTS ==> Game::start(words, secret).after(inputs).status()
                == Status::Lost(secret),
        decreases inputs.len(),
    {
        let game = Game::start(words, secret);
        if inputs.len() == 0 {
            assert(game.guesses =~= inputs);
        } else {
            let earlier = inputs.drop_last();
            Game::lemma_after_misses(words, secret, earlier);
            let before = game.after(earlier);
            before.lemma_accepted(inputs.last());
            assert(earlier.push(inputs.last()) =~= inputs);
            assert(game.after(inputs) == before.turn(inputs.last()));
        }
    }

    /// Playing the secret as attempt `k`, after `k - 1` dictionary words that
    /// missed it, wins the game with `Won(k)`, for every `k` from 1 to 6.
    pub proof fn lemma_after_win(words: Seq<Seq<char>>, secret: Seq<char>, misses: Seq<Seq<char>>)
        requires
            all_words(words),
            words.contains(secret),
            misses.len() < MAX_ATTEMPTS,
            forall|i: int| 0 <= i < misses.len() ==> words.contains(#[trigger] misses[i]),
            forall|i: int| 0 <= i < misses.len() ==> #[trigger] misses[i] != secret,
        ensures
            Game::start(words, secret).after(misses.push(secret)).status() == Status::Won(
                misses.len() + 1,
            ),
    {
        let game = Game::start(words, secret);
        Game::lemma_after_misses(words, secret, misses);
        Game::lemma_start_valid(words, secret);
        game.lemma_after_valid(misses);
        let before = game.after(misses);
        before.lemma_secret_wins();
        assert(misses.push(secret).drop_last() =~= misses);
        assert(game.after(misses.push(secret)) == before.turn(secret));
    }
}

} // verus!
