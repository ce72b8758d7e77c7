//! The dictionary: the words that may be guessed, and the source of the
//! secret word.

use rand::seq::SliceRandom;
use vstd::prelude::*;
use crate::case::{lowercase, to_lowercase};
use crate::lines::{line_views, lines, split_lines};
use crate::word::{characters, is_word, Word};

verus! {

/// The error of loading a word list in which some line is not a word.
#[derive(Clone, Copy, Debug, PartialEq, Eq, Structural)]
pub struct LoadError {
    /// Index of the first line that is not five lowercase letters, from 0.
    pub line: usize,
}

/// The error of picking a word from a dictionary that has none.
#[derive(Clone, Copy, Debug, PartialEq, Eq, Structural)]
pub struct EmptyDictionaryError;

/// Tells whether every one of `rows` is a word.
pub open spec fn all_words(rows: Seq<Seq<char>>) -> bool {
    forall|i: int| 0 <= i < rows.len() ==> is_word(#[trigger] rows[i])
}

/// The words that count as valid guesses. It never changes once loaded.
///
/// The view of a dictionary is the sequence of its entries, in the order of
/// the word list; a word belongs to the dictionary when it is one of them.
#[derive(Debug, PartialEq, Eq)]
pub struct Dictionary {
    words: Vec<Word>,
}

impl View for Dictionary {
    type V = Seq<Seq<char>>;

    closed spec fn view(&self) -> Seq<Seq<char>> {
        Seq::new(self.words@.len(), |i: int| self.words@[i]@)
    }
}

impl Dictionary {
    /// The invariant of the type: every entry is a word.
    #[verifier::type_invariant]
    pub closed spec fn well_formed(self) -> bool {
        forall|i: int| 0 <= i < self.words@.len() ==> is_word(#[trigger] self.words@[i]@)
    }

    /// The entries of a well-formed dictionary are words.
    pub proof fn lemma_well_formed(self)
        requires
            self.well_formed(),
        ensures
            all_words(self@),
    {
    }

    /// Reads a word list: one word of five lowercase letters on each line.
    ///
    /// Fails on the first line that is anything else, an empty line included.
    pub fn load(source: &str) -> (loaded: Result<Dictionary, LoadError>)
        ensures
            match loaded {
                Ok(dictionary) => dictionary@ == lines(source@) && all_words(lines(source@)),
                Err(error) => {
                    &&& error.line < lines(source@).len()
                    &&& !is_word(lines(source@)[error.line as int])
                    &&& all_words(lines(source@).take(error.line as int))
                },
            },
    {
        let text = characters(source);
        let rows = split_lines(&text);
        let mut words: Vec<Word> = Vec::new();
        let mut i: usize = 0;
        assert(rows@.len() == lines(source@).len());
        while i < rows.len()
            invariant
                i <= rows.len(),
                line_views(rows@) == lines(source@),
                words@.len() == i,
                forall|j: int| 0 <= j < i ==> (#[trigger] words@[j])@ == rows@[j]@,
                forall|j: int| 0 <= j < i ==> is_word(#[trigger] rows@[j]@),
            decreases rows.len() - i,
        {
            match Word::from_chars(&rows[i]) {
                Some(word) => {
                    words.push(word);
                },
                None => {
                    assert(lines(source@)[i as int] == rows@[i as int]@);
                    assert forall|j: int| 0 <= j < i implies is_word(
                        #[trigger] lines(source@).take(i as int)[j],
                    ) by {
                        assert(lines(source@)[j] == rows@[j]@);
                    }
                    return Err(LoadError { line: i });
                },
            }
            i += 1;
        }
        assert forall|j: int| 0 <= j < lines(source@).len() implies is_word(
            #[trigger] lines(source@)[j],
        ) by {
            assert(lines(source@)[j] == rows@[j]@);
        }
        let dictionary = Dictionary { words };
        assert(dictionary@ =~= lines(source@));
        Ok(dictionary)
    }

    /// Number of entries.
    pub fn len(&self) -> (count: usize)
        ensures
            count == self@.len(),
    {
        self.words.len()
    }

    /// Tells whether the dictionary has no entry.
    pub fn is_empty(&self) -> (empty: bool)
        ensures
            empty == (self@.len() == 0),
    {
        self.words.len() == 0
    }

    /// Tells whether `word` is an entry.
    pub fn has_word(&self, word: &Word) -> (found: bool)
        ensures
            found == self@.contains(word@),
    {
        let mut i: usize = 0;
        while i < self.words.len()
            invariant
                i <= self.words@.len(),
                forall|j: int| 0 <= j < i ==> self@[j] != word@,
            decreases self.words@.len() - i,
        {
            if self.words[i] == *word {
                assert(self@[i as int] == word@);
                return true;
            }
            i += 1;
        }
        false
    }

    /// Looks up the entry spelled by `chars`, letter for letter.
    pub fn find(&self, chars: &Vec<char>) -> (entry: Option<Word>)
        ensures
            entry is Some <==> self@.contains(chars@),
            entry matches Some(word) ==> word@ == chars@,
    {
        proof {
            use_type_invariant(self);
            self.lemma_well_formed();
        }
        match Word::from_chars(chars) {
            Some(word) => {
                if self.has_word(&word) {
                    Some(word)
                } else {
                    None
                }
            },
            None => None,
        }
    }

    /// Tells whether the lowercase form of `word` is an entry.
    pub fn contains(&self, word: &str) -> (found: bool)
        ensures
            found == self@.contains(lowercase(word@)),
    {
        let lowered = to_lowercase(word);
        let chars = characters(lowered.as_str());
        self.find(&chars).is_some()
    }

    /// Picks one entry at random. Fails when there is none.
    pub fn pick_random(&self) -> (picked: Result<Word, EmptyDictionaryError>)
        ensures
            self@.len() == 0 ==> picked is Err,
            self@.len() > 0 ==> picked is Ok,
            picked matches Ok(word) ==> self@.contains(word@),
    {
        match choose_entry(&self.words) {
            Some(word) => {
                let ghost i = choose|i: int| 0 <= i < self.words@.len() && self.words@[i] == *word;
                assert(self@[i] == word@);
                Ok(*word)
            },
            None => Err(EmptyDictionaryError),
        }
    }
}

impl Clone for Dictionary {
    fn clone(&self) -> (copy: Dictionary)
        ensures
            copy@ == self@,
    {
        proof {
            use_type_invariant(self);
        }
        let mut words: Vec<Word> = Vec::new();
        let mut i: usize = 0;
        while i < self.words.len()
            invariant
                i <= self.words@.len(),
                words@ == self.words@.take(i as int),
            decreases self.words@.len() - i,
        {
            words.push(self.words[i]);
            i += 1;
        }
        let copy = Dictionary { words };
        assert(copy@ =~= self@);
        copy
    }
}

/// One entry of `words`, chosen at random.
///
/// Calls `SliceRandom::choose` of the `rand` crate with the generator that
/// `rand::thread_rng` hands out: it gives nothing for an empty list and
/// otherwise a reference to one of the elements. Which one is left open, and
/// so is that the choice is uniform. The generator panics if the system
/// cannot seed it.
#[verifier::external_body]
fn choose_entry(words: &Vec<Word>) -> (picked: Option<&Word>)
    ensures
        words@.len() == 0 ==> picked is None,
        words@.len() > 0 ==> picked is Some,
        picked matches Some(word) ==> words@.contains(*word),
{
    words.choose(&mut rand::thread_rng())
}

} // verus!
