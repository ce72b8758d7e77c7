//! Letters and five-letter words.

use vstd::prelude::*;
use vstd::std_specs::cmp::PartialEqSpecImpl;

verus! {

/// Number of letters in every word of the game.
pub const WORD_LENGTH: usize = 5;

/// A letter is a lowercase character between `a` and `z`.
pub open spec fn is_letter(c: char) -> bool {
    'a' <= c && c <= 'z'
}

/// A word is a sequence of exactly `WORD_LENGTH` letters.
pub open spec fn is_word(s: Seq<char>) -> bool {
    &&& s.len() == WORD_LENGTH
    &&& forall|i: int| 0 <= i < s.len() ==> is_letter(#[trigger] s[i])
}

/// Tells whether `c` is a letter.
pub fn letter_check(c: char) -> (ok: bool)
    ensures
        ok == is_letter(c),
{
    'a' <= c && c <= 'z'
}

/// The characters of `text`, in order.
pub fn characters(text: &str) -> (chars: Vec<char>)
    ensures
        chars@ == text@,
{
    let mut chars: Vec<char> = Vec::new();
    for c in it: text.chars()
        invariant
            it.seq() == text@,
            chars@ == it.seq().take(it.index()),
    {
        chars.push(c);
    }
    chars
}

/// A word of the game: exactly five lowercase letters.
#[derive(Clone, Copy, Debug)]
pub struct Word {
    letters: [char; 5],
}

impl View for Word {
    type V = Seq<char>;

    closed spec fn view(&self) -> Seq<char> {
        self.letters@
    }
}

impl Word {
    /// The invariant of the type: what a `Word` holds is a word.
    #[verifier::type_invariant]
    pub closed spec fn well_formed(self) -> bool {
        is_word(self.letters@)
    }

    /// A well-formed `Word` views as five lowercase letters.
    pub proof fn lemma_well_formed(self)
        requires
            self.well_formed(),
        ensures
            is_word(self@),
    {
    }

    /// Makes a word of `chars`, which must be five lowercase letters.
    pub fn from_chars(chars: &Vec<char>) -> (word: Option<Word>)
        ensures
            word is Some <==> is_word(chars@),
            word matches Some(w) ==> w@ == chars@,
    {
        if chars.len() != WORD_LENGTH {
            return None;
        }
        let mut letters: [char; 5] = ['a'; 5];
        let mut i: usize = 0;
        while i < WORD_LENGTH
            invariant
                i <= WORD_LENGTH,
                chars@.len() == WORD_LENGTH,
                forall|j: int| 0 <= j < i ==> letters@[j] == chars@[j],
                forall|j: int| 0 <= j < WORD_LENGTH ==> is_letter(#[trigger] letters@[j]),
            decreases WORD_LENGTH - i,
        {
            let c = chars[i];
            if !letter_check(c) {
                return None;
            }
            letters[i] = c;
            i += 1;
        }
        assert(letters@ =~= chars@);
        Some(Word { letters })
    }

    /// Reads a word from `text`, which must be five lowercase letters.
    pub fn parse(text: &str) -> (word: Option<Word>)
        ensures
            word is Some <==> is_word(text@),
            word matches Some(w) ==> w@ == text@,
    {
        let chars = characters(text);
        Word::from_chars(&chars)
    }

    /// The word as a string of its five letters.
    pub fn to_text(&self) -> (text: String)
        ensures
            text@ == self@,
    {
        let mut text = String::new();
        let mut i: usize = 0;
        while i < WORD_LENGTH
            invariant
                i <= WORD_LENGTH,
                text@ == self.letters@.take(i as int),
            decreases WORD_LENGTH - i,
        {
            push_char(&mut text, self.letters[i]);
            i += 1;
        }
        text
    }

    /// The letter at position `i`.
    pub fn letter(&self, i: usize) -> (c: char)
        requires
            i < WORD_LENGTH,
        ensures
            c == self@[i as int],
            is_letter(c),
            self@.len() == WORD_LENGTH,
    {
        proof {
            use_type_invariant(self);
        }
        self.letters[i]
    }
}

impl PartialEq for Word {
    fn eq(&self, other: &Word) -> (equal: bool) {
        let mut i: usize = 0;
        while i < WORD_LENGTH
            invariant
                i <= WORD_LENGTH,
                forall|j: int| 0 <= j < i ==> self.letters@[j] == other.letters@[j],
            decreases WORD_LENGTH - i,
        {
            if self.letters[i] != other.letters[i] {
                return false;
            }
            i += 1;
        }
        assert(self.letters@ =~= other.letters@);
        true
    }
}

impl Eq for Word {

}

impl PartialEqSpecImpl for Word {
    open spec fn obeys_eq_spec() -> bool {
        true
    }

    open spec fn eq_spec(&self, other: &Word) -> bool {
        self@ == other@
    }
}

/// Appends one character to a string.
///
/// Calls `String::push`: afterwards the string holds what it held before,
/// followed by `c`.
#[verifier::external_body]
fn push_char(text: &mut String, c: char)
    ensures
        final(text)@ == old(text)@.push(c),
{
    text.push(c);
}

} // verus!
