//! The board: the record of the attempts made so far, in turn order.

use vstd::prelude::*;
use crate::score::{LetterScore, ScoredGuess};

verus! {

/// Number of attempts a game allows, and so the number of slots of a board.
pub const MAX_ATTEMPTS: usize = 6;

/// The error of appending to a board whose slots are all filled.
#[derive(Clone, Copy, Debug, PartialEq, Eq, Structural)]
pub struct BoardFullError;

/// What slot `i` of a board shows when `rows` are the attempts recorded so
/// far: the attempt number `i` if there is one, nothing otherwise.
pub open spec fn slot_at(rows: Seq<Seq<(char, LetterScore)>>, i: int) -> Option<
    Seq<(char, LetterScore)>,
> {
    if 0 <= i < rows.len() {
        Some(rows[i])
    } else {
        None
    }
}

/// What a slot holds, with the scored guess taken by its view.
pub open spec fn slot_view(slot: Option<ScoredGuess>) -> Option<Seq<(char, LetterScore)>> {
    match slot {
        Some(row) => Some(row@),
        None => None,
    }
}

/// Six slots, filled from the first on without gaps. A filled slot is never
/// changed again.
///
/// The view of a board is the sequence of the attempts it records, oldest
/// first; slot `i` then shows `slot_at(board@, i)`.
#[derive(Debug, PartialEq, Eq)]
pub struct Board {
    slots: [Option<ScoredGuess>; 6],
    filled: usize,
}

impl View for Board {
    type V = Seq<Seq<(char, LetterScore)>>;

    closed spec fn view(&self) -> Seq<Seq<(char, LetterScore)>> {
        Seq::new(self.filled as nat, |i: int| self.slots@[i].unwrap()@)
    }
}

impl Board {
    /// The invariant of the type: the first `filled` slots hold an attempt,
    /// the others are empty.
    #[verifier::type_invariant]
    pub closed spec fn well_formed(self) -> bool {
        &&& self.filled <= MAX_ATTEMPTS
        &&& forall|i: int| 0 <= i < self.filled ==> (#[trigger] self.slots@[i]) is Some
        &&& forall|i: int| self.filled <= i < MAX_ATTEMPTS ==> (#[trigger] self.slots@[i]) is None
    }

    /// A well-formed board records at most `MAX_ATTEMPTS` attempts.
    pub proof fn lemma_well_formed(self)
        requires
            self.well_formed(),
        ensures
            self@.len() <= MAX_ATTEMPTS,
    {
    }

    /// A board with six empty slots.
    pub fn new() -> (board: Board)
        ensures
            board@ == Seq::<Seq<(char, LetterScore)>>::empty(),
    {
        let board = Board { slots: [None; 6], filled: 0 };
        assert(board@ =~= Seq::<Seq<(char, LetterScore)>>::empty());
        board
    }

    /// Records `row` in the first empty slot, or fails when no slot is empty.
    pub fn append(&mut self, row: ScoredGuess) -> (done: Result<(), BoardFullError>)
        ensures
            old(self)@.len() < MAX_ATTEMPTS ==> done is Ok && final(self)@ == old(self)@.push(row@),
            old(self)@.len() >= MAX_ATTEMPTS ==> done is Err && *final(self) == *old(self),
        no_unwind
    {
        proof {
            use_type_invariant(&*self);
        }
        if self.filled >= MAX_ATTEMPTS {
            return Err(BoardFullError);
        }
        let at = self.filled;
        let mut slots = self.slots;
        slots[at] = Some(row);
        let ghost before = self@;
        *self = Board { slots, filled: at + 1 };
        assert(self@ =~= before.push(row@));
        Ok(())
    }

    /// Number of slots that hold an attempt.
    pub fn filled_count(&self) -> (count: usize)
        ensures
            count == self@.len(),
            count <= MAX_ATTEMPTS,
    {
        proof {
            use_type_invariant(self);
        }
        self.filled
    }

    /// The six slots in order, for reading.
    pub fn slots(&self) -> (slots: &[Option<ScoredGuess>; 6])
        ensures
            forall|i: int| 0 <= i < MAX_ATTEMPTS ==> slot_view(#[trigger] slots@[i]) == slot_at(self@, i),
    {
        proof {
            use_type_invariant(self);
        }
        &self.slots
    }

    /// The attempt in slot `i`, if that slot is filled.
    pub fn slot(&self, i: usize) -> (slot: Option<ScoredGuess>)
        ensures
            slot_view(slot) == slot_at(self@, i as int),
    {
        proof {
            use_type_invariant(self);
        }
        if i < MAX_ATTEMPTS {
            self.slots[i]
        } else {
            None
        }
    }
}

impl Clone for Board {
    fn clone(&self) -> (copy: Board)
        ensures
            copy == *self,
    {
        proof {
            use_type_invariant(self);
        }
        Board { slots: self.slots, filled: self.filled }
    }
}

} // verus!
