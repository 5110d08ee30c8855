//! A bare typing run over a phrase, without modes, timer or word-skip.
//!
//! This is a bare sibling of the full session in [`crate::session`]: every
//! printable key marks the current letter hit or missed and advances,
//! backspace steps back, and the run is done when the cursor reaches the
//! end. The application around it owns the drawing and the clock.

use vstd::prelude::*;
use crate::letter::{chars_of, miss_count, untyped_slot, Letter};
use crate::session::{cursor_inv, spec_initial_letters, Key};

verus! {

/// The letter-state transition of the bare run: backspace reverts the
/// previous letter and steps back; any character marks the current letter
/// hit when it matches and missed otherwise, and advances; with the phrase
/// exhausted, or on any other key, nothing changes.
pub open spec fn spec_plain_step(letters: Seq<Letter>, cursor: int, key: Key) -> (
    Seq<Letter>,
    int,
) {
    match key {
        Key::Backspace => if cursor <= 0 {
            (letters, cursor)
        } else {
            (letters.update(cursor - 1, Letter::Char(letters[cursor - 1].spec_char())), cursor - 1)
        },
        Key::Char(c) => if 0 <= cursor < letters.len() && letters[cursor].is_untyped() {
            let expected = letters[cursor].spec_char();
            if c == expected {
                (letters.update(cursor, Letter::Hit(expected)), cursor + 1)
            } else {
                (letters.update(cursor, Letter::Miss(expected)), cursor + 1)
            }
        } else {
            (letters, cursor)
        },
        _ => (letters, cursor),
    }
}

/// Renders one bare typing run on the given phrase.
pub struct TypeRenderer {
    /// Phrase the user is tested on.
    phrase: String,
    /// Letters, generated from the phrase.
    letters: Vec<Letter>,
    /// Cursor position.
    cursor: usize,
}

impl TypeRenderer {
    /// The letter sequence.
    pub closed spec fn letters_seq(self) -> Seq<Letter> {
        self.letters@
    }

    /// The cursor position.
    pub closed spec fn cursor_at(self) -> int {
        self.cursor as int
    }

    /// The phrase characters.
    pub closed spec fn phrase_chars(self) -> Seq<char> {
        self.phrase@
    }

    /// Well-formed: the cursor invariant holds and the letters wrap exactly
    /// the phrase characters.
    pub open spec fn wf(self) -> bool {
        &&& cursor_inv(self.letters_seq(), self.cursor_at())
        &&& chars_of(self.letters_seq()) == self.phrase_chars()
    }

    /// A fresh run over `phrase`: every letter untyped, the cursor at the
    /// start.
    pub fn new(phrase: String) -> (r: Self)
        ensures
            r.wf(),
            r.letters_seq() == spec_initial_letters(phrase@),
            r.cursor_at() == 0,
            r.phrase_chars() == phrase@,
    {
        let phrase_str = phrase.as_str();
        let n = phrase_str.unicode_len();
        let mut letters: Vec<Letter> = Vec::new();
        let mut i: usize = 0;
        while i < n
            invariant
                n == phrase@.len(),
                0 <= i <= n,
                letters@.len() == i,
                forall|j: int| 0 <= j < i ==> letters@[j] == Letter::Char(phrase@[j]),
                phrase_str@ == phrase@,
            decreases n - i,
        {
            letters.push(Letter::Char(phrase_str.get_char(i)));
            i += 1;
        }
        proof {
            assert forall|j: int| 0 <= j < phrase@.len() implies letters@[j]
                == spec_initial_letters(phrase@)[j] by {
                assert(spec_initial_letters(phrase@)[j] == untyped_slot(phrase@[j]));
            }
            assert(letters@ =~= spec_initial_letters(phrase@));
            assert(chars_of(letters@) =~= phrase@);
        }
        Self { phrase, letters, cursor: 0 }
    }

    /// Handles a keypress: the transition [`spec_plain_step`].
    pub fn handle_key(&mut self, key: Key)
        requires
            old(self).wf(),
        ensures
            final(self).wf(),
            (final(self).letters_seq(), final(self).cursor_at()) == spec_plain_step(
                old(self).letters_seq(),
                old(self).cursor_at(),
                key,
            ),
            final(self).phrase_chars() == old(self).phrase_chars(),
    {
        match key {
            Key::Backspace => {
                // prevent us from deleting into nowhere
                if self.cursor > 0 {
                    self.cursor = self.cursor - 1;
                    let c = self.letters[self.cursor].character();
                    self.letters.set(self.cursor, Letter::Char(c));
                }
            },
            Key::Char(c) => {
                if self.cursor < self.letters.len() {
                    if let Letter::Char(expected) = self.letters[self.cursor] {
                        if c == expected {
                            self.letters.set(self.cursor, Letter::Hit(expected));
                        } else {
                            self.letters.set(self.cursor, Letter::Miss(expected));
                        }
                        self.cursor = self.cursor + 1;
                    }
                }
            },
            _ => {},
        }
        proof {
            assert(chars_of(self.letters_seq()) =~= chars_of(old(self).letters_seq()));
        }
    }

    /// The cursor position.
    pub fn cursor(&self) -> (c: usize)
        ensures
            c == self.cursor_at(),
    {
        self.cursor
    }

    /// The phrase length, in letters.
    pub fn len(&self) -> (n: usize)
        ensures
            n == self.letters_seq().len(),
    {
        self.letters.len()
    }

    /// The letter at index `i`.
    pub fn letter(&self, i: usize) -> (l: Letter)
        requires
            i < self.letters_seq().len(),
        ensures
            l == self.letters_seq()[i as int],
    {
        self.letters[i]
    }

    /// Counts the letters currently marked `Miss`.
    pub fn count_misses(&self) -> (n: usize)
        ensures
            n == miss_count(self.letters_seq()),
    {
        let mut misses: usize = 0;
        let mut i: usize = 0;
        while i < self.letters.len()
            invariant
                0 <= i <= self.letters_seq().len(),
                misses <= i,
                misses == miss_count(self.letters_seq().take(i as int)),
            decreases self.letters_seq().len() - i,
        {
            if let Letter::Miss(_) = self.letters[i] {
                misses += 1;
            }
            proof {
                assert(self.letters_seq().take(i + 1 as int).drop_last() =~= self.letters_seq()
                    .take(i as int));
            }
            i += 1;
        }
        proof {
            assert(self.letters_seq().take(self.letters_seq().len() as int) =~= self
                .letters_seq());
        }
        misses
    }
}

} // verus!
