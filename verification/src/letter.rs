//! One character slot of the target phrase.

use vstd::prelude::*;

verus! {

/// A single letter within the phrase. Each letter is either a `Char`, which
/// is an untyped character, a `Hit`, which was typed correctly, or a `Miss`,
/// which was typed incorrectly. The wrapped character is preserved across
/// every state change, so reverting a letter by backspace is exact.
#[derive(Clone, Copy, Debug, PartialEq, Eq, Structural)]
pub enum Letter {
    Char(char),
    Hit(char),
    Miss(char),
}

impl Letter {
    /// The wrapped character; state transitions never change it.
    pub open spec fn spec_char(self) -> char {
        match self {
            Letter::Char(c) => c,
            Letter::Hit(c) => c,
            Letter::Miss(c) => c,
        }
    }

    /// True of a letter that has not been typed yet.
    pub open spec fn is_untyped(self) -> bool {
        self is Char
    }

    /// The wrapped character, for callers outside ghost code.
    pub fn character(&self) -> (c: char)
        ensures
            c == self.spec_char(),
    {
        match *self {
            Letter::Char(c) => c,
            Letter::Hit(c) => c,
            Letter::Miss(c) => c,
        }
    }
}

/// The untyped letter slot for the character `c`.
pub open spec fn untyped_slot(c: char) -> Letter {
    Letter::Char(c)
}

/// The characters wrapped by a sequence of letters.
pub open spec fn chars_of(s: Seq<Letter>) -> Seq<char> {
    s.map_values(|l: Letter| l.spec_char())
}

/// How many letters of `s` are `Hit`.
pub open spec fn hit_count(s: Seq<Letter>) -> nat
    decreases s.len(),
{
    if s.len() == 0 {
        0
    } else {
        hit_count(s.drop_last()) + if s.last() is Hit {
            1nat
        } else {
            0nat
        }
    }
}

/// How many letters of `s` are `Miss`.
pub open spec fn miss_count(s: Seq<Letter>) -> nat
    decreases s.len(),
{
    if s.len() == 0 {
        0
    } else {
        miss_count(s.drop_last()) + if s.last() is Miss {
            1nat
        } else {
            0nat
        }
    }
}

} // verus!
