//! The two ways a test run can end.

use vstd::prelude::*;

verus! {

/// Represents which mode a test is in: `Words` ends when the whole phrase
/// has been consumed, `Time` ends when the given budget, in milliseconds,
/// has elapsed since the first keypress.
#[derive(Clone, Copy, Debug, PartialEq, Eq, Structural)]
pub enum TestMode {
    Words(usize),
    Time(u64),
}

} // verus!
