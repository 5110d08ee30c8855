//! The immutable record a completed test produces.

use vstd::prelude::*;
use crate::test_mode::TestMode;
use crate::wordlist::Wordlist;

verus! {

/// All information about a completed test, including performance metrics.
/// Speeds are in hundredths of a word per minute, as computed by
/// [`crate::wpm::wpm_gross`] and [`crate::wpm::wpm_net`].
#[derive(Clone, Copy, Debug)]
pub struct TestResult {
    /// Test length in words.
    pub length: usize,
    /// Wordlist used.
    pub wordlist: Wordlist,
    /// Mode used.
    pub mode: TestMode,
    /// Hit count.
    pub hits: usize,
    /// Miss count.
    pub misses: usize,
    /// Total time taken, in milliseconds.
    pub time_ms: u64,
    /// Calculated speeds, in `(gross, net)` format, in centi-WPM.
    pub wpm: (u32, u32),
}

impl TestResult {
    /// Assembles a result record from its parts.
    pub fn new(
        length: usize,
        wordlist: Wordlist,
        mode: TestMode,
        hits: usize,
        misses: usize,
        time_ms: u64,
        wpm: (u32, u32),
    ) -> (r: Self)
        ensures
            r == (TestResult { length, wordlist, mode, hits, misses, time_ms, wpm }),
    {
        Self { length, wordlist, mode, hits, misses, time_ms, wpm }
    }
}

} // verus!
