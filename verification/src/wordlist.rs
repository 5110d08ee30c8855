//! Wordlist identifiers.

use vstd::prelude::*;

verus! {

/// Names the wordlist a phrase was drawn from. Only the identifier lives
/// here; the stored word data and its decompression belong to the
/// surrounding application.
#[derive(Clone, Copy, Debug, PartialEq, Eq, Structural)]
pub enum Wordlist {
    English1k,
    English5k,
    English10k,
    EnglishCommonMisspelled,
    CodeCPP,
    CodeC,
    CodeJS,
}

} // verus!
