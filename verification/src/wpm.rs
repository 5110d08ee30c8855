//! Words-per-minute formulas.
//!
//! The classic convention counts five typed characters as one word. Speeds
//! are kept as integers in hundredths of a word per minute (centi-WPM), so
//! `1000` reads as `10.00` WPM. Elapsed time enters in milliseconds but only
//! whole seconds are counted; values are clamped to the display range
//! `0 ..= 999.00` WPM, and a duration under one second yields the cap for the
//! gross speed (and zero for the net one), standing in for a division by
//! zero.

use vstd::prelude::*;

verus! {

/// Upper end of the displayable speed range: 999.00 WPM in centi-WPM.
pub const WPM_CAP_CENTI: u32 = 99900;

/// Gross speed in centi-WPM: `(chars / 5) / (secs / 60)` words per minute,
/// clamped to the display range.
pub open spec fn spec_wpm_gross(chars: nat, dur_ms: nat) -> nat {
    let secs = dur_ms / 1000;
    if secs == 0 {
        WPM_CAP_CENTI as nat
    } else if chars * 1200 / secs > WPM_CAP_CENTI {
        WPM_CAP_CENTI as nat
    } else {
        chars * 1200 / secs
    }
}

/// Net speed in centi-WPM: the gross speed minus an error penalty of
/// `misses / (secs / 60)` words per minute, clamped to stay non-negative.
pub open spec fn spec_wpm_net(chars: nat, misses: nat, dur_ms: nat) -> nat {
    let secs = dur_ms / 1000;
    if secs == 0 {
        0
    } else {
        let gross = spec_wpm_gross(chars, dur_ms);
        let penalty = misses * 6000 / secs;
        if penalty >= gross {
            0
        } else {
            (gross - penalty) as nat
        }
    }
}

/// Raw (gross) WPM from typed characters and elapsed milliseconds,
/// in hundredths of a word per minute, clamped to `0 ..= 999.00`.
pub fn wpm_gross(k: usize, dur_ms: u64) -> (r: u32)
    ensures
        r == spec_wpm_gross(k as nat, dur_ms as nat),
        r <= WPM_CAP_CENTI,
{
    let secs: u64 = dur_ms / 1000;
    if secs == 0 {
        WPM_CAP_CENTI
    } else {
        let raw: u128 = (k as u128) * 1200 / (secs as u128);
        if raw > WPM_CAP_CENTI as u128 {
            WPM_CAP_CENTI
        } else {
            raw as u32
        }
    }
}

/// Net WPM from typed characters, miss count and elapsed milliseconds,
/// in hundredths of a word per minute, clamped to `0 ..= 999.00`.
pub fn wpm_net(k: usize, e: usize, dur_ms: u64) -> (r: u32)
    ensures
        r == spec_wpm_net(k as nat, e as nat, dur_ms as nat),
        r <= WPM_CAP_CENTI,
{
    let secs: u64 = dur_ms / 1000;
    if secs == 0 {
        0
    } else {
        let gross = wpm_gross(k, dur_ms);
        let penalty: u128 = (e as u128) * 6000 / (secs as u128);
        if penalty >= gross as u128 {
            0
        } else {
            gross - penalty as u32
        }
    }
}

} // verus!
