//! Actions a menu entry can trigger.

use vstd::prelude::*;
use crate::test_mode::TestMode;
use crate::wordlist::Wordlist;

verus! {

/// Represents menu actions, like starting tests or viewing the profile.
/// The menu tree itself, its navigation and its redraws belong to the
/// surrounding application; this names what a selected entry asks for.
#[derive(Clone, Debug)]
pub enum MenuAction {
    /// Executes a test with given parameters.
    Test { mode: TestMode, wordlist: Option<Wordlist> },
    /// Opens profile view.
    Profile,
    /// Toggles a boolean config value.
    CfgToggle(String),
    /// Increments integer config values.
    CfgIncrement(String),
    /// Sets a select config value to a specific option.
    CfgSetSelect { key: String, value: usize },
    /// Does nothing.
    Nothing,
}

} // verus!
