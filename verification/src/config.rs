//! Configuration values.

use vstd::prelude::*;

verus! {

/// One configurable value: a plain flag, a bounded integer, or a choice
/// among named options. The store that maps setting names to these values,
/// and its persistence, belong to the surrounding application.
#[derive(Clone, Debug)]
pub enum ConfigValue {
    Bool(bool),
    Integer { v: i32, max: i32, min: i32 },
    Select { options: Vec<String>, selected: usize },
}

} // verus!
