//! The persisted state record.

use vstd::prelude::*;

verus! {

/// The only persisted entity: a record holding a single unsigned 64-bit
/// counter. A fresh program instance starts with `count = 0`, and each
/// business invocation increments the counter by exactly one.
#[derive(Clone, Copy, Debug, PartialEq, Eq, Structural)]
pub struct State {
    pub count: u64,
}

impl Default for State {
    /// The record a fresh program instance is initialized with.
    fn default() -> (r: Self)
        ensures
            r.count == 0,
    {
        State { count: 0 }
    }
}

} // verus!
