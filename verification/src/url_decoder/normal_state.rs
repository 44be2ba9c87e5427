//! The pass-through state of the percent-decoder.
use vstd::prelude::*;

verus! {

/// Outside an escape, every byte but `%` passes through.
pub struct NormalState {}

impl NormalState {
    /// Whether `next` passes through as-is; `%` switches to escape
    /// collection instead.
    pub fn get_next(&self, next: u8) -> (r: bool)
        ensures
            r == (next != 37),
    {
        return next != 37;
    }
}

} // verus!
