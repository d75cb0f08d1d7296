//! Small shared types.

use vstd::prelude::*;

verus! {

/// The error of wrapping a NaN as a present value.
#[derive(Debug, Clone, Copy, PartialEq, Eq, Structural)]
pub enum NicheF32Error {
    /// Attempted to make a non-NaN value out of NaN.
    NaN,
}

impl NicheF32Error {
    /// The human-readable message of the error.
    pub fn message(&self) -> (m: &'static str)
        ensures
            m@ == "provided value was NaN"@,
    {
        "provided value was NaN"
    }
}

} // verus!
