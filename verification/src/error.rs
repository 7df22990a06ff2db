//! The failures the hash and the field projection report.

use vstd::prelude::*;

verus! {

/// Why a hash evaluation was refused.
#[derive(Clone, Debug, PartialEq, Eq)]
pub enum CRHError {
    /// The input holds more bits than the windows can take: the input length
    /// in bytes, the window size and the number of windows.
    IncorrectInputLength(usize, usize, usize),
    /// The parameters do not hold one window of bases per window of input: the
    /// length of the first window present (zero when there is none), the
    /// number of windows present, the window size and the number of windows.
    IncorrectParameterSize(usize, usize, usize, usize),
}

/// Why a value could not be projected onto field elements.
#[derive(Clone, Debug, PartialEq, Eq)]
pub enum ConstraintFieldError {
    /// The projection failed for the reason given.
    Message(String),
}

} // verus!
