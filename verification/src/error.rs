//! The ways in which a run of the suite fails.

use vstd::prelude::*;

verus! {

/// Why a run was given up. Neither kind is recoverable: a run that meets one
/// ends without output.
#[derive(Debug, Clone, Copy, PartialEq, Eq, Structural)]
pub enum BenchError {
    /// A dataset is missing or is not a JSON array of integers.
    SetupFailure,
    /// The results could not be stored or encoded.
    OutputFailure,
}

} // verus!
