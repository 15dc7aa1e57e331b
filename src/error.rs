//! Failures of the analytics operations.
use vstd::prelude::*;

verus! {

/// Why an operation refused its inputs.
#[derive(Clone, Copy, Debug, PartialEq, Eq, Structural)]
pub enum OptimizerError {
    /// The price series is too short (or empty) for the operation.
    InvalidPriceArray,
    /// A tick range has no positive width.
    InvalidTickSpacing,
    /// The observation window is zero.
    InvalidTimeWindow,
}

} // verus!
