//! Configuration errors: the faults that are rejected at construction time,
//! before anything reaches the real-time render path.

use vstd::prelude::*;

verus! {

/// A configuration violation, detected when a component is built.
#[derive(Clone, Copy, Debug, PartialEq, Eq, Structural)]
pub enum ConfigError {
    /// The cyclic interval pattern of a scale was empty.
    EmptyIntervals,
    /// An interval step was zero or larger than a scale step may be.
    StepOutOfRange,
    /// A starting scale degree was outside the supported transposition range.
    StartOutOfRange,
    /// A voice pool was requested with no voice slots at all.
    ZeroCapacity,
    /// A voice pool was requested with more slots than the engine mixes.
    CapacityTooLarge,
}

} // verus!
