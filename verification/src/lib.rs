//! Core of a small generative audio toy: a ring of orbiting balls drives a
//! musical sequencer, which drives a fixed pool of decaying sine voices.
//!
//! Everything numeric is fixed point: amplitudes and dimensionless ratios are
//! scaled by [`units::UNIT`] (10^9 per 1.0), angles and waveform positions are
//! measured in billionths of a turn ([`units::TURN`] per revolution), and
//! frequencies in micro-hertz.  The host runtime (window, input, audio device)
//! converts these to and from floating point at the edge; the whole core is
//! integer arithmetic with proved bounds.

pub mod control;
pub mod engine;
pub mod errors;
pub mod orbit;
pub mod pitch;
pub mod pool;
pub mod scale;
pub mod sine;
pub mod units;
