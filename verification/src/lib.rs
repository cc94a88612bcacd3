//! Decoder for captured traces of a synchronous serial bus.
//!
//! A trace is an ordered sequence of timestamped line samples (clock, data,
//! and an active-low device-select line). The pipeline extracts one data bit
//! per qualifying clock falling edge, packs the bits MSB-first into bytes,
//! frames the bytes into fixed-width command records, and projects each
//! command to a plotting coordinate pair.

use vstd::prelude::*;

pub mod edge;
pub mod frame;
pub mod pack;
pub mod pipeline;
pub mod sample;
pub mod series;

verus! {

/// Level a device-select line reads while the bus is addressing that
/// device. The select lines are active-low, so the level is `false`.
pub const SELECT_ACTIVE_LEVEL: bool = false;

/// Number of bits folded into one byte, earliest bit most significant.
pub const BITS_PER_BYTE: usize = 8;

/// Number of byte fields in one framed command record.
pub const BYTES_PER_COMMAND: usize = 3;

/// Largest number of commands the series projection hands to a renderer.
pub const WINDOW_LIMIT: usize = 5120;

} // verus!
