//! Captured line samples, the input of the decode pipeline.

use vstd::prelude::*;

verus! {

/// One timestamped snapshot of all captured digital lines.
///
/// `time` is an opaque stamp chosen by the caller (for instance the bit
/// pattern of a floating-point second count); the pipeline never computes
/// on it, it only copies the stamp of a group's first element forward.
#[derive(Clone, Copy, Debug, PartialEq, Eq, Structural)]
pub struct Sample {
    pub time: u64,
    /// Device-select line for device 1. The line is active-low: the bus is
    /// addressing device 1 exactly when this reads `false`.
    pub device1_active: bool,
    /// Device-select line for device 2; recorded but never consulted.
    pub device2_active: bool,
    /// Data line level.
    pub data: bool,
    /// Clock line level.
    pub clock: bool,
}

/// Decodes the integer coding of a captured line level: `0` is low,
/// `1` is high, anything else is a malformed record.
pub fn bool_from_int(code: u8) -> (r: Option<bool>)
    ensures
        r == (if code == 0 {
            Some(false)
        } else if code == 1 {
            Some(true)
        } else {
            None::<bool>
        }),
{
    if code == 0 {
        Some(false)
    } else if code == 1 {
        Some(true)
    } else {
        None
    }
}

} // verus!
