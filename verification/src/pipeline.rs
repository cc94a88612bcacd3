//! The full decode pipeline, stage by stage.
//!
//! Samples flow one way: edge-qualified bit extraction, MSB-first byte
//! packing, fixed-width command framing, then series projection. Every
//! stage is a pure function of its input sequence, so the whole pipeline
//! is one too.

use vstd::prelude::*;

use crate::edge::Bit;
use crate::edge::extract_bits;
use crate::edge::extracted_bits;
use crate::frame::Command;
use crate::frame::frame_commands;
use crate::frame::framed_commands;
use crate::pack::Byte;
use crate::pack::pack_bytes;
use crate::pack::packed_bytes;
use crate::sample::Sample;
use crate::series::SeriesPoint;
use crate::series::project_series;
use crate::series::projected_series;

verus! {

/// The bytes a sample stream decodes to.
pub open spec fn decoded_bytes(s: Seq<Sample>) -> Seq<Byte> {
    packed_bytes(extracted_bits(s))
}

/// The command records a sample stream decodes to.
pub open spec fn decoded_commands(s: Seq<Sample>) -> Seq<Command> {
    framed_commands(decoded_bytes(s))
}

/// The windowed series a sample stream decodes and projects to.
pub open spec fn pipeline_series(s: Seq<Sample>, limit: nat) -> Seq<SeriesPoint> {
    projected_series(decoded_commands(s), limit)
}

/// Runs extraction, packing and framing and returns the command records.
pub fn decode_commands(samples: &Vec<Sample>) -> (r: Vec<Command>)
    ensures
        r@ == decoded_commands(samples@),
{
    let bits = extract_bits(samples);
    let bytes = pack_bytes(&bits);
    frame_commands(&bytes)
}

/// Runs the whole pipeline and returns the windowed series for rendering.
pub fn run_pipeline(samples: &Vec<Sample>, window_limit: usize) -> (r: Vec<SeriesPoint>)
    ensures
        r@ == pipeline_series(samples@, window_limit as nat),
{
    let commands = decode_commands(samples);
    project_series(&commands, window_limit)
}

/// The pipeline is deterministic: any two runs over one unchanged sample
/// stream yield identical bit, byte, command and series sequences.
pub proof fn lemma_pipeline_deterministic(
    s: Seq<Sample>,
    limit: nat,
    bits1: Seq<Bit>,
    bits2: Seq<Bit>,
    bytes1: Seq<Byte>,
    bytes2: Seq<Byte>,
    cmds1: Seq<Command>,
    cmds2: Seq<Command>,
    pts1: Seq<SeriesPoint>,
    pts2: Seq<SeriesPoint>,
)
    requires
        bits1 == extracted_bits(s),
        bits2 == extracted_bits(s),
        bytes1 == packed_bytes(bits1),
        bytes2 == packed_bytes(bits2),
        cmds1 == framed_commands(bytes1),
        cmds2 == framed_commands(bytes2),
        pts1 == projected_series(cmds1, limit),
        pts2 == projected_series(cmds2, limit),
    ensures
        bits1 == bits2,
        bytes1 == bytes2,
        cmds1 == cmds2,
        pts1 == pts2,
{
}

} // verus!
