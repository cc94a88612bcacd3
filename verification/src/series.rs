//! Series projection for rendering.
//!
//! The projector maps each command record to one plotting coordinate pair —
//! the command's timestamp on the x axis and an unsigned 16-bit composite of
//! its second and third fields on the y axis — and windows the result to a
//! bounded prefix.

use vstd::prelude::*;

use crate::frame::Command;

verus! {

/// One plotting coordinate pair: the command's timestamp and its derived
/// 16-bit level.
#[derive(Clone, Copy, Debug, PartialEq, Eq, Structural)]
pub struct SeriesPoint {
    pub time: u64,
    pub level: u16,
}

/// The field-combination rule: the second and third command fields read as
/// an unsigned 16-bit composite, `fields[1] * 255 + fields[2]`.
pub open spec fn level_of(c: Command) -> int {
    c.field1 * 255 + c.field2
}

/// The coordinate pair a command projects to.
pub open spec fn point_at(c: Command) -> SeriesPoint {
    SeriesPoint { time: c.time, level: level_of(c) as u16 }
}

/// The length of the projected window: `limit` or the command count,
/// whichever is smaller.
pub open spec fn window_len(limit: nat, count: nat) -> nat {
    if limit < count {
        limit
    } else {
        count
    }
}

/// The projected series: the first `limit` commands (or all of them, if
/// fewer), each mapped to its coordinate pair, in order.
pub open spec fn projected_series(cs: Seq<Command>, limit: nat) -> Seq<SeriesPoint> {
    Seq::new(window_len(limit, cs.len()), |j: int| point_at(cs[j]))
}

/// The projected series is exactly `min(limit, command count)` points long,
/// and point `j` is the projection of command `j`.
pub proof fn lemma_projected_shape(cs: Seq<Command>, limit: nat)
    ensures
        projected_series(cs, limit).len() == window_len(limit, cs.len()),
        forall|j: int|
            0 <= j < projected_series(cs, limit).len() ==> #[trigger] projected_series(
                cs,
                limit,
            )[j] == point_at(cs[j]),
{
}

/// Maps the first `window_limit` commands (or all of them, if fewer) to
/// their coordinate pairs, in order.
pub fn project_series(commands: &Vec<Command>, window_limit: usize) -> (r: Vec<SeriesPoint>)
    ensures
        r@ == projected_series(commands@, window_limit as nat),
        r@.len() == window_len(window_limit as nat, commands@.len()),
{
    let count: usize = if window_limit < commands.len() {
        window_limit
    } else {
        commands.len()
    };
    let mut out: Vec<SeriesPoint> = Vec::new();
    let mut i: usize = 0;
    while i < count
        invariant
            count == window_len(window_limit as nat, commands@.len()),
            count <= commands@.len(),
            i <= count,
            out@.len() == i,
            forall|j: int|
                0 <= j < i ==> out@[j] == projected_series(commands@, window_limit as nat)[j],
        decreases count - i,
    {
        let c = commands[i];
        let level: u16 = (c.field1 as u16) * 255 + (c.field2 as u16);
        proof {
            assert(level == level_of(c));
        }
        out.push(SeriesPoint { time: c.time, level });
        i += 1;
    }
    proof {
        assert(out@ =~= projected_series(commands@, window_limit as nat));
    }
    out
}

} // verus!
