//! Fixed-width command framing.
//!
//! The framer partitions the byte sequence into consecutive groups of up to
//! three bytes and builds one command record per group. A command's three
//! fields start at zero and are overwritten in order by the group's byte
//! values, so a short final group leaves its trailing fields at zero. Each
//! command carries the timestamp of the first byte of its group.

use vstd::prelude::*;

use crate::BYTES_PER_COMMAND;
use crate::pack::Byte;

verus! {

/// One decoded command record: three byte fields sharing the timestamp of
/// the group's first byte.
#[derive(Clone, Copy, Debug, PartialEq, Eq, Structural)]
pub struct Command {
    pub time: u64,
    pub field0: u8,
    pub field1: u8,
    pub field2: u8,
}

impl Command {
    /// The three byte fields in frame order.
    pub open spec fn fields(self) -> Seq<u8> {
        seq![self.field0, self.field1, self.field2]
    }
}

/// How many commands a byte sequence of length `m` frames into: one per
/// started group of three.
pub open spec fn framed_len(m: nat) -> nat {
    (m + 2) / 3
}

/// The command emitted for group `j`: the group's bytes in order, trailing
/// fields zero where the group is short, stamped with the time of the
/// group's first byte.
pub open spec fn command_at(bytes: Seq<Byte>, j: int) -> Command {
    Command {
        time: bytes[3 * j].time,
        field0: bytes[3 * j].value,
        field1: if 3 * j + 1 < bytes.len() {
            bytes[3 * j + 1].value
        } else {
            0
        },
        field2: if 3 * j + 2 < bytes.len() {
            bytes[3 * j + 2].value
        } else {
            0
        },
    }
}

/// All commands the byte sequence frames into, in order.
pub open spec fn framed_commands(bytes: Seq<Byte>) -> Seq<Command> {
    Seq::new(framed_len(bytes.len()), |j: int| command_at(bytes, j))
}

/// A byte sequence of length `m` frames into exactly `ceil(m / 3)` commands;
/// each command is stamped with the time of the first byte of its group, and
/// a command built from fewer than three bytes has its missing trailing
/// fields equal to zero.
pub proof fn lemma_framed_shape(bytes: Seq<Byte>)
    ensures
        framed_commands(bytes).len() == (bytes.len() + 2) / 3,
        forall|j: int|
            0 <= j < framed_commands(bytes).len() ==> (#[trigger] framed_commands(bytes)[j]).time
                == bytes[3 * j].time,
        forall|j: int|
            0 <= j < framed_commands(bytes).len() && 3 * j + 1 >= bytes.len()
                ==> (#[trigger] framed_commands(bytes)[j]).field1 == 0 && framed_commands(
                bytes,
            )[j].field2 == 0,
        forall|j: int|
            0 <= j < framed_commands(bytes).len() && 3 * j + 2 >= bytes.len()
                ==> (#[trigger] framed_commands(bytes)[j]).field2 == 0,
{
}

/// Partitions the byte sequence into groups of up to three and assembles one
/// command per group, keeping group order.
pub fn frame_commands(bytes: &Vec<Byte>) -> (r: Vec<Command>)
    ensures
        r@ == framed_commands(bytes@),
{
    let mut out: Vec<Command> = Vec::new();
    let mut i: usize = 0;
    while i < bytes.len()
        invariant
            i <= bytes@.len(),
            i == 3 * out@.len() || (i == bytes@.len() && out@.len() == framed_len(bytes@.len())),
            forall|j: int| 0 <= j < out@.len() ==> out@[j] == framed_commands(bytes@)[j],
        decreases bytes@.len() - i,
    {
        let ghost g_idx = out@.len() as int;
        assert(i == 3 * g_idx);
        let field0 = bytes[i].value;
        let field1 = if bytes.len() - i >= 2 {
            bytes[i + 1].value
        } else {
            0
        };
        let field2 = if bytes.len() - i >= 3 {
            bytes[i + 2].value
        } else {
            0
        };
        let cmd = Command { time: bytes[i].time, field0, field1, field2 };
        proof {
            assert(g_idx < framed_len(bytes@.len()));
            assert(cmd == command_at(bytes@, g_idx));
        }
        out.push(cmd);
        i = if bytes.len() - i >= BYTES_PER_COMMAND {
            i + BYTES_PER_COMMAND
        } else {
            bytes.len()
        };
        proof {
            if i < bytes@.len() {
                assert(i == 3 * out@.len());
            } else {
                assert(out@.len() == framed_len(bytes@.len()));
            }
        }
    }
    proof {
        assert(out@.len() == framed_len(bytes@.len()));
        assert(out@ =~= framed_commands(bytes@));
    }
    out
}

} // verus!
