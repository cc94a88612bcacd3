//! MSB-first byte packing.
//!
//! The packer partitions the extracted bit sequence into consecutive groups
//! of up to eight bits and folds each group into one byte, earliest bit most
//! significant. A short final group still yields a byte, computed over fewer
//! shifts. Each byte carries the timestamp of the first bit of its group.

use vstd::prelude::*;

use vstd::arithmetic::power2::lemma2_to64;
use vstd::arithmetic::power2::lemma_pow2_strictly_increases;
use vstd::arithmetic::power2::lemma_pow2_unfold;
use vstd::arithmetic::power2::pow2;

use crate::BITS_PER_BYTE;
use crate::edge::Bit;

verus! {

/// One packed byte with the timestamp of the first bit of its group.
#[derive(Clone, Copy, Debug, PartialEq, Eq, Structural)]
pub struct Byte {
    pub time: u64,
    pub value: u8,
}

/// The numeric weight of one bit.
pub open spec fn bit_val(b: Bit) -> nat {
    if b.value {
        1
    } else {
        0
    }
}

/// The left-to-right fold of a bit group, `acc = acc * 2 + bit`, starting
/// at zero: the earliest bit of the group lands in the most significant
/// position of the result.
pub open spec fn group_value(g: Seq<Bit>) -> nat
    decreases g.len(),
{
    if g.len() == 0 {
        0
    } else {
        2 * group_value(g.drop_last()) + bit_val(g.last())
    }
}

/// How many bytes a bit sequence of length `k` packs into: one per started
/// group of eight.
pub open spec fn packed_len(k: nat) -> nat {
    (k + 7) / 8
}

/// Group `j` of the bit sequence: eight bits, or fewer for a short final
/// group.
pub open spec fn bit_group(bits: Seq<Bit>, j: int) -> Seq<Bit> {
    bits.subrange(
        8 * j,
        if 8 * j + 8 <= bits.len() {
            8 * j + 8
        } else {
            bits.len() as int
        },
    )
}

/// The byte emitted for group `j`: the group's fold value, stamped with the
/// time of the group's first bit.
pub open spec fn byte_at(bits: Seq<Bit>, j: int) -> Byte {
    Byte { time: bits[8 * j].time, value: group_value(bit_group(bits, j)) as u8 }
}

/// All bytes the bit sequence packs into, in order.
pub open spec fn packed_bytes(bits: Seq<Bit>) -> Seq<Byte> {
    Seq::new(packed_len(bits.len()), |j: int| byte_at(bits, j))
}

/// A fold over `n` bits stays below `2^n`.
pub proof fn lemma_group_value_bound(g: Seq<Bit>)
    ensures
        group_value(g) < pow2(g.len()),
    decreases g.len(),
{
    if g.len() == 0 {
        lemma2_to64();
    } else {
        lemma_group_value_bound(g.drop_last());
        lemma_pow2_unfold(g.len());
    }
}

/// A fold over at most eight bits fits in one byte.
pub proof fn lemma_group_value_fits(g: Seq<Bit>)
    requires
        g.len() <= 8,
    ensures
        group_value(g) < 256,
{
    lemma_group_value_bound(g);
    lemma2_to64();
    if g.len() < 8 {
        lemma_pow2_strictly_increases(g.len(), 8);
    }
}

/// The fold splits off its first bit with weight `2^(len - 1)`: the earliest
/// bit of a group is its most significant.
pub proof fn lemma_group_value_first_bit(g: Seq<Bit>)
    requires
        g.len() >= 1,
    ensures
        group_value(g) == bit_val(g.first()) * pow2((g.len() - 1) as nat) + group_value(
            g.drop_first(),
        ),
    decreases g.len(),
{
    if g.len() == 1 {
        lemma2_to64();
        assert(g.drop_last() =~= Seq::<Bit>::empty());
        assert(g.drop_first() =~= Seq::<Bit>::empty());
        assert(g.last() == g.first());
    } else {
        let d = g.drop_last();
        lemma_group_value_first_bit(d);
        lemma_pow2_unfold((g.len() - 1) as nat);
        assert(g.drop_first().drop_last() =~= d.drop_first());
        assert(g.drop_first().last() == g.last());
        assert(group_value(g.drop_first()) == 2 * group_value(d.drop_first()) + bit_val(g.last()));
        if g.first().value {
            assert(group_value(d) == pow2((g.len() - 2) as nat) + group_value(d.drop_first()));
        } else {
            assert(group_value(d) == group_value(d.drop_first()));
        }
    }
}

/// A bit sequence of length `k` packs into exactly `ceil(k / 8)` bytes; each
/// byte is stamped with the time of the first bit of its group, and for every
/// full group the byte's most significant bit equals the group's earliest
/// bit.
pub proof fn lemma_packed_shape(bits: Seq<Bit>)
    ensures
        packed_bytes(bits).len() == (bits.len() + 7) / 8,
        forall|j: int|
            0 <= j < packed_bytes(bits).len() ==> (#[trigger] packed_bytes(bits)[j]).time
                == bits[8 * j].time,
        forall|j: int|
            0 <= j && 8 * j + 8 <= bits.len() ==> (#[trigger] packed_bytes(bits)[j]).value / 128
                == bit_val(bits[8 * j]),
{
    assert forall|j: int| 0 <= j && 8 * j + 8 <= bits.len() implies (#[trigger] packed_bytes(
        bits,
    )[j]).value / 128 == bit_val(bits[8 * j]) by {
        let g = bit_group(bits, j);
        assert(g.len() == 8);
        lemma_group_value_first_bit(g);
        lemma_group_value_fits(g);
        lemma_group_value_bound(g.drop_first());
        lemma2_to64();
        assert(g.first() == bits[8 * j]);
        assert(j < packed_bytes(bits).len());
        if g.first().value {
            assert(group_value(g) == 128 + group_value(g.drop_first()));
        } else {
            assert(group_value(g) == group_value(g.drop_first()));
        }
    }
}

/// Partitions the bit sequence into groups of up to eight and folds each
/// group into one byte, earliest bit most significant, keeping group order.
pub fn pack_bytes(bits: &Vec<Bit>) -> (r: Vec<Byte>)
    ensures
        r@ == packed_bytes(bits@),
{
    let mut out: Vec<Byte> = Vec::new();
    let mut i: usize = 0;
    while i < bits.len()
        invariant
            i <= bits@.len(),
            i == 8 * out@.len() || (i == bits@.len() && out@.len() == packed_len(bits@.len())),
            forall|j: int| 0 <= j < out@.len() ==> out@[j] == packed_bytes(bits@)[j],
        decreases bits@.len() - i,
    {
        let ghost g_idx = out@.len() as int;
        assert(i == 8 * g_idx);
        let group_end: usize = if bits.len() - i >= BITS_PER_BYTE {
            i + BITS_PER_BYTE
        } else {
            bits.len()
        };
        let start_time = bits[i].time;
        let mut acc: u8 = 0;
        let mut j: usize = i;
        proof {
            assert(bits@.subrange(i as int, i as int) =~= Seq::<Bit>::empty());
        }
        while j < group_end
            invariant
                i <= j <= group_end <= bits@.len(),
                group_end - i <= 8,
                acc as nat == group_value(bits@.subrange(i as int, j as int)),
            decreases group_end - j,
        {
            let b: u8 = if bits[j].value {
                1
            } else {
                0
            };
            proof {
                let prefix = bits@.subrange(i as int, j as int);
                let next = bits@.subrange(i as int, j + 1 as int);
                assert(next.drop_last() =~= prefix);
                assert(next.last() == bits@[j as int]);
                assert(prefix.len() <= 7);
                lemma_group_value_bound(prefix);
                if prefix.len() < 7 {
                    lemma_pow2_strictly_increases(prefix.len(), 7);
                }
                lemma2_to64();
            }
            acc = acc * 2 + b;
            j += 1;
        }
        proof {
            let group = bit_group(bits@, g_idx);
            assert(group =~= bits@.subrange(i as int, group_end as int));
            lemma_group_value_fits(group);
            assert(byte_at(bits@, g_idx) == Byte { time: start_time, value: acc });
            assert(g_idx < packed_len(bits@.len()));
        }
        out.push(Byte { time: start_time, value: acc });
        i = group_end;
        proof {
            if i < bits@.len() {
                assert(i == 8 * out@.len());
            } else {
                assert(out@.len() == packed_len(bits@.len()));
            }
        }
    }
    proof {
        assert(out@.len() == packed_len(bits@.len()));
        assert(out@ =~= packed_bytes(bits@));
    }
    out
}

} // verus!
