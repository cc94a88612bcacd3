//! Edge-qualified bit extraction.
//!
//! The extractor scans consecutive sample pairs and emits one data bit per
//! clock falling edge that occurs while device 1 is selected. The bit carries
//! the data level and the timestamp of the sample just before the edge.

use vstd::prelude::*;

use crate::SELECT_ACTIVE_LEVEL;
use crate::sample::Sample;

verus! {

/// One extracted data bit with the timestamp of its edge-origin sample.
#[derive(Clone, Copy, Debug, PartialEq, Eq, Structural)]
pub struct Bit {
    pub time: u64,
    pub value: bool,
}

/// The qualifying-edge predicate over one consecutive sample pair: device 1
/// is selected at the first sample (its line reads the active-low level),
/// and the clock falls from high to low across the pair.
pub open spec fn selected_falling_edge(first: Sample, second: Sample) -> bool {
    &&& first.device1_active == SELECT_ACTIVE_LEVEL
    &&& first.clock
    &&& !second.clock
}

/// The bit emitted for a qualifying pair whose first sample has index `i`.
pub open spec fn bit_at(s: Seq<Sample>, i: int) -> Bit {
    Bit { time: s[i].time, value: s[i].data }
}

/// The bits emitted for the pairs whose first sample has index below `n`,
/// in stream order.
pub open spec fn bits_up_to(s: Seq<Sample>, n: int) -> Seq<Bit>
    decreases n,
{
    if n <= 0 {
        Seq::empty()
    } else if selected_falling_edge(s[n - 1], s[n]) {
        bits_up_to(s, n - 1).push(bit_at(s, n - 1))
    } else {
        bits_up_to(s, n - 1)
    }
}

/// All bits the stream yields: one per qualifying pair `(i, i + 1)`. The
/// last sample has no successor and never serves as an edge origin.
pub open spec fn extracted_bits(s: Seq<Sample>) -> Seq<Bit> {
    bits_up_to(s, s.len() - 1)
}

/// How many of the pairs whose first sample has index below `n` qualify.
pub open spec fn edge_count_up_to(s: Seq<Sample>, n: int) -> nat
    decreases n,
{
    if n <= 0 {
        0
    } else if selected_falling_edge(s[n - 1], s[n]) {
        edge_count_up_to(s, n - 1) + 1
    } else {
        edge_count_up_to(s, n - 1)
    }
}

proof fn lemma_bits_up_to_count(s: Seq<Sample>, n: int)
    ensures
        bits_up_to(s, n).len() == edge_count_up_to(s, n),
    decreases n,
{
    if n > 0 {
        lemma_bits_up_to_count(s, n - 1);
    }
}

/// The stream yields exactly one bit per qualifying pair: the bit count
/// equals the number of indices `i` with `i + 1 < s.len()` whose pair
/// satisfies the edge predicate.
pub proof fn lemma_bit_count(s: Seq<Sample>)
    ensures
        extracted_bits(s).len() == edge_count_up_to(s, s.len() - 1),
{
    lemma_bits_up_to_count(s, s.len() - 1);
}

/// Holds when `b` is the bit of some qualifying pair whose first sample has
/// index below `n`.
pub open spec fn has_origin_below(s: Seq<Sample>, b: Bit, n: int) -> bool {
    exists|i: int|
        0 <= i < n && #[trigger] selected_falling_edge(s[i], s[i + 1]) && b == bit_at(s, i)
}

proof fn lemma_origin_witness(s: Seq<Sample>, b: Bit, n: int, i: int)
    requires
        0 <= i < n,
        selected_falling_edge(s[i], s[i + 1]),
        b == bit_at(s, i),
    ensures
        has_origin_below(s, b, n),
{
}

proof fn lemma_bits_up_to_origin(s: Seq<Sample>, n: int)
    requires
        n < s.len(),
    ensures
        forall|j: int|
            0 <= j < bits_up_to(s, n).len() ==> has_origin_below(
                s,
                #[trigger] bits_up_to(s, n)[j],
                n,
            ),
    decreases n,
{
    if n > 0 {
        lemma_bits_up_to_origin(s, n - 1);
        let prefix = bits_up_to(s, n - 1);
        assert forall|j: int| 0 <= j < bits_up_to(s, n).len() implies has_origin_below(
            s,
            #[trigger] bits_up_to(s, n)[j],
            n,
        ) by {
            if j < prefix.len() {
                assert(bits_up_to(s, n)[j] == prefix[j]);
                assert(has_origin_below(s, prefix[j], n - 1));
                let w = choose|i: int|
                    0 <= i < n - 1 && #[trigger] selected_falling_edge(s[i], s[i + 1]) && prefix[j]
                        == bit_at(s, i);
                lemma_origin_witness(s, bits_up_to(s, n)[j], n, w);
            } else {
                assert(bits_up_to(s, n)[j] == bit_at(s, n - 1));
                lemma_origin_witness(s, bits_up_to(s, n)[j], n, n - 1);
            }
        }
    }
}

/// Every emitted bit originates from a qualifying pair whose first sample
/// has index below `s.len() - 1`; in particular no bit is ever reported
/// with the last sample as its edge origin.
pub proof fn lemma_bits_have_origin(s: Seq<Sample>)
    ensures
        forall|j: int|
            0 <= j < extracted_bits(s).len() ==> has_origin_below(
                s,
                #[trigger] extracted_bits(s)[j],
                s.len() - 1,
            ),
{
    lemma_bits_up_to_origin(s, s.len() - 1);
    assert forall|j: int| 0 <= j < extracted_bits(s).len() implies has_origin_below(
        s,
        #[trigger] extracted_bits(s)[j],
        s.len() - 1,
    ) by {
        assert(extracted_bits(s)[j] == bits_up_to(s, s.len() - 1)[j]);
    }
}

/// Scans consecutive sample pairs and emits the data bit of every qualifying
/// clock falling edge, in stream order.
pub fn extract_bits(samples: &Vec<Sample>) -> (r: Vec<Bit>)
    ensures
        r@ == extracted_bits(samples@),
{
    let mut out: Vec<Bit> = Vec::new();
    if samples.len() < 2 {
        assert(extracted_bits(samples@) =~= Seq::<Bit>::empty());
        return out;
    }
    let last: usize = samples.len() - 1;
    let mut i: usize = 0;
    while i < last
        invariant
            last == samples@.len() - 1,
            samples@.len() >= 2,
            i <= last,
            out@ == bits_up_to(samples@, i as int),
        decreases last - i,
    {
        let selected = samples[i].device1_active == SELECT_ACTIVE_LEVEL;
        if selected && samples[i].clock && !samples[i + 1].clock {
            out.push(Bit { time: samples[i].time, value: samples[i].data });
        }
        i += 1;
    }
    out
}

} // verus!
