//! Scenario tests for the decode pipeline: edge extraction, byte packing,
//! command framing, and the edge cases around short final groups.

use spi_decode::edge::extract_bits;
use spi_decode::frame::frame_commands;
use spi_decode::frame::Command;
use spi_decode::pack::pack_bytes;
use spi_decode::pack::Byte;
use spi_decode::sample::bool_from_int;
use spi_decode::sample::Sample;

fn sample(time: u64, device1_active: bool, data: bool, clock: bool) -> Sample {
    Sample { time, device1_active, device2_active: false, data, clock }
}

/// Two samples per bit: clock high carrying the data value, then clock low.
/// Each pair is one falling edge; the edge origin is the high sample.
fn edge_stream(bits: &[bool], device1_active: bool) -> Vec<Sample> {
    let mut samples = Vec::new();
    let mut t: u64 = 0;
    for &b in bits {
        samples.push(sample(t, device1_active, b, true));
        samples.push(sample(t + 1, device1_active, b, false));
        t += 2;
    }
    samples
}

fn byte(time: u64, value: u8) -> Byte {
    Byte { time, value }
}

#[test]
fn scenario_a_eight_edges_one_byte() {
    let bits = [true, false, true, true, false, true, false, false];
    let samples = edge_stream(&bits, false);
    let extracted = extract_bits(&samples);
    assert_eq!(extracted.len(), 8);
    for (i, &b) in bits.iter().enumerate() {
        assert_eq!(extracted[i].value, b);
        assert_eq!(extracted[i].time, 2 * i as u64);
    }
    let bytes = pack_bytes(&extracted);
    assert_eq!(bytes.len(), 1);
    assert_eq!(bytes[0].value, 0xB4);
    assert_eq!(bytes[0].time, 0);
}

#[test]
fn scenario_b_deselected_yields_no_bits() {
    let bits = [true, false, true, true, false, true, false, false];
    let samples = edge_stream(&bits, true);
    let extracted = extract_bits(&samples);
    assert_eq!(extracted.len(), 0);
}

#[test]
fn scenario_c_twenty_edges_three_bytes() {
    let bits: Vec<bool> = (0..20).map(|i| i % 2 == 0).collect();
    let samples = edge_stream(&bits, false);
    let extracted = extract_bits(&samples);
    assert_eq!(extracted.len(), 20);
    let bytes = pack_bytes(&extracted);
    assert_eq!(bytes.len(), 3);
    assert_eq!(bytes[0], byte(0, 0xAA));
    assert_eq!(bytes[1], byte(16, 0xAA));
    // the short final group holds only the four bits 1,0,1,0
    assert_eq!(bytes[2], byte(32, 0x0A));
}

#[test]
fn scenario_d_nine_bytes_three_full_commands() {
    let bytes: Vec<Byte> = (0..9).map(|i| byte(10 * i as u64, i as u8 + 1)).collect();
    let commands = frame_commands(&bytes);
    assert_eq!(commands.len(), 3);
    assert_eq!(commands[0], Command { time: 0, field0: 1, field1: 2, field2: 3 });
    assert_eq!(commands[1], Command { time: 30, field0: 4, field1: 5, field2: 6 });
    assert_eq!(commands[2], Command { time: 60, field0: 7, field1: 8, field2: 9 });
}

#[test]
fn scenario_e_seven_bytes_short_last_command() {
    let bytes: Vec<Byte> = (0..7).map(|i| byte(10 * i as u64, i as u8 + 1)).collect();
    let commands = frame_commands(&bytes);
    assert_eq!(commands.len(), 3);
    assert_eq!(commands[0], Command { time: 0, field0: 1, field1: 2, field2: 3 });
    assert_eq!(commands[1], Command { time: 30, field0: 4, field1: 5, field2: 6 });
    // the single-byte final group leaves both trailing fields at zero
    assert_eq!(commands[2], Command { time: 60, field0: 7, field1: 0, field2: 0 });
}

#[test]
fn two_byte_final_group_zeroes_third_field() {
    let bytes = vec![byte(0, 9), byte(1, 8), byte(2, 7), byte(3, 6), byte(4, 5)];
    let commands = frame_commands(&bytes);
    assert_eq!(commands.len(), 2);
    assert_eq!(commands[1], Command { time: 3, field0: 6, field1: 5, field2: 0 });
}

#[test]
fn empty_and_single_sample_streams_yield_nothing() {
    let empty: Vec<Sample> = Vec::new();
    assert_eq!(extract_bits(&empty).len(), 0);
    let single = vec![sample(0, false, true, true)];
    assert_eq!(extract_bits(&single).len(), 0);
}

#[test]
fn last_sample_is_never_an_edge_origin() {
    // the trailing high sample would start an edge only if a successor followed
    let samples = vec![
        sample(0, false, true, true),
        sample(1, false, true, false),
        sample(2, false, false, true),
    ];
    let extracted = extract_bits(&samples);
    assert_eq!(extracted.len(), 1);
    assert_eq!(extracted[0].time, 0);
}

#[test]
fn rapid_transitions_count_as_independent_edges() {
    let samples = vec![
        sample(0, false, true, true),
        sample(1, false, false, false),
        sample(2, false, false, true),
        sample(3, false, false, false),
    ];
    let extracted = extract_bits(&samples);
    assert_eq!(extracted.len(), 2);
    assert_eq!(extracted[0].time, 0);
    assert!(extracted[0].value);
    assert_eq!(extracted[1].time, 2);
    assert!(!extracted[1].value);
}

#[test]
fn deselected_edges_are_skipped_between_selected_ones() {
    let mut samples = edge_stream(&[true], false);
    samples.extend(edge_stream(&[true], true));
    samples.extend(edge_stream(&[false], false));
    let extracted = extract_bits(&samples);
    assert_eq!(extracted.len(), 2);
    assert!(extracted[0].value);
    assert!(!extracted[1].value);
}

#[test]
fn short_bit_group_packs_over_fewer_shifts() {
    let bits = [true, true, false];
    let samples = edge_stream(&bits, false);
    let extracted = extract_bits(&samples);
    let bytes = pack_bytes(&extracted);
    assert_eq!(bytes.len(), 1);
    // three shifts only: 0b110
    assert_eq!(bytes[0].value, 0x06);
}

#[test]
fn empty_bit_and_byte_sequences_pack_and_frame_to_nothing() {
    let no_bits = Vec::new();
    assert_eq!(pack_bytes(&no_bits).len(), 0);
    let no_bytes = Vec::new();
    assert_eq!(frame_commands(&no_bytes).len(), 0);
}

#[test]
fn bool_from_int_accepts_only_zero_and_one() {
    assert_eq!(bool_from_int(0), Some(false));
    assert_eq!(bool_from_int(1), Some(true));
    assert_eq!(bool_from_int(2), None);
    assert_eq!(bool_from_int(255), None);
}
