use elara::clock::{PerceptualClock, MAX_PERCEPTUAL_STEP_US};
use elara::event_block::{
    decode_version_vector, encode_event_block, encode_version_vector, parse_block, split_event_blocks,
    EventBlock,
};

fn block(t: u8, version: Vec<([u8; 8], u64)>, delta: &[u8]) -> EventBlock {
    EventBlock { event_type: t, state_id: [t; 8], version, delta: delta.to_vec() }
}

#[test]
fn version_vector_round_trip() {
    let entries = vec![([1u8; 8], 5u64), ([2u8; 8], 0x0102_0304_0506_0708)];
    let bytes = encode_version_vector(&entries);
    assert_eq!(bytes.len(), 32);
    assert_eq!(&bytes[8..16], &5u64.to_le_bytes());
    assert_eq!(&bytes[24..32], &0x0102_0304_0506_0708u64.to_le_bytes());
    assert_eq!(decode_version_vector(&bytes), Some(entries));
    assert_eq!(decode_version_vector(&bytes[..31]), None);
    assert_eq!(decode_version_vector(&[]), Some(vec![]));
}

#[test]
fn block_layout() {
    let b = block(3, vec![([9u8; 8], 1)], b"xy");
    let bytes = encode_event_block(&b);
    assert_eq!(bytes.len(), 13 + 16 + 2);
    assert_eq!(bytes[0], 3);
    assert_eq!(&bytes[1..9], &[3u8; 8]);
    assert_eq!(&bytes[9..11], &[16, 0]);
    assert_eq!(&bytes[27..29], &[2, 0]);
    assert_eq!(&bytes[29..], b"xy");
    assert_eq!(parse_block(&bytes), Some((b, bytes.len())));
}

#[test]
fn payload_splits_into_blocks_until_framing_fails() {
    let b1 = block(1, vec![], b"");
    let b2 = block(2, vec![([4u8; 8], 7), ([5u8; 8], 8)], b"delta");
    let mut payload = encode_event_block(&b1);
    payload.extend(encode_event_block(&b2));
    assert_eq!(split_event_blocks(&payload, |_| true), vec![b1.clone(), b2.clone()]);

    // a truncated third block is not read
    let mut longer = payload.clone();
    longer.extend(&encode_event_block(&block(3, vec![], b"abc"))[..14]);
    assert_eq!(split_event_blocks(&longer, |_| true), vec![b1.clone(), b2.clone()]);

    // version bytes that are not a multiple of 16 stop the reading
    let mut bad = encode_event_block(&b1);
    bad[9] = 3;
    bad.extend([0u8; 3]);
    assert_eq!(parse_block(&bad), None);
    assert!(split_event_blocks(&bad, |_| true).is_empty());
    assert!(split_event_blocks(&[0u8; 12], |_| true).is_empty());
}

#[test]
fn reading_stops_at_the_first_refused_block() {
    let b1 = block(1, vec![], b"a");
    let b2 = block(9, vec![], b"b");
    let b3 = block(2, vec![], b"c");
    let mut payload = encode_event_block(&b1);
    payload.extend(encode_event_block(&b2));
    payload.extend(encode_event_block(&b3));
    // a block of an unknown type stops the reading: the later block is not read
    assert_eq!(split_event_blocks(&payload, |b| b.event_type < 5), vec![b1.clone()]);
    // a block whose mutation cannot be read stops it too
    assert_eq!(split_event_blocks(&payload, |b| b.delta != b"c".to_vec()), vec![b1.clone(), b2.clone()]);
    assert!(split_event_blocks(&payload, |_| false).is_empty());
}

#[test]
fn perceptual_clock_is_monotonic_and_clamped() {
    let mut clock = PerceptualClock::new();
    assert_eq!(clock.now(), 0);
    assert_eq!(clock.tick(5_000), 5_000);
    assert_eq!(clock.tick(10_000_000), 5_000 + MAX_PERCEPTUAL_STEP_US);
    assert_eq!(clock.tick(0), 105_000);
    let mut late = PerceptualClock::default();
    for _ in 0..3 {
        let before = late.now();
        let after = late.tick(250_000);
        assert!(after >= before && after - before <= MAX_PERCEPTUAL_STEP_US);
    }
    assert_eq!(late.now(), 300_000);
}
