use aetheris_client::metrics::{
    generate_ulid_ids, pack_random_bytes, ulid_ids_from_parts, EventRing, FrameSampler,
    FRAME_SAMPLE_CAP, RENDER_METRIC_IPC_INTERVAL, TELEMETRY_BUFFER_CAP,
};

#[test]
fn capacities() {
    assert_eq!(TELEMETRY_BUFFER_CAP, 64);
    assert_eq!(FRAME_SAMPLE_CAP, 128);
    assert_eq!(RENDER_METRIC_IPC_INTERVAL, 60);
}

#[test]
fn ring_drains_in_insertion_order() {
    let mut ring: EventRing<u32> = EventRing::new();
    assert!(ring.is_empty());
    ring.push(1);
    ring.push(2);
    ring.push(3);
    assert!(!ring.is_empty());
    assert_eq!(ring.drain(), vec![1, 2, 3]);
    assert!(ring.is_empty());
    assert_eq!(ring.dropped, 0);
}

#[test]
fn ring_keeps_the_most_recent_events_when_full() {
    let mut ring: EventRing<usize> = EventRing::new();
    for i in 0..(TELEMETRY_BUFFER_CAP + 10) {
        ring.push(i);
    }
    assert_eq!(ring.dropped, 10);
    let out = ring.drain();
    assert_eq!(out.len(), TELEMETRY_BUFFER_CAP);
    let expected: Vec<usize> = (10..TELEMETRY_BUFFER_CAP + 10).collect();
    assert_eq!(out, expected);
    // Draining leaves the drop counter alone and the ring usable.
    assert_eq!(ring.dropped, 10);
    ring.push(500);
    assert_eq!(ring.drain(), vec![500]);
}

#[test]
fn empty_ring_drains_nothing() {
    let mut ring: EventRing<String> = EventRing::new();
    assert!(ring.drain().is_empty());
}

#[test]
fn sampler_overwrites_oldest_position_when_full() {
    let mut s: FrameSampler<u32> = FrameSampler::new();
    assert_eq!(s.p99_index(), None);
    for i in 0..FRAME_SAMPLE_CAP as u32 {
        s.push(i);
    }
    assert_eq!(s.len(), FRAME_SAMPLE_CAP);
    s.push(1000);
    s.push(1001);
    assert_eq!(s.len(), FRAME_SAMPLE_CAP);
    assert_eq!(s.samples()[0], 1000);
    assert_eq!(s.samples()[1], 1001);
    assert_eq!(s.samples()[2], 2);
}

#[test]
fn p99_position() {
    let mut s: FrameSampler<u32> = FrameSampler::new();
    s.push(5);
    assert_eq!(s.p99_index(), Some(0));
    for i in 0..99 {
        s.push(i);
    }
    // 100 samples: floor(100 * 0.99) = 99, the last position.
    assert_eq!(s.p99_index(), Some(99));
    let mut t: FrameSampler<u32> = FrameSampler::new();
    for i in 0..FRAME_SAMPLE_CAP as u32 {
        t.push(i);
    }
    // 128 samples: floor(128 * 0.99) = 126.
    assert_eq!(t.p99_index(), Some(126));
}

#[test]
fn sampler_accepts_reordered_samples() {
    let mut s: FrameSampler<u32> = FrameSampler::new();
    s.push(3);
    s.push(1);
    s.push(2);
    s.set_samples(vec![1, 2, 3]);
    assert_eq!(s.samples(), &[1, 2, 3]);
}

#[test]
fn random_bytes_pack_big_endian() {
    assert_eq!(pack_random_bytes(&[0; 10]), 0);
    assert_eq!(pack_random_bytes(&[0, 0, 0, 0, 0, 0, 0, 0, 1, 2]), 0x0102);
    assert_eq!(
        pack_random_bytes(&[1, 2, 3, 4, 5, 6, 7, 8, 9, 10]),
        0x0102030405060708090a
    );
}

#[test]
fn ulid_ids_of_known_parts() {
    let (session, trace) = ulid_ids_from_parts(1_700_000_000_000, &[1, 2, 3, 4, 5, 6, 7, 8, 9, 10]);
    assert_eq!(session, "01HF7YAT00041061050R3GG28A");
    assert_eq!(trace, "018bcfe568000102030405060708090a");
    let (s0, t0) = ulid_ids_from_parts(0, &[0; 10]);
    assert_eq!(s0, "00000000000000000000000000");
    assert_eq!(t0, "00000000000000000000000000000000");
}

#[test]
fn generated_ids_share_the_timestamp_prefix() {
    let (session, trace) = generate_ulid_ids(1_700_000_000_000).expect("randomness available");
    assert_eq!(session.len(), 26);
    assert_eq!(trace.len(), 32);
    assert!(session.starts_with("01HF7YAT00"));
    assert!(trace.starts_with("018bcfe56800"));
}

#[test]
fn ring_length_is_bounded() {
    let mut ring: EventRing<u8> = EventRing::new();
    assert_eq!(ring.len(), 0);
    for i in 0..200u32 {
        ring.push(i as u8);
    }
    assert_eq!(ring.len(), TELEMETRY_BUFFER_CAP);
}
