use aetheris_client::shared_world::SabSlot;
use aetheris_client::snapshots::{SnapshotBuffer, SNAPSHOT_CAP};

fn slots(n: u64) -> Vec<SabSlot> {
    (0..n).map(|i| SabSlot { network_id: i, ..SabSlot::zeroed() }).collect()
}

#[test]
fn snapshots_are_taken_when_the_tick_advances() {
    let mut b = SnapshotBuffer::new();
    assert_eq!(b.latest_tick(), 0);
    assert!(b.observe(0, &slots(1)));
    assert!(!b.observe(0, &slots(2)));
    assert!(b.observe(3, &slots(2)));
    assert!(!b.observe(3, &slots(5)));
    assert_eq!(b.len(), 2);
    assert_eq!(b.tick_at(0), 0);
    assert_eq!(b.tick_at(1), 3);
    assert_eq!(b.entities_at(1).len(), 2);
    assert_eq!(b.latest_tick(), 3);
}

#[test]
fn time_going_backwards_resets_the_buffer() {
    let mut b = SnapshotBuffer::new();
    b.observe(10, &slots(1));
    b.observe(11, &slots(1));
    assert!(b.observe(4, &slots(3)));
    assert_eq!(b.len(), 1);
    assert_eq!(b.tick_at(0), 4);
    // A zero tick is not treated as going backwards.
    assert!(!b.observe(0, &slots(1)));
    assert_eq!(b.len(), 1);
}

#[test]
fn cap_drops_the_oldest() {
    let mut b = SnapshotBuffer::new();
    for t in 1..=20u64 {
        b.observe(t, &slots(0));
    }
    assert_eq!(b.len(), 20);
    b.enforce_cap();
    assert_eq!(b.len(), SNAPSHOT_CAP);
    assert_eq!(b.tick_at(0), 5);
    b.pop_oldest();
    assert_eq!(b.tick_at(0), 6);
    b.enforce_cap();
    assert_eq!(b.len(), SNAPSHOT_CAP - 1);
}
