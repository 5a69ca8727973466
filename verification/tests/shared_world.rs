use aetheris_client::shared_world::{
    buffer_offset, is_acceptable_external_ptr, shared_world_size, pack_state, unpack_active, unpack_count, PointerRegistry, SabSlot,
    SharedWorld, MAX_ENTITIES, SAB_HEADER_SIZE, SAB_SLOT_SIZE, SHARED_MEMORY_SIZE,
};

#[test]
fn layout_constants() {
    assert_eq!(SAB_HEADER_SIZE, 40);
    assert_eq!(SAB_SLOT_SIZE, 48);
    assert_eq!(SHARED_MEMORY_SIZE, 40 + 48 * 8192 * 2);
    assert_eq!(SHARED_MEMORY_SIZE, 786_472);
    assert_eq!(shared_world_size(), SHARED_MEMORY_SIZE);
    assert_eq!(buffer_offset(0), 40);
    assert_eq!(buffer_offset(1), 40 + 8192 * 48);
}

#[test]
fn packed_state_round_trips() {
    let s = pack_state(1234, 1);
    assert_eq!(s, (1234u64 << 32) | 1);
    assert_eq!(unpack_count(s), 1234);
    assert_eq!(unpack_active(s), 1);
    let t = pack_state(u32::MAX, 0);
    assert_eq!(unpack_count(t), u32::MAX);
    assert_eq!(unpack_active(t), 0);
}

#[test]
fn new_world_is_empty_and_registered() {
    let mut reg = PointerRegistry::new();
    let w = SharedWorld::new(&mut reg);
    let h = w.as_ptr();
    assert!(h != 0);
    assert_eq!(h % 8, 0);
    assert!(SharedWorld::is_valid(&reg, h));
    assert!(!SharedWorld::is_valid(&reg, h + 8));
    assert_eq!(w.active_index(), 0);
    assert_eq!(w.entity_count(), 0);
    assert_eq!(w.tick(), 0);
    assert_eq!(w.get_read_buffer().len(), 0);
}

#[test]
fn released_handle_becomes_invalid_and_is_not_reissued() {
    let mut reg = PointerRegistry::new();
    let a = SharedWorld::new(&mut reg);
    let ha = a.as_ptr();
    a.release(&mut reg);
    assert!(!SharedWorld::is_valid(&reg, ha));
    let b = SharedWorld::new(&mut reg);
    assert!(b.as_ptr() != ha);
    assert!(SharedWorld::is_valid(&reg, b.as_ptr()));
}

#[test]
fn published_slots_are_read_back() {
    let mut reg = PointerRegistry::new();
    let mut w = SharedWorld::new(&mut reg);
    {
        let buf = w.get_write_buffer();
        buf[0] = SabSlot { network_id: 7, integrity: 50, ..SabSlot::zeroed() };
        buf[1] = SabSlot { network_id: 9, flags: 1, ..SabSlot::zeroed() };
    }
    // Nothing is visible before the commit.
    assert_eq!(w.get_read_buffer().len(), 0);
    w.commit_write(2, 42);
    assert_eq!(w.active_index(), 1);
    assert_eq!(w.entity_count(), 2);
    assert_eq!(w.tick(), 42);
    let r = w.get_read_buffer();
    assert_eq!(r.len(), 2);
    assert_eq!(r[0].network_id, 7);
    assert_eq!(r[0].integrity, 50);
    assert_eq!(r[1].network_id, 9);
    // The next commit flips back to buffer 0.
    w.commit_write(0, 43);
    assert_eq!(w.active_index(), 0);
    assert_eq!(w.get_read_buffer().len(), 0);
}

#[test]
fn read_length_is_capped_at_max_entities() {
    let mut reg = PointerRegistry::new();
    let mut w = SharedWorld::new(&mut reg);
    w.commit_write(u32::MAX, 1);
    assert_eq!(w.entity_count(), u32::MAX);
    assert_eq!(w.get_read_buffer().len(), MAX_ENTITIES);
}

#[test]
fn room_bounds_read_back_what_was_set() {
    let mut reg = PointerRegistry::new();
    let mut w = SharedWorld::new(&mut reg);
    let (a, b, c, d) = (
        (-250.0f32).to_bits(),
        (-100.0f32).to_bits(),
        250.0f32.to_bits(),
        100.0f32.to_bits(),
    );
    w.set_room_bounds(a, b, c, d);
    assert_eq!(w.get_room_bounds(), (a, b, c, d));
    assert_eq!(w.header().room_bounds_seq, 2);
    w.set_room_bounds(1, 2, 3, 4);
    assert_eq!(w.get_room_bounds(), (1, 2, 3, 4));
    assert_eq!(w.header().room_bounds_seq, 4);
}

#[test]
fn sub_tick_fraction_is_stored() {
    let mut reg = PointerRegistry::new();
    let mut w = SharedWorld::new(&mut reg);
    w.set_sub_tick_fraction(0.5f32.to_bits());
    assert_eq!(f32::from_bits(w.sub_tick_fraction()), 0.5);
}

#[test]
fn external_addresses_must_be_aligned_and_non_null() {
    assert!(!is_acceptable_external_ptr(0));
    assert!(!is_acceptable_external_ptr(12));
    assert!(is_acceptable_external_ptr(16));
    assert!(is_acceptable_external_ptr(0xFFFF_FFF8));
}
