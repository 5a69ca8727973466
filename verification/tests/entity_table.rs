use aetheris_client::entity_table::{EntitySlot, EntityTable};

fn slot(id: u64) -> EntitySlot {
    EntitySlot { network_id: id, integrity: id as u16, ..EntitySlot::zeroed() }
}

#[test]
fn entries_stay_in_key_order() {
    let mut t = EntityTable::new();
    assert!(t.is_empty());
    t.insert(30, slot(30));
    t.insert(10, slot(10));
    t.insert(20, slot(20));
    assert_eq!(t.len(), 3);
    let keys: Vec<u64> = (0..t.len()).map(|i| t.entry_at(i).0).collect();
    assert_eq!(keys, vec![10, 20, 30]);
}

#[test]
fn insert_replaces_existing_key() {
    let mut t = EntityTable::new();
    t.insert(5, slot(5));
    t.insert(5, EntitySlot { network_id: 5, integrity: 99, ..EntitySlot::zeroed() });
    assert_eq!(t.len(), 1);
    assert_eq!(t.get(5).unwrap().integrity, 99);
}

#[test]
fn lookup_and_removal() {
    let mut t = EntityTable::new();
    t.insert(1, slot(1));
    t.insert(2, slot(2));
    assert!(t.contains_key(2));
    assert_eq!(t.find(2), Some(1));
    assert_eq!(t.find(3), None);
    assert_eq!(t.get(3), None);
    assert_eq!(t.remove(1), Some(slot(1)));
    assert_eq!(t.remove(1), None);
    assert!(!t.contains_key(1));
    assert_eq!(t.len(), 1);
    t.clear();
    assert!(t.is_empty());
}

#[test]
fn set_at_keeps_the_key() {
    let mut t = EntityTable::new();
    t.insert(4, slot(4));
    t.set_at(0, EntitySlot { network_id: 4, flags: 1, ..EntitySlot::zeroed() });
    assert_eq!(t.entry_at(0).0, 4);
    assert_eq!(t.get(4).unwrap().flags, 1);
}
