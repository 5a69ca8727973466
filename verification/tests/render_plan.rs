use aetheris_client::render_plan::{beam_pairs, camera_target_index, has_primitive, instance_batches};
use aetheris_client::shared_world::SabSlot;

fn slot(id: u64, entity_type: u16) -> SabSlot {
    SabSlot { network_id: id, entity_type, ..SabSlot::zeroed() }
}

#[test]
fn mesh_types() {
    for t in [1u16, 3, 4, 5, 6] {
        assert!(has_primitive(t));
    }
    for t in [0u16, 2, 7, 20, 0x2007] {
        assert!(!has_primitive(t));
    }
}

#[test]
fn batches_group_by_type_in_first_appearance_order() {
    let slots = vec![slot(1, 5), slot(2, 1), slot(3, 20), slot(4, 5), slot(5, 1), slot(6, 3)];
    let b = instance_batches(&slots);
    let summary: Vec<(u16, Vec<usize>)> = b.into_iter().map(|d| (d.entity_type, d.indices)).collect();
    assert_eq!(summary, vec![(5, vec![0, 3]), (1, vec![1, 4]), (3, vec![5])]);
    assert!(instance_batches(&[]).is_empty());
}

#[test]
fn beams_join_source_and_first_matching_target() {
    let mut source = slot(10, 1);
    source.extraction_active = 1;
    source.extraction_target_id = 7;
    let mut idle = slot(11, 1);
    idle.extraction_target_id = 7;
    let mut dangling = slot(12, 1);
    dangling.extraction_active = 1;
    dangling.extraction_target_id = 99;
    // Only the low 16 bits of the target's id are compared.
    let slots = vec![source, idle, slot(0x1_0007, 5), slot(7, 5), dangling];
    assert_eq!(beam_pairs(&slots), vec![(0, 2)]);
}

#[test]
fn camera_follows_first_local_player() {
    let mut a = slot(1, 1);
    a.flags = 0x05;
    let mut b = slot(2, 1);
    b.flags = 0x04;
    assert_eq!(camera_target_index(&[slot(0, 1), a, b]), Some(1));
    assert_eq!(camera_target_index(&[slot(0, 1)]), None);
}
