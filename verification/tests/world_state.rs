use aetheris_client::components::{
    KIND_AGENT_KIND, KIND_AGENT_PROPERTIES, KIND_BEAM_MARKER, KIND_DATA_DROP, KIND_DATA_STORE,
    KIND_EXTRACTION_BEAM, KIND_INPUT_COMMAND, KIND_INTEGRITY_POOL, KIND_PRESENCE,
    KIND_PRIORITY_POOL, KIND_RESOURCE, KIND_TRANSFORM, KIND_VELOCITY, KIND_WORKSPACE_BOUNDS,
};
use aetheris_client::entity_table::EntitySlot;
use aetheris_client::shared_world::{PointerRegistry, SharedWorld};
use aetheris_client::world_state::{
    transform_entity_type, ApplyOutcome, ClientWorld, EntityUpdate, InputRecord, RoomBounds,
    TransformOutcome, WorldError, WorldEvent, INPUT_HISTORY_CAP,
};
use aetheris_client::components::TransformBits;
use aetheris_protocol::types::{
    AgentKind, AgentProperties, DataStore, ExtractionBeam, IntegrityPool, NetworkId,
    PriorityPool, Transform, WorkspaceBounds,
};
use std::collections::BTreeMap;
use std::hash::Hasher;

fn update(id: u64, kind: u16, payload: Vec<u8>, tick: u64) -> EntityUpdate {
    EntityUpdate { network_id: id, component_kind: kind, payload, tick }
}

fn flagged(id: u64, flags: u8) -> EntitySlot {
    EntitySlot { network_id: id, flags, ..EntitySlot::zeroed() }
}

#[test]
fn new_world_is_empty() {
    let w = ClientWorld::new();
    assert!(w.entities.is_empty());
    assert_eq!(w.player_network_id, None);
    assert_eq!(w.latest_tick, 0);
    assert!(!w.prediction_enabled);
    assert_eq!(w.workspace_bounds, None);
}

#[test]
fn prediction_world_starts_with_sandbox_bounds() {
    let w = ClientWorld::with_prediction(true);
    assert!(w.prediction_enabled);
    let b = w.workspace_bounds.unwrap();
    assert_eq!(f32::from_bits(b.min_x), -250.0);
    assert_eq!(f32::from_bits(b.min_y), -250.0);
    assert_eq!(f32::from_bits(b.max_x), 250.0);
    assert_eq!(f32::from_bits(b.max_y), 250.0);
}

#[test]
fn id_mapping_and_placeholders() {
    let mut w = ClientWorld::new();
    assert_eq!(w.get_local_id(42), Some(42));
    assert_eq!(w.get_network_id(42), Some(42));
    assert_eq!(w.spawn_networked(), 0);
    assert_eq!(w.spawn_networked_for(3), 0);
    assert_eq!(w.spawn_kind(1, 0, 0, 0), 1);
}

#[test]
fn despawn_reports_missing_entities() {
    let mut w = ClientWorld::new();
    w.entities.insert(1, flagged(1, 1));
    assert_eq!(w.despawn_networked(1), Ok(()));
    assert_eq!(w.despawn_networked(1), Err(WorldError::EntityNotFound(1)));
}

#[test]
fn first_update_creates_the_entity() {
    let mut w = ClientWorld::new();
    let out = w.apply_update(&update(7, KIND_TRANSFORM, vec![], 12));
    assert_eq!(out, ApplyOutcome::Deferred);
    assert_eq!(w.latest_tick, 12);
    let s = w.entities.get(7).unwrap();
    assert_eq!(s.network_id, 7);
    assert_eq!(s.integrity, 100);
    assert_eq!(s.flags, 1);
    // An older update does not move the tick back.
    w.apply_update(&update(7, KIND_VELOCITY, vec![], 5));
    assert_eq!(w.latest_tick, 12);
}

#[test]
fn updates_of_the_player_entity_carry_the_local_flag() {
    let mut w = ClientWorld::new();
    w.player_network_id = Some(3);
    w.apply_update(&update(3, KIND_RESOURCE, vec![], 1));
    assert_eq!(w.entities.get(3).unwrap().flags & 0x04, 0x04);
    w.apply_update(&update(4, KIND_RESOURCE, vec![], 1));
    assert_eq!(w.entities.get(4).unwrap().flags & 0x04, 0);
}

#[test]
fn integer_components_are_applied() {
    let mut w = ClientWorld::new();
    let props = AgentProperties {
        integrity: 150,
        max_integrity: 200,
        priority: 40,
        max_priority: 100,
        energy: 10,
        max_energy: 100,
        priority_regen_per_s: 1,
        energy_regen_per_s: 1,
    };
    let out = w.apply_update(&update(1, KIND_AGENT_PROPERTIES, rmp_serde::to_vec(&props).unwrap(), 1));
    assert_eq!(out, ApplyOutcome::Applied);
    let s = w.entities.get(1).unwrap();
    assert_eq!((s.integrity, s.priority), (150, 40));

    w.apply_update(&update(1, KIND_AGENT_KIND, rmp_serde::to_vec(&AgentKind::Heavy).unwrap(), 2));
    assert_eq!(w.entities.get(1).unwrap().entity_type, 3);
    w.apply_update(&update(1, KIND_AGENT_KIND, rmp_serde::to_vec(&AgentKind::Carrier).unwrap(), 2));
    assert_eq!(w.entities.get(1).unwrap().entity_type, 4);

    let beam = ExtractionBeam {
        active: true,
        target: Some(NetworkId(0x1_0005)),
        extraction_range: 5.0,
        base_extraction_rate: 2,
    };
    w.apply_update(&update(1, KIND_EXTRACTION_BEAM, rmp_serde::to_vec(&beam).unwrap(), 3));
    let s = w.entities.get(1).unwrap();
    assert_eq!(s.extraction_active, 1);
    assert_eq!(s.extraction_target_id, 5);

    let store = DataStore { payload_count: 3, capacity: 10 };
    w.apply_update(&update(1, KIND_DATA_STORE, rmp_serde::to_vec(&store).unwrap(), 4));
    let s = w.entities.get(1).unwrap();
    assert_eq!((s.payload_count, s.payload_capacity), (3, 10));
    assert_eq!(s.flags & 0x04, 0x04);

    let pool = IntegrityPool { current: 77, max: 100 };
    w.apply_update(&update(1, KIND_INTEGRITY_POOL, rmp_serde::to_vec(&pool).unwrap(), 5));
    assert_eq!(w.entities.get(1).unwrap().integrity, 77);
    let pool = PriorityPool { current: 9, max: 100 };
    w.apply_update(&update(1, KIND_PRIORITY_POOL, rmp_serde::to_vec(&pool).unwrap(), 6));
    assert_eq!(w.entities.get(1).unwrap().priority, 9);
}

#[test]
fn undecodable_payload_leaves_the_slot_alone() {
    let mut w = ClientWorld::new();
    let out = w.apply_update(&update(2, KIND_AGENT_PROPERTIES, vec![0xc1], 1));
    assert_eq!(out, ApplyOutcome::Applied);
    let s = w.entities.get(2).unwrap();
    assert_eq!(s.integrity, 100);
    assert_eq!(s.priority, 0);
}

#[test]
fn marker_components_set_entity_types() {
    let mut w = ClientWorld::new();
    w.apply_update(&update(1, KIND_RESOURCE, vec![], 1));
    assert_eq!(w.entities.get(1).unwrap().entity_type, 5);
    w.apply_update(&update(2, KIND_DATA_DROP, vec![], 1));
    assert_eq!(w.entities.get(2).unwrap().entity_type, 6);
    w.apply_update(&update(3, KIND_BEAM_MARKER, vec![], 1));
    assert_eq!(w.entities.get(3).unwrap().entity_type, 20);
    // A resource marker does not override a known type.
    w.apply_update(&update(3, KIND_RESOURCE, vec![], 1));
    assert_eq!(w.entities.get(3).unwrap().entity_type, 20);
}

#[test]
fn float_components_are_deferred_and_unknown_ones_reported() {
    let mut w = ClientWorld::new();
    assert_eq!(w.apply_update(&update(1, KIND_PRESENCE, vec![], 1)), ApplyOutcome::Deferred);
    assert_eq!(w.apply_update(&update(1, KIND_INPUT_COMMAND, vec![], 1)), ApplyOutcome::Unhandled);
    assert_eq!(w.apply_update(&update(1, 9999, vec![], 1)), ApplyOutcome::Unhandled);
}

#[test]
fn workspace_bounds_are_published_only_with_a_shared_world() {
    let bounds = WorkspaceBounds { min_x: -100.0, min_y: -50.0, max_x: 100.0, max_y: 50.0 };
    let payload = rmp_serde::to_vec(&bounds).unwrap();
    let expected = RoomBounds {
        min_x: (-100.0f32).to_bits(),
        min_y: (-50.0f32).to_bits(),
        max_x: 100.0f32.to_bits(),
        max_y: 50.0f32.to_bits(),
    };
    let mut detached = ClientWorld::new();
    assert_eq!(
        detached.apply_update(&update(1, KIND_WORKSPACE_BOUNDS, payload.clone(), 1)),
        ApplyOutcome::Applied
    );
    assert_eq!(detached.workspace_bounds, None);

    let mut attached = ClientWorld::new();
    attached.shared_world_ref = Some(8);
    assert_eq!(
        attached.apply_update(&update(1, KIND_WORKSPACE_BOUNDS, payload, 1)),
        ApplyOutcome::PublishBounds(expected)
    );
    assert_eq!(attached.workspace_bounds, Some(expected));
}

#[test]
fn possession_moves_the_local_flag() {
    let mut w = ClientWorld::new();
    w.entities.insert(1, flagged(1, 1));
    w.entities.insert(2, flagged(2, 1));
    w.entities.insert(3, flagged(3, 1));
    w.handle_platform_event(&WorldEvent::Possession { network_id: 1 });
    assert_eq!(w.player_network_id, Some(1));
    assert_eq!(w.entities.get(1).unwrap().flags, 0x05);
    w.handle_platform_event(&WorldEvent::Possession { network_id: 2 });
    assert_eq!(w.player_network_id, Some(2));
    assert_eq!(w.entities.get(1).unwrap().flags, 0x01);
    assert_eq!(w.entities.get(2).unwrap().flags, 0x05);
    assert_eq!(w.entities.get(3).unwrap().flags, 0x01);
    // Possessing an entity not yet replicated only records the id.
    w.handle_platform_event(&WorldEvent::Possession { network_id: 9 });
    assert_eq!(w.player_network_id, Some(9));
    assert_eq!(w.entities.get(2).unwrap().flags, 0x01);
    assert!(!w.entities.contains_key(9));
}

#[test]
fn interaction_marks_source_and_target() {
    let mut w = ClientWorld::new();
    w.entities.insert(1, flagged(1, 1));
    w.entities.insert(0x1_0002, flagged(0x1_0002, 1));
    w.handle_platform_event(&WorldEvent::Interaction { source: 1, target: 0x1_0002, amount: 5 });
    let s = w.entities.get(1).unwrap();
    assert_eq!(s.interaction_target_id, 2);
    assert_eq!(s.interaction_flash_ticks, 10);
    assert_eq!(w.entities.get(0x1_0002).unwrap().interaction_flash_ticks, 10);
}

#[test]
fn termination_and_collection_despawn() {
    let mut w = ClientWorld::new();
    w.entities.insert(1, flagged(1, 1));
    w.entities.insert(2, flagged(2, 1));
    w.handle_platform_event(&WorldEvent::Termination { target: 1 });
    assert!(!w.entities.contains_key(1));
    w.handle_platform_event(&WorldEvent::PayloadCollected { network_id: 2, amount: 1 });
    assert!(w.entities.is_empty());
    // Reinitialization and unknown targets change nothing.
    w.handle_platform_event(&WorldEvent::Reinitialization { target: 5, x: 0, y: 0 });
    w.handle_platform_event(&WorldEvent::Termination { target: 5 });
    assert!(w.entities.is_empty());
}

#[test]
fn exhausted_resource_is_removed_and_local_extraction_stops() {
    let mut w = ClientWorld::new();
    w.entities.insert(
        1,
        EntitySlot { network_id: 1, flags: 0x05, extraction_active: 1, extraction_target_id: 7, ..EntitySlot::zeroed() },
    );
    w.entities.insert(
        2,
        EntitySlot { network_id: 2, flags: 0x01, extraction_active: 1, extraction_target_id: 7, ..EntitySlot::zeroed() },
    );
    w.entities.insert(7, flagged(7, 1));
    w.dispatch_platform_event(&WorldEvent::ResourceExhausted { network_id: 7 });
    assert!(!w.entities.contains_key(7));
    let local = w.entities.get(1).unwrap();
    assert_eq!((local.extraction_active, local.extraction_target_id), (0, 0));
    let other = w.entities.get(2).unwrap();
    assert_eq!((other.extraction_active, other.extraction_target_id), (1, 7));
}

#[test]
fn manifest_replaces_the_stored_one() {
    let mut w = ClientWorld::new();
    let mut m = BTreeMap::new();
    m.insert("name".to_string(), "alpha".to_string());
    w.dispatch_platform_event(&WorldEvent::WorkspaceManifest { manifest: m.clone() });
    assert_eq!(w.workspace_manifest, m);
    w.dispatch_platform_event(&WorldEvent::Possession { network_id: 4 });
    assert_eq!(w.player_network_id, Some(4));
}

#[test]
fn clear_world_keeps_the_player_id() {
    let mut w = ClientWorld::new();
    w.player_network_id = Some(1);
    w.entities.insert(1, flagged(1, 5));
    w.clear_world();
    assert!(w.entities.is_empty());
    assert_eq!(w.player_network_id, Some(1));
}

#[test]
fn control_target_prefers_possession_then_first_flagged() {
    let mut w = ClientWorld::new();
    assert_eq!(w.control_target(), None);
    w.entities.insert(8, flagged(8, 0x05));
    w.entities.insert(3, flagged(3, 0x05));
    w.entities.insert(1, flagged(1, 0x01));
    assert_eq!(w.control_target(), Some(3));
    assert_eq!(w.local_player_ids(), vec![3, 8]);
    w.player_network_id = Some(42);
    assert_eq!(w.control_target(), Some(42));
}

#[test]
fn playground_input_is_recorded_only_with_prediction() {
    let mut off = ClientWorld::new();
    off.entities.insert(1, flagged(1, 0x05));
    assert!(off.playground_apply_input(1.0f32.to_bits(), 0, 0x104));
    assert!(off.input_history.is_empty());

    let mut on = ClientWorld::with_prediction(true);
    assert!(!on.playground_apply_input(0, 0, 0));
    on.latest_tick = 17;
    on.playground_apply_input(1.0f32.to_bits(), 0, 0x104);
    assert_eq!(on.input_history.len(), 2);
    let r = on.input_history.back().unwrap();
    assert_eq!(r.tick, 17);
    assert_eq!(r.actions_mask, 0x04);
    assert_eq!(f32::from_bits(r.move_x), 1.0);
}

#[test]
fn input_history_is_capped() {
    let mut w = ClientWorld::with_prediction(true);
    for t in 0..(INPUT_HISTORY_CAP as u64 + 20) {
        w.latest_tick = t;
        w.playground_apply_input(0, 0, 0);
    }
    assert_eq!(w.input_history.len(), INPUT_HISTORY_CAP);
    assert_eq!(w.input_history.front().unwrap().tick, 20);
}

fn expected_hash(tick: u64, entries: &[(u64, EntitySlot)]) -> u64 {
    let mut b = tick.to_le_bytes().to_vec();
    for (k, s) in entries {
        b.extend_from_slice(&k.to_le_bytes());
        for v in [s.x_bits, s.y_bits, s.z_bits, s.rotation_bits, s.dx_bits, s.dy_bits, s.dz_bits] {
            b.extend_from_slice(&v.to_le_bytes());
        }
        for v in [s.integrity, s.priority, s.entity_type] {
            b.extend_from_slice(&v.to_le_bytes());
        }
        b.push(s.flags);
        b.push(s.extraction_active);
        b.extend_from_slice(&s.payload_count.to_le_bytes());
        b.extend_from_slice(&s.extraction_target_id.to_le_bytes());
        b.extend_from_slice(&s.interaction_target_id.to_le_bytes());
        b.push(s.interaction_flash_ticks);
    }
    let mut h = twox_hash::XxHash64::with_seed(0);
    h.write(&b);
    h.finish()
}

#[test]
fn state_hash_digests_tick_and_entities() {
    let mut w = ClientWorld::new();
    assert_eq!(w.state_hash(), expected_hash(0, &[]));
    let s = EntitySlot { network_id: 5, x_bits: 1.5f32.to_bits(), integrity: 3, flags: 1, ..EntitySlot::zeroed() };
    w.entities.insert(5, s);
    w.latest_tick = 9;
    let h1 = w.state_hash();
    assert_eq!(h1, expected_hash(9, &[(5, s)]));
    w.latest_tick = 10;
    assert_ne!(w.state_hash(), h1);
}

#[test]
fn flush_publishes_entities_in_id_order() {
    let mut reg = PointerRegistry::new();
    let mut sw = SharedWorld::new(&mut reg);
    let mut w = ClientWorld::new();
    w.entities.insert(9, flagged(9, 1));
    w.entities.insert(2, flagged(2, 1));
    let n = w.flush_to_shared_world(&mut sw, 77);
    assert_eq!(n, 2);
    assert_eq!(sw.tick(), 77);
    assert_eq!(sw.entity_count(), 2);
    let r = sw.get_read_buffer();
    assert_eq!(r[0].network_id, 2);
    assert_eq!(r[1].network_id, 9);
}

#[test]
fn no_deltas_and_no_local_stress_test() {
    let mut w = ClientWorld::new();
    w.entities.insert(1, flagged(1, 1));
    assert!(w.extract_deltas().is_empty());
    w.stress_test(100, true);
    assert_eq!(w.entities.len(), 1);
}

#[test]
fn reconciliation_helpers() {
    let mut w = ClientWorld::with_prediction(true);
    w.entities.insert(1, flagged(1, 0x05));
    w.entities.insert(2, flagged(2, 0x01));
    assert!(w.predicts_locally(1));
    assert!(!w.predicts_locally(2));
    assert!(!w.predicts_locally(3));
    for t in [3u64, 5, 4, 9] {
        w.input_history.push_back(InputRecord { tick: t, move_x: 0, move_y: 0, actions_mask: 0 });
    }
    let newer: Vec<u64> = w.inputs_after(4).iter().map(|r| r.tick).collect();
    assert_eq!(newer, vec![5, 9]);
    w.prune_input_history(4);
    // Only the leading acknowledged records go.
    let left: Vec<u64> = w.input_history.iter().map(|r| r.tick).collect();
    assert_eq!(left, vec![5, 4, 9]);
    w.clear_input_history();
    assert!(w.input_history.is_empty());
    let off = ClientWorld::new();
    assert!(!off.predicts_locally(1));
    assert_eq!(transform_entity_type(0, 3), 3);
    assert_eq!(transform_entity_type(1, 0), 1);
    assert_eq!(transform_entity_type(0x2007, 3), 0x2007);
}

#[test]
fn state_hash_ignores_unhashed_state() {
    let mut a = ClientWorld::new();
    let mut b = ClientWorld::new();
    let s = EntitySlot { network_id: 4, y_bits: 2.0f32.to_bits(), priority: 6, flags: 3, ..EntitySlot::zeroed() };
    let t = EntitySlot { network_id: 1, entity_type: 2, payload_count: 5, ..EntitySlot::zeroed() };
    a.entities.insert(4, s);
    a.entities.insert(1, t);
    b.entities.insert(1, t);
    b.entities.insert(4, s);
    a.latest_tick = 12;
    b.latest_tick = 12;
    b.player_network_id = Some(4);
    b.prediction_enabled = !a.prediction_enabled;
    b.workspace_manifest.insert("k".to_string(), "v".to_string());
    assert_eq!(a.state_hash(), b.state_hash());
    assert_eq!(a.state_hash(), expected_hash(12, &[(1, t), (4, s)]));
}

fn transform_payload(x: f32, y: f32, entity_type: u16) -> Vec<u8> {
    rmp_serde::to_vec(&Transform { x, y, z: 0.5, rotation: 1.25, entity_type }).unwrap()
}

#[test]
fn authoritative_transform_is_taken_over() {
    let mut w = ClientWorld::new();
    w.entities.insert(3, EntitySlot { network_id: 3, entity_type: 1, flags: 1, ..EntitySlot::zeroed() });
    w.input_history.push_back(InputRecord { tick: 1, move_x: 0, move_y: 0, actions_mask: 0 });
    let out = w.apply_transform(&update(3, KIND_TRANSFORM, transform_payload(4.0, -6.0, 7), 10));
    assert_eq!(out, TransformOutcome::Applied);
    let s = w.entities.get(3).unwrap();
    assert_eq!((s.x_bits, s.y_bits), (4.0f32.to_bits(), (-6.0f32).to_bits()));
    assert_eq!((s.z_bits, s.rotation_bits), (0.5f32.to_bits(), 1.25f32.to_bits()));
    assert_eq!(s.entity_type, 7);
    assert!(w.input_history.is_empty());
}

#[test]
fn transform_of_unknown_entity_or_bad_payload_is_ignored() {
    let mut w = ClientWorld::new();
    assert_eq!(
        w.apply_transform(&update(3, KIND_TRANSFORM, transform_payload(1.0, 1.0, 1), 1)),
        TransformOutcome::Ignored
    );
    assert!(w.entities.is_empty());
    w.entities.insert(3, flagged(3, 1));
    assert_eq!(w.apply_transform(&update(3, KIND_TRANSFORM, vec![0xc1], 1)), TransformOutcome::Ignored);
    assert_eq!(w.entities.get(3).unwrap(), flagged(3, 1));
}

#[test]
fn predicted_player_transform_is_handed_back() {
    let mut w = ClientWorld::new();
    w.prediction_enabled = true;
    w.entities.insert(3, flagged(3, 0x05));
    let out = w.apply_transform(&update(3, KIND_TRANSFORM, transform_payload(2.0, 3.0, 0), 4));
    assert_eq!(
        out,
        TransformOutcome::Predicted(TransformBits {
            x: 2.0f32.to_bits(),
            y: 3.0f32.to_bits(),
            z: 0.5f32.to_bits(),
            rotation: 1.25f32.to_bits(),
            entity_type: 0,
        })
    );
    assert_eq!(w.entities.get(3).unwrap(), flagged(3, 0x05));
}

#[test]
fn velocity_and_presence_updates_set_their_fields() {
    let mut w = ClientWorld::new();
    w.entities.insert(8, flagged(8, 1));
    w.apply_velocity(8, 1, 2, 3);
    w.apply_velocity(9, 1, 2, 3);
    let s = w.entities.get(8).unwrap();
    assert_eq!((s.dx_bits, s.dy_bits, s.dz_bits), (1, 2, 3));
    assert!(w.entities.get(9).is_none());
    w.apply_presence(8, 10, 11);
    let s = w.entities.get(8).unwrap();
    assert_eq!((s.x_bits, s.y_bits, s.entity_type), (10, 11, 0x2007));
}

#[test]
fn interaction_flash_counts_down_to_zero() {
    let mut s = EntitySlot { interaction_flash_ticks: 2, ..EntitySlot::zeroed() };
    s.decay_interaction_flash();
    assert_eq!(s.interaction_flash_ticks, 1);
    s.decay_interaction_flash();
    s.decay_interaction_flash();
    assert_eq!(s.interaction_flash_ticks, 0);
}
