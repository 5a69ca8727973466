use aetheris_client::components::KIND_RESOURCE;
use aetheris_client::session::{
    ClientSession, ConnectStart, ConnectionSession, ConnectionState, EntityStatus,
    InboundEvent, Reply,
};
use aetheris_client::entity_table::EntitySlot;
use aetheris_client::shared_world::MAX_ENTITIES;
use aetheris_client::world_state::{EntityUpdate, WorldEvent};

fn upd(id: u64, tick: u64) -> EntityUpdate {
    EntityUpdate { network_id: id, component_kind: KIND_RESOURCE, payload: vec![], tick }
}

fn flagged(id: u64, flags: u8) -> EntitySlot {
    EntitySlot { network_id: id, flags, ..EntitySlot::zeroed() }
}

#[test]
fn connect_lifecycle() {
    let mut c = ConnectionSession::new();
    assert_eq!(c.state, ConnectionState::Disconnected);
    assert_eq!(c.begin_connect(), ConnectStart::Proceed { announce_reconnect: false });
    assert_eq!(c.state, ConnectionState::Connecting);
    // A second start while connecting does nothing.
    assert_eq!(c.begin_connect(), ConnectStart::AlreadyActive);
    c.connect_succeeded();
    assert_eq!(c.state, ConnectionState::InGame);
    assert_eq!(c.begin_connect(), ConnectStart::AlreadyActive);
    assert_eq!(c.state, ConnectionState::InGame);
    c.disconnected();
    assert_eq!(c.state, ConnectionState::Disconnected);
}

#[test]
fn reconnect_counts_attempts_but_opens_nothing() {
    let mut c = ConnectionSession::new();
    c.begin_connect();
    c.connect_failed();
    assert_eq!(c.state, ConnectionState::Failed);
    assert_eq!(c.reconnect(), ConnectStart::AlreadyActive);
    assert_eq!(c.state, ConnectionState::Reconnecting);
    assert_eq!(c.reconnect_attempts, 1);
    // After a later failure the next start is announced as a reconnect.
    c.connect_failed();
    assert_eq!(c.begin_connect(), ConnectStart::Proceed { announce_reconnect: true });
    c.connect_succeeded();
    assert_eq!(c.reconnect_attempts, 0);
}

#[test]
fn failure_without_attempts_is_not_announced() {
    let mut c = ConnectionSession::new();
    c.begin_connect();
    c.connect_failed();
    assert_eq!(c.begin_connect(), ConnectStart::Proceed { announce_reconnect: false });
}

#[test]
fn new_session_defaults() {
    let s = ClientSession::new(64);
    assert_eq!(s.world.shared_world_ref, Some(64));
    assert_eq!(s.connection.state, ConnectionState::Disconnected);
    assert!(!s.pending_clear);
    assert_eq!(s.last_clear_tick, 0);
    assert!(s.first_tick_sync);
    assert_eq!(s.next_playground_id, 1);
    assert_eq!(s.ping_counter, 0);
}

#[test]
fn ping_every_sixtieth_tick() {
    let mut s = ClientSession::new(8);
    let sent: Vec<u64> = (1..=180u64).filter(|_| s.advance_ping()).collect();
    assert_eq!(sent.len(), 3);
    assert_eq!(s.ping_counter, 180);
    s.ping_counter = u64::MAX;
    // Wraps to 0, which is a multiple of 60.
    assert!(s.advance_ping());
    assert_eq!(s.ping_counter, 0);
}

#[test]
fn inbound_events_are_sorted_out() {
    let mut s = ClientSession::new(8);
    s.world.entities.insert(50, flagged(50, 1));
    let out = s.process_inbound(vec![
        InboundEvent::Update(upd(1, 10)),
        InboundEvent::Ping(33),
        InboundEvent::Batch(vec![upd(2, 11), upd(3, 12)]),
        InboundEvent::Platform(WorldEvent::Termination { target: 9 }),
        InboundEvent::EntityDespawned(50),
        InboundEvent::Pong(44),
        InboundEvent::Other,
    ]);
    assert_eq!(out.replies, vec![Reply::SendPong(33), Reply::RecordRtt(44)]);
    let ids: Vec<u64> = out.updates.iter().map(|u| u.network_id).collect();
    assert_eq!(ids, vec![1, 2, 3]);
    assert_eq!(out.events.len(), 1);
    assert!(!s.world.entities.contains_key(50));
    // First sync adopts the latest server tick.
    assert_eq!(s.world.latest_tick, 12);
    assert!(!s.first_tick_sync);
}

#[test]
fn tick_is_resynced_only_on_large_drift() {
    let mut s = ClientSession::new(8);
    s.process_inbound(vec![InboundEvent::Update(upd(1, 100))]);
    assert_eq!(s.world.latest_tick, 100);
    s.world.latest_tick = 110;
    s.process_inbound(vec![InboundEvent::Update(upd(1, 95))]);
    // Drift 15: in sync, the client keeps its tick.
    assert_eq!(s.world.latest_tick, 110);
    s.process_inbound(vec![InboundEvent::Update(upd(1, 200))]);
    // Drift 90: the server tick is adopted.
    assert_eq!(s.world.latest_tick, 200);
    // No updates, no sync.
    s.world.latest_tick = 5;
    s.process_inbound(vec![InboundEvent::Ping(1)]);
    assert_eq!(s.world.latest_tick, 5);
}

#[test]
fn server_clear_gates_updates_until_acknowledged() {
    let mut s = ClientSession::new(8);
    s.world.entities.insert(1, flagged(1, 1));
    s.world.player_network_id = Some(1);
    s.world.latest_tick = 40;
    s.begin_server_clear();
    assert!(s.world.entities.is_empty());
    assert_eq!(s.world.player_network_id, None);
    assert!(s.pending_clear);
    assert_eq!(s.last_clear_tick, 40);

    // In-flight updates are discarded while the clear gate is raised.
    let out = s.process_inbound(vec![InboundEvent::Update(upd(1, 41))]);
    assert!(out.updates.is_empty());
    assert!(s.pending_clear);

    // The acknowledgement lowers the clear gate; stale updates stay out.
    let out = s.process_inbound(vec![
        InboundEvent::Update(upd(1, 39)),
        InboundEvent::Update(upd(2, 40)),
        InboundEvent::ClearWorldAck,
        InboundEvent::Batch(vec![upd(3, 41), upd(4, 30)]),
    ]);
    assert!(!s.pending_clear);
    let ids: Vec<u64> = out.updates.iter().map(|u| u.network_id).collect();
    assert_eq!(ids, vec![3]);
}

#[test]
fn local_clear_needs_no_gate() {
    let mut s = ClientSession::new(8);
    s.world.entities.insert(1, flagged(1, 1));
    s.world.player_network_id = Some(1);
    s.clear_local();
    assert!(s.world.entities.is_empty());
    assert_eq!(s.world.player_network_id, None);
    assert!(!s.pending_clear);
}

#[test]
fn closed_transport_disconnects() {
    let mut s = ClientSession::new(8);
    s.connection.begin_connect();
    s.connection.connect_succeeded();
    s.process_inbound(vec![InboundEvent::TransportClosed]);
    assert_eq!(s.connection.state, ConnectionState::Disconnected);
}

#[test]
fn playground_spawn_assigns_ids_and_default_vitals() {
    let mut s = ClientSession::new(8);
    s.playground_spawn(1, 2.0f32.to_bits(), 3.0f32.to_bits(), 0);
    assert_eq!(s.next_playground_id, 2);
    let e = s.world.entities.get(1).unwrap();
    assert_eq!(e.entity_type, 1);
    assert_eq!((e.integrity, e.priority), (200, 100));
    assert_eq!(e.flags, 0x01);
    assert_eq!(f32::from_bits(e.x_bits), 2.0);
    s.playground_spawn(3, 0, 0, 0);
    let e = s.world.entities.get(2).unwrap();
    assert_eq!((e.integrity, e.priority), (1500, 500));
}

#[test]
fn playground_ids_move_past_a_seeded_world() {
    let mut s = ClientSession::new(8);
    s.world.entities.insert(40, flagged(40, 1));
    s.world.entities.insert(7, flagged(7, 1));
    s.playground_spawn(5, 0, 0, 0);
    let e = s.world.entities.get(41).unwrap();
    assert_eq!((e.integrity, e.priority), (500, 0));
    assert_eq!(s.next_playground_id, 42);
}

#[test]
fn playground_spawn_stops_at_capacity() {
    let mut s = ClientSession::new(8);
    s.playground_stress_test_local(9000, true);
    assert!(s.rotation_enabled);
    assert_eq!(s.world.entities.len(), MAX_ENTITIES);
    assert_eq!(s.next_playground_id, 1 + MAX_ENTITIES as u64);
    s.playground_spawn(1, 0, 0, 0);
    assert_eq!(s.world.entities.len(), MAX_ENTITIES);
}

#[test]
fn local_stress_test_replaces_the_playground() {
    let mut s = ClientSession::new(8);
    s.world.entities.insert(500, flagged(500, 1));
    s.next_playground_id = 10;
    s.playground_stress_test_local(3, false);
    let keys: Vec<u64> = (0..s.world.entities.len()).map(|i| s.world.entities.entry_at(i).0).collect();
    assert_eq!(keys, vec![10, 11, 12]);
    assert_eq!(s.world.entities.get(11).unwrap().entity_type, 1);
    assert_eq!(s.next_playground_id, 13);
}

#[test]
fn input_plan_edges_and_targets() {
    let mut s = ClientSession::new(8);
    assert_eq!(s.plan_input(0x06, None, None), None);
    assert_eq!(s.last_actions_mask, 0);
    s.world.entities.insert(5, flagged(5, 0x05));
    let p = s.plan_input(0x06, None, Some(77)).unwrap();
    assert_eq!(p.target, 5);
    assert!(p.fire_tool);
    assert!(p.toggle_requested);
    assert_eq!(p.toggle_extraction, Some(77));
    // Bit 1 held: no new toggle.
    let p = s.plan_input(0x02, Some(3), None).unwrap();
    assert!(!p.fire_tool);
    assert!(!p.toggle_requested);
    assert_eq!(p.toggle_extraction, None);
    // Released and pressed again: the explicit target wins.
    s.plan_input(0x00, None, None);
    let p = s.plan_input(0x02, Some(3), Some(77)).unwrap();
    assert_eq!(p.toggle_extraction, Some(3));
    // No target at all: the toggle is requested but dropped.
    s.plan_input(0x00, None, None);
    let p = s.plan_input(0x02, None, None).unwrap();
    assert!(p.toggle_requested);
    assert_eq!(p.toggle_extraction, None);
    // A possessed entity takes precedence.
    s.world.player_network_id = Some(9);
    assert_eq!(s.plan_input(0, None, None).unwrap().target, 9);
}

#[test]
fn read_only_views() {
    let mut s = ClientSession::new(8);
    s.world.entities.insert(
        (1u64 << 32) + 3,
        EntitySlot { network_id: (1u64 << 32) + 3, entity_type: 0x2007, ..EntitySlot::zeroed() },
    );
    s.world.entities.insert(
        2,
        EntitySlot { network_id: 2, entity_type: 5, integrity: 80, flags: 0x05, payload_count: 4, payload_capacity: 9, ..EntitySlot::zeroed() },
    );
    assert_eq!(s.get_networked_entities(), vec![2, 3]);
    assert_eq!(s.get_entity_type(2), 5);
    assert_eq!(s.get_entity_type(99), 0);
    assert_eq!(s.player_network_id(), None);
    assert_eq!(s.player_payload(), (0, 0));
    s.world.player_network_id = Some(2);
    assert_eq!(s.player_network_id(), Some(2));
    assert_eq!(s.player_payload(), (4, 9));
    let st = s.entity_statuses();
    assert_eq!(
        st[0],
        EntityStatus {
            network_id: 2,
            integrity: 80,
            max_integrity: 500,
            priority: 0,
            max_priority: 0,
            entity_type: 5,
            is_player: true,
        }
    );
    assert_eq!(st[1].max_integrity, 100);
    assert!(!st[1].is_player);
    let p = s.presence_entries();
    assert_eq!(p.len(), 1);
    assert_eq!(p[0].0, (1u64 << 32) + 3);
}

#[test]
fn playground_clear_keeps_player() {
    let mut s = ClientSession::new(8);
    s.world.player_network_id = Some(3);
    s.playground_spawn(1, 0, 0, 0);
    s.playground_clear();
    assert!(s.world.entities.is_empty());
    assert_eq!(s.world.player_network_id, Some(3));
}

#[test]
fn admitted_max_tick_follows_gate_and_freshness() {
    let mut s = ClientSession::new(8);
    let evs = vec![
        InboundEvent::Update(upd(1, 7)),
        InboundEvent::Batch(vec![upd(2, 30), upd(3, 12)]),
        InboundEvent::Ping(99),
    ];
    assert_eq!(s.admitted_max_tick(&evs), 30);
    s.world.latest_tick = 20;
    s.begin_server_clear();
    assert_eq!(s.admitted_max_tick(&evs), 0);
    let with_ack = vec![
        InboundEvent::Update(upd(1, 21)),
        InboundEvent::ClearWorldAck,
        InboundEvent::Batch(vec![upd(2, 20), upd(3, 25)]),
    ];
    assert_eq!(s.admitted_max_tick(&with_ack), 25);
    assert_eq!(s.admitted_max_tick(&vec![]), 0);
}

#[test]
fn drift_check_flags_overflowing_differences() {
    let s = ClientSession::new(8);
    assert!(s.inbound_drift_in_range(&vec![InboundEvent::Update(upd(1, 500))]));
    assert!(s.inbound_drift_in_range(&vec![]));
    // 0 - (0x8000_0000 as i32) does not fit in an i32.
    assert!(!s.inbound_drift_in_range(&vec![InboundEvent::Update(upd(1, 0x8000_0000))]));
    // Truncation to 32 bits is what is compared.
    assert!(s.inbound_drift_in_range(&vec![InboundEvent::Update(upd(1, 0x1_0000_0005))]));
}

#[test]
fn rotation_flag_is_set() {
    let mut s = ClientSession::new(8);
    s.playground_set_rotation_enabled(true);
    assert!(s.rotation_enabled);
    s.playground_set_rotation_enabled(false);
    assert!(!s.rotation_enabled);
}
