use aetheris_client::session::InboundEvent;
use aetheris_client::wire::{
    assembled_event, classify_message, datagram_event, encode_command, fragment_event, message_event,
    Command, WireEvent, MAX_TOTAL_FRAGMENTS,
};
use aetheris_client::world_state::{EntityUpdate, WorldEvent};
use aetheris_encoder_serde::SerdeEncoder;
use aetheris_protocol::events::{FragmentedEvent, NetworkEvent, PlatformEvent, ReplicationEvent};
use aetheris_protocol::traits::Encoder;
use aetheris_protocol::types::{ClientId, ComponentKind, NetworkId};
use aetheris_protocol::Reassembler;

fn encoded_update(id: u64, kind: u16, payload: &[u8], tick: u64) -> Vec<u8> {
    let event = ReplicationEvent {
        network_id: NetworkId(id),
        component_kind: ComponentKind(kind),
        payload: payload.to_vec(),
        tick,
    };
    let mut buf = vec![0u8; 256];
    let len = SerdeEncoder::new().encode(&event, &mut buf).unwrap();
    buf.truncate(len);
    buf
}

fn encoded_event(event: &NetworkEvent) -> Vec<u8> {
    SerdeEncoder::new().encode_event(event).unwrap()
}

fn assert_update(e: InboundEvent, id: u64, kind: u16, payload: &[u8], tick: u64) {
    match e {
        InboundEvent::Update(u) => {
            assert_eq!((u.network_id, u.component_kind, u.tick), (id, kind, tick));
            assert_eq!(u.payload, payload.to_vec());
        }
        other => panic!("expected an update, got {other:?}"),
    }
}

#[test]
fn message_with_update_header_becomes_update() {
    let data = encoded_update(42, 3, &[0x93, 1, 2, 3], 77);
    assert_update(classify_message(&data), 42, 3, &[0x93, 1, 2, 3], 77);
}

#[test]
fn update_payload_is_the_rest_of_the_body() {
    let data = encoded_update(5, 1, &[], 9);
    assert_update(classify_message(&data), 5, 1, &[], 9);
}

#[test]
fn clear_world_message_becomes_acknowledgement() {
    let data = encoded_event(&NetworkEvent::ClearWorld { client_id: ClientId(0) });
    assert!(matches!(classify_message(&data), InboundEvent::ClearWorldAck));
}

#[test]
fn despawn_message_names_the_entity() {
    let data = encoded_event(&NetworkEvent::EntityDespawned {
        client_id: ClientId(0),
        network_id: NetworkId(314),
    });
    assert!(matches!(classify_message(&data), InboundEvent::EntityDespawned(314)));
}

#[test]
fn platform_message_carries_position_bits() {
    let data = encoded_event(&NetworkEvent::PlatformEvent {
        client_id: ClientId(0),
        event: PlatformEvent::Reinitialization { target: NetworkId(8), x: 1.5, y: -2.0 },
    });
    match classify_message(&data) {
        InboundEvent::Platform(WorldEvent::Reinitialization { target, x, y }) => {
            assert_eq!(target, 8);
            assert_eq!(x, 1.5f32.to_bits());
            assert_eq!(y, (-2.0f32).to_bits());
        }
        other => panic!("unexpected {other:?}"),
    }
}

#[test]
fn other_wire_events_and_garbage_are_ignored() {
    let pong = encoded_event(&NetworkEvent::Pong { tick: 3 });
    assert!(matches!(classify_message(&pong), InboundEvent::Other));
    assert!(matches!(classify_message(&[0xc1, 0xc1, 0xc1]), InboundEvent::Other));
    assert!(matches!(classify_message(&[]), InboundEvent::Other));
}

#[test]
fn message_event_prefers_the_update() {
    let u = EntityUpdate { network_id: 1, component_kind: 2, payload: vec![9], tick: 3 };
    assert_update(message_event(Some(u), WireEvent::Cleared), 1, 2, &[9], 3);
    assert!(matches!(message_event(None, WireEvent::Cleared), InboundEvent::ClearWorldAck));
    assert!(matches!(message_event(None, WireEvent::Despawned(4)), InboundEvent::EntityDespawned(4)));
    assert!(matches!(
        message_event(None, WireEvent::Platform(WorldEvent::Termination { target: 6 })),
        InboundEvent::Platform(WorldEvent::Termination { target: 6 })
    ));
    assert!(matches!(message_event(None, WireEvent::Other), InboundEvent::Other));
}

#[test]
fn assembled_message_decodes_as_update() {
    assert!(matches!(assembled_event(None), InboundEvent::Other));
    assert!(matches!(assembled_event(Some(vec![0xc1])), InboundEvent::Other));
    let data = encoded_update(11, 4, &[7, 7], 12);
    assert_update(assembled_event(Some(data)), 11, 4, &[7, 7], 12);
}

#[test]
fn fragments_reassemble_into_one_update() {
    let data = encoded_update(21, 6, &[1, 2, 3, 4, 5, 6, 7, 8], 30);
    let (a, b) = data.split_at(data.len() / 2);
    let mut r = Reassembler::new();
    assert!(matches!(fragment_event(&mut r, 1, 99, 1, 2, b.to_vec()), InboundEvent::Other));
    assert_update(fragment_event(&mut r, 1, 99, 0, 2, a.to_vec()), 21, 6, &[1, 2, 3, 4, 5, 6, 7, 8], 30);
}

#[test]
fn fragments_with_bad_totals_are_refused() {
    let mut r = Reassembler::new();
    assert!(matches!(fragment_event(&mut r, 1, 1, 0, 0, vec![1]), InboundEvent::Other));
    assert!(matches!(
        fragment_event(&mut r, 1, 2, 0, MAX_TOTAL_FRAGMENTS + 1, vec![1]),
        InboundEvent::Other
    ));
    let whole = encoded_update(3, 1, &[], 4);
    assert_update(fragment_event(&mut r, 1, 3, 0, 1, whole), 3, 1, &[], 4);
}

fn decoded(cmd: Command) -> NetworkEvent {
    let bytes = encode_command(&cmd).unwrap();
    SerdeEncoder::new().decode_event(&bytes).unwrap()
}

#[test]
fn commands_encode_as_protocol_events() {
    assert!(matches!(decoded(Command::Ping(123)), NetworkEvent::Ping { tick: 123, .. }));
    assert!(matches!(decoded(Command::Pong(9)), NetworkEvent::Pong { tick: 9 }));
    match decoded(Command::Auth("tok".to_string())) {
        NetworkEvent::Auth { session_token } => assert_eq!(session_token, "tok"),
        other => panic!("unexpected {other:?}"),
    }
    assert!(matches!(decoded(Command::ClearWorld), NetworkEvent::ClearWorld { .. }));
    assert!(matches!(
        decoded(Command::StressTest { count: 50, rotate: true }),
        NetworkEvent::StressTest { count: 50, rotate: true, .. }
    ));
}

#[test]
fn encoded_clear_command_reads_back_as_acknowledgement() {
    let bytes = encode_command(&Command::ClearWorld).unwrap();
    assert!(matches!(classify_message(&bytes), InboundEvent::ClearWorldAck));
    assert_eq!(bytes, encoded_event(&NetworkEvent::ClearWorld { client_id: ClientId(0) }));
}

#[test]
fn fragments_repeated_index_keeps_first_payload() {
    let data = encoded_update(2, 1, &[9, 9, 9], 5);
    let (a, b) = data.split_at(3);
    let mut r = Reassembler::new();
    assert!(matches!(fragment_event(&mut r, 4, 1, 0, 2, a.to_vec()), InboundEvent::Other));
    assert!(matches!(fragment_event(&mut r, 4, 1, 0, 2, vec![0xff; 3]), InboundEvent::Other));
    assert_update(fragment_event(&mut r, 4, 1, 1, 2, b.to_vec()), 2, 1, &[9, 9, 9], 5);
}

#[test]
fn fragments_with_wrong_count_or_index_are_refused() {
    let data = encoded_update(6, 2, &[1, 2], 8);
    let (a, b) = data.split_at(4);
    let mut r = Reassembler::new();
    assert!(matches!(fragment_event(&mut r, 1, 5, 0, 2, a.to_vec()), InboundEvent::Other));
    // another count for the same message is refused and changes nothing
    assert!(matches!(fragment_event(&mut r, 1, 5, 1, 3, b.to_vec()), InboundEvent::Other));
    // an index at or above the count is refused
    assert!(matches!(fragment_event(&mut r, 1, 5, 2, 2, b.to_vec()), InboundEvent::Other));
    // the same message from another sender is a different message
    assert!(matches!(fragment_event(&mut r, 2, 5, 1, 2, b.to_vec()), InboundEvent::Other));
    assert_update(fragment_event(&mut r, 1, 5, 1, 2, b.to_vec()), 6, 2, &[1, 2], 8);
}

#[test]
fn datagram_wire_events_are_passed_on() {
    let mut r = Reassembler::new();
    let ping = encoded_event(&NetworkEvent::Ping { client_id: ClientId(0), tick: 41 });
    assert!(matches!(datagram_event(&mut r, &ping), InboundEvent::Ping(41)));
    let pong = encoded_event(&NetworkEvent::Pong { tick: 42 });
    assert!(matches!(datagram_event(&mut r, &pong), InboundEvent::Pong(42)));
    let clear = encoded_event(&NetworkEvent::ClearWorld { client_id: ClientId(0) });
    assert!(matches!(datagram_event(&mut r, &clear), InboundEvent::ClearWorldAck));
    let despawn = encoded_event(&NetworkEvent::EntityDespawned { client_id: ClientId(0), network_id: NetworkId(12) });
    assert!(matches!(datagram_event(&mut r, &despawn), InboundEvent::EntityDespawned(12)));
    let auth = encoded_event(&NetworkEvent::Auth { session_token: "t".to_string() });
    assert!(matches!(datagram_event(&mut r, &auth), InboundEvent::Other));
}

#[test]
fn datagram_batch_carries_every_update() {
    let mut r = Reassembler::new();
    let batch = encoded_event(&NetworkEvent::ReplicationBatch {
        client_id: ClientId(0),
        events: vec![
            ReplicationEvent { network_id: NetworkId(1), component_kind: ComponentKind(3), payload: vec![1], tick: 10 },
            ReplicationEvent { network_id: NetworkId(2), component_kind: ComponentKind(4), payload: vec![2, 3], tick: 11 },
        ],
    });
    match datagram_event(&mut r, &batch) {
        InboundEvent::Batch(v) => {
            assert_eq!(v.len(), 2);
            assert_eq!((v[0].network_id, v[0].component_kind, v[0].tick), (1, 3, 10));
            assert_eq!(v[0].payload, vec![1]);
            assert_eq!((v[1].network_id, v[1].component_kind, v[1].tick), (2, 4, 11));
            assert_eq!(v[1].payload, vec![2, 3]);
        }
        other => panic!("unexpected {other:?}"),
    }
}

#[test]
fn datagram_fragments_reassemble() {
    let data = encoded_update(31, 5, &[4, 4, 4, 4], 60);
    let (a, b) = data.split_at(5);
    let frag = |index: u16, payload: &[u8]| {
        encoded_event(&NetworkEvent::Fragment {
            client_id: ClientId(0),
            fragment: FragmentedEvent { message_id: 77, fragment_index: index, total_fragments: 2, payload: payload.to_vec() },
        })
    };
    let mut r = Reassembler::new();
    assert!(matches!(datagram_event(&mut r, &frag(0, a)), InboundEvent::Other));
    assert_update(datagram_event(&mut r, &frag(1, b)), 31, 5, &[4, 4, 4, 4], 60);
}

#[test]
fn datagram_that_is_no_wire_event_is_a_message_body() {
    let mut r = Reassembler::new();
    let data = encoded_update(8, 1, &[0x90], 3);
    assert_update(datagram_event(&mut r, &data), 8, 1, &[0x90], 3);
    assert!(matches!(datagram_event(&mut r, &[0xc1]), InboundEvent::Other));
}
