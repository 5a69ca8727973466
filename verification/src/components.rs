//! Decoding of replicated component payloads (MessagePack, as the server
//! encodes them with `rmp_serde`) into the plain values the world applies.

use vstd::prelude::*;
use aetheris_protocol::types::{
    AgentKind, AgentProperties, DataStore, ExtractionBeam, IntegrityPool, PriorityPool, Transform,
    WorkspaceBounds,
};
use crate::world_state::RoomBounds;

verus! {

/// Component kind: transform (position, rotation, entity type).
pub const KIND_TRANSFORM: u16 = 1;
/// Component kind: velocity.
pub const KIND_VELOCITY: u16 = 2;
/// Component kind: agent properties (vitals).
pub const KIND_AGENT_PROPERTIES: u16 = 3;
/// Component kind: agent classification.
pub const KIND_AGENT_KIND: u16 = 5;
/// Component kind: beam marker.
pub const KIND_BEAM_MARKER: u16 = 13;
/// Component kind: input command (client to server only).
pub const KIND_INPUT_COMMAND: u16 = 128;
/// Component kind: workspace bounds.
pub const KIND_WORKSPACE_BOUNDS: u16 = 130;
/// Component kind: extraction beam.
pub const KIND_EXTRACTION_BEAM: u16 = 1024;
/// Component kind: data store.
pub const KIND_DATA_STORE: u16 = 1025;
/// Component kind: resource.
pub const KIND_RESOURCE: u16 = 1026;
/// Component kind: priority pool.
pub const KIND_PRIORITY_POOL: u16 = 1028;
/// Component kind: integrity pool.
pub const KIND_INTEGRITY_POOL: u16 = 1029;
/// Component kind: data drop.
pub const KIND_DATA_DROP: u16 = 1030;
/// Component kind: external presence.
pub const KIND_PRESENCE: u16 = 0x2007;

/// Agent classification.
#[derive(Clone, Copy, Debug, PartialEq, Eq, Structural)]
pub enum AgentClass {
    Standard,
    Heavy,
    Carrier,
}

/// Agent vitals.
#[derive(Clone, Copy, Debug, PartialEq, Eq, Structural)]
pub struct AgentVitals {
    pub integrity: u16,
    pub max_integrity: u16,
    pub priority: u16,
    pub max_priority: u16,
    pub energy: u16,
    pub max_energy: u16,
    pub priority_regen_per_s: u16,
    pub energy_regen_per_s: u16,
}

/// Extraction beam state (range as `f32` bits).
#[derive(Clone, Copy, Debug, PartialEq, Eq, Structural)]
pub struct BeamState {
    pub active: bool,
    pub target: Option<u64>,
    pub extraction_range: u32,
    pub base_extraction_rate: u16,
}

/// Data store state.
#[derive(Clone, Copy, Debug, PartialEq, Eq, Structural)]
pub struct StoreState {
    pub payload_count: u16,
    pub capacity: u16,
}

/// A current/maximum pool.
#[derive(Clone, Copy, Debug, PartialEq, Eq, Structural)]
pub struct PoolState {
    pub current: u16,
    pub max: u16,
}

/// What `rmp_serde::from_slice::<AgentKind>` makes of a payload (`None` on error).
pub uninterp spec fn msgpack_agent_kind(payload: Seq<u8>) -> Option<AgentClass>;

/// What `rmp_serde::from_slice::<AgentProperties>` makes of a payload.
pub uninterp spec fn msgpack_agent_properties(payload: Seq<u8>) -> Option<AgentVitals>;

/// What `rmp_serde::from_slice::<ExtractionBeam>` makes of a payload.
pub uninterp spec fn msgpack_extraction_beam(payload: Seq<u8>) -> Option<BeamState>;

/// What `rmp_serde::from_slice::<DataStore>` makes of a payload.
pub uninterp spec fn msgpack_data_store(payload: Seq<u8>) -> Option<StoreState>;

/// What `rmp_serde::from_slice::<PriorityPool>` makes of a payload.
pub uninterp spec fn msgpack_priority_pool(payload: Seq<u8>) -> Option<PoolState>;

/// What `rmp_serde::from_slice::<IntegrityPool>` makes of a payload.
pub uninterp spec fn msgpack_integrity_pool(payload: Seq<u8>) -> Option<PoolState>;

/// What `rmp_serde::from_slice::<WorkspaceBounds>` makes of a payload.
pub uninterp spec fn msgpack_workspace_bounds(payload: Seq<u8>) -> Option<RoomBounds>;

/// Calls `rmp_serde::from_slice::<AgentKind>`; the variant is carried over one
/// for one, a decoding error becomes `None`. Its result is named, not described.
#[verifier::external_body]
pub(crate) fn decode_agent_kind(payload: &[u8]) -> (r: Option<AgentClass>)
    ensures
        r == msgpack_agent_kind(payload@),
{
    match rmp_serde::from_slice::<AgentKind>(payload) {
        Ok(AgentKind::Standard) => Some(AgentClass::Standard),
        Ok(AgentKind::Heavy) => Some(AgentClass::Heavy),
        Ok(AgentKind::Carrier) => Some(AgentClass::Carrier),
        Err(_) => None,
    }
}

/// Calls `rmp_serde::from_slice::<AgentProperties>`; the fields are carried over
/// one for one, a decoding error becomes `None`.
#[verifier::external_body]
pub(crate) fn decode_agent_properties(payload: &[u8]) -> (r: Option<AgentVitals>)
    ensures
        r == msgpack_agent_properties(payload@),
{
    match rmp_serde::from_slice::<AgentProperties>(payload) {
        Ok(p) => Some(AgentVitals {
            integrity: p.integrity,
            max_integrity: p.max_integrity,
            priority: p.priority,
            max_priority: p.max_priority,
            energy: p.energy,
            max_energy: p.max_energy,
            priority_regen_per_s: p.priority_regen_per_s,
            energy_regen_per_s: p.energy_regen_per_s,
        }),
        Err(_) => None,
    }
}

/// Calls `rmp_serde::from_slice::<ExtractionBeam>`; the fields are carried over
/// (the range as its bit pattern, the target id unwrapped), an error becomes `None`.
#[verifier::external_body]
pub(crate) fn decode_extraction_beam(payload: &[u8]) -> (r: Option<BeamState>)
    ensures
        r == msgpack_extraction_beam(payload@),
{
    match rmp_serde::from_slice::<ExtractionBeam>(payload) {
        Ok(b) => Some(BeamState {
            active: b.active,
            target: b.target.map(|id| id.0),
            extraction_range: b.extraction_range.to_bits(),
            base_extraction_rate: b.base_extraction_rate,
        }),
        Err(_) => None,
    }
}

/// Calls `rmp_serde::from_slice::<DataStore>`; fields carried over, error `None`.
#[verifier::external_body]
pub(crate) fn decode_data_store(payload: &[u8]) -> (r: Option<StoreState>)
    ensures
        r == msgpack_data_store(payload@),
{
    match rmp_serde::from_slice::<DataStore>(payload) {
        Ok(d) => Some(StoreState { payload_count: d.payload_count, capacity: d.capacity }),
        Err(_) => None,
    }
}

/// Calls `rmp_serde::from_slice::<PriorityPool>`; fields carried over, error `None`.
#[verifier::external_body]
pub(crate) fn decode_priority_pool(payload: &[u8]) -> (r: Option<PoolState>)
    ensures
        r == msgpack_priority_pool(payload@),
{
    match rmp_serde::from_slice::<PriorityPool>(payload) {
        Ok(p) => Some(PoolState { current: p.current, max: p.max }),
        Err(_) => None,
    }
}

/// Calls `rmp_serde::from_slice::<IntegrityPool>`; fields carried over, error `None`.
#[verifier::external_body]
pub(crate) fn decode_integrity_pool(payload: &[u8]) -> (r: Option<PoolState>)
    ensures
        r == msgpack_integrity_pool(payload@),
{
    match rmp_serde::from_slice::<IntegrityPool>(payload) {
        Ok(p) => Some(PoolState { current: p.current, max: p.max }),
        Err(_) => None,
    }
}

/// Calls `rmp_serde::from_slice::<WorkspaceBounds>`; the four coordinates are
/// carried over as their bit patterns, an error becomes `None`.
#[verifier::external_body]
pub(crate) fn decode_workspace_bounds(payload: &[u8]) -> (r: Option<RoomBounds>)
    ensures
        r == msgpack_workspace_bounds(payload@),
{
    match rmp_serde::from_slice::<WorkspaceBounds>(payload) {
        Ok(b) => Some(RoomBounds {
            min_x: b.min_x.to_bits(),
            min_y: b.min_y.to_bits(),
            max_x: b.max_x.to_bits(),
            max_y: b.max_y.to_bits(),
        }),
        Err(_) => None,
    }
}

/// A replicated transform, its floating-point fields as bit patterns.
#[derive(Clone, Copy, Debug, PartialEq, Eq, Structural)]
pub struct TransformBits {
    pub x: u32,
    pub y: u32,
    pub z: u32,
    pub rotation: u32,
    pub entity_type: u16,
}

/// What `rmp_serde::from_slice::<Transform>` makes of a payload.
pub uninterp spec fn msgpack_transform(payload: Seq<u8>) -> Option<TransformBits>;

/// Calls `rmp_serde::from_slice::<Transform>`; the coordinates and rotation are
/// carried over as their bit patterns, an error becomes `None`.
#[verifier::external_body]
pub(crate) fn decode_transform(payload: &[u8]) -> (r: Option<TransformBits>)
    ensures
        r == msgpack_transform(payload@),
{
    match rmp_serde::from_slice::<Transform>(payload) {
        Ok(t) => Some(TransformBits {
            x: t.x.to_bits(),
            y: t.y.to_bits(),
            z: t.z.to_bits(),
            rotation: t.rotation.to_bits(),
            entity_type: t.entity_type,
        }),
        Err(_) => None,
    }
}

/// Calls `aetheris_protocol::types::get_default_properties`, which gives the
/// default `(max_integrity, max_priority)` of an entity type: agents (types 1
/// and 2) 200/100, heavy agents (3) 1500/500, carriers (4) 600/200, resources (5)
/// 500/0, training targets (10) 100/50, data drops (6) and beams (20) 1/0, any
/// other type 100/100.
#[verifier::external_body]
pub(crate) fn default_properties(entity_type: u16) -> (r: (u16, u16))
    ensures
        r == spec_default_properties(entity_type),
{
    aetheris_protocol::types::get_default_properties(entity_type)
}

/// The default `(max_integrity, max_priority)` of an entity type.
pub open spec fn spec_default_properties(entity_type: u16) -> (u16, u16) {
    if entity_type == 1 || entity_type == 2 {
        (200, 100)
    } else if entity_type == 3 {
        (1500, 500)
    } else if entity_type == 4 {
        (600, 200)
    } else if entity_type == 5 {
        (500, 0)
    } else if entity_type == 10 {
        (100, 50)
    } else if entity_type == 6 || entity_type == 20 {
        (1, 0)
    } else {
        (100, 100)
    }
}

} // verus!
