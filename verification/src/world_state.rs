//! The client-side world: replicated entities, the local player, and the rules
//! by which server updates and platform events change them.
//!
//! Positions, velocities and rotations are `f32` values held as bit patterns;
//! the floating-point physics and the components that carry only
//! floating-point data are applied by the embedding application, which is told
//! so by the outcome of [`ClientWorld::apply_update`].

use vstd::prelude::*;
use vstd::bytes::{
    spec_u16_to_le_bytes, spec_u32_to_le_bytes, spec_u64_to_le_bytes, u16_to_le_bytes,
    u32_to_le_bytes, u64_to_le_bytes,
};
use std::hash::Hasher;
use std::collections::{BTreeMap, VecDeque};
use crate::entity_table::{
    EntitySlot, EntityTable, entries_map, entry_slots, keys_sorted, lemma_entries_map_at, has_key,
    key_index, lemma_same_keys_same_order, zero_entity,
};
use crate::components::{
    AgentClass, BeamState, KIND_INPUT_COMMAND, TransformBits, decode_transform, msgpack_transform, decode_agent_kind, decode_agent_properties, decode_data_store,
    decode_extraction_beam, decode_integrity_pool, decode_priority_pool, decode_workspace_bounds,
    msgpack_agent_kind, msgpack_agent_properties, msgpack_data_store, msgpack_extraction_beam,
    msgpack_integrity_pool, msgpack_priority_pool, msgpack_workspace_bounds, KIND_AGENT_KIND,
    KIND_AGENT_PROPERTIES, KIND_BEAM_MARKER, KIND_DATA_DROP, KIND_DATA_STORE,
    KIND_EXTRACTION_BEAM, KIND_INTEGRITY_POOL, KIND_PRESENCE, KIND_PRIORITY_POOL, KIND_RESOURCE,
    KIND_TRANSFORM, KIND_VELOCITY, KIND_WORKSPACE_BOUNDS,
};
use crate::shared_world::{SharedWorld, FLAG_ALIVE, FLAG_LOCAL_PLAYER, MAX_ENTITIES};

verus! {

/// Axis-aligned world rectangle (`f32` bit patterns).
#[derive(Clone, Copy, Debug, PartialEq, Eq, Structural)]
pub struct RoomBounds {
    pub min_x: u32,
    pub min_y: u32,
    pub max_x: u32,
    pub max_y: u32,
}

/// One recorded playground input (movement as `f32` bit patterns).
#[derive(Clone, Copy, Debug, PartialEq, Eq, Structural)]
pub struct InputRecord {
    pub tick: u64,
    pub move_x: u32,
    pub move_y: u32,
    pub actions_mask: u8,
}

/// Error of a world operation.
#[derive(Clone, Copy, Debug, PartialEq, Eq, Structural)]
pub enum WorldError {
    /// The entity with this network id does not exist.
    EntityNotFound(u64),
}

/// A discrete platform event from the server (positions as `f32` bit patterns).
#[derive(Debug)]
pub enum WorldEvent {
    /// A resource was completely exhausted.
    ResourceExhausted { network_id: u64 },
    /// The client now controls this entity.
    Possession { network_id: u64 },
    /// Server-side metadata key/value pairs.
    WorkspaceManifest { manifest: BTreeMap<String, String> },
    /// An interaction (e.g. damage) from `source` to `target`.
    Interaction { source: u64, target: u64, amount: u16 },
    /// An entity was terminated.
    Termination { target: u64 },
    /// An entity was reinitialized at a position.
    Reinitialization { target: u64, x: u32, y: u32 },
    /// A data drop was collected.
    PayloadCollected { network_id: u64, amount: u16 },
}

/// An inbound change to one component of one entity.
#[derive(Debug)]
pub struct EntityUpdate {
    /// The entity to update.
    pub network_id: u64,
    /// Which component changed.
    pub component_kind: u16,
    /// The MessagePack-encoded component.
    pub payload: Vec<u8>,
    /// The server tick of the change.
    pub tick: u64,
}

/// What remains to be done after [`ClientWorld::apply_update`].
#[derive(Clone, Copy, Debug, PartialEq, Eq, Structural)]
pub enum ApplyOutcome {
    /// The update was applied completely.
    Applied,
    /// The component carries floating-point data (transform, velocity or
    /// presence); the caller applies it to the entity, which now exists.
    Deferred,
    /// The workspace bounds were updated; the caller writes them to the shared world.
    PublishBounds(RoomBounds),
    /// The component kind is not one the client handles.
    Unhandled,
}

/// Number of ticks the interaction flash lasts.
pub const INTERACTION_FLASH_TICKS: u8 = 10;

/// Maximum number of recorded inputs kept for reconciliation.
pub const INPUT_HISTORY_CAP: usize = 300;

/// Entity type of an external presence cursor.
pub const ENTITY_TYPE_PRESENCE: u16 = 0x2007;

/// The client-side world.
pub struct ClientWorld {
    /// Last known authoritative state of each entity.
    pub entities: EntityTable,
    /// The network id of the local player's agent, if known.
    pub player_network_id: Option<u64>,
    /// The latest tick received from the server.
    pub latest_tick: u64,
    /// Workspace-wide metadata.
    pub workspace_manifest: BTreeMap<String, String>,
    /// Handle of the shared world that receives the workspace bounds, if any.
    pub shared_world_ref: Option<usize>,
    /// Inputs applied locally, kept for reconciliation.
    pub input_history: VecDeque<InputRecord>,
    /// The latest server tick that has been reconciled.
    pub last_reconciled_tick: u64,
    /// Whether inputs are simulated locally and replayed over server state.
    pub prediction_enabled: bool,
    /// Authoritative world boundaries, used for toroidal wrapping.
    pub workspace_bounds: Option<RoomBounds>,
}

/// The default sandbox bounds, -250.0 to 250.0 on both axes (as `f32` bits).
pub open spec fn default_sandbox_bounds() -> RoomBounds {
    RoomBounds { min_x: 0xC37A_0000, min_y: 0xC37A_0000, max_x: 0x437A_0000, max_y: 0x437A_0000 }
}

/// Every slot of the map carries the id it is stored under.
pub open spec fn ids_match(m: Map<u64, EntitySlot>) -> bool {
    forall|k: u64| #[trigger] m.contains_key(k) ==> m[k].network_id == k
}

/// The slot created for an entity the server mentions for the first time:
/// alive, integrity 100, everything else zero.
pub open spec fn new_entity_slot(id: u64) -> EntitySlot {
    EntitySlot { network_id: id, integrity: 100, flags: FLAG_ALIVE, ..zero_entity() }
}

impl ClientWorld {
    /// Well-formedness: the entity table keeps its key order, and every slot
    /// carries its own network id.
    pub open spec fn wf(&self) -> bool {
        &&& self.entities.wf()
        &&& ids_match(self.entities.view())
    }

    /// Everything but the entity table and the player id is the same in both worlds.
    pub open spec fn same_settings(&self, other: &ClientWorld) -> bool {
        &&& self.latest_tick == other.latest_tick
        &&& self.workspace_manifest == other.workspace_manifest
        &&& self.shared_world_ref == other.shared_world_ref
        &&& self.input_history == other.input_history
        &&& self.last_reconciled_tick == other.last_reconciled_tick
        &&& self.prediction_enabled == other.prediction_enabled
        &&& self.workspace_bounds == other.workspace_bounds
    }

    /// An empty world with prediction disabled.
    pub fn new() -> (w: ClientWorld)
        ensures
            w.wf(),
            w.entities.view() == Map::<u64, EntitySlot>::empty(),
            w.player_network_id.is_none(),
            w.latest_tick == 0,
            w.shared_world_ref.is_none(),
            w.input_history@.len() == 0,
            w.last_reconciled_tick == 0,
            !w.prediction_enabled,
            w.workspace_bounds.is_none(),
            w.workspace_manifest@ == Map::<String, String>::empty(),
    {
        ClientWorld::with_prediction(false)
    }

    /// An empty world with the given prediction setting. With prediction enabled
    /// the sandbox bounds -250..250 are used until the server sends its own.
    pub fn with_prediction(prediction_enabled: bool) -> (w: ClientWorld)
        ensures
            w.wf(),
            w.entities.entries().len() == 0,
            w.entities.view() == Map::<u64, EntitySlot>::empty(),
            w.player_network_id.is_none(),
            w.latest_tick == 0,
            w.shared_world_ref.is_none(),
            w.input_history@.len() == 0,
            w.last_reconciled_tick == 0,
            w.prediction_enabled == prediction_enabled,
            w.workspace_bounds == (if prediction_enabled {
                Some(default_sandbox_bounds())
            } else {
                None::<RoomBounds>
            }),
            w.workspace_manifest@ == Map::<String, String>::empty(),
    {
        let entities = EntityTable::new();
        assert(entries_map(entities.entries()) =~= Map::<u64, EntitySlot>::empty());
        ClientWorld {
            entities,
            player_network_id: None,
            latest_tick: 0,
            workspace_manifest: BTreeMap::new(),
            shared_world_ref: None,
            input_history: VecDeque::new(),
            last_reconciled_tick: 0,
            prediction_enabled,
            workspace_bounds: if prediction_enabled {
                Some(
                    RoomBounds {
                        min_x: 0xC37A_0000,
                        min_y: 0xC37A_0000,
                        max_x: 0x437A_0000,
                        max_y: 0x437A_0000,
                    },
                )
            } else {
                None
            },
        }
    }

    /// The local id of a network entity: on the client they coincide.
    pub fn get_local_id(&self, network_id: u64) -> (r: Option<u64>)
        ensures
            r == Some(network_id),
    {
        Some(network_id)
    }

    /// The network id of a local entity: on the client they coincide.
    pub fn get_network_id(&self, local_id: u64) -> (r: Option<u64>)
        ensures
            r == Some(local_id),
    {
        Some(local_id)
    }

    /// The client never spawns entities itself; the placeholder id 0 is returned.
    pub fn spawn_networked(&mut self) -> (id: u64)
        ensures
            id == 0,
            *final(self) == *old(self),
    {
        0
    }

    /// As [`ClientWorld::spawn_networked`]: the placeholder id 0.
    pub fn spawn_networked_for(&mut self, client_id: u64) -> (id: u64)
        ensures
            id == 0,
            *final(self) == *old(self),
    {
        self.spawn_networked()
    }

    /// Spawning by kind is a server concern; the placeholder id 1 is returned.
    pub fn spawn_kind(&mut self, kind: u16, x: u32, y: u32, rot: u32) -> (id: u64)
        ensures
            id == 1,
    {
        1
    }

    /// The client replicates nothing to others: there are never deltas to send.
    pub fn extract_deltas(&mut self) -> (deltas: Vec<EntityUpdate>)
        ensures
            deltas@.len() == 0,
            *final(self) == *old(self),
    {
        Vec::new()
    }

    /// Stress tests are run by the server; the client world is left unchanged.
    pub fn stress_test(&mut self, count: u16, rotate: bool)
        ensures
            *final(self) == *old(self),
    {
    }

    /// Removes an entity; fails when it does not exist.
    pub fn despawn_networked(&mut self, network_id: u64) -> (r: Result<(), WorldError>)
        requires
            old(self).wf(),
        ensures
            final(self).wf(),
            final(self).entities.view() == old(self).entities.view().remove(network_id),
            r == (if old(self).entities.view().contains_key(network_id) {
                Ok::<(), WorldError>(())
            } else {
                Err(WorldError::EntityNotFound(network_id))
            }),
            final(self).player_network_id == old(self).player_network_id,
            final(self).same_settings(&*old(self)),
    {
        match self.entities.remove(network_id) {
            Some(_) => Ok(()),
            None => Err(WorldError::EntityNotFound(network_id)),
        }
    }

    /// Removes every entity.
    pub fn clear_world(&mut self)
        ensures
            final(self).wf(),
            final(self).entities.view() == Map::<u64, EntitySlot>::empty(),
            final(self).player_network_id == old(self).player_network_id,
            final(self).same_settings(&*old(self)),
    {
        self.entities.clear();
    }

    /// Sets or clears the local-player flag on an existing entity; no change for
    /// an absent one.
    fn set_local_flag(&mut self, id: u64, on: bool)
        requires
            old(self).wf(),
        ensures
            final(self).wf(),
            final(self).entities.view() == set_flag_map(old(self).entities.view(), id, on),
            final(self).player_network_id == old(self).player_network_id,
            final(self).same_settings(&*old(self)),
    {
        if let Some(i) = self.entities.find(id) {
            proof {
                lemma_entries_map_at(self.entities.entries(), i as int);
            }
            let (_, mut slot) = self.entities.entry_at(i);
            if on {
                slot.flags = slot.flags | FLAG_LOCAL_PLAYER;
            } else {
                slot.flags = slot.flags & !FLAG_LOCAL_PLAYER;
            }
            self.entities.set_at(i, slot);
        } else {
            assert(set_flag_map(self.entities.view(), id, on) == self.entities.view());
        }
    }

    /// Handles a discrete platform event:
    /// - `Possession`: the local-player flag moves from the previous player entity
    ///   (if it differs) to the possessed one (if present), and the possessed id
    ///   becomes the player id;
    /// - `Interaction`: the source remembers the target (truncated to 16 bits) and
    ///   both start the interaction flash;
    /// - `Termination` and `PayloadCollected`: the entity is despawned;
    /// - every other event leaves the world unchanged.
    pub fn handle_platform_event(&mut self, event: &WorldEvent)
        requires
            old(self).wf(),
        ensures
            final(self).wf(),
            final(self).entities.view() == event_map(
                old(self).entities.view(),
                old(self).player_network_id,
                *event,
            ),
            final(self).player_network_id == (match *event {
                WorldEvent::Possession { network_id } => Some(network_id),
                _ => old(self).player_network_id,
            }),
            final(self).same_settings(&*old(self)),
    {
        match event {
            WorldEvent::Possession { network_id } => {
                let n = *network_id;
                let prev = self.player_network_id;
                match prev {
                    Some(p) => {
                        if p != n {
                            self.set_local_flag(p, false);
                        }
                    },
                    None => {},
                }
                self.player_network_id = Some(n);
                self.set_local_flag(n, true);
            },
            WorldEvent::Interaction { source, target, amount } => {
                let src = *source;
                let tgt = *target;
                if let Some(i) = self.entities.find(src) {
                    proof {
                        lemma_entries_map_at(self.entities.entries(), i as int);
                    }
                    let (_, mut slot) = self.entities.entry_at(i);
                    slot.interaction_target_id = (tgt % 0x1_0000) as u16;
                    slot.interaction_flash_ticks = INTERACTION_FLASH_TICKS;
                    self.entities.set_at(i, slot);
                }
                if let Some(i) = self.entities.find(tgt) {
                    proof {
                        lemma_entries_map_at(self.entities.entries(), i as int);
                    }
                    let (_, mut slot) = self.entities.entry_at(i);
                    slot.interaction_flash_ticks = INTERACTION_FLASH_TICKS;
                    self.entities.set_at(i, slot);
                }
            },
            WorldEvent::Termination { target } => {
                let _ = self.despawn_networked(*target);
            },
            WorldEvent::PayloadCollected { network_id, amount } => {
                let _ = self.despawn_networked(*network_id);
            },
            _ => {},
        }
    }

    /// The effect of an integer-valued component on an existing entity.
    fn apply_component(&self, s: EntitySlot, kind: u16, payload: &[u8]) -> (r: EntitySlot)
        ensures
            r == component_slot(s, kind, payload@),
    {
        let mut r = s;
        if kind == KIND_AGENT_KIND {
            if let Some(c) = decode_agent_kind(payload) {
                r.entity_type = match c {
                    AgentClass::Standard => 1,
                    AgentClass::Heavy => 3,
                    AgentClass::Carrier => 4,
                };
            }
        } else if kind == KIND_AGENT_PROPERTIES {
            if let Some(v) = decode_agent_properties(payload) {
                r.integrity = v.integrity;
                r.priority = v.priority;
            }
        } else if kind == KIND_EXTRACTION_BEAM {
            if let Some(b) = decode_extraction_beam(payload) {
                r.extraction_active = if b.active {
                    1
                } else {
                    0
                };
                r.extraction_target_id = match b.target {
                    Some(t) => (t % 0x1_0000) as u16,
                    None => 0,
                };
            }
        } else if kind == KIND_DATA_STORE {
            if let Some(d) = decode_data_store(payload) {
                r.payload_count = d.payload_count;
                r.payload_capacity = d.capacity;
                r.flags = r.flags | FLAG_LOCAL_PLAYER;
            }
        } else if kind == KIND_RESOURCE {
            if r.entity_type == 0 {
                r.entity_type = 5;
            }
        } else if kind == KIND_INTEGRITY_POOL {
            if let Some(p) = decode_integrity_pool(payload) {
                r.integrity = p.current;
            }
        } else if kind == KIND_PRIORITY_POOL {
            if let Some(p) = decode_priority_pool(payload) {
                r.priority = p.current;
            }
        } else if kind == KIND_DATA_DROP {
            r.entity_type = 6;
        } else if kind == KIND_BEAM_MARKER {
            r.entity_type = 20;
        }
        r
    }

    /// Applies one server update. The latest tick advances to the update's tick
    /// if that is later; the entity is created if it is new (alive, integrity
    /// 100); the local-player flag is set if it is the player's entity; then the
    /// component takes effect. Transform, velocity and presence components are
    /// left to the caller (`Deferred`); workspace bounds are stored only when a
    /// shared world is attached, and are then handed back for publishing.
    pub fn apply_update(&mut self, update: &EntityUpdate) -> (outcome: ApplyOutcome)
        requires
            old(self).wf(),
        ensures
            final(self).wf(),
            final(self).latest_tick == (if update.tick > old(self).latest_tick {
                update.tick
            } else {
                old(self).latest_tick
            }),
            final(self).entities.view() == old(self).entities.view().insert(
                update.network_id,
                component_slot(
                    base_slot(
                        old(self).entities.view(),
                        old(self).player_network_id,
                        update.network_id,
                    ),
                    update.component_kind,
                    update.payload@,
                ),
            ),
            final(self).player_network_id == old(self).player_network_id,
            final(self).workspace_manifest == old(self).workspace_manifest,
            final(self).input_history == old(self).input_history,
            final(self).prediction_enabled == old(self).prediction_enabled,
            final(self).shared_world_ref == old(self).shared_world_ref,
            final(self).last_reconciled_tick == old(self).last_reconciled_tick,
            deferred_kind(update.component_kind) ==> outcome == ApplyOutcome::Deferred,
            !handled_kind(update.component_kind) ==> outcome == ApplyOutcome::Unhandled,
            update.component_kind == KIND_WORKSPACE_BOUNDS ==> {
                match msgpack_workspace_bounds(update.payload@) {
                    Some(b) => if old(self).shared_world_ref.is_some() {
                        &&& outcome == ApplyOutcome::PublishBounds(b)
                        &&& final(self).workspace_bounds == Some(b)
                    } else {
                        &&& outcome == ApplyOutcome::Applied
                        &&& final(self).workspace_bounds == old(self).workspace_bounds
                    },
                    None => {
                        &&& outcome == ApplyOutcome::Applied
                        &&& final(self).workspace_bounds == old(self).workspace_bounds
                    },
                }
            },
            update.component_kind != KIND_WORKSPACE_BOUNDS ==> final(self).workspace_bounds == old(
                self,
            ).workspace_bounds,
            handled_kind(update.component_kind) && !deferred_kind(update.component_kind)
                && update.component_kind != KIND_WORKSPACE_BOUNDS ==> outcome
                == ApplyOutcome::Applied,
    {
        if update.tick > self.latest_tick {
            self.latest_tick = update.tick;
        }
        let id = update.network_id;
        let mut slot = match self.entities.get(id) {
            Some(s) => s,
            None => EntitySlot {
                network_id: id,
                integrity: 100,
                flags: FLAG_ALIVE,
                ..EntitySlot::zeroed()
            },
        };
        if self.player_network_id == Some(id) {
            slot.flags = slot.flags | FLAG_LOCAL_PLAYER;
        }
        let kind = update.component_kind;
        let slot = self.apply_component(slot, kind, update.payload.as_slice());
        self.entities.insert(id, slot);
        if kind == KIND_TRANSFORM || kind == KIND_VELOCITY || kind == KIND_PRESENCE {
            ApplyOutcome::Deferred
        } else if kind == KIND_WORKSPACE_BOUNDS {
            match decode_workspace_bounds(update.payload.as_slice()) {
                Some(b) => {
                    if self.shared_world_ref.is_some() {
                        self.workspace_bounds = Some(b);
                        ApplyOutcome::PublishBounds(b)
                    } else {
                        ApplyOutcome::Applied
                    }
                },
                None => ApplyOutcome::Applied,
            }
        } else if kind == KIND_AGENT_KIND || kind == KIND_AGENT_PROPERTIES || kind
            == KIND_EXTRACTION_BEAM || kind == KIND_DATA_STORE || kind == KIND_RESOURCE || kind
            == KIND_INTEGRITY_POOL || kind == KIND_PRIORITY_POOL || kind == KIND_DATA_DROP || kind
            == KIND_BEAM_MARKER {
            ApplyOutcome::Applied
        } else {
            ApplyOutcome::Unhandled
        }
    }

    /// Appends the state-hash bytes of one entity.
    fn push_slot_hash_bytes(out: &mut Vec<u8>, k: u64, s: EntitySlot)
        ensures
            final(out)@ == old(out)@ + slot_hash_bytes(k, s),
    {
        let mut b = u64_to_le_bytes(k);
        out.append(&mut b);
        let mut b = u32_to_le_bytes(s.x_bits);
        out.append(&mut b);
        let mut b = u32_to_le_bytes(s.y_bits);
        out.append(&mut b);
        let mut b = u32_to_le_bytes(s.z_bits);
        out.append(&mut b);
        let mut b = u32_to_le_bytes(s.rotation_bits);
        out.append(&mut b);
        let mut b = u32_to_le_bytes(s.dx_bits);
        out.append(&mut b);
        let mut b = u32_to_le_bytes(s.dy_bits);
        out.append(&mut b);
        let mut b = u32_to_le_bytes(s.dz_bits);
        out.append(&mut b);
        let mut b = u16_to_le_bytes(s.integrity);
        out.append(&mut b);
        let mut b = u16_to_le_bytes(s.priority);
        out.append(&mut b);
        let mut b = u16_to_le_bytes(s.entity_type);
        out.append(&mut b);
        out.push(s.flags);
        out.push(s.extraction_active);
        let mut b = u16_to_le_bytes(s.payload_count);
        out.append(&mut b);
        let mut b = u16_to_le_bytes(s.extraction_target_id);
        out.append(&mut b);
        let mut b = u16_to_le_bytes(s.interaction_target_id);
        out.append(&mut b);
        out.push(s.interaction_flash_ticks);
        assert(out@ =~= old(out)@ + slot_hash_bytes(k, s));
    }

    /// The deterministic digest of the world: XXH64 with seed 0 over the latest
    /// tick followed by every entity in increasing network-id order (all integers
    /// little-endian, floating-point fields by their bit patterns).
    pub fn state_hash(&self) -> (h: u64)
        requires
            self.wf(),
        ensures
            h == xxh64(0, state_hash_bytes(self.latest_tick, self.entities.entries())),
    {
        let mut bytes = u64_to_le_bytes(self.latest_tick);
        let ghost e = self.entities.entries();
        let n = self.entities.len();
        let mut i: usize = 0;
        while i < n
            invariant
                n == e.len(),
                e == self.entities.entries(),
                self.entities.wf(),
                i <= n,
                bytes@ == spec_u64_to_le_bytes(self.latest_tick) + entries_hash_bytes(
                    e.take(i as int),
                ),
            decreases n - i,
        {
            let (k, slot) = self.entities.entry_at(i);
            Self::push_slot_hash_bytes(&mut bytes, k, slot);
            proof {
                assert(e.take(i + 1).drop_last() =~= e.take(i as int));
                assert(bytes@ =~= spec_u64_to_le_bytes(self.latest_tick) + entries_hash_bytes(
                    e.take(i + 1),
                ));
            }
            i = i + 1;
        }
        assert(e.take(n as int) =~= e);
        xxhash64(0, bytes.as_slice())
    }

    /// Records one playground input and reports whether any local-player entity
    /// exists. With prediction enabled the input is appended to the history
    /// (stamped with the latest tick, mask truncated to 8 bits), which keeps at
    /// most `INPUT_HISTORY_CAP` records; the caller then steps the local-player
    /// entities ([`ClientWorld::local_player_ids`]) with the floating-point physics.
    pub fn playground_apply_input(&mut self, move_x: u32, move_y: u32, actions_mask: u32) -> (found:
        bool)
        requires
            old(self).wf(),
        ensures
            final(self).wf(),
            found == has_local_player(old(self).entities.entries()),
            final(self).input_history@ == (if old(self).prediction_enabled {
                recorded_history(
                    old(self).input_history@,
                    InputRecord {
                        tick: old(self).latest_tick,
                        move_x,
                        move_y,
                        actions_mask: (actions_mask % 256) as u8,
                    },
                )
            } else {
                old(self).input_history@
            }),
            final(self).entities == old(self).entities,
            final(self).player_network_id == old(self).player_network_id,
            final(self).latest_tick == old(self).latest_tick,
            final(self).prediction_enabled == old(self).prediction_enabled,
            final(self).workspace_bounds == old(self).workspace_bounds,
            final(self).workspace_manifest == old(self).workspace_manifest,
            final(self).shared_world_ref == old(self).shared_world_ref,
    {
        if self.prediction_enabled {
            self.input_history.push_back(
                InputRecord {
                    tick: self.latest_tick,
                    move_x,
                    move_y,
                    actions_mask: (actions_mask % 256) as u8,
                },
            );
            if self.input_history.len() > INPUT_HISTORY_CAP {
                let _ = self.input_history.pop_front();
                proof {
                    let h = self.input_history@;
                    assert(h =~= old(self).input_history@.push(
                        InputRecord {
                            tick: old(self).latest_tick,
                            move_x,
                            move_y,
                            actions_mask: (actions_mask % 256) as u8,
                        },
                    ).drop_first());
                }
            }
        }
        let ghost e = self.entities.entries();
        let n = self.entities.len();
        let mut found = false;
        let mut i: usize = 0;
        while i < n
            invariant
                n == e.len(),
                e == self.entities.entries(),
                self.entities.wf(),
                i <= n,
                found == exists|j: int| 0 <= j < i && #[trigger] e[j].1.flags & FLAG_LOCAL_PLAYER != 0,
            decreases n - i,
        {
            let (_, slot) = self.entities.entry_at(i);
            if slot.flags & FLAG_LOCAL_PLAYER != 0 {
                found = true;
            }
            i = i + 1;
        }
        found
    }

    /// Whether a transform for entity `id` is reconciled against local
    /// prediction: prediction is on and the entity is the local player's.
    pub fn predicts_locally(&self, id: u64) -> (b: bool)
        requires
            self.wf(),
        ensures
            b == (self.prediction_enabled && self.entities.view().contains_key(id)
                && self.entities.view()[id].flags & FLAG_LOCAL_PLAYER != 0),
    {
        if !self.prediction_enabled {
            return false;
        }
        match self.entities.get(id) {
            Some(s) => s.flags & FLAG_LOCAL_PLAYER != 0,
            None => false,
        }
    }

    /// Applies a transform update the library can settle alone: the server's
    /// transform is authoritative for every entity but a locally predicted
    /// player, whose reconciliation is handed back to the caller.
    pub fn apply_transform(&mut self, update: &EntityUpdate) -> (o: TransformOutcome)
        requires
            old(self).wf(),
        ensures
            final(self).wf(),
            o == transform_outcome(*old(self), update.network_id, msgpack_transform(update.payload@)),
            o != TransformOutcome::Applied ==> *final(self) == *old(self),
            o == TransformOutcome::Applied ==> {
                &&& final(self).entities.view() == old(self).entities.view().insert(
                    update.network_id,
                    authoritative_slot(
                        old(self).entities.view()[update.network_id],
                        msgpack_transform(update.payload@)->0,
                    ),
                )
                &&& final(self).input_history@.len() == 0
                &&& final(self).player_network_id == old(self).player_network_id
                &&& final(self).latest_tick == old(self).latest_tick
                &&& final(self).prediction_enabled == old(self).prediction_enabled
                &&& final(self).workspace_bounds == old(self).workspace_bounds
                &&& final(self).workspace_manifest == old(self).workspace_manifest
                &&& final(self).shared_world_ref == old(self).shared_world_ref
                &&& final(self).last_reconciled_tick == old(self).last_reconciled_tick
            },
    {
        let id = update.network_id;
        match decode_transform(update.payload.as_slice()) {
            None => TransformOutcome::Ignored,
            Some(t) => match self.entities.get(id) {
                None => TransformOutcome::Ignored,
                Some(mut slot) => {
                    if self.predicts_locally(id) {
                        TransformOutcome::Predicted(t)
                    } else {
                        slot.x_bits = t.x;
                        slot.y_bits = t.y;
                        slot.z_bits = t.z;
                        slot.rotation_bits = t.rotation;
                        slot.entity_type = transform_entity_type(slot.entity_type, t.entity_type);
                        self.entities.insert(id, slot);
                        self.input_history.clear();
                        proof {
                            assert(ids_match(self.entities.view()));
                        }
                        TransformOutcome::Applied
                    }
                },
            },
        }
    }

    /// A velocity update (decoded by the caller): the entity, if it exists,
    /// takes over the three components' bit patterns.
    pub fn apply_velocity(&mut self, id: u64, dx: u32, dy: u32, dz: u32)
        requires
            old(self).wf(),
        ensures
            final(self).wf(),
            final(self).entities.view() == (if old(self).entities.view().contains_key(id) {
                old(self).entities.view().insert(
                    id,
                    EntitySlot { dx_bits: dx, dy_bits: dy, dz_bits: dz, ..old(self).entities.view()[id] },
                )
            } else {
                old(self).entities.view()
            }),
            final(self).player_network_id == old(self).player_network_id,
            final(self).same_settings(&*old(self)),
    {
        if let Some(mut slot) = self.entities.get(id) {
            slot.dx_bits = dx;
            slot.dy_bits = dy;
            slot.dz_bits = dz;
            self.entities.insert(id, slot);
            proof {
                assert(ids_match(self.entities.view()));
            }
        }
    }

    /// A presence update (decoded by the caller): the entity, if it exists,
    /// moves to the given position and is shown as a presence marker.
    pub fn apply_presence(&mut self, id: u64, x: u32, y: u32)
        requires
            old(self).wf(),
        ensures
            final(self).wf(),
            final(self).entities.view() == (if old(self).entities.view().contains_key(id) {
                old(self).entities.view().insert(
                    id,
                    EntitySlot {
                        x_bits: x,
                        y_bits: y,
                        entity_type: ENTITY_TYPE_PRESENCE,
                        ..old(self).entities.view()[id]
                    },
                )
            } else {
                old(self).entities.view()
            }),
            final(self).player_network_id == old(self).player_network_id,
            final(self).same_settings(&*old(self)),
    {
        if let Some(mut slot) = self.entities.get(id) {
            slot.x_bits = x;
            slot.y_bits = y;
            slot.entity_type = ENTITY_TYPE_PRESENCE;
            self.entities.insert(id, slot);
            proof {
                assert(ids_match(self.entities.view()));
            }
        }
    }

    /// The recorded inputs newer than `server_tick`, oldest first: those to
    /// replay over an authoritative transform of that tick.
    pub fn inputs_after(&self, server_tick: u64) -> (r: Vec<InputRecord>)
        ensures
            r@ == inputs_newer_than(self.input_history@, server_tick),
    {
        let ghost h = self.input_history@;
        let n = self.input_history.len();
        let mut r: Vec<InputRecord> = Vec::new();
        let mut i: usize = 0;
        while i < n
            invariant
                n == h.len(),
                h == self.input_history@,
                i <= n,
                r@ == inputs_newer_than(h.take(i as int), server_tick),
            decreases n - i,
        {
            let rec = self.input_history[i];
            proof {
                assert(h.take(i + 1).drop_last() =~= h.take(i as int));
            }
            if rec.tick > server_tick {
                r.push(rec);
            }
            i = i + 1;
        }
        assert(h.take(n as int) =~= h);
        r
    }

    /// Forgets the recorded inputs at the front of the history whose tick is
    /// at or before `server_tick` (they are acknowledged).
    pub fn prune_input_history(&mut self, server_tick: u64)
        requires
            old(self).wf(),
        ensures
            final(self).wf(),
            final(self).input_history@ == history_after(old(self).input_history@, server_tick),
            final(self).entities == old(self).entities,
            final(self).player_network_id == old(self).player_network_id,
            final(self).latest_tick == old(self).latest_tick,
            final(self).prediction_enabled == old(self).prediction_enabled,
            final(self).workspace_bounds == old(self).workspace_bounds,
            final(self).workspace_manifest == old(self).workspace_manifest,
            final(self).shared_world_ref == old(self).shared_world_ref,
            final(self).last_reconciled_tick == old(self).last_reconciled_tick,
    {
        while self.input_history.len() > 0 && self.input_history[0].tick <= server_tick
            invariant
                self.wf(),
                history_after(old(self).input_history@, server_tick) == history_after(
                    self.input_history@,
                    server_tick,
                ),
                self.entities == old(self).entities,
                self.player_network_id == old(self).player_network_id,
                self.latest_tick == old(self).latest_tick,
                self.prediction_enabled == old(self).prediction_enabled,
                self.workspace_bounds == old(self).workspace_bounds,
                self.workspace_manifest == old(self).workspace_manifest,
                self.shared_world_ref == old(self).shared_world_ref,
                self.last_reconciled_tick == old(self).last_reconciled_tick,
            ensures
                history_after(old(self).input_history@, server_tick) == history_after(
                    self.input_history@,
                    server_tick,
                ),
                !(self.input_history@.len() > 0 && self.input_history@[0].tick <= server_tick),
            decreases self.input_history@.len(),
        {
            let ghost before = self.input_history@;
            let _ = self.input_history.pop_front();
            assert(self.input_history@ =~= before.drop_first());
        }
    }

    /// Server authority: the recorded inputs are dropped.
    pub fn clear_input_history(&mut self)
        requires
            old(self).wf(),
        ensures
            final(self).wf(),
            final(self).input_history@.len() == 0,
            final(self).entities == old(self).entities,
            final(self).player_network_id == old(self).player_network_id,
            final(self).latest_tick == old(self).latest_tick,
            final(self).prediction_enabled == old(self).prediction_enabled,
            final(self).workspace_bounds == old(self).workspace_bounds,
            final(self).workspace_manifest == old(self).workspace_manifest,
            final(self).shared_world_ref == old(self).shared_world_ref,
    {
        self.input_history.clear();
    }

    /// The ids of the entities carrying the local-player flag, in increasing order.
    pub fn local_player_ids(&self) -> (ids: Vec<u64>)
        requires
            self.wf(),
        ensures
            ids@ == flagged_ids(self.entities.entries()),
    {
        let ghost e = self.entities.entries();
        let n = self.entities.len();
        let mut ids: Vec<u64> = Vec::new();
        let mut i: usize = 0;
        while i < n
            invariant
                n == e.len(),
                e == self.entities.entries(),
                self.entities.wf(),
                i <= n,
                ids@ == flagged_ids(e.take(i as int)),
            decreases n - i,
        {
            let (k, slot) = self.entities.entry_at(i);
            proof {
                assert(e.take(i + 1).drop_last() =~= e.take(i as int));
            }
            if slot.flags & FLAG_LOCAL_PLAYER != 0 {
                ids.push(k);
            }
            i = i + 1;
        }
        assert(e.take(n as int) =~= e);
        ids
    }

    /// The entity player input is aimed at: the possessed entity if the server has
    /// named one, otherwise the first entity (in id order) carrying the
    /// local-player flag.
    pub fn control_target(&self) -> (r: Option<u64>)
        requires
            self.wf(),
        ensures
            match r {
                Some(k) => is_control_target(self.player_network_id, self.entities.entries(), k),
                None => self.player_network_id.is_none() && !has_local_player(
                    self.entities.entries(),
                ),
            },
    {
        if let Some(p) = self.player_network_id {
            return Some(p);
        }
        let ghost e = self.entities.entries();
        let n = self.entities.len();
        let mut i: usize = 0;
        while i < n
            invariant
                n == e.len(),
                e == self.entities.entries(),
                self.entities.wf(),
                i <= n,
                self.player_network_id.is_none(),
                forall|j: int| 0 <= j < i ==> #[trigger] e[j].1.flags & FLAG_LOCAL_PLAYER == 0,
            decreases n - i,
        {
            let (k, slot) = self.entities.entry_at(i);
            if slot.flags & FLAG_LOCAL_PLAYER != 0 {
                assert(e[i as int].0 == k);
                return Some(k);
            }
            i = i + 1;
        }
        None
    }

    /// Writes the entities, in increasing network-id order and at most
    /// `MAX_ENTITIES` of them, into the shared world's write buffer and publishes
    /// them with `tick`. Readers then see exactly those slots.
    pub fn flush_to_shared_world(&self, sw: &mut SharedWorld, tick: u64) -> (count: u32)
        requires
            self.wf(),
            old(sw).wf(),
        ensures
            final(sw).wf(),
            count == (if self.entities.entries().len() < MAX_ENTITIES {
                self.entities.entries().len() as int
            } else {
                MAX_ENTITIES as int
            }),
            final(sw).count() == count,
            final(sw).header_view().tick == tick,
            final(sw).read_view() == entry_slots(self.entities.entries()).take(count as int),
            final(sw).active() == 1 - old(sw).active(),
            final(sw).handle() == old(sw).handle(),
    {
        let n = self.entities.len();
        let count: usize = if n < MAX_ENTITIES {
            n
        } else {
            MAX_ENTITIES
        };
        let ghost e = self.entities.entries();
        let buf = sw.get_write_buffer();
        let mut i: usize = 0;
        while i < count
            invariant
                count <= MAX_ENTITIES,
                count <= e.len(),
                e == self.entities.entries(),
                self.entities.wf(),
                i <= count,
                forall|j: int| 0 <= j < i ==> #[trigger] buf@[j] == crate::entity_table::sab_slot_of(e[j].1),
            decreases count - i,
        {
            let (_, slot) = self.entities.entry_at(i);
            buf[i] = slot.to_sab_slot();
            i = i + 1;
        }
        let ghost written = buf@;
        sw.commit_write(count as u32, tick);
        proof {
            assert(sw.read_view() =~= entry_slots(e).take(count as int));
        }
        count as u32
    }

    /// Dispatches a platform event: an exhausted resource is removed and any
    /// local-player extraction aimed at it is cleared; a workspace manifest replaces
    /// the stored one; every other event is handled by
    /// [`ClientWorld::handle_platform_event`].
    pub fn dispatch_platform_event(&mut self, event: &WorldEvent)
        requires
            old(self).wf(),
        ensures
            final(self).wf(),
            match *event {
                WorldEvent::ResourceExhausted { network_id } => {
                    &&& final(self).entities.view() == exhausted_map(
                        old(self).entities.view(),
                        network_id,
                    )
                    &&& final(self).player_network_id == old(self).player_network_id
                    &&& final(self).same_settings(&*old(self))
                },
                WorldEvent::WorkspaceManifest { manifest } => {
                    &&& final(self).entities == old(self).entities
                    &&& final(self).player_network_id == old(self).player_network_id
                    &&& final(self).workspace_manifest@ == manifest@
                    &&& final(self).latest_tick == old(self).latest_tick
                    &&& final(self).workspace_bounds == old(self).workspace_bounds
                    &&& final(self).input_history == old(self).input_history
                    &&& final(self).prediction_enabled == old(self).prediction_enabled
                    &&& final(self).shared_world_ref == old(self).shared_world_ref
                },
                _ => {
                    &&& final(self).entities.view() == event_map(
                        old(self).entities.view(),
                        old(self).player_network_id,
                        *event,
                    )
                    &&& final(self).player_network_id == (match *event {
                        WorldEvent::Possession { network_id } => Some(network_id),
                        _ => old(self).player_network_id,
                    })
                    &&& final(self).same_settings(&*old(self))
                },
            },
    {
        match event {
            WorldEvent::ResourceExhausted { network_id } => {
                let n = *network_id;
                let _ = self.entities.remove(n);
                let ghost m = old(self).entities.view();
                let ghost e0 = self.entities.entries();
                let mut i: usize = 0;
                while i < self.entities.len()
                    invariant
                        self.wf(),
                        self.same_settings(&*old(self)),
                        self.player_network_id == old(self).player_network_id,
                        keys_sorted(e0),
                        entries_map(e0) == m.remove(n),
                        self.entities.entries().len() == e0.len(),
                        i <= e0.len(),
                        forall|j: int|
                            0 <= j < e0.len() ==> #[trigger] self.entities.entries()[j].0
                                == e0[j].0,
                        forall|j: int|
                            0 <= j < i ==> #[trigger] self.entities.entries()[j].1
                                == exhausted_slot(e0[j].1, n),
                        forall|j: int|
                            i <= j < e0.len() ==> #[trigger] self.entities.entries()[j].1
                                == e0[j].1,
                    decreases e0.len() - i,
                {
                    let (_, slot) = self.entities.entry_at(i);
                    proof {
                        lemma_entries_map_at(self.entities.entries(), i as int);
                    }
                    if slot.flags & FLAG_LOCAL_PLAYER != 0 && slot.extraction_target_id == (n
                        % 0x1_0000) as u16 {
                        let mut s2 = slot;
                        s2.extraction_active = 0;
                        s2.extraction_target_id = 0;
                        self.entities.set_at(i, s2);
                    }
                    i = i + 1;
                }
                proof {
                    let e1 = self.entities.entries();
                    assert forall|k: u64| #[trigger]
                        has_key(e1, k) == m.remove(n).contains_key(k) by {
                        if has_key(e1, k) {
                            let j = key_index(e1, k);
                            assert(e0[j].0 == k);
                            lemma_entries_map_at(e0, j);
                        }
                        if m.remove(n).contains_key(k) {
                            let j = key_index(e0, k);
                            assert(e1[j].0 == k);
                        }
                    }
                    assert forall|k: u64| #[trigger] has_key(e1, k) implies entries_map(e1)[k]
                        == exhausted_map(m, n)[k] by {
                        let j = key_index(e1, k);
                        lemma_entries_map_at(e1, j);
                        lemma_entries_map_at(e0, j);
                    }
                    assert(entries_map(e1) =~= exhausted_map(m, n));
                }
            },
            WorldEvent::WorkspaceManifest { manifest } => {
                self.workspace_manifest = manifest.clone();
            },
            _ => {
                self.handle_platform_event(event);
            },
        }
    }
}

/// The slot an update starts from: the existing slot or a fresh one, with the
/// local-player flag set when the entity is the player's.
pub open spec fn base_slot(m: Map<u64, EntitySlot>, player: Option<u64>, id: u64) -> EntitySlot {
    let s = if m.contains_key(id) {
        m[id]
    } else {
        new_entity_slot(id)
    };
    if player == Some(id) {
        EntitySlot { flags: s.flags | FLAG_LOCAL_PLAYER, ..s }
    } else {
        s
    }
}

/// The entity type an agent class is drawn as.
pub open spec fn agent_class_type(c: AgentClass) -> u16 {
    match c {
        AgentClass::Standard => 1,
        AgentClass::Heavy => 3,
        AgentClass::Carrier => 4,
    }
}

/// The effect of an integer-valued component on a slot; a payload that does not
/// decode leaves the slot unchanged.
pub open spec fn component_slot(s: EntitySlot, kind: u16, payload: Seq<u8>) -> EntitySlot {
    if kind == KIND_AGENT_KIND {
        match msgpack_agent_kind(payload) {
            Some(c) => EntitySlot { entity_type: agent_class_type(c), ..s },
            None => s,
        }
    } else if kind == KIND_AGENT_PROPERTIES {
        match msgpack_agent_properties(payload) {
            Some(v) => EntitySlot { integrity: v.integrity, priority: v.priority, ..s },
            None => s,
        }
    } else if kind == KIND_EXTRACTION_BEAM {
        match msgpack_extraction_beam(payload) {
            Some(b) => EntitySlot {
                extraction_active: if b.active {
                    1u8
                } else {
                    0u8
                },
                extraction_target_id: match b.target {
                    Some(t) => (t % 0x1_0000) as u16,
                    None => 0u16,
                },
                ..s
            },
            None => s,
        }
    } else if kind == KIND_DATA_STORE {
        match msgpack_data_store(payload) {
            Some(d) => EntitySlot {
                payload_count: d.payload_count,
                payload_capacity: d.capacity,
                flags: s.flags | FLAG_LOCAL_PLAYER,
                ..s
            },
            None => s,
        }
    } else if kind == KIND_RESOURCE {
        if s.entity_type == 0 {
            EntitySlot { entity_type: 5, ..s }
        } else {
            s
        }
    } else if kind == KIND_INTEGRITY_POOL {
        match msgpack_integrity_pool(payload) {
            Some(p) => EntitySlot { integrity: p.current, ..s },
            None => s,
        }
    } else if kind == KIND_PRIORITY_POOL {
        match msgpack_priority_pool(payload) {
            Some(p) => EntitySlot { priority: p.current, ..s },
            None => s,
        }
    } else if kind == KIND_DATA_DROP {
        EntitySlot { entity_type: 6, ..s }
    } else if kind == KIND_BEAM_MARKER {
        EntitySlot { entity_type: 20, ..s }
    } else {
        s
    }
}

/// An extraction-beam update that decodes sets exactly the beam fields: the
/// entity's beam is shown active (1) exactly when the decoded beam is active
/// and inactive (0) exactly when it is not, its target is the decoded target's
/// low 16 bits (0 when there is none), and nothing else about the entity changes.
pub proof fn lemma_extraction_beam_update(s: EntitySlot, payload: Seq<u8>, b: BeamState)
    requires
        msgpack_extraction_beam(payload) == Some(b),
    ensures
        ({
            let r = component_slot(s, KIND_EXTRACTION_BEAM, payload);
            &&& (r.extraction_active == 1) == b.active
            &&& (r.extraction_active == 0) == !b.active
            &&& b.target is None ==> r.extraction_target_id == 0
            &&& (b.target matches Some(t) ==> r.extraction_target_id as int == t as int % 0x1_0000)
            &&& r == (EntitySlot {
                extraction_active: r.extraction_active,
                extraction_target_id: r.extraction_target_id,
                ..s
            })
        }),
{
}

/// The other integer components, when their payload decodes: the agent kind
/// sets the type (standard 1, heavy 3, carrier 4); agent properties set the
/// integrity and priority; a data store sets the payload count and capacity
/// and marks the entity as the local player's; integrity and priority pools
/// set the current integrity and priority; a resource marker gives an untyped
/// entity type 5; a data-drop marker sets type 6 and a beam marker type 20.
/// Each changes only those fields; a payload that does not decode, or a kind
/// the client does not handle, changes nothing.
pub proof fn lemma_component_updates(s: EntitySlot, kind: u16, payload: Seq<u8>)
    ensures
        kind == KIND_AGENT_KIND ==> (match msgpack_agent_kind(payload) {
            Some(AgentClass::Standard) => component_slot(s, kind, payload) == (EntitySlot { entity_type: 1, ..s }),
            Some(AgentClass::Heavy) => component_slot(s, kind, payload) == (EntitySlot { entity_type: 3, ..s }),
            Some(AgentClass::Carrier) => component_slot(s, kind, payload) == (EntitySlot { entity_type: 4, ..s }),
            None => component_slot(s, kind, payload) == s,
        }),
        kind == KIND_AGENT_PROPERTIES ==> (match msgpack_agent_properties(payload) {
            Some(v) => component_slot(s, kind, payload) == (EntitySlot {
                integrity: v.integrity,
                priority: v.priority,
                ..s
            }),
            None => component_slot(s, kind, payload) == s,
        }),
        kind == KIND_DATA_STORE ==> (match msgpack_data_store(payload) {
            Some(d) => {
                let r = component_slot(s, kind, payload);
                &&& r.payload_count == d.payload_count
                &&& r.payload_capacity == d.capacity
                &&& r.flags & FLAG_LOCAL_PLAYER != 0
                &&& r == (EntitySlot { payload_count: r.payload_count, payload_capacity: r.payload_capacity, flags: r.flags, ..s })
            },
            None => component_slot(s, kind, payload) == s,
        }),
        kind == KIND_INTEGRITY_POOL ==> (match msgpack_integrity_pool(payload) {
            Some(p) => component_slot(s, kind, payload) == (EntitySlot { integrity: p.current, ..s }),
            None => component_slot(s, kind, payload) == s,
        }),
        kind == KIND_PRIORITY_POOL ==> (match msgpack_priority_pool(payload) {
            Some(p) => component_slot(s, kind, payload) == (EntitySlot { priority: p.current, ..s }),
            None => component_slot(s, kind, payload) == s,
        }),
        kind == KIND_RESOURCE ==> component_slot(s, kind, payload) == (if s.entity_type == 0 {
            (EntitySlot { entity_type: 5, ..s })
        } else {
            s
        }),
        kind == KIND_DATA_DROP ==> component_slot(s, kind, payload) == (EntitySlot { entity_type: 6, ..s }),
        kind == KIND_BEAM_MARKER ==> component_slot(s, kind, payload) == (EntitySlot { entity_type: 20, ..s }),
        kind == KIND_TRANSFORM || kind == KIND_VELOCITY || kind == KIND_PRESENCE || kind
            == KIND_WORKSPACE_BOUNDS || kind == KIND_INPUT_COMMAND ==> component_slot(s, kind, payload) == s,
{
    if kind == KIND_DATA_STORE {
        let f = s.flags;
        assert((f | FLAG_LOCAL_PLAYER) & FLAG_LOCAL_PLAYER != 0) by (bit_vector);
    }
}

/// Whether the client applies components of this kind at all.
pub open spec fn handled_kind(kind: u16) -> bool {
    kind == KIND_TRANSFORM || kind == KIND_VELOCITY || kind == KIND_AGENT_KIND || kind
        == KIND_AGENT_PROPERTIES || kind == KIND_EXTRACTION_BEAM || kind == KIND_DATA_STORE || kind
        == KIND_RESOURCE || kind == KIND_INTEGRITY_POOL || kind == KIND_PRIORITY_POOL || kind
        == KIND_DATA_DROP || kind == KIND_BEAM_MARKER || kind == KIND_WORKSPACE_BOUNDS || kind
        == KIND_PRESENCE
}

/// Whether the component carries floating-point data the caller applies.
pub open spec fn deferred_kind(kind: u16) -> bool {
    kind == KIND_TRANSFORM || kind == KIND_VELOCITY || kind == KIND_PRESENCE
}

/// What became of a transform update.
#[derive(Clone, Copy, Debug, PartialEq, Eq, Structural)]
pub enum TransformOutcome {
    /// The payload did not decode or the entity does not exist: nothing changed.
    Ignored,
    /// The server's transform was taken over and the input history cleared.
    Applied,
    /// The entity is predicted locally: the caller reconciles it with this
    /// transform (wrap-aware snap, replay of newer inputs).
    Predicted(TransformBits),
}

/// The entity is the local player and prediction is on.
pub open spec fn locally_predicted(w: ClientWorld, id: u64) -> bool {
    &&& w.prediction_enabled
    &&& w.entities.view().contains_key(id)
    &&& w.entities.view()[id].flags & FLAG_LOCAL_PLAYER != 0
}

/// What a transform update (decoded as `t`) does to entity `id` of `w`.
pub open spec fn transform_outcome(w: ClientWorld, id: u64, t: Option<TransformBits>) -> TransformOutcome {
    match t {
        None => TransformOutcome::Ignored,
        Some(t) => if !w.entities.view().contains_key(id) {
            TransformOutcome::Ignored
        } else if locally_predicted(w, id) {
            TransformOutcome::Predicted(t)
        } else {
            TransformOutcome::Applied
        },
    }
}

/// The slot with the server's position, rotation and type taken over.
pub open spec fn authoritative_slot(s: EntitySlot, t: TransformBits) -> EntitySlot {
    EntitySlot {
        x_bits: t.x,
        y_bits: t.y,
        z_bits: t.z,
        rotation_bits: t.rotation,
        entity_type: spec_transform_entity_type(s.entity_type, t.entity_type),
        ..s
    }
}

/// The bytes one entity contributes to the state hash: its id, position,
/// rotation and velocity bits, integrity, priority, type, flags, extraction
/// state, payload count, target ids and flash timer (all little-endian).
pub open spec fn slot_hash_bytes(k: u64, s: EntitySlot) -> Seq<u8> {
    spec_u64_to_le_bytes(k) + spec_u32_to_le_bytes(s.x_bits) + spec_u32_to_le_bytes(s.y_bits)
        + spec_u32_to_le_bytes(s.z_bits) + spec_u32_to_le_bytes(s.rotation_bits)
        + spec_u32_to_le_bytes(s.dx_bits) + spec_u32_to_le_bytes(s.dy_bits)
        + spec_u32_to_le_bytes(s.dz_bits) + spec_u16_to_le_bytes(s.integrity)
        + spec_u16_to_le_bytes(s.priority) + spec_u16_to_le_bytes(s.entity_type) + seq![s.flags]
        + seq![s.extraction_active] + spec_u16_to_le_bytes(s.payload_count)
        + spec_u16_to_le_bytes(s.extraction_target_id) + spec_u16_to_le_bytes(
        s.interaction_target_id,
    ) + seq![s.interaction_flash_ticks]
}

/// The bytes a sequence of entries contributes to the state hash, in order.
pub open spec fn entries_hash_bytes(e: Seq<(u64, EntitySlot)>) -> Seq<u8>
    decreases e.len(),
{
    if e.len() == 0 {
        Seq::empty()
    } else {
        entries_hash_bytes(e.drop_last()) + slot_hash_bytes(e.last().0, e.last().1)
    }
}

/// The byte stream the state hash digests: the latest tick, then every entity in
/// increasing network-id order.
pub open spec fn state_hash_bytes(latest_tick: u64, e: Seq<(u64, EntitySlot)>) -> Seq<u8> {
    spec_u64_to_le_bytes(latest_tick) + entries_hash_bytes(e)
}

/// The two slots agree on every field the state hash digests.
pub open spec fn same_hashed_fields(s: EntitySlot, t: EntitySlot) -> bool {
    &&& s.x_bits == t.x_bits
    &&& s.y_bits == t.y_bits
    &&& s.z_bits == t.z_bits
    &&& s.rotation_bits == t.rotation_bits
    &&& s.dx_bits == t.dx_bits
    &&& s.dy_bits == t.dy_bits
    &&& s.dz_bits == t.dz_bits
    &&& s.integrity == t.integrity
    &&& s.priority == t.priority
    &&& s.entity_type == t.entity_type
    &&& s.flags == t.flags
    &&& s.extraction_active == t.extraction_active
    &&& s.payload_count == t.payload_count
    &&& s.extraction_target_id == t.extraction_target_id
    &&& s.interaction_target_id == t.interaction_target_id
    &&& s.interaction_flash_ticks == t.interaction_flash_ticks
}

/// Entries that agree position by position on keys and hashed fields give the
/// same hashed bytes.
proof fn lemma_entries_hash_bytes_agree(e1: Seq<(u64, EntitySlot)>, e2: Seq<(u64, EntitySlot)>)
    requires
        e1.len() == e2.len(),
        forall|i: int|
            0 <= i < e1.len() ==> #[trigger] e1[i].0 == e2[i].0 && same_hashed_fields(e1[i].1, e2[i].1),
    ensures
        entries_hash_bytes(e1) == entries_hash_bytes(e2),
    decreases e1.len(),
{
    if e1.len() > 0 {
        let n = e1.len() - 1;
        assert(e1[n].0 == e2[n].0 && same_hashed_fields(e1[n].1, e2[n].1));
        lemma_entries_hash_bytes_agree(e1.drop_last(), e2.drop_last());
        assert(slot_hash_bytes(e1.last().0, e1.last().1) == slot_hash_bytes(e2.last().0, e2.last().1));
    }
}

/// The state hash depends on the latest tick, the entity ids and the hashed
/// fields of each entity alone: two worlds that agree on these have the same
/// digest, whatever their input history, manifest, bounds, player or
/// prediction setting.
pub proof fn lemma_state_hash_depends_on_hashed_state(a: ClientWorld, b: ClientWorld)
    requires
        a.wf(),
        b.wf(),
        a.latest_tick == b.latest_tick,
        a.entities.view().dom() == b.entities.view().dom(),
        forall|k: u64|
            a.entities.view().contains_key(k) ==> same_hashed_fields(
                #[trigger] a.entities.view()[k],
                b.entities.view()[k],
            ),
    ensures
        xxh64(0, state_hash_bytes(a.latest_tick, a.entities.entries())) == xxh64(
            0,
            state_hash_bytes(b.latest_tick, b.entities.entries()),
        ),
{
    let e1 = a.entities.entries();
    let e2 = b.entities.entries();
    lemma_same_keys_same_order(e1, e2);
    assert forall|i: int| 0 <= i < e1.len() implies #[trigger] e1[i].0 == e2[i].0 && same_hashed_fields(
        e1[i].1,
        e2[i].1,
    ) by {
        lemma_entries_map_at(e1, i);
        lemma_entries_map_at(e2, i);
        assert(a.entities.view().contains_key(e1[i].0));
    }
    lemma_entries_hash_bytes_agree(e1, e2);
}

/// The XXH64 digest with `seed` of a byte stream, as `twox_hash::XxHash64` computes it.
pub uninterp spec fn xxh64(seed: u64, data: Seq<u8>) -> u64;

/// Feeds `data` to a `twox_hash::XxHash64` created with `seed` and returns its
/// digest. The digest is named, not described.
#[verifier::external_body]
fn xxhash64(seed: u64, data: &[u8]) -> (h: u64)
    ensures
        h == xxh64(seed, data@),
{
    let mut hasher = twox_hash::XxHash64::with_seed(seed);
    hasher.write(data);
    hasher.finish()
}

/// The input history after recording `r`: appended, keeping at most
/// `INPUT_HISTORY_CAP` records (the oldest is dropped).
pub open spec fn recorded_history(h: Seq<InputRecord>, r: InputRecord) -> Seq<InputRecord> {
    if h.push(r).len() > INPUT_HISTORY_CAP {
        h.push(r).drop_first()
    } else {
        h.push(r)
    }
}

/// The records of a history newer than `t`, in order.
pub open spec fn inputs_newer_than(h: Seq<InputRecord>, t: u64) -> Seq<InputRecord>
    decreases h.len(),
{
    if h.len() == 0 {
        Seq::empty()
    } else {
        inputs_newer_than(h.drop_last(), t) + (if h.last().tick > t {
            seq![h.last()]
        } else {
            Seq::empty()
        })
    }
}

/// A history without its leading records at or before `t`.
pub open spec fn history_after(h: Seq<InputRecord>, t: u64) -> Seq<InputRecord>
    decreases h.len(),
{
    if h.len() > 0 && h[0].tick <= t {
        history_after(h.drop_first(), t)
    } else {
        h
    }
}

/// The entity type after a transform carrying `incoming`: a non-zero type is
/// taken over, except by presence cursors, which keep theirs.
pub open spec fn spec_transform_entity_type(current: u16, incoming: u16) -> u16 {
    if incoming != 0 && current != 0x2007 {
        incoming
    } else {
        current
    }
}

/// The entity type after a transform carrying `incoming`.
pub fn transform_entity_type(current: u16, incoming: u16) -> (t: u16)
    ensures
        t == spec_transform_entity_type(current, incoming),
{
    if incoming != 0 && current != 0x2007 {
        incoming
    } else {
        current
    }
}

/// The ids of the entries carrying the local-player flag, in order.
pub open spec fn flagged_ids(e: Seq<(u64, EntitySlot)>) -> Seq<u64>
    decreases e.len(),
{
    if e.len() == 0 {
        Seq::empty()
    } else {
        let r = flagged_ids(e.drop_last());
        if e.last().1.flags & FLAG_LOCAL_PLAYER != 0 {
            r.push(e.last().0)
        } else {
            r
        }
    }
}

/// `k` is the entity player input is aimed at: the possessed entity if there is
/// one, otherwise the first entry carrying the local-player flag.
pub open spec fn is_control_target(player: Option<u64>, e: Seq<(u64, EntitySlot)>, k: u64) -> bool {
    match player {
        Some(p) => k == p,
        None => exists|i: int|
            0 <= i < e.len() && #[trigger] e[i].0 == k && e[i].1.flags & FLAG_LOCAL_PLAYER != 0
                && forall|j: int| 0 <= j < i ==> #[trigger] e[j].1.flags & FLAG_LOCAL_PLAYER == 0,
    }
}

/// Some entity carries the local-player flag.
pub open spec fn has_local_player(e: Seq<(u64, EntitySlot)>) -> bool {
    exists|i: int| 0 <= i < e.len() && #[trigger] e[i].1.flags & FLAG_LOCAL_PLAYER != 0
}

/// A local-player slot that was extracting from the exhausted resource `n` (its
/// target compared on the low 16 bits) stops extracting; other slots are unchanged.
pub open spec fn exhausted_slot(s: EntitySlot, n: u64) -> EntitySlot {
    if s.flags & FLAG_LOCAL_PLAYER != 0 && s.extraction_target_id == (n % 0x1_0000) as u16 {
        EntitySlot { extraction_active: 0, extraction_target_id: 0, ..s }
    } else {
        s
    }
}

/// The entity map after resource `n` is exhausted: the resource is removed and
/// local-player extraction aimed at it is cleared.
pub open spec fn exhausted_map(m: Map<u64, EntitySlot>, n: u64) -> Map<u64, EntitySlot> {
    Map::new(|k: u64| m.remove(n).contains_key(k), |k: u64| exhausted_slot(m[k], n))
}

/// The map after setting (`on`) or clearing the local-player flag of entity `id`,
/// if present.
pub open spec fn set_flag_map(m: Map<u64, EntitySlot>, id: u64, on: bool) -> Map<u64, EntitySlot> {
    if m.contains_key(id) {
        m.insert(
            id,
            EntitySlot {
                flags: if on {
                    m[id].flags | FLAG_LOCAL_PLAYER
                } else {
                    m[id].flags & !FLAG_LOCAL_PLAYER
                },
                ..m[id]
            },
        )
    } else {
        m
    }
}

/// The entity map after a platform event, for a world whose player id is `player`.
pub open spec fn event_map(m: Map<u64, EntitySlot>, player: Option<u64>, e: WorldEvent) -> Map<
    u64,
    EntitySlot,
> {
    match e {
        WorldEvent::Possession { network_id } => {
            let m1 = match player {
                Some(p) => if p != network_id {
                    set_flag_map(m, p, false)
                } else {
                    m
                },
                None => m,
            };
            set_flag_map(m1, network_id, true)
        },
        WorldEvent::Interaction { source, target, amount } => {
            let m1 = if m.contains_key(source) {
                m.insert(
                    source,
                    EntitySlot {
                        interaction_target_id: (target % 0x1_0000) as u16,
                        interaction_flash_ticks: INTERACTION_FLASH_TICKS,
                        ..m[source]
                    },
                )
            } else {
                m
            };
            if m1.contains_key(target) {
                m1.insert(
                    target,
                    EntitySlot { interaction_flash_ticks: INTERACTION_FLASH_TICKS, ..m1[target] },
                )
            } else {
                m1
            }
        },
        WorldEvent::Termination { target } => m.remove(target),
        WorldEvent::PayloadCollected { network_id, amount } => m.remove(network_id),
        _ => m,
    }
}

/// Platform events other than possession: a termination or a collected data
/// drop despawns exactly the named entity; an interaction points its source at
/// the target (low 16 bits) and starts the flash timer of source and target;
/// a resource exhausted event is handled by [`exhausted_map`], and every other
/// event (manifest, reinitialization) leaves the entities unchanged. No other
/// entity is touched.
pub proof fn lemma_platform_event_effects(m: Map<u64, EntitySlot>, player: Option<u64>, e: WorldEvent, k: u64)
    ensures
        e matches WorldEvent::Termination { target } ==> event_map(m, player, e) == m.remove(target),
        e matches WorldEvent::PayloadCollected { network_id, .. } ==> event_map(m, player, e)
            == m.remove(network_id),
        (e is WorkspaceManifest || e is Reinitialization || e is ResourceExhausted) ==> event_map(
            m,
            player,
            e,
        ) == m,
        e matches WorldEvent::Interaction { source, target, .. } ==> {
            let r = event_map(m, player, e);
            &&& r.dom() == m.dom()
            &&& (m.contains_key(source) ==> r[source].interaction_flash_ticks == 10
                && r[source].interaction_target_id as int == target as int % 0x1_0000)
            &&& (m.contains_key(target) ==> r[target].interaction_flash_ticks == 10)
            &&& (m.contains_key(k) && k != source && k != target ==> r[k] == m[k])
            &&& (m.contains_key(source) && source != target ==> r[source] == (EntitySlot {
                interaction_target_id: r[source].interaction_target_id,
                interaction_flash_ticks: 10,
                ..m[source]
            }))
            &&& (m.contains_key(target) && source != target ==> r[target] == (EntitySlot {
                interaction_flash_ticks: 10,
                ..m[target]
            }))
        },
{
    if let WorldEvent::Interaction { source, target, amount } = e {
        let r = event_map(m, player, e);
        assert(r.dom() =~= m.dom());
    }
}

/// A resource running dry: it is removed, any local-player entity extracting
/// from it (by its low 16 bits) stops extracting and loses its target, and
/// every other entity stays as it was.
pub proof fn lemma_resource_exhausted(m: Map<u64, EntitySlot>, n: u64, k: u64)
    ensures
        !exhausted_map(m, n).contains_key(n),
        exhausted_map(m, n).dom() == m.dom().remove(n),
        m.contains_key(k) && k != n ==> ({
            let s = m[k];
            let r = exhausted_map(m, n)[k];
            if s.flags & FLAG_LOCAL_PLAYER != 0 && s.extraction_target_id as int == n as int % 0x1_0000 {
                r == (EntitySlot { extraction_active: 0, extraction_target_id: 0, ..s })
            } else {
                r == s
            }
        }),
{
    assert(exhausted_map(m, n).dom() =~= m.dom().remove(n));
}

/// An authoritative transform moves the entity to the server's position and
/// rotation; the type follows the server's unless that is 0 or the entity is a
/// presence marker; nothing else about the entity changes.
pub proof fn lemma_authoritative_transform(s: EntitySlot, t: TransformBits)
    ensures
        ({
            let r = authoritative_slot(s, t);
            &&& r.x_bits == t.x && r.y_bits == t.y && r.z_bits == t.z
            &&& r.rotation_bits == t.rotation
            &&& r.entity_type == (if t.entity_type == 0 || s.entity_type == ENTITY_TYPE_PRESENCE {
                s.entity_type
            } else {
                t.entity_type
            })
            &&& r == (EntitySlot {
                x_bits: t.x,
                y_bits: t.y,
                z_bits: t.z,
                rotation_bits: t.rotation,
                entity_type: r.entity_type,
                ..s
            })
        }),
{
}

/// Possession moves the local-player flag: after the client is told it
/// controls `n`, entity `n` (if present) carries the flag, the previously
/// possessed entity (if it differs and is present) no longer does, and every
/// other entity is unchanged. No entity appears or disappears.
pub proof fn lemma_possession_moves_flag(m: Map<u64, EntitySlot>, player: Option<u64>, n: u64, k: u64)
    ensures
        event_map(m, player, WorldEvent::Possession { network_id: n }).dom() == m.dom(),
        m.contains_key(n) ==> event_map(m, player, WorldEvent::Possession { network_id: n })[n].flags
            & FLAG_LOCAL_PLAYER != 0,
        (player matches Some(p) && p != n && m.contains_key(p)) ==> event_map(
            m,
            player,
            WorldEvent::Possession { network_id: n },
        )[player->0].flags & FLAG_LOCAL_PLAYER == 0,
        m.contains_key(k) && k != n && player != Some(k) ==> event_map(
            m,
            player,
            WorldEvent::Possession { network_id: n },
        )[k] == m[k],
{
    let r = event_map(m, player, WorldEvent::Possession { network_id: n });
    assert(r.dom() =~= m.dom());
    if m.contains_key(n) {
        let f = r[n].flags;
        let g = match player {
            Some(p) => if p != n { set_flag_map(m, p, false)[n].flags } else { m[n].flags },
            None => m[n].flags,
        };
        assert(f == g | FLAG_LOCAL_PLAYER);
        assert((g | 0x04u8) & 0x04u8 != 0) by (bit_vector);
    }
    if let Some(p) = player {
        if p != n && m.contains_key(p) {
            let g = m[p].flags;
            assert((g & !0x04u8) & 0x04u8 == 0) by (bit_vector);
        }
    }
}

} // verus!
