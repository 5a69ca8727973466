//! The client's table of replicated entities, ordered by network id.

use vstd::prelude::*;
use std::collections::BTreeMap;
use crate::shared_world::SabSlot;

verus! {

broadcast use vstd::std_specs::btree::group_btree_axioms, vstd::laws_cmp::group_laws_cmp;

/// The client's full state of one entity: the published slot's fields (see
/// [`SabSlot`]) plus the payload capacity, the interaction target and the
/// interaction flash timer, which only the game worker uses.
#[derive(Clone, Copy, Debug, PartialEq, Eq, Structural)]
pub struct EntitySlot {
    /// Network-wide unique entity identifier.
    pub network_id: u64,
    /// World-space position X (`f32` bits).
    pub x_bits: u32,
    /// World-space position Y (`f32` bits).
    pub y_bits: u32,
    /// World-space position Z (`f32` bits).
    pub z_bits: u32,
    /// Orientation yaw (`f32` bits).
    pub rotation_bits: u32,
    /// Velocity X (`f32` bits).
    pub dx_bits: u32,
    /// Velocity Y (`f32` bits).
    pub dy_bits: u32,
    /// Velocity Z (`f32` bits).
    pub dz_bits: u32,
    /// Current integrity points.
    pub integrity: u16,
    /// Current priority points.
    pub priority: u16,
    /// Entity type identifier.
    pub entity_type: u16,
    /// Bit flags (alive `0x01`, local player `0x04`).
    pub flags: u8,
    /// Extraction beam state (0 inactive, 1 active).
    pub extraction_active: u8,
    /// Current payload count.
    pub payload_count: u16,
    /// Payload capacity.
    pub payload_capacity: u16,
    /// Network id of the extraction target, truncated to 16 bits.
    pub extraction_target_id: u16,
    /// Network id of the last interaction target, truncated to 16 bits.
    pub interaction_target_id: u16,
    /// Remaining ticks of the interaction flash effect.
    pub interaction_flash_ticks: u8,
}

/// The all-zero entity.
pub open spec fn zero_entity() -> EntitySlot {
    EntitySlot {
        network_id: 0,
        x_bits: 0,
        y_bits: 0,
        z_bits: 0,
        rotation_bits: 0,
        dx_bits: 0,
        dy_bits: 0,
        dz_bits: 0,
        integrity: 0,
        priority: 0,
        entity_type: 0,
        flags: 0,
        extraction_active: 0,
        payload_count: 0,
        payload_capacity: 0,
        extraction_target_id: 0,
        interaction_target_id: 0,
        interaction_flash_ticks: 0,
    }
}

/// The published slot of an entity: its fields but the three unpublished ones.
pub open spec fn sab_slot_of(e: EntitySlot) -> SabSlot {
    SabSlot {
        network_id: e.network_id,
        x_bits: e.x_bits,
        y_bits: e.y_bits,
        z_bits: e.z_bits,
        rotation_bits: e.rotation_bits,
        dx_bits: e.dx_bits,
        dy_bits: e.dy_bits,
        dz_bits: e.dz_bits,
        integrity: e.integrity,
        priority: e.priority,
        entity_type: e.entity_type,
        flags: e.flags,
        extraction_active: e.extraction_active,
        payload_count: e.payload_count,
        extraction_target_id: e.extraction_target_id,
    }
}

/// Publishing copies an entity field for field: the published slot carries the
/// entity's id, position, rotation, velocity, vitals, type, flags, beam state,
/// payload count and extraction target, each unchanged.
pub proof fn lemma_published_slot(e: EntitySlot)
    ensures
        ({
            let p = sab_slot_of(e);
            &&& p.network_id == e.network_id
            &&& p.x_bits == e.x_bits && p.y_bits == e.y_bits && p.z_bits == e.z_bits
            &&& p.rotation_bits == e.rotation_bits
            &&& p.dx_bits == e.dx_bits && p.dy_bits == e.dy_bits && p.dz_bits == e.dz_bits
            &&& p.integrity == e.integrity && p.priority == e.priority
            &&& p.entity_type == e.entity_type
            &&& p.flags == e.flags
            &&& p.extraction_active == e.extraction_active
            &&& p.payload_count == e.payload_count
            &&& p.extraction_target_id == e.extraction_target_id
        }),
{
}

/// The published slots of the entries are the entries' slots copied field for
/// field, in key order.
pub proof fn lemma_entry_slots(e: Seq<(u64, EntitySlot)>, i: int)
    requires
        0 <= i < e.len(),
    ensures
        entry_slots(e).len() == e.len(),
        entry_slots(e)[i] == sab_slot_of(e[i].1),
        entry_slots(e)[i].extraction_target_id == e[i].1.extraction_target_id,
        entry_slots(e)[i].extraction_active == e[i].1.extraction_active,
        entry_slots(e)[i].network_id == e[i].1.network_id,
        entry_slots(e)[i].x_bits == e[i].1.x_bits && entry_slots(e)[i].y_bits == e[i].1.y_bits,
        entry_slots(e)[i].entity_type == e[i].1.entity_type && entry_slots(e)[i].flags == e[i].1.flags,
{
}

impl EntitySlot {
    /// The all-zero entity (every field zero).
    pub fn zeroed() -> (s: EntitySlot)
        ensures
            s == zero_entity(),
    {
        EntitySlot {
            network_id: 0,
            x_bits: 0,
            y_bits: 0,
            z_bits: 0,
            rotation_bits: 0,
            dx_bits: 0,
            dy_bits: 0,
            dz_bits: 0,
            integrity: 0,
            priority: 0,
            entity_type: 0,
            flags: 0,
            extraction_active: 0,
            payload_count: 0,
            payload_capacity: 0,
            extraction_target_id: 0,
            interaction_target_id: 0,
            interaction_flash_ticks: 0,
        }
    }

    /// One simulation step of the interaction flash: a running countdown goes
    /// down by one and stops at zero.
    pub fn decay_interaction_flash(&mut self)
        ensures
            *final(self) == (EntitySlot {
                interaction_flash_ticks: if old(self).interaction_flash_ticks > 0 {
                    (old(self).interaction_flash_ticks - 1) as u8
                } else {
                    0
                },
                ..*old(self)
            }),
    {
        if self.interaction_flash_ticks > 0 {
            self.interaction_flash_ticks = self.interaction_flash_ticks - 1;
        }
    }

    /// The published slot of this entity.
    pub fn to_sab_slot(&self) -> (s: SabSlot)
        ensures
            s == sab_slot_of(*self),
    {
        SabSlot {
            network_id: self.network_id,
            x_bits: self.x_bits,
            y_bits: self.y_bits,
            z_bits: self.z_bits,
            rotation_bits: self.rotation_bits,
            dx_bits: self.dx_bits,
            dy_bits: self.dy_bits,
            dz_bits: self.dz_bits,
            integrity: self.integrity,
            priority: self.priority,
            entity_type: self.entity_type,
            flags: self.flags,
            extraction_active: self.extraction_active,
            payload_count: self.payload_count,
            extraction_target_id: self.extraction_target_id,
        }
    }
}

/// Keys of the entries are strictly increasing.
pub open spec fn keys_sorted(e: Seq<(u64, EntitySlot)>) -> bool {
    forall|i: int, j: int| 0 <= i < j < e.len() ==> #[trigger] e[i].0 < #[trigger] e[j].0
}

/// Some entry has key `k`.
pub open spec fn has_key(e: Seq<(u64, EntitySlot)>, k: u64) -> bool {
    exists|i: int| 0 <= i < e.len() && #[trigger] e[i].0 == k
}

/// The position of the entry with key `k` (meaningful when `has_key(e, k)`).
pub open spec fn key_index(e: Seq<(u64, EntitySlot)>, k: u64) -> int {
    choose|i: int| 0 <= i < e.len() && #[trigger] e[i].0 == k
}

/// The map from network id to slot that a sequence of entries describes.
pub open spec fn entries_map(e: Seq<(u64, EntitySlot)>) -> Map<u64, EntitySlot> {
    Map::new(|k: u64| has_key(e, k), |k: u64| e[key_index(e, k)].1)
}

/// The published slots of the entries, in key order.
pub open spec fn entry_slots(e: Seq<(u64, EntitySlot)>) -> Seq<SabSlot> {
    e.map_values(|p: (u64, EntitySlot)| sab_slot_of(p.1))
}

/// The keys of the entries, in order.
pub open spec fn entry_keys(e: Seq<(u64, EntitySlot)>) -> Seq<u64> {
    e.map_values(|p: (u64, EntitySlot)| p.0)
}

/// In sorted entries, the entry at position `i` is the one the map gives for its key.
pub proof fn lemma_entries_map_at(e: Seq<(u64, EntitySlot)>, i: int)
    requires
        keys_sorted(e),
        0 <= i < e.len(),
    ensures
        entries_map(e).contains_key(e[i].0),
        key_index(e, e[i].0) == i,
        entries_map(e)[e[i].0] == e[i].1,
{
    assert(has_key(e, e[i].0));
    let j = key_index(e, e[i].0);
    if j < i {
        assert(e[j].0 < e[i].0);
    } else if j > i {
        assert(e[i].0 < e[j].0);
    }
}

/// Sorted entries with the same key set agree on their first `n` keys.
proof fn lemma_keys_agree_below(e1: Seq<(u64, EntitySlot)>, e2: Seq<(u64, EntitySlot)>, n: int)
    requires
        keys_sorted(e1),
        keys_sorted(e2),
        entries_map(e1).dom() == entries_map(e2).dom(),
        0 <= n <= e1.len(),
        n <= e2.len(),
    ensures
        forall|i: int| 0 <= i < n ==> #[trigger] e1[i].0 == e2[i].0,
    decreases n,
{
    if n > 0 {
        lemma_keys_agree_below(e1, e2, n - 1);
        let i = n - 1;
        let k1 = e1[i].0;
        let k2 = e2[i].0;
        assert(has_key(e1, k1));
        assert(has_key(e2, k2));
        assert(entries_map(e1).dom().contains(k1));
        assert(entries_map(e2).dom().contains(k2));
        assert(has_key(e2, k1));
        assert(has_key(e1, k2));
        let j = key_index(e2, k1);
        let j2 = key_index(e1, k2);
        if k1 < k2 {
            if j < i {
                assert(e1[j].0 == e2[j].0);
                assert(e1[j].0 < e1[i].0);
            } else if j > i {
                assert(e2[i].0 < e2[j].0);
            }
        } else if k2 < k1 {
            if j2 < i {
                assert(e1[j2].0 == e2[j2].0);
                assert(e2[j2].0 < e2[i].0);
            } else if j2 > i {
                assert(e1[i].0 < e1[j2].0);
            }
        }
    }
}

/// Two sorted entry sequences that describe maps with the same keys list the
/// same keys in the same positions.
pub proof fn lemma_same_keys_same_order(e1: Seq<(u64, EntitySlot)>, e2: Seq<(u64, EntitySlot)>)
    requires
        keys_sorted(e1),
        keys_sorted(e2),
        entries_map(e1).dom() == entries_map(e2).dom(),
    ensures
        e1.len() == e2.len(),
        forall|i: int| 0 <= i < e1.len() ==> #[trigger] e1[i].0 == e2[i].0,
{
    if e1.len() < e2.len() {
        let n = e1.len() as int;
        lemma_keys_agree_below(e1, e2, n);
        let k = e2[n].0;
        assert(has_key(e2, k));
        assert(entries_map(e2).dom().contains(k));
        assert(has_key(e1, k));
        let j = key_index(e1, k);
        assert(e1[j].0 == e2[j].0);
        assert(e2[j].0 < e2[n].0);
    } else if e2.len() < e1.len() {
        let n = e2.len() as int;
        lemma_keys_agree_below(e1, e2, n);
        let k = e1[n].0;
        assert(has_key(e1, k));
        assert(entries_map(e1).dom().contains(k));
        assert(has_key(e2, k));
        let j = key_index(e2, k);
        assert(e1[j].0 == e2[j].0);
        assert(e1[j].0 < e1[n].0);
    } else {
        lemma_keys_agree_below(e1, e2, e1.len() as int);
    }
}

/// Replicated entities keyed by network id, iterated in increasing id order.
/// The slots live in a `BTreeMap`; beside it the ids are kept in increasing
/// order, which gives each entity its position for in-order traversal and
/// in-place update.
pub struct EntityTable {
    ids: Vec<u64>,
    slots: BTreeMap<u64, EntitySlot>,
}

impl EntityTable {
    /// The entries, in increasing key order.
    pub closed spec fn entries(&self) -> Seq<(u64, EntitySlot)> {
        self.ids@.map_values(|k: u64| (k, self.slots@[k]))
    }

    /// The ordered ids are exactly the keys of the map.
    pub closed spec fn ids_index_slots(&self) -> bool {
        forall|k: u64| #[trigger] self.slots@.contains_key(k) <==> self.ids@.contains(k)
    }

    /// Well-formedness: keys strictly increasing, and the ordered ids are the
    /// keys of the map.
    pub open spec fn wf(&self) -> bool {
        &&& keys_sorted(self.entries())
        &&& self.ids_index_slots()
    }

    /// The table as a map from network id to slot.
    pub open spec fn view(&self) -> Map<u64, EntitySlot> {
        entries_map(self.entries())
    }

    /// The entries' map is the map of slots.
    proof fn lemma_view_is_slots(&self)
        requires
            self.wf(),
        ensures
            self.view() == self.slots@,
    {
        let e = self.entries();
        assert forall|k: u64| #[trigger] has_key(e, k) == self.slots@.contains_key(k) by {
            if has_key(e, k) {
                let j = key_index(e, k);
                assert(self.ids@[j] == k);
                assert(self.ids@.contains(k));
            }
            if self.slots@.contains_key(k) {
                assert(self.ids@.contains(k));
                let j = choose|j: int| 0 <= j < self.ids@.len() && self.ids@[j] == k;
                assert(e[j].0 == k);
            }
        }
        assert forall|k: u64| #[trigger] has_key(e, k) implies entries_map(e)[k] == self.slots@[k] by {
            let j = key_index(e, k);
            lemma_entries_map_at(e, j);
        }
        assert(self.view() =~= self.slots@);
    }

    /// An empty table.
    pub fn new() -> (t: EntityTable)
        ensures
            t.wf(),
            t.entries() == Seq::<(u64, EntitySlot)>::empty(),
    {
        let t = EntityTable { ids: Vec::new(), slots: BTreeMap::new() };
        assert(t.entries() =~= Seq::<(u64, EntitySlot)>::empty());
        t
    }

    /// Number of entities.
    pub fn len(&self) -> (n: usize)
        ensures
            n == self.entries().len(),
    {
        self.ids.len()
    }

    /// Whether the table is empty.
    pub fn is_empty(&self) -> (b: bool)
        ensures
            b == (self.entries().len() == 0),
    {
        self.ids.len() == 0
    }

    /// The entry at position `i` in key order.
    pub fn entry_at(&self, i: usize) -> (p: (u64, EntitySlot))
        requires
            self.wf(),
            i < self.entries().len(),
        ensures
            p == self.entries()[i as int],
    {
        let k = self.ids[i];
        proof {
            assert(self.ids@.contains(k));
        }
        match self.slots.get(&k) {
            Some(s) => (k, *s),
            None => (k, EntitySlot::zeroed()),
        }
    }

    /// Position of the entry with key `k`, if any.
    pub fn find(&self, k: u64) -> (r: Option<usize>)
        requires
            self.wf(),
        ensures
            match r {
                Some(i) => i < self.entries().len() && self.entries()[i as int].0 == k,
                None => !has_key(self.entries(), k),
            },
    {
        let mut i: usize = 0;
        while i < self.ids.len()
            invariant
                i <= self.entries().len(),
                self.entries().len() == self.ids@.len(),
                forall|j: int| 0 <= j < i ==> self.entries()[j].0 != k,
            decreases self.ids@.len() - i,
        {
            if self.ids[i] == k {
                return Some(i);
            }
            i = i + 1;
        }
        None
    }

    /// Whether an entity with id `k` is present.
    pub fn contains_key(&self, k: u64) -> (b: bool)
        requires
            self.wf(),
        ensures
            b == self.view().contains_key(k),
    {
        proof {
            self.lemma_view_is_slots();
        }
        self.slots.contains_key(&k)
    }

    /// The slot of entity `k`, if present.
    pub fn get(&self, k: u64) -> (r: Option<EntitySlot>)
        requires
            self.wf(),
        ensures
            r == (if self.view().contains_key(k) {
                Some(self.view()[k])
            } else {
                None::<EntitySlot>
            }),
    {
        proof {
            self.lemma_view_is_slots();
        }
        match self.slots.get(&k) {
            Some(s) => Some(*s),
            None => None,
        }
    }

    /// Replaces the slot at position `i`, keeping its key.
    pub fn set_at(&mut self, i: usize, slot: EntitySlot)
        requires
            old(self).wf(),
            i < old(self).entries().len(),
        ensures
            final(self).wf(),
            final(self).entries() == old(self).entries().update(
                i as int,
                (old(self).entries()[i as int].0, slot),
            ),
            final(self).view() == old(self).view().insert(old(self).entries()[i as int].0, slot),
    {
        proof {
            self.lemma_view_is_slots();
        }
        let ghost e0 = self.entries();
        let k = self.ids[i];
        self.slots.insert(k, slot);
        proof {
            assert(self.ids@.contains(k));
            assert forall|j: int| 0 <= j < e0.len() && j != i implies #[trigger] self.ids@[j] != k by {
                if j < i {
                    assert(e0[j].0 < e0[i as int].0);
                } else {
                    assert(e0[i as int].0 < e0[j].0);
                }
            }
            assert(self.entries() =~= e0.update(i as int, (k, slot)));
            self.lemma_view_is_slots();
        }
    }

    /// Inserts or replaces the slot of entity `k`, keeping key order.
    pub fn insert(&mut self, k: u64, slot: EntitySlot)
        requires
            old(self).wf(),
        ensures
            final(self).wf(),
            final(self).view() == old(self).view().insert(k, slot),
            final(self).entries().len() == old(self).entries().len() + (if old(
                self,
            ).view().contains_key(k) {
                0int
            } else {
                1int
            }),
            (forall|j: int| 0 <= j < old(self).entries().len() ==> #[trigger] old(self).entries()[j].0
                < k) ==> final(self).entries() == old(self).entries().push((k, slot)),
    {
        proof {
            self.lemma_view_is_slots();
        }
        let ghost e0 = self.entries();
        let mut p: usize = 0;
        while p < self.ids.len() && self.ids[p] < k
            invariant
                p <= self.entries().len(),
                self.entries().len() == self.ids@.len(),
                e0 == self.entries(),
                forall|j: int| 0 <= j < p ==> self.entries()[j].0 < k,
            decreases self.ids@.len() - p,
        {
            p = p + 1;
        }
        if p < self.ids.len() && self.ids[p] == k {
            proof {
                lemma_entries_map_at(e0, p as int);
            }
            self.set_at(p, slot);
        } else {
            proof {
                assert forall|j: int| 0 <= j < e0.len() implies #[trigger] e0[j].0 != k by {
                    if j > p {
                        assert(e0[p as int].0 < e0[j].0);
                    }
                }
                assert(!self.ids@.contains(k)) by {
                    if self.ids@.contains(k) {
                        let j = choose|j: int| 0 <= j < self.ids@.len() && self.ids@[j] == k;
                        assert(e0[j].0 == k);
                    }
                }
            }
            let ghost ids0 = self.ids@;
            let ghost slots0 = self.slots@;
            self.ids.insert(p, k);
            self.slots.insert(k, slot);
            proof {
                let e1 = self.entries();
                assert(self.ids@ =~= ids0.subrange(0, p as int).push(k) + ids0.subrange(
                    p as int,
                    ids0.len() as int,
                ));
                assert forall|j: int| 0 <= j < e1.len() implies #[trigger] e1[j] == (if j < p {
                    e0[j]
                } else if j == p {
                    (k, slot)
                } else {
                    e0[j - 1]
                }) by {
                    if j < p {
                        assert(self.ids@[j] == ids0[j]);
                        assert(ids0[j] != k);
                    } else if j > p {
                        assert(self.ids@[j] == ids0[j - 1]);
                        assert(ids0[j - 1] != k);
                    }
                }
                assert(e1 =~= e0.subrange(0, p as int).push((k, slot)) + e0.subrange(
                    p as int,
                    e0.len() as int,
                ));
                if forall|j: int| 0 <= j < e0.len() ==> #[trigger] e0[j].0 < k {
                    assert(p == e0.len());
                    assert(e1 =~= e0.push((k, slot)));
                }
                assert forall|a: int, b: int| 0 <= a < b < e1.len() implies #[trigger] e1[a].0
                    < #[trigger] e1[b].0 by {
                    if b < p {
                    } else if b == p {
                    } else if a < p {
                        assert(e1[b] == e0[b - 1]);
                    } else if a == p {
                        assert(e1[b] == e0[b - 1]);
                        assert(e0[p as int].0 >= k);
                        if p < b - 1 {
                            assert(e0[p as int].0 < e0[b - 1].0);
                        }
                    } else {
                        assert(e1[a] == e0[a - 1]);
                        assert(e1[b] == e0[b - 1]);
                    }
                }
                assert forall|q: u64| #[trigger] self.slots@.contains_key(q) <==> self.ids@.contains(q) by {
                    if self.ids@.contains(q) {
                        let j = choose|j: int| 0 <= j < self.ids@.len() && self.ids@[j] == q;
                        if j < p {
                            assert(ids0[j] == q);
                            assert(ids0.contains(q));
                        } else if j > p {
                            assert(ids0[j - 1] == q);
                            assert(ids0.contains(q));
                        }
                    }
                    if slots0.contains_key(q) {
                        assert(ids0.contains(q));
                        let j = choose|j: int| 0 <= j < ids0.len() && ids0[j] == q;
                        if j < p {
                            assert(self.ids@[j] == q);
                        } else {
                            assert(self.ids@[j + 1] == q);
                        }
                    }
                    if q == k {
                        assert(self.ids@[p as int] == q);
                    }
                }
                self.lemma_view_is_slots();
            }
        }
    }

    /// Removes entity `k`, returning its slot if it was present.
    pub fn remove(&mut self, k: u64) -> (r: Option<EntitySlot>)
        requires
            old(self).wf(),
        ensures
            final(self).wf(),
            final(self).view() == old(self).view().remove(k),
            r == (if old(self).view().contains_key(k) {
                Some(old(self).view()[k])
            } else {
                None::<EntitySlot>
            }),
    {
        proof {
            self.lemma_view_is_slots();
        }
        let ghost e0 = self.entries();
        match self.find(k) {
            None => {
                proof {
                    assert(!self.slots@.contains_key(k));
                    assert(entries_map(e0).remove(k) =~= entries_map(e0));
                }
                None
            },
            Some(i) => {
                let ghost ids0 = self.ids@;
                let ghost slots0 = self.slots@;
                let _ = self.ids.remove(i);
                let removed = self.slots.remove(&k);
                proof {
                    assert(ids0[i as int] == k);
                    assert forall|j: int| 0 <= j < ids0.len() && j != i implies #[trigger] ids0[j] != k by {
                        if j < i {
                            assert(e0[j].0 < e0[i as int].0);
                        } else {
                            assert(e0[i as int].0 < e0[j].0);
                        }
                    }
                    assert(self.ids@ =~= ids0.subrange(0, i as int) + ids0.subrange(i + 1, ids0.len() as int));
                    let e1 = self.entries();
                    assert forall|j: int| 0 <= j < e1.len() implies #[trigger] e1[j] == (if j < i {
                        e0[j]
                    } else {
                        e0[j + 1]
                    }) by {
                        if j < i {
                            assert(self.ids@[j] == ids0[j]);
                        } else {
                            assert(self.ids@[j] == ids0[j + 1]);
                        }
                    }
                    assert forall|a: int, b: int| 0 <= a < b < e1.len() implies #[trigger] e1[a].0
                        < #[trigger] e1[b].0 by {
                        let a0 = if a < i { a } else { a + 1 };
                        let b0 = if b < i { b } else { b + 1 };
                        assert(e1[a] == e0[a0]);
                        assert(e1[b] == e0[b0]);
                    }
                    assert forall|q: u64| #[trigger] self.slots@.contains_key(q) <==> self.ids@.contains(q) by {
                        if self.ids@.contains(q) {
                            let j = choose|j: int| 0 <= j < self.ids@.len() && self.ids@[j] == q;
                            let j0 = if j < i { j } else { j + 1 };
                            assert(ids0[j0] == q);
                            assert(ids0.contains(q));
                        }
                        if slots0.contains_key(q) && q != k {
                            assert(ids0.contains(q));
                            let j = choose|j: int| 0 <= j < ids0.len() && ids0[j] == q;
                            if j < i {
                                assert(self.ids@[j] == q);
                            } else {
                                assert(self.ids@[j - 1] == q);
                            }
                        }
                    }
                    self.lemma_view_is_slots();
                }
                match removed {
                    Some(s) => Some(s),
                    None => None,
                }
            },
        }
    }

    /// Removes every entity.
    pub fn clear(&mut self)
        ensures
            final(self).wf(),
            final(self).entries() == Seq::<(u64, EntitySlot)>::empty(),
            final(self).view() == Map::<u64, EntitySlot>::empty(),
    {
        self.ids.clear();
        self.slots.clear();
        assert(self.entries() =~= Seq::<(u64, EntitySlot)>::empty());
        assert(entries_map(self.entries()) =~= Map::<u64, EntitySlot>::empty());
    }
}

} // verus!
