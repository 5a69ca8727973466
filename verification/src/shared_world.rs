//! Double-buffered compact replication layout.
//!
//! The game worker writes a complete set of entity slots into the inactive
//! buffer and then publishes it with a single update of the packed header
//! state, which holds the entity count in its high 32 bits and the index of
//! the active (readable) buffer in its low 32 bits. Readers always take the
//! count and the buffer index from that one value, so they see a consistent
//! pair. Floating-point slot fields are carried as their IEEE-754 bit patterns.

use vstd::prelude::*;
use std::collections::HashSet;

verus! {

/// Maximum number of entities in one buffer (two buffers are kept).
pub const MAX_ENTITIES: usize = 8192;

/// Size in bytes of the shared-memory header: the packed count/active state
/// and the tick (8 bytes each), the four room-bound words, the room-bounds
/// sequence counter and the sub-tick fraction (4 bytes each).
pub const SAB_HEADER_SIZE: usize = 40;

/// Size in bytes of one entity slot in the shared-memory layout: the 48-byte
/// compact slot (see [`SabSlot`]).
pub const SAB_SLOT_SIZE: usize = 48;

/// Total size in bytes of the shared-memory layout: header plus two buffers of
/// `MAX_ENTITIES` slots, 786,472 bytes. The slots are the 48-byte compact
/// slots, so the two buffers take exactly 768 KiB. The header is 40 bytes, not
/// 16 or 32: besides the packed state and the tick it holds the four
/// room-bound words, their sequence counter and the sub-tick fraction, which
/// readers take from it.
pub const SHARED_MEMORY_SIZE: usize = SAB_HEADER_SIZE + SAB_SLOT_SIZE * MAX_ENTITIES * 2;

/// Flag bit: the entity is alive.
pub const FLAG_ALIVE: u8 = 0x01;

/// Flag bit: the entity is the local player's own agent.
pub const FLAG_LOCAL_PLAYER: u8 = 0x04;

/// One entity as the render worker reads it: the 48-byte compact
/// slot (identifier, position, rotation, velocity, the two vitals, type,
/// flags, extraction state, payload count and extraction target). Position,
/// rotation and velocity are held as the bit patterns of their `f32` values.
/// The client world keeps three more fields per entity (payload capacity,
/// interaction target and flash timer, see `EntitySlot`); they are not
/// published, which keeps the slot at 48 bytes.
#[derive(Clone, Copy, Debug, PartialEq, Eq, Structural)]
pub struct SabSlot {
    /// Network-wide unique entity identifier.
    pub network_id: u64,
    /// World-space position X (`f32` bits).
    pub x_bits: u32,
    /// World-space position Y (`f32` bits).
    pub y_bits: u32,
    /// World-space position Z (`f32` bits).
    pub z_bits: u32,
    /// Orientation yaw (`f32` bits).
    pub rotation_bits: u32,
    /// Velocity X (`f32` bits).
    pub dx_bits: u32,
    /// Velocity Y (`f32` bits).
    pub dy_bits: u32,
    /// Velocity Z (`f32` bits).
    pub dz_bits: u32,
    /// Current integrity points.
    pub integrity: u16,
    /// Current priority points.
    pub priority: u16,
    /// Entity type identifier.
    pub entity_type: u16,
    /// Bit flags (alive `0x01`, local player `0x04`).
    pub flags: u8,
    /// Extraction beam state (0 inactive, 1 active).
    pub extraction_active: u8,
    /// Current payload count.
    pub payload_count: u16,
    /// Network id of the extraction target, truncated to 16 bits.
    pub extraction_target_id: u16,
}

/// The all-zero slot.
pub open spec fn zero_slot() -> SabSlot {
    SabSlot {
        network_id: 0,
        x_bits: 0,
        y_bits: 0,
        z_bits: 0,
        rotation_bits: 0,
        dx_bits: 0,
        dy_bits: 0,
        dz_bits: 0,
        integrity: 0,
        priority: 0,
        entity_type: 0,
        flags: 0,
        extraction_active: 0,
        payload_count: 0,
        extraction_target_id: 0,
    }
}

impl SabSlot {
    /// The all-zero slot (every field zero).
    pub fn zeroed() -> (s: SabSlot)
        ensures
            s == zero_slot(),
    {
        SabSlot {
            network_id: 0,
            x_bits: 0,
            y_bits: 0,
            z_bits: 0,
            rotation_bits: 0,
            dx_bits: 0,
            dy_bits: 0,
            dz_bits: 0,
            integrity: 0,
            priority: 0,
            entity_type: 0,
            flags: 0,
            extraction_active: 0,
            payload_count: 0,
                extraction_target_id: 0,
                }
    }
}

/// The value of the low 32 bits of a packed state: the active buffer index.
pub open spec fn state_active(state: u64) -> int {
    state as int % 0x1_0000_0000
}

/// The value of the high 32 bits of a packed state: the entity count.
pub open spec fn state_count(state: u64) -> int {
    state as int / 0x1_0000_0000
}

/// Extracts the active buffer index from a packed header state.
pub fn unpack_active(state: u64) -> (active: u32)
    ensures
        active == state_active(state),
{
    assert((state & 0xFFFF_FFFFu64) == state % 0x1_0000_0000u64) by (bit_vector);
    (state & 0xFFFF_FFFFu64) as u32
}

/// Extracts the entity count from a packed header state.
pub fn unpack_count(state: u64) -> (count: u32)
    ensures
        count == state_count(state),
{
    assert((state >> 32u64) == state / 0x1_0000_0000u64) by (bit_vector);
    assert(state / 0x1_0000_0000u64 <= 0xFFFF_FFFFu64) by (bit_vector);
    (state >> 32u64) as u32
}

/// Packs an entity count and an active buffer index into one header state.
pub fn pack_state(count: u32, active: u32) -> (state: u64)
    ensures
        state_count(state) == count,
        state_active(state) == active,
        state == count as int * 0x1_0000_0000 + active as int,
{
    let c = count as u64;
    let a = active as u64;
    assert(c <= 0xFFFF_FFFFu64 && a <= 0xFFFF_FFFFu64 ==> ((c << 32u64) | a) == c * 0x1_0000_0000u64 + a)
        by (bit_vector);
    (c << 32u64) | a
}

/// The size in bytes of the shared-memory region of a shared world.
pub fn shared_world_size() -> (n: usize)
    ensures
        n == SHARED_MEMORY_SIZE,
{
    SHARED_MEMORY_SIZE
}

/// Whether a shared-world address handed in from JavaScript may be used: it
/// must be non-null and 8-byte aligned (the only checks possible for memory
/// the library did not allocate).
pub fn is_acceptable_external_ptr(ptr: u32) -> (b: bool)
    ensures
        b == (ptr != 0 && ptr % 8 == 0),
{
    ptr != 0 && ptr % 8 == 0
}

/// The number of slots a reader takes from the active buffer: the published
/// count, capped at `MAX_ENTITIES`.
pub open spec fn read_len(state: u64) -> int {
    if state_count(state) < MAX_ENTITIES as int {
        state_count(state)
    } else {
        MAX_ENTITIES as int
    }
}

/// The room bounds a header holds, as `(min_x, min_y, max_x, max_y)`.
pub open spec fn room_bounds_of(h: SabHeader) -> (u32, u32, u32, u32) {
    (h.room_min_x, h.room_min_y, h.room_max_x, h.room_max_y)
}

/// Reading the room bounds after storing them gives the stored rectangle,
/// whatever the sequence counter and the rest of the header hold.
pub proof fn lemma_room_bounds_read_after_set(
    h: SabHeader,
    seq: u32,
    min_x: u32,
    min_y: u32,
    max_x: u32,
    max_y: u32,
)
    ensures
        room_bounds_of(
            SabHeader {
                room_min_x: min_x,
                room_min_y: min_y,
                room_max_x: max_x,
                room_max_y: max_y,
                room_bounds_seq: seq,
                ..h
            },
        ) == (min_x, min_y, max_x, max_y),
{
}

/// Byte offset of buffer `idx` (0 or 1) inside the shared-memory layout.
pub fn buffer_offset(idx: usize) -> (offset: usize)
    requires
        idx <= 1,
    ensures
        offset == SAB_HEADER_SIZE + idx * MAX_ENTITIES * SAB_SLOT_SIZE,
{
    SAB_HEADER_SIZE + idx * MAX_ENTITIES * SAB_SLOT_SIZE
}

/// The header of the shared world. `state` packs the entity count (high 32 bits)
/// and the active buffer index (low 32 bits). Room bounds and the sub-tick
/// fraction are `f32` bit patterns; `room_bounds_seq` is the sequence counter that
/// guards the room bounds (odd while a write is in progress).
#[derive(Clone, Copy, Debug, PartialEq, Eq, Structural)]
pub struct SabHeader {
    pub state: u64,
    pub tick: u64,
    pub room_min_x: u32,
    pub room_min_y: u32,
    pub room_max_x: u32,
    pub room_max_y: u32,
    pub room_bounds_seq: u32,
    pub sub_tick_fraction: u32,
}

/// The set of handles of live shared worlds, used to validate handles that
/// come back across the JavaScript boundary. Handles are non-zero multiples of
/// eight and are never reused.
pub struct PointerRegistry {
    live: HashSet<usize>,
    next: usize,
}

impl PointerRegistry {
    /// The handles currently registered.
    pub closed spec fn live_handles(&self) -> Set<usize> {
        self.live@
    }

    /// The handle the next registration will hand out.
    pub closed spec fn next_handle(&self) -> usize {
        self.next
    }

    /// Well-formedness: every live handle is a non-zero multiple of eight below the
    /// next handle, which is itself a non-zero multiple of eight.
    pub closed spec fn wf(&self) -> bool {
        &&& self.next > 0
        &&& self.next % 8 == 0
        &&& forall|h: usize| #[trigger] self.live@.contains(h) ==> 0 < h < self.next && h % 8 == 0
    }

    /// An empty registry.
    pub fn new() -> (r: PointerRegistry)
        ensures
            r.wf(),
            r.live_handles() == Set::<usize>::empty(),
            r.next_handle() == 8,
    {
        PointerRegistry { live: HashSet::new(), next: 8 }
    }

    /// Every registered handle is a non-zero multiple of eight below the next
    /// handle. Since each registration hands out the next handle and advances it,
    /// a handle that was released is never handed out again.
    pub proof fn lemma_live_below_next(&self, h: usize)
        requires
            self.wf(),
            self.live_handles().contains(h),
        ensures
            0 < h < self.next_handle(),
            h % 8 == 0,
            self.next_handle() % 8 == 0,
    {
    }

    /// Whether another handle can be handed out.
    pub fn can_allocate(&self) -> (b: bool)
        ensures
            b == (self.next_handle() <= usize::MAX - 8),
    {
        self.next <= usize::MAX - 8
    }

    /// Whether `handle` belongs to a live shared world.
    pub fn contains(&self, handle: usize) -> (b: bool)
        ensures
            b == self.live_handles().contains(handle),
    {
        broadcast use vstd::std_specs::hash::group_hash_axioms;
        self.live.contains(&handle)
    }
}


/// A double buffer of entity slots with its header, owning its memory.
pub struct SharedWorld {
    header: SabHeader,
    buffer_a: Box<[SabSlot; MAX_ENTITIES]>,
    buffer_b: Box<[SabSlot; MAX_ENTITIES]>,
    handle: usize,
}

/// Each commit flips the active buffer and a new world starts at buffer 0, so
/// after `k` commits the active index is `k mod 2`: `worlds` is a new world
/// followed by the state after each of `k` calls of [`SharedWorld::commit_write`].
pub proof fn lemma_active_index_counts_commits(worlds: Seq<SharedWorld>)
    requires
        worlds.len() >= 1,
        worlds[0].active() == 0,
        forall|i: int|
            0 <= i < worlds.len() - 1 ==> #[trigger] worlds[i + 1].active() == 1 - worlds[i].active(),
    ensures
        worlds.last().active() == (worlds.len() - 1) % 2,
    decreases worlds.len(),
{
    if worlds.len() > 1 {
        let prefix = worlds.drop_last();
        assert forall|i: int| 0 <= i < prefix.len() - 1 implies #[trigger] prefix[i + 1].active() == 1
            - prefix[i].active() by {
            assert(worlds[i + 1].active() == 1 - worlds[i].active());
        }
        lemma_active_index_counts_commits(prefix);
        let k = worlds.len() - 2;
        assert(worlds[k + 1].active() == 1 - worlds[k].active());
    }
}

impl SharedWorld {
    /// The header as last written.
    pub closed spec fn header_view(&self) -> SabHeader {
        self.header
    }

    /// The contents of buffer `idx` (0 or 1).
    pub closed spec fn buffer(&self, idx: int) -> Seq<SabSlot> {
        if idx == 0 {
            self.buffer_a@
        } else {
            self.buffer_b@
        }
    }

    /// The handle under which this world is registered.
    pub closed spec fn handle(&self) -> usize {
        self.handle
    }

    /// Well-formedness: the active index is 0 or 1 and no room-bounds write is
    /// in progress.
    pub open spec fn wf(&self) -> bool {
        &&& state_active(self.header_view().state) <= 1
        &&& self.header_view().room_bounds_seq % 2 == 0
    }

    /// The index of the buffer readers see.
    pub open spec fn active(&self) -> int {
        state_active(self.header_view().state)
    }

    /// The entity count published with the active buffer.
    pub open spec fn count(&self) -> int {
        state_count(self.header_view().state)
    }

    /// The slots readers see: the published count (capped at `MAX_ENTITIES`)
    /// of the active buffer.
    pub open spec fn read_view(&self) -> Seq<SabSlot> {
        self.buffer(self.active()).take(read_len(self.header_view().state))
    }

    /// The slots of the buffer the writer fills next (the inactive buffer).
    pub open spec fn write_view(&self) -> Seq<SabSlot> {
        self.buffer(1 - self.active())
    }

    /// Creates a zeroed shared world and registers its handle: both buffers
    /// hold zero slots, buffer 0 is active with no entities, the tick is 0.
    pub fn new(registry: &mut PointerRegistry) -> (w: SharedWorld)
        requires
            old(registry).wf(),
            old(registry).next_handle() <= usize::MAX - 8,
        ensures
            w.wf(),
            w.header_view() == (SabHeader {
                state: 0,
                tick: 0,
                room_min_x: 0,
                room_min_y: 0,
                room_max_x: 0,
                room_max_y: 0,
                room_bounds_seq: 0,
                sub_tick_fraction: 0,
            }),
            w.buffer(0) == Seq::new(MAX_ENTITIES as nat, |i: int| zero_slot()),
            w.buffer(1) == Seq::new(MAX_ENTITIES as nat, |i: int| zero_slot()),
            w.handle() == old(registry).next_handle(),
            !old(registry).live_handles().contains(w.handle()),
            final(registry).wf(),
            final(registry).live_handles() == old(registry).live_handles().insert(w.handle()),
            final(registry).next_handle() == old(registry).next_handle() + 8,
    {
        broadcast use vstd::std_specs::hash::group_hash_axioms;
        broadcast use vstd::array::group_array_axioms;
        let handle = registry.next;
        registry.live.insert(handle);
        registry.next = registry.next + 8;
        let zero = SabSlot::zeroed();
        let buffer_a = Box::new([zero; MAX_ENTITIES]);
        let buffer_b = Box::new([zero; MAX_ENTITIES]);
        let w = SharedWorld {
            header: SabHeader {
                state: 0,
                tick: 0,
                room_min_x: 0,
                room_min_y: 0,
                room_max_x: 0,
                room_max_y: 0,
                room_bounds_seq: 0,
                sub_tick_fraction: 0,
            },
            buffer_a,
            buffer_b,
            handle,
        };
        assert(w.buffer(0) =~= Seq::new(MAX_ENTITIES as nat, |i: int| zero_slot()));
        assert(w.buffer(1) =~= Seq::new(MAX_ENTITIES as nat, |i: int| zero_slot()));
        w
    }

    /// Whether `ptr` is the handle of a live shared world.
    pub fn is_valid(registry: &PointerRegistry, ptr: usize) -> (b: bool)
        ensures
            b == registry.live_handles().contains(ptr),
    {
        registry.contains(ptr)
    }

    /// The handle of this world.
    pub fn as_ptr(&self) -> (p: usize)
        ensures
            p == self.handle(),
    {
        self.handle
    }

    /// Unregisters this world; its handle is no longer valid.
    pub fn release(self, registry: &mut PointerRegistry)
        requires
            old(registry).wf(),
        ensures
            final(registry).wf(),
            final(registry).live_handles() == old(registry).live_handles().remove(self.handle()),
            final(registry).next_handle() == old(registry).next_handle(),
    {
        broadcast use vstd::std_specs::hash::group_hash_axioms;
        registry.live.remove(&self.handle);
    }

    /// The header of this world.
    pub fn header(&self) -> (h: &SabHeader)
        ensures
            *h == self.header_view(),
    {
        &self.header
    }

    /// The active buffer index (0 or 1).
    pub fn active_index(&self) -> (i: u32)
        requires
            self.wf(),
        ensures
            i == self.active(),
            i <= 1,
    {
        unpack_active(self.header.state)
    }

    /// The entity count published with the active buffer.
    pub fn entity_count(&self) -> (c: u32)
        ensures
            c == self.count(),
    {
        unpack_count(self.header.state)
    }

    /// The server tick of the active buffer.
    pub fn tick(&self) -> (t: u64)
        ensures
            t == self.header_view().tick,
    {
        self.header.tick
    }

    /// The sub-tick progress fraction (`f32` bits).
    pub fn sub_tick_fraction(&self) -> (f: u32)
        ensures
            f == self.header_view().sub_tick_fraction,
    {
        self.header.sub_tick_fraction
    }

    /// Stores the sub-tick progress fraction (`f32` bits); nothing else changes.
    pub fn set_sub_tick_fraction(&mut self, fraction: u32)
        ensures
            final(self).header_view() == (SabHeader {
                sub_tick_fraction: fraction,
                ..old(self).header_view()
            }),
            forall|i: int| final(self).buffer(i) == old(self).buffer(i),
            final(self).handle() == old(self).handle(),
    {
        self.header.sub_tick_fraction = fraction;
    }

    /// The slots currently visible to readers. The active index and the count are
    /// taken from one read of the packed state, so they always belong together.
    pub fn get_read_buffer(&self) -> (r: &[SabSlot])
        requires
            self.wf(),
        ensures
            r@ == self.read_view(),
    {
        let state = self.header.state;
        let active = unpack_active(state);
        let count = unpack_count(state) as usize;
        let count = if count < MAX_ENTITIES {
            count
        } else {
            MAX_ENTITIES
        };
        let buf: &[SabSlot] = if active == 0 {
            self.buffer_a.as_slice()
        } else {
            self.buffer_b.as_slice()
        };
        let r = &buf[0..count];
        assert(r@ =~= self.read_view());
        r
    }

    /// The buffer available for writing (the inactive one). Writing through it
    /// changes nothing that readers see until the next `commit_write`.
    pub fn get_write_buffer(&mut self) -> (buf: &mut [SabSlot; MAX_ENTITIES])
        requires
            old(self).wf(),
        ensures
            buf@ == old(self).write_view(),
            final(self).wf(),
            final(self).header_view() == old(self).header_view(),
            final(self).handle() == old(self).handle(),
            final(self).read_view() == old(self).read_view(),
            final(self).write_view() == final(buf)@,
    {
        let active = self.active_index();
        if active == 0 {
            &mut *self.buffer_b
        } else {
            &mut *self.buffer_a
        }
    }

    /// Publishes the inactive buffer: it becomes the active one, holding
    /// `entity_count` entities of server tick `tick`.
    pub fn commit_write(&mut self, entity_count: u32, tick: u64)
        requires
            old(self).wf(),
        ensures
            final(self).wf(),
            final(self).active() == 1 - old(self).active(),
            final(self).count() == entity_count,
            final(self).read_view() == old(self).write_view().take(
                if entity_count < MAX_ENTITIES { entity_count as int } else { MAX_ENTITIES as int },
            ),
            final(self).write_view() == old(self).buffer(old(self).active()),
            final(self).header_view() == (SabHeader {
                state: final(self).header_view().state,
                tick,
                ..old(self).header_view()
            }),
            forall|i: int| final(self).buffer(i) == old(self).buffer(i),
            final(self).handle() == old(self).handle(),
    {
        let active = self.active_index();
        let next_active = 1 - active;
        let packed = pack_state(entity_count, next_active);
        self.header.tick = tick;
        self.header.state = packed;
    }

    /// Stores the room bounds (`f32` bits) under the sequence counter: the counter
    /// is made odd while the four values are written and even again afterwards.
    pub fn set_room_bounds(&mut self, min_x: u32, min_y: u32, max_x: u32, max_y: u32)
        requires
            old(self).wf(),
        ensures
            final(self).wf(),
            final(self).header_view() == (SabHeader {
                room_min_x: min_x,
                room_min_y: min_y,
                room_max_x: max_x,
                room_max_y: max_y,
                room_bounds_seq: final(self).header_view().room_bounds_seq,
                ..old(self).header_view()
            }),
            final(self).header_view().room_bounds_seq == (old(self).header_view().room_bounds_seq
                + 2) % 0x1_0000_0000,
            forall|i: int| final(self).buffer(i) == old(self).buffer(i),
            final(self).handle() == old(self).handle(),
    {
        let seq = self.header.room_bounds_seq;
        self.header.room_bounds_seq = seq.wrapping_add(1);
        self.header.room_min_x = min_x;
        self.header.room_min_y = min_y;
        self.header.room_max_x = max_x;
        self.header.room_max_y = max_y;
        self.header.room_bounds_seq = seq.wrapping_add(2);
    }

    /// Reads the room bounds (`f32` bits) as `(min_x, min_y, max_x, max_y)`.
    /// The sequence counter is even, so the rectangle is the one last stored.
    pub fn get_room_bounds(&self) -> (b: (u32, u32, u32, u32))
        requires
            self.wf(),
        ensures
            b == room_bounds_of(self.header_view()),
    {
        let seq1 = self.header.room_bounds_seq;
        let min_x = self.header.room_min_x;
        let min_y = self.header.room_min_y;
        let max_x = self.header.room_max_x;
        let max_y = self.header.room_max_y;
        let seq2 = self.header.room_bounds_seq;
        assert(seq1 % 2 == 0 && seq1 == seq2);
        (min_x, min_y, max_x, max_y)
    }
}

} // verus!
