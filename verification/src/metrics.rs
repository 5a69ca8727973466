//! Client-side telemetry buffers.
//!
//! Telemetry events are queued in a fixed-capacity ring that keeps the most
//! recent events and counts the ones it had to overwrite. Frame-time samples
//! are kept in a second ring from which the 99th percentile is taken.

use vstd::prelude::*;
use vstd::arithmetic::power::pow;

verus! {

/// Maximum number of events held in the telemetry ring.
pub const TELEMETRY_BUFFER_CAP: usize = 64;

/// How many of the most recent frame-time samples are kept.
pub const FRAME_SAMPLE_CAP: usize = 128;

/// Number of frames between metric reports from the render worker.
pub const RENDER_METRIC_IPC_INTERVAL: u32 = 60;

/// The contents a ring of capacity `cap` holds after the items `s` were pushed
/// into it starting empty: the last `cap` of them, oldest first.
pub open spec fn keep_last<T>(s: Seq<T>, cap: nat) -> Seq<T> {
    if s.len() <= cap {
        s
    } else {
        s.skip(s.len() - cap)
    }
}

/// A fixed-capacity ring buffer used as the telemetry event queue.
pub struct EventRing<T> {
    buf: Vec<T>,
    head: usize,
    len: usize,
    /// Number of events overwritten since the counter was last reset.
    pub dropped: u32,
}

impl<T> EventRing<T> {
    /// Well-formedness of the ring's internal layout.
    pub closed spec fn wf(&self) -> bool {
        &&& self.buf@.len() <= TELEMETRY_BUFFER_CAP
        &&& self.len == self.buf@.len()
        &&& if self.buf@.len() < TELEMETRY_BUFFER_CAP {
            self.head == 0
        } else {
            self.head < TELEMETRY_BUFFER_CAP
        }
    }

    /// The queued events, oldest first.
    pub closed spec fn view(&self) -> Seq<T> {
        if self.buf@.len() < TELEMETRY_BUFFER_CAP {
            self.buf@
        } else {
            self.buf@.skip(self.head as int) + self.buf@.take(self.head as int)
        }
    }

    /// The drop counter.
    pub closed spec fn dropped_count(&self) -> u32 {
        self.dropped
    }

    /// Whether another event can be pushed without the drop counter overflowing.
    pub open spec fn can_push(&self) -> bool {
        self.view().len() < TELEMETRY_BUFFER_CAP || self.dropped_count() < u32::MAX
    }

    /// The number of queued events.
    pub fn len(&self) -> (n: usize)
        requires
            self.wf(),
        ensures
            n == self.view().len(),
    {
        self.buf.len()
    }

    /// An empty ring.
    pub fn new() -> (r: EventRing<T>)
        ensures
            r.wf(),
            r.view() == Seq::<T>::empty(),
            r.dropped_count() == 0,
    {
        EventRing { buf: Vec::new(), head: 0, len: 0, dropped: 0 }
    }

    /// The ring never holds more than its capacity.
    pub proof fn lemma_bounded(&self)
        requires
            self.wf(),
        ensures
            self.view().len() <= TELEMETRY_BUFFER_CAP,
    {
    }

    /// Appends an event. When the ring is full the oldest event is overwritten
    /// and the drop counter goes up by one.
    pub fn push(&mut self, event: T)
        requires
            old(self).wf(),
            old(self).can_push(),
        ensures
            final(self).wf(),
            pushed(*old(self), event, *final(self)),
    {
        let ghost before = *self;
        if self.buf.len() < TELEMETRY_BUFFER_CAP {
            self.buf.push(event);
            self.len = self.buf.len();
            proof {
                assert(self.view() =~= before.view().push(event));
            }
        } else {
            let ghost old_buf = self.buf@;
            let ghost h = self.head as int;
            self.buf.set(self.head, event);
            self.head = (self.head + 1) % TELEMETRY_BUFFER_CAP;
            self.dropped = self.dropped + 1;
            proof {
                let v0 = old_buf.skip(h) + old_buf.take(h);
                let v1 = self.buf@.skip(self.head as int) + self.buf@.take(self.head as int);
                assert(v1 =~= v0.drop_first().push(event));
                assert(self.view() =~= before.view().drop_first().push(event));
            }
        }
    }

    /// Removes and returns every queued event, oldest first. The drop counter is
    /// left as it is.
    pub fn drain(&mut self) -> (out: Vec<T>)
        requires
            old(self).wf(),
        ensures
            final(self).wf(),
            out@ == old(self).view(),
            final(self).view() == Seq::<T>::empty(),
            final(self).dropped_count() == old(self).dropped_count(),
    {
        if self.buf.len() == 0 {
            return Vec::new();
        }
        let cap = self.buf.len();
        let out = if self.len < cap {
            let mut out = Vec::new();
            out.append(&mut self.buf);
            out
        } else {
            let mut out = self.buf.split_off(self.head);
            out.append(&mut self.buf);
            out
        };
        self.head = 0;
        self.len = 0;
        out
    }

    /// Whether no event is queued.
    pub fn is_empty(&self) -> (b: bool)
        requires
            self.wf(),
        ensures
            b == (self.view().len() == 0),
    {
        self.len == 0 && self.buf.len() == 0
    }
}

/// Index of the 99th-percentile sample among `len` samples sorted ascending:
/// `floor(len * 0.99)`, capped at the last index.
pub open spec fn spec_p99_index(len: nat) -> int {
    let i = (len * 99) / 100;
    if i < len - 1 {
        i as int
    } else {
        len - 1
    }
}

/// A reservoir of the most recent frame-time samples.
pub struct FrameSampler<T> {
    samples: Vec<T>,
    cursor: usize,
}

impl<T> FrameSampler<T> {
    /// Well-formedness: at most `FRAME_SAMPLE_CAP` samples; the overwrite cursor
    /// stays at zero until the reservoir is full.
    pub closed spec fn wf(&self) -> bool {
        &&& self.samples@.len() <= FRAME_SAMPLE_CAP
        &&& if self.samples@.len() < FRAME_SAMPLE_CAP {
            self.cursor == 0
        } else {
            self.cursor < FRAME_SAMPLE_CAP
        }
    }

    /// The stored samples, in storage order.
    pub closed spec fn view(&self) -> Seq<T> {
        self.samples@
    }

    /// The storage position the next sample overwrites once the reservoir is full.
    pub closed spec fn cursor_pos(&self) -> int {
        self.cursor as int
    }

    /// An empty sampler.
    pub fn new() -> (s: FrameSampler<T>)
        ensures
            s.wf(),
            s.view() == Seq::<T>::empty(),
    {
        FrameSampler { samples: Vec::new(), cursor: 0 }
    }

    /// Adds a sample: appended while there is room, otherwise it overwrites the
    /// position under the cursor and the cursor moves on (wrapping).
    pub fn push(&mut self, v: T)
        requires
            old(self).wf(),
        ensures
            final(self).wf(),
            final(self).view() == if old(self).view().len() < FRAME_SAMPLE_CAP {
                old(self).view().push(v)
            } else {
                old(self).view().update(old(self).cursor_pos(), v)
            },
            old(self).view().len() == FRAME_SAMPLE_CAP ==> final(self).cursor_pos() == (
            old(self).cursor_pos() + 1) % (FRAME_SAMPLE_CAP as int),
    {
        if self.samples.len() < FRAME_SAMPLE_CAP {
            self.samples.push(v);
        } else {
            self.samples.set(self.cursor, v);
            self.cursor = (self.cursor + 1) % FRAME_SAMPLE_CAP;
        }
    }

    /// The number of stored samples.
    pub fn len(&self) -> (n: usize)
        ensures
            n == self.view().len(),
    {
        self.samples.len()
    }

    /// The stored samples.
    pub fn samples(&self) -> (s: &[T])
        ensures
            s@ == self.view(),
    {
        self.samples.as_slice()
    }

    /// Replaces the stored samples by a reordering of them (the percentile
    /// selection reorders the samples in place).
    pub fn set_samples(&mut self, reordered: Vec<T>)
        requires
            old(self).wf(),
            reordered@.len() == old(self).view().len(),
        ensures
            final(self).wf(),
            final(self).view() == reordered@,
            final(self).cursor_pos() == old(self).cursor_pos(),
    {
        self.samples = reordered;
    }

    /// The position the 99th-percentile sample takes once the samples are
    /// ordered, or `None` when there are no samples.
    pub fn p99_index(&self) -> (i: Option<usize>)
        requires
            self.wf(),
        ensures
            self.view().len() == 0 ==> i.is_none(),
            self.view().len() > 0 ==> i == Some(spec_p99_index(self.view().len()) as usize),
    {
        let len = self.samples.len();
        if len == 0 {
            return None;
        }
        let idx = len * 99 / 100;
        Some(if idx < len - 1 { idx } else { len - 1 })
    }
}

/// The digit alphabet of Crockford base32 as used by ULIDs.
pub open spec fn crockford_digit(d: int) -> char {
    seq![
        '0', '1', '2', '3', '4', '5', '6', '7', '8', '9', 'A', 'B', 'C', 'D', 'E', 'F', 'G', 'H',
        'J', 'K', 'M', 'N', 'P', 'Q', 'R', 'S', 'T', 'V', 'W', 'X', 'Y', 'Z',
    ][d]
}

/// The lowercase hexadecimal digit alphabet.
pub open spec fn hex_digit(d: int) -> char {
    seq!['0', '1', '2', '3', '4', '5', '6', '7', '8', '9', 'a', 'b', 'c', 'd', 'e', 'f'][d]
}

/// The 26-character Crockford base32 text of a 128-bit ULID, most significant
/// digit first.
pub open spec fn ulid_text(id: u128) -> Seq<char> {
    Seq::new(26, |i: int| crockford_digit((id as int / pow(32, (25 - i) as nat)) % 32))
}

/// The 32-character lowercase hexadecimal text of a 128-bit value, zero-padded.
pub open spec fn hex32_text(v: u128) -> Seq<char> {
    Seq::new(32, |i: int| hex_digit((v as int / pow(16, (31 - i) as nat)) % 16))
}

/// The 128-bit ULID made of a millisecond timestamp and random bits: the low 48
/// bits of the timestamp above the low 80 bits of the random value.
pub open spec fn ulid_value(timestamp_ms: u64, random: u128) -> int {
    (timestamp_ms as int % pow(2, 48)) * pow(2, 80) + random as int % pow(2, 80)
}

/// The big-endian value of a byte sequence.
pub open spec fn be_value(s: Seq<u8>) -> int
    decreases s.len(),
{
    if s.len() == 0 {
        0
    } else {
        be_value(s.drop_last()) * 256 + s.last() as int
    }
}

/// Calls `ulid::Ulid::from_parts`, which keeps the low 48 bits of the timestamp and
/// the low 80 bits of the random value and places the timestamp above the random
/// bits; returns the 128-bit value of the ULID.
#[verifier::external_body]
fn ulid_from_parts(timestamp_ms: u64, random: u128) -> (id: u128)
    ensures
        id as int == ulid_value(timestamp_ms, random),
{
    ulid::Ulid::from_parts(timestamp_ms, random).0
}

/// Calls `ulid::Ulid::to_string`, which writes the 128-bit value as 26 Crockford
/// base32 digits, five bits per digit, most significant first.
#[verifier::external_body]
fn ulid_to_string(id: u128) -> (s: String)
    ensures
        s@ == ulid_text(id),
{
    ulid::Ulid(id).to_string()
}

/// Formats a 128-bit value with `format!("{:032x}")`: 32 lowercase hexadecimal
/// digits, zero-padded on the left.
#[verifier::external_body]
fn format_hex32(v: u128) -> (s: String)
    ensures
        s@ == hex32_text(v),
{
    format!("{:032x}", v)
}

/// `256` raised to `n`.
pub open spec fn pow256(n: nat) -> nat
    decreases n,
{
    if n == 0 {
        1
    } else {
        256 * pow256((n - 1) as nat)
    }
}

proof fn lemma_pow256_monotonic(a: nat, b: nat)
    requires
        a <= b,
    ensures
        pow256(a) <= pow256(b),
    decreases b,
{
    if a < b {
        lemma_pow256_monotonic(a, (b - 1) as nat);
    }
}

/// Packs the ten random bytes of a ULID into an integer, first byte most significant.
pub fn pack_random_bytes(bytes: &[u8; 10]) -> (r: u128)
    ensures
        r as int == be_value(bytes@),
{
    let mut acc: u128 = 0;
    let mut i: usize = 0;
    while i < 10
        invariant
            i <= 10,
            bytes@.len() == 10,
            acc as int == be_value(bytes@.take(i as int)),
            acc < pow256(i as nat),
        decreases 10 - i,
    {
        let b = bytes[i];
        proof {
            assert(bytes@.take(i + 1).drop_last() =~= bytes@.take(i as int));
            lemma_pow256_monotonic(i as nat, 9);
            reveal_with_fuel(pow256, 10);
            assert(pow256(9) == 0x1_0000_0000_0000_0000_00);
        }
        let a = acc;
        assert(a < 0x1_0000_0000_0000_0000_00u128 ==> (a << 8u128) | (b as u128) == a * 256 + (
        b as u128)) by (bit_vector);
        acc = (acc << 8u128) | (b as u128);
        i = i + 1;
    }
    assert(bytes@.take(10) =~= bytes@);
    acc
}

/// Builds the telemetry identifiers from a millisecond timestamp and ten random
/// bytes: the ULID of those parts as Crockford base32 (`session_id`) and as 32
/// lowercase hexadecimal digits (`trace_id`).
pub fn ulid_ids_from_parts(timestamp_ms: u64, random_bytes: &[u8; 10]) -> (ids: (String, String))
    ensures
        ids.0@ == ulid_text(ulid_value(timestamp_ms, be_value(random_bytes@) as u128) as u128),
        ids.1@ == hex32_text(ulid_value(timestamp_ms, be_value(random_bytes@) as u128) as u128),
{
    let random = pack_random_bytes(random_bytes);
    let id = ulid_from_parts(timestamp_ms, random);
    let session_id = ulid_to_string(id);
    let trace_id = format_hex32(id);
    (session_id, trace_id)
}

/// Calls `getrandom::getrandom` to fill ten bytes from the system's random
/// source. Nothing is stated of the bytes; `None` when the source fails.
#[verifier::external_body]
fn random_bytes10() -> (r: Option<[u8; 10]>)
{
    let mut bytes = [0u8; 10];
    match getrandom::getrandom(&mut bytes) {
        Ok(()) => Some(bytes),
        Err(_) => None,
    }
}

/// Fresh telemetry identifiers for a session starting at `timestamp_ms`: ten
/// random bytes are drawn and combined as in [`ulid_ids_from_parts`]. `None`
/// when no randomness is available.
pub fn generate_ulid_ids(timestamp_ms: u64) -> (r: Option<(String, String)>)
    ensures
        r matches Some(ids) ==> exists|b: Seq<u8>|
            #![trigger be_value(b)]
            b.len() == 10 && ids.0@ == ulid_text(
                ulid_value(timestamp_ms, be_value(b) as u128) as u128,
            ) && ids.1@ == hex32_text(ulid_value(timestamp_ms, be_value(b) as u128) as u128),
{
    match random_bytes10() {
        Some(bytes) => {
            let ids = ulid_ids_from_parts(timestamp_ms, &bytes);
            assert(bytes@.len() == 10);
            Some(ids)
        },
        None => None,
    }
}

/// The events a ring holds after `s` was pushed into an empty one, push by
/// push as [`EventRing::push`] states it.
pub open spec fn ring_after<T>(s: Seq<T>) -> Seq<T>
    decreases s.len(),
{
    if s.len() == 0 {
        Seq::empty()
    } else {
        let v = ring_after(s.drop_last());
        if v.len() < TELEMETRY_BUFFER_CAP {
            v.push(s.last())
        } else {
            v.drop_first().push(s.last())
        }
    }
}

/// The drop count after `s` was pushed into an empty ring, push by push as
/// [`EventRing::push`] states it.
pub open spec fn drops_after<T>(s: Seq<T>) -> int
    decreases s.len(),
{
    if s.len() == 0 {
        0
    } else {
        drops_after(s.drop_last()) + if ring_after(s.drop_last()).len() < TELEMETRY_BUFFER_CAP {
            0int
        } else {
            1int
        }
    }
}

/// [`ring_after`] keeps the last `min(n, 64)` events of a history of `n`, and
/// [`drops_after`] counts the rest.
proof fn lemma_ring_after_history<T>(s: Seq<T>)
    ensures
        ring_after(s) == keep_last(s, TELEMETRY_BUFFER_CAP as nat),
        drops_after(s) == if s.len() > TELEMETRY_BUFFER_CAP {
            s.len() - TELEMETRY_BUFFER_CAP
        } else {
            0
        },
    decreases s.len(),
{
    if s.len() > 0 {
        let p = s.drop_last();
        lemma_ring_after_history(p);
        lemma_ring_keeps_most_recent(p, ring_after(p), s.last());
        assert(p.push(s.last()) =~= s);
    }
}

/// Pushing `e` into the ring `before` leaves `after`, as [`EventRing::push`] states it.
pub open spec fn pushed<T>(before: EventRing<T>, e: T, after: EventRing<T>) -> bool {
    &&& after.view() == if before.view().len() < TELEMETRY_BUFFER_CAP {
        before.view().push(e)
    } else {
        before.view().drop_first().push(e)
    }
    &&& after.dropped_count() == if before.view().len() < TELEMETRY_BUFFER_CAP {
        before.dropped_count() as int
    } else {
        before.dropped_count() + 1
    }
}

/// The first `i` rings of a push trace follow [`ring_after`] and [`drops_after`].
proof fn lemma_push_trace_prefix<T>(rings: Seq<EventRing<T>>, events: Seq<T>, i: int)
    requires
        rings.len() == events.len() + 1,
        rings[0].view().len() == 0,
        rings[0].dropped_count() == 0,
        forall|j: int| 0 <= j < events.len() ==> #[trigger] pushed(rings[j], events[j], rings[j + 1]),
        0 <= i <= events.len(),
    ensures
        rings[i].view() == ring_after(events.take(i)),
        rings[i].dropped_count() == drops_after(events.take(i)),
    decreases i,
{
    if i > 0 {
        lemma_push_trace_prefix(rings, events, i - 1);
        assert(events.take(i).drop_last() =~= events.take(i - 1));
        let j = i - 1;
        assert(pushed(rings[j], events[j], rings[j + 1]));
    } else {
        assert(events.take(0) =~= Seq::<T>::empty());
    }
}

/// After pushing `e_1, ..., e_n` into a new ring (`rings[0]` new, `rings[i + 1]`
/// what [`EventRing::push`] leaves of `rings[i]` given `events[i]`), the ring
/// holds the last `min(n, 64)` events in push order (which is what
/// [`EventRing::drain`] returns, leaving the ring empty), and its drop count is
/// `n - 64` when that is positive, else 0.
pub proof fn lemma_ring_after_pushes<T>(rings: Seq<EventRing<T>>, events: Seq<T>)
    requires
        rings.len() == events.len() + 1,
        rings[0].view().len() == 0,
        rings[0].dropped_count() == 0,
        forall|j: int| 0 <= j < events.len() ==> #[trigger] pushed(rings[j], events[j], rings[j + 1]),
    ensures
        rings.last().view() == keep_last(events, TELEMETRY_BUFFER_CAP as nat),
        rings.last().dropped_count() == if events.len() > TELEMETRY_BUFFER_CAP {
            events.len() - TELEMETRY_BUFFER_CAP
        } else {
            0
        },
{
    lemma_push_trace_prefix(rings, events, events.len() as int);
    assert(events.take(events.len() as int) =~= events);
    lemma_ring_after_history(events);
}

/// Pushing into the ring keeps exactly the most recent `TELEMETRY_BUFFER_CAP`
/// events: if the ring holds the last events of a history `s`, then after pushing
/// `e` it holds the last events of `s` followed by `e`.
pub proof fn lemma_ring_keeps_most_recent<T>(s: Seq<T>, held: Seq<T>, e: T)
    requires
        held == keep_last(s, TELEMETRY_BUFFER_CAP as nat),
    ensures
        (if held.len() < TELEMETRY_BUFFER_CAP {
            held.push(e)
        } else {
            held.drop_first().push(e)
        }) == keep_last(s.push(e), TELEMETRY_BUFFER_CAP as nat),
{
    let cap = TELEMETRY_BUFFER_CAP as nat;
    if s.len() < cap {
        assert(held.push(e) =~= s.push(e));
    } else if s.len() == cap {
        assert(held.drop_first().push(e) =~= s.push(e).skip(s.push(e).len() - cap));
    } else {
        assert(held.drop_first().push(e) =~= s.push(e).skip(s.push(e).len() - cap));
    }
}

} // verus!
