//! Decoding of received message bodies into the events a tick works on.
//!
//! A message body is first read as a component update (the packet header of
//! the encoder followed by the raw component payload); only when that fails is
//! it read as a wire event, of which the clear acknowledgement, despawns and
//! platform events matter to the client. Fragments are reassembled first and
//! the whole message is then read as a component update. The client's own
//! commands go out as the encoder's wire events.

use vstd::prelude::*;
use aetheris_encoder_serde::SerdeEncoder;
use aetheris_protocol::events::NetworkEvent::{ClearWorld, EntityDespawned, PlatformEvent};
use aetheris_protocol::events::{FragmentedEvent, NetworkEvent as N, PlatformEvent as P};
use aetheris_protocol::traits::Encoder;
use aetheris_protocol::types::ClientId;
use aetheris_protocol::Reassembler;
use crate::session::InboundEvent;
use crate::world_state::{EntityUpdate, WorldEvent as W};
use crate::world_state::WorldEvent::{
    Interaction, PayloadCollected, Possession, Reinitialization, ResourceExhausted, Termination,
    WorkspaceManifest,
};
use self::WireEvent::{Batch, Cleared, Despawned, Fragment, Other, Ping, Platform, Pong, Undecodable};

verus! {

/// The largest number of fragments a message may be split into.
pub const MAX_TOTAL_FRAGMENTS: u16 = 1024;

/// What a message body holds when read as a wire event: the variants the
/// client acts on, with their fields as plain values.
#[derive(Debug)]
pub enum WireEvent {
    /// The server pinged with this tick.
    Ping(u64),
    /// The server answered a ping sent at this tick.
    Pong(u64),
    /// One fragment of a larger message: sender, message id, fragment index,
    /// fragment count and payload.
    Fragment(u64, u32, u16, u16, Vec<u8>),
    /// A batch of component updates.
    Batch(Vec<EntityUpdate>),
    /// The server acknowledged a world clear.
    Cleared,
    /// The server despawned this entity.
    Despawned(u64),
    /// A discrete platform event (positions as `f32` bit patterns).
    Platform(W),
    /// Any other wire event.
    Other,
    /// The bytes are no wire event at all.
    Undecodable,
}

/// What `SerdeEncoder::decode` makes of a message body: the network id,
/// component kind, payload and tick of a component update (`None` on error).
pub uninterp spec fn wire_update(data: Seq<u8>) -> Option<(u64, u16, Seq<u8>, u64)>;

/// What `SerdeEncoder::decode_event` makes of a message body.
pub uninterp spec fn wire_event(data: Seq<u8>) -> WireEvent;

/// Calls `Encoder::decode` of `SerdeEncoder`. The header fields are carried
/// over one for one; the payload is the part of `data` after the header.
#[verifier::external_body]
pub(crate) fn decode_update(data: &[u8]) -> (r: Option<EntityUpdate>)
    ensures
        match r {
            Some(u) => {
                &&& wire_update(data@) == Some((u.network_id, u.component_kind, u.payload@, u.tick))
                &&& u.payload@.len() <= data@.len()
                &&& u.payload@ == data@.subrange(data@.len() - u.payload@.len(), data@.len() as int)
            },
            None => wire_update(data@) is None,
        },
{
    match SerdeEncoder::new().decode(data) {
        Ok(u) => Some(EntityUpdate {
            network_id: u.network_id.0,
            component_kind: u.component_kind.0,
            payload: u.payload,
            tick: u.tick,
        }),
        Err(_) => None,
    }
}

#[verifier::external_type_specification]
#[verifier::external_body]
pub struct ExPlatformEvent(P);

/// The platform event with its network ids unwrapped and its positions as
/// `f32` bit patterns, variant for variant. Only [`decode_wire_event`] uses it,
/// inside its trusted body; nothing is stated of it.
#[verifier::external_body]
fn world_event_of(event: P) -> W {
    match event {
        P::ResourceExhausted { network_id } => ResourceExhausted { network_id: network_id.0 },
        P::Possession { network_id } => Possession { network_id: network_id.0 },
        P::WorkspaceManifest { manifest } => WorkspaceManifest { manifest },
        P::Interaction { source, target, amount } => Interaction { source: source.0, target: target.0, amount },
        P::Termination { target } => Termination { target: target.0 },
        P::Reinitialization { target, x, y } => Reinitialization { target: target.0, x: x.to_bits(), y: y.to_bits() },
        P::PayloadCollected { network_id, amount } => PayloadCollected { network_id: network_id.0, amount }
    }
}

/// Calls `SerdeEncoder::decode_event`. Pings, pongs, fragments, replication
/// batches, clear acknowledgements, despawns and platform events are carried
/// over field for field; every other event becomes `Other`, a decoding error
/// `Undecodable`.
#[verifier::external_body]
pub(crate) fn decode_wire_event(data: &[u8]) -> (r: WireEvent)
    ensures
        r == wire_event(data@),
{
    match SerdeEncoder.decode_event(data) {
        Ok(N::Ping { tick, .. }) => Ping(tick),
        Ok(N::Pong { tick }) => Pong(tick),
        Ok(N::Fragment { client_id, fragment: f }) => Fragment(client_id.0, f.message_id, f.fragment_index, f.total_fragments, f.payload),
        Ok(N::ReplicationBatch { events, .. }) => Batch(events.into_iter().map(|e| EntityUpdate { network_id: e.network_id.0, component_kind: e.component_kind.0, payload: e.payload, tick: e.tick }).collect()),
        Ok(ClearWorld { .. }) => Cleared,
        Ok(EntityDespawned { network_id, .. }) => Despawned(network_id.0),
        Ok(PlatformEvent { event, .. }) => Platform(world_event_of(event)),
        Ok(_) => Other,
        Err(_) => Undecodable
    }
}

/// `u` carries exactly the fields of the decoded update `w`.
pub open spec fn update_is(u: EntityUpdate, w: (u64, u16, Seq<u8>, u64)) -> bool {
    &&& u.network_id == w.0
    &&& u.component_kind == w.1
    &&& u.payload@ == w.2
    &&& u.tick == w.3
}

/// The event of a body read as a component update.
pub open spec fn is_update_event(e: InboundEvent, w: Option<(u64, u16, Seq<u8>, u64)>) -> bool {
    match w {
        Some(fields) => e matches InboundEvent::Update(u) && update_is(u, fields),
        None => e == InboundEvent::Other,
    }
}

/// The event of a message body: its component update if it has one, else
/// what its wire event means to the client.
pub open spec fn is_message_event(
    e: InboundEvent,
    update: Option<(u64, u16, Seq<u8>, u64)>,
    event: WireEvent,
) -> bool {
    match update {
        Some(fields) => e matches InboundEvent::Update(u) && update_is(u, fields),
        None => match event {
            WireEvent::Cleared => e == InboundEvent::ClearWorldAck,
            WireEvent::Despawned(id) => e == InboundEvent::EntityDespawned(id),
            WireEvent::Platform(w) => e == InboundEvent::Platform(w),
            _ => e == InboundEvent::Other,
        },
    }
}

/// The event of a message body already read both ways: the component update
/// wins; otherwise the wire event decides.
pub fn message_event(update: Option<EntityUpdate>, event: WireEvent) -> (e: InboundEvent)
    ensures
        match update {
            Some(u) => e == InboundEvent::Update(u),
            None => match event {
                WireEvent::Cleared => e == InboundEvent::ClearWorldAck,
                WireEvent::Despawned(id) => e == InboundEvent::EntityDespawned(id),
                WireEvent::Platform(w) => e == InboundEvent::Platform(w),
                _ => e == InboundEvent::Other,
            },
        },
{
    match update {
        Some(u) => InboundEvent::Update(u),
        None => match event {
            WireEvent::Cleared => InboundEvent::ClearWorldAck,
            WireEvent::Despawned(id) => InboundEvent::EntityDespawned(id),
            WireEvent::Platform(w) => InboundEvent::Platform(w),
            _ => InboundEvent::Other,
        },
    }
}

/// The event of one received message body (a reliable message, or a datagram
/// that is no wire event).
pub fn classify_message(data: &[u8]) -> (e: InboundEvent)
    ensures
        is_message_event(e, wire_update(data@), wire_event(data@)),
{
    match decode_update(data) {
        Some(u) => InboundEvent::Update(u),
        None => message_event(None, decode_wire_event(data)),
    }
}

/// The event of a reassembled message (`None`: the message is not complete yet).
pub fn assembled_event(assembled: Option<Vec<u8>>) -> (e: InboundEvent)
    ensures
        match assembled {
            Some(data) => is_update_event(e, wire_update(data@)),
            None => e == InboundEvent::Other,
        },
{
    match assembled {
        Some(data) => match decode_update(data.as_slice()) {
            Some(u) => InboundEvent::Update(u),
            None => InboundEvent::Other,
        },
        None => InboundEvent::Other,
    }
}

#[verifier::external_type_specification]
#[verifier::external_body]
pub struct ExReassembler(Reassembler);

/// The messages a `Reassembler` holds in progress: for each sender and
/// message id, the fragment count the message was started with and the
/// payloads received so far, by fragment index.
pub uninterp spec fn reassembly_pending(r: Reassembler) -> Map<(u64, u32), (u16, Map<u16, Seq<u8>>)>;

/// The payloads of fragments `0 .. n` joined in index order.
pub open spec fn joined(frags: Map<u16, Seq<u8>>, n: nat) -> Seq<u8>
    decreases n,
{
    if n == 0 {
        Seq::empty()
    } else {
        joined(frags, (n - 1) as nat) + frags[(n - 1) as u16]
    }
}

/// Every fragment index below `total` has a payload.
pub open spec fn has_every_fragment(frags: Map<u16, Seq<u8>>, total: u16) -> bool {
    forall|j: u16| j < total ==> #[trigger] frags.contains_key(j)
}

/// What ingesting one fragment returns and leaves pending:
/// - a fragment count of 0 or above the limit is refused, nothing changes;
/// - a count that differs from the one the message was started with is
///   refused, nothing changes;
/// - otherwise the message is started if it was not (and stays started even
///   when the index is refused), an index at or above the count is refused,
///   a repeated index keeps the first payload, and once every index below the
///   count is present the payloads joined in index order come back and the
///   message is no longer pending.
pub open spec fn ingest_model(
    pending: Map<(u64, u32), (u16, Map<u16, Seq<u8>>)>,
    client_id: u64,
    message_id: u32,
    index: u16,
    total: u16,
    payload: Seq<u8>,
) -> (Option<Seq<u8>>, Map<(u64, u32), (u16, Map<u16, Seq<u8>>)>) {
    let key = (client_id, message_id);
    if total == 0 || total > MAX_TOTAL_FRAGMENTS {
        (None, pending)
    } else {
        let started: (u16, Map<u16, Seq<u8>>) = if pending.contains_key(key) {
            pending[key]
        } else {
            (total, Map::empty())
        };
        if started.0 != total {
            (None, pending)
        } else if index >= total {
            (None, pending.insert(key, started))
        } else {
            let frags = if started.1.contains_key(index) {
                started.1
            } else {
                started.1.insert(index, payload)
            };
            if has_every_fragment(frags, total) {
                (Some(joined(frags, total as nat)), pending.remove(key))
            } else {
                (None, pending.insert(key, (total, frags)))
            }
        }
    }
}

/// Calls `Reassembler::ingest` with the fragment's fields. What it returns and
/// what stays pending follow its source, as [`ingest_model`] states it (the
/// buffers' start times only matter to `prune`, which the library never calls).
#[verifier::external_body]
fn ingest_fragment(
    reassembler: &mut Reassembler,
    client_id: u64,
    message_id: u32,
    fragment_index: u16,
    total_fragments: u16,
    payload: Vec<u8>,
) -> (r: Option<Vec<u8>>)
    ensures
        ({
            let (out, next) = ingest_model(
                reassembly_pending(*old(reassembler)),
                client_id,
                message_id,
                fragment_index,
                total_fragments,
                payload@,
            );
            &&& reassembly_pending(*final(reassembler)) == next
            &&& match r {
                Some(d) => out == Some(d@),
                None => out is None,
            }
        }),
{
    let event = FragmentedEvent { message_id, fragment_index, total_fragments, payload };
    reassembler.ingest(ClientId(client_id), event)
}

/// The event of one received fragment given what was pending before and
/// after: the update of the whole message once its last fragment is in,
/// `Other` before that or when the fragment is refused.
pub open spec fn is_fragment_event(
    e: InboundEvent,
    before: Map<(u64, u32), (u16, Map<u16, Seq<u8>>)>,
    after: Map<(u64, u32), (u16, Map<u16, Seq<u8>>)>,
    client_id: u64,
    message_id: u32,
    index: u16,
    total: u16,
    payload: Seq<u8>,
) -> bool {
    let (out, next) = ingest_model(before, client_id, message_id, index, total, payload);
    &&& after == next
    &&& match out {
        Some(d) => is_update_event(e, wire_update(d)),
        None => e == InboundEvent::Other,
    }
}

/// The event of one received fragment.
pub fn fragment_event(
    reassembler: &mut Reassembler,
    client_id: u64,
    message_id: u32,
    fragment_index: u16,
    total_fragments: u16,
    payload: Vec<u8>,
) -> (e: InboundEvent)
    ensures
        is_fragment_event(
            e,
            reassembly_pending(*old(reassembler)),
            reassembly_pending(*final(reassembler)),
            client_id,
            message_id,
            fragment_index,
            total_fragments,
            payload@,
        ),
{
    let assembled = ingest_fragment(
        reassembler,
        client_id,
        message_id,
        fragment_index,
        total_fragments,
        payload,
    );
    assembled_event(assembled)
}

/// The event of one received datagram given its wire event and what was
/// pending before and after: a datagram that is no wire event is read as a
/// message body; a fragment goes through reassembly; pings, pongs and batches
/// are passed on; the rest as for a message body. Only a fragment changes what
/// is pending.
pub open spec fn is_datagram_event(
    e: InboundEvent,
    event: WireEvent,
    update: Option<(u64, u16, Seq<u8>, u64)>,
    before: Map<(u64, u32), (u16, Map<u16, Seq<u8>>)>,
    after: Map<(u64, u32), (u16, Map<u16, Seq<u8>>)>,
) -> bool {
    match event {
        WireEvent::Fragment(c, m, i, t, p) => is_fragment_event(e, before, after, c, m, i, t, p@),
        WireEvent::Undecodable => after == before && is_message_event(e, update, WireEvent::Undecodable),
        WireEvent::Ping(t) => after == before && e == InboundEvent::Ping(t),
        WireEvent::Pong(t) => after == before && e == InboundEvent::Pong(t),
        WireEvent::Batch(v) => after == before && e == InboundEvent::Batch(v),
        other => after == before && is_message_event(e, None, other),
    }
}

/// The event of one received datagram: a wire event when the bytes are one,
/// otherwise a message body.
pub fn datagram_event(reassembler: &mut Reassembler, data: &[u8]) -> (e: InboundEvent)
    ensures
        is_datagram_event(
            e,
            wire_event(data@),
            wire_update(data@),
            reassembly_pending(*old(reassembler)),
            reassembly_pending(*final(reassembler)),
        ),
{
    match decode_wire_event(data) {
        Undecodable => classify_message(data),
        Fragment(c, m, i, t, p) => fragment_event(reassembler, c, m, i, t, p),
        WireEvent::Ping(t) => InboundEvent::Ping(t),
        WireEvent::Pong(t) => InboundEvent::Pong(t),
        Batch(v) => InboundEvent::Batch(v),
        event => message_event(None, event),
    }
}

/// What reading a message body gives: its component update when it has one
/// (with the decoded id, kind, payload and tick); otherwise a clear
/// acknowledgement for a clear, the despawn of the named entity, the platform
/// event itself for a platform event, and `Other` for anything else.
pub proof fn lemma_message_events(
    e: InboundEvent,
    update: Option<(u64, u16, Seq<u8>, u64)>,
    event: WireEvent,
)
    requires
        is_message_event(e, update, event),
    ensures
        update matches Some(f) ==> (e matches InboundEvent::Update(u) && u.network_id == f.0
            && u.component_kind == f.1 && u.payload@ == f.2 && u.tick == f.3),
        update is None ==> (match event {
            WireEvent::Cleared => e == InboundEvent::ClearWorldAck,
            WireEvent::Despawned(id) => e == InboundEvent::EntityDespawned(id),
            WireEvent::Platform(w) => e == InboundEvent::Platform(w),
            _ => e == InboundEvent::Other,
        }),
{
}

/// What reading a datagram gives: a platform event, clear acknowledgement,
/// despawn, ping, pong or batch arriving as a wire event is passed on as that
/// same event; other wire events give `Other`; a fragment gives `Other` or an
/// update (always `Other` for an invalid fragment count); bytes that are no
/// wire event are read as a message body. Only a fragment changes what the
/// reassembler holds.
pub proof fn lemma_datagram_events(
    e: InboundEvent,
    event: WireEvent,
    update: Option<(u64, u16, Seq<u8>, u64)>,
    before: Map<(u64, u32), (u16, Map<u16, Seq<u8>>)>,
    after: Map<(u64, u32), (u16, Map<u16, Seq<u8>>)>,
)
    requires
        is_datagram_event(e, event, update, before, after),
    ensures
        !(event is Fragment) ==> after == before,
        (match event {
            WireEvent::Platform(w) => e == InboundEvent::Platform(w),
            WireEvent::Cleared => e == InboundEvent::ClearWorldAck,
            WireEvent::Despawned(id) => e == InboundEvent::EntityDespawned(id),
            WireEvent::Ping(t) => e == InboundEvent::Ping(t),
            WireEvent::Pong(t) => e == InboundEvent::Pong(t),
            WireEvent::Batch(v) => e == InboundEvent::Batch(v),
            WireEvent::Other => e == InboundEvent::Other,
            WireEvent::Undecodable => is_message_event(e, update, WireEvent::Undecodable),
            WireEvent::Fragment(c, m, i, t, p) => {
                &&& e == InboundEvent::Other || e is Update
                &&& (t == 0 || t > MAX_TOTAL_FRAGMENTS) ==> (e == InboundEvent::Other && after == before)
            },
        }),
{
}

/// Fragments are refused without any change when their count is 0 or above
/// the limit, or differs from the count their message was started with; an
/// index at or above the count is refused too, leaving the message started.
/// No other message is ever touched.
pub proof fn lemma_ingest_refusals(
    pending: Map<(u64, u32), (u16, Map<u16, Seq<u8>>)>,
    client_id: u64,
    message_id: u32,
    index: u16,
    total: u16,
    payload: Seq<u8>,
    other: (u64, u32),
)
    ensures
        ({
            let key = (client_id, message_id);
            let (out, next) = ingest_model(pending, client_id, message_id, index, total, payload);
            &&& (total == 0 || total > MAX_TOTAL_FRAGMENTS) ==> out is None && next == pending
            &&& (pending.contains_key(key) && pending[key].0 != total) ==> out is None && next == pending
            &&& (0 < total <= MAX_TOTAL_FRAGMENTS && index >= total && !pending.contains_key(key))
                ==> out is None && next == pending.insert(key, (total, Map::empty()))
            &&& (0 < total <= MAX_TOTAL_FRAGMENTS && index >= total && pending.contains_key(key))
                ==> out is None && next == pending
            &&& other != key ==> (next.contains_key(other) == pending.contains_key(other)
                && (pending.contains_key(other) ==> next[other] == pending[other]))
        }),
{
    let key = (client_id, message_id);
    if 0 < total <= MAX_TOTAL_FRAGMENTS && index >= total && pending.contains_key(key) && pending[key].0 == total {
        assert(pending.insert(key, pending[key]) =~= pending);
    }
}

/// A repeated fragment index keeps the payload received first: the message
/// stays as it was (or, if that completes it, comes back with its first payloads).
pub proof fn lemma_ingest_repeated_index(
    pending: Map<(u64, u32), (u16, Map<u16, Seq<u8>>)>,
    client_id: u64,
    message_id: u32,
    index: u16,
    total: u16,
    payload: Seq<u8>,
)
    requires
        pending.contains_key((client_id, message_id)),
        pending[(client_id, message_id)].0 == total,
        pending[(client_id, message_id)].1.contains_key(index),
        0 < total <= MAX_TOTAL_FRAGMENTS,
        index < total,
    ensures
        ({
            let (out, next) = ingest_model(pending, client_id, message_id, index, total, payload);
            &&& out is None ==> next == pending
            &&& out matches Some(d) ==> d == joined(pending[(client_id, message_id)].1, total as nat)
        }),
{
    let key = (client_id, message_id);
    assert(pending.insert(key, (total, pending[key].1)) =~= pending);
}

/// A message in one fragment comes back whole at once, and nothing stays pending for it.
pub proof fn lemma_single_fragment_message(
    pending: Map<(u64, u32), (u16, Map<u16, Seq<u8>>)>,
    client_id: u64,
    message_id: u32,
    payload: Seq<u8>,
)
    requires
        !pending.contains_key((client_id, message_id)),
    ensures
        ingest_model(pending, client_id, message_id, 0, 1, payload) == (Some(payload), pending),
{
    let frags = Map::<u16, Seq<u8>>::empty().insert(0u16, payload);
    assert forall|j: u16| j < 1 implies #[trigger] frags.contains_key(j) by {}
    assert(has_every_fragment(frags, 1));
    reveal_with_fuel(joined, 2);
    assert(joined(frags, 1) =~= payload);
    assert(pending.remove((client_id, message_id)) =~= pending);
}

/// A message in two fragments: whichever fragment arrives first is held and
/// nothing comes back; when the other arrives, the two payloads come back
/// joined in index order and nothing stays pending for the message.
pub proof fn lemma_two_fragment_message(
    pending: Map<(u64, u32), (u16, Map<u16, Seq<u8>>)>,
    client_id: u64,
    message_id: u32,
    p0: Seq<u8>,
    p1: Seq<u8>,
    first: u16,
)
    requires
        !pending.contains_key((client_id, message_id)),
        first < 2,
    ensures
        ({
            let second = (1 - first) as u16;
            let (o1, n1) = ingest_model(
                pending,
                client_id,
                message_id,
                first,
                2,
                if first == 0 { p0 } else { p1 },
            );
            let (o2, n2) = ingest_model(
                n1,
                client_id,
                message_id,
                second,
                2,
                if second == 0 { p0 } else { p1 },
            );
            &&& o1 is None
            &&& o2 == Some(p0 + p1)
            &&& n2 == pending
        }),
{
    let key = (client_id, message_id);
    let second = (1 - first) as u16;
    let pf = if first == 0 { p0 } else { p1 };
    let ps = if second == 0 { p0 } else { p1 };
    let f1 = Map::<u16, Seq<u8>>::empty().insert(first, pf);
    assert(!f1.contains_key(second));
    assert(!(forall|j: u16| j < 2 ==> #[trigger] f1.contains_key(j)));
    let n1 = pending.insert(key, (2u16, f1));
    assert(!pending.contains_key(key));
    assert(second < 2);
    let r1 = ingest_model(pending, client_id, message_id, first, 2, pf);
    assert(!has_every_fragment(f1, 2));
    assert(r1.0 is None);
    assert(r1.1 == n1);
    let f2 = f1.insert(second, ps);
    assert forall|j: u16| j < 2 implies #[trigger] f2.contains_key(j) by {
        if j != first {
            assert(j == second);
        }
    }
    assert(has_every_fragment(f2, 2));
    assert(n1.contains_key(key) && n1[key] == (2u16, f1));
    reveal_with_fuel(joined, 3);
    assert(f2[0u16] == p0);
    assert(f2[1u16] == p1);
    assert(joined(f2, 2) =~= p0 + p1);
    assert(n1.remove(key) =~= pending);
    assert(ingest_model(n1, client_id, message_id, second, 2, ps) == (Some(p0 + p1), pending));
}

/// A command the client sends to the server.
#[derive(Debug)]
pub enum Command {
    /// A ping carrying the client's clock.
    Ping(u64),
    /// The answer to a server ping, carrying the server's tick.
    Pong(u64),
    /// The session token that authenticates the connection.
    Auth(String),
    /// Clear the world on the server.
    ClearWorld,
    /// Fill the server's world with `count` test entities.
    StressTest { count: u16, rotate: bool },
}

/// A command as a mathematical value: the token by its characters.
pub enum CommandView {
    Ping(u64),
    Pong(u64),
    Auth(Seq<char>),
    ClearWorld,
    StressTest { count: u16, rotate: bool },
}

impl View for Command {
    type V = CommandView;

    open spec fn view(&self) -> CommandView {
        match self {
            Command::Ping(t) => CommandView::Ping(*t),
            Command::Pong(t) => CommandView::Pong(*t),
            Command::Auth(token) => CommandView::Auth(token@),
            Command::ClearWorld => CommandView::ClearWorld,
            Command::StressTest { count, rotate } => CommandView::StressTest { count: *count, rotate: *rotate },
        }
    }
}

/// What `SerdeEncoder::encode_event` makes of a command's protocol event.
pub uninterp spec fn encoded_command(cmd: CommandView) -> Option<Seq<u8>>;

/// Calls `SerdeEncoder::encode_event` on the protocol event of the command,
/// with client id 0 (the server fills in the sender); an error becomes `None`.
#[verifier::external_body]
fn encode_event(cmd: &Command) -> (r: Option<Vec<u8>>)
    ensures
        match r {
            Some(bytes) => encoded_command(cmd@) == Some(bytes@),
            None => encoded_command(cmd@) is None,
        },
{
    let event = match cmd {
        Command::Ping(tick) => N::Ping { client_id: ClientId(0), tick: *tick },
        Command::Pong(tick) => N::Pong { tick: *tick },
        Command::Auth(token) => N::Auth { session_token: token.clone() },
        Command::ClearWorld => N::ClearWorld { client_id: ClientId(0) },
        Command::StressTest { count, rotate } => N::StressTest { client_id: ClientId(0), count: *count, rotate: *rotate },
    };
    SerdeEncoder.encode_event(&event).ok()
}

/// The bytes that carry a command to the server (`None` when it cannot be encoded).
pub fn encode_command(cmd: &Command) -> (r: Option<Vec<u8>>)
    ensures
        match r {
            Some(bytes) => encoded_command(cmd@) == Some(bytes@),
            None => encoded_command(cmd@) is None,
        },
{
    encode_event(cmd)
}

} // verus!
