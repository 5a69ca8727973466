//! The client session: connection lifecycle, the handling of one tick's
//! inbound network events, the clear-world gate, tick synchronisation with the
//! server, and the local playground commands.
//!
//! Transport, encoding and timing stay with the embedding application; it
//! hands the session decoded events and performs the replies the session
//! asks for.

use vstd::prelude::*;
use crate::world_state::{ClientWorld, EntityUpdate, WorldEvent, is_control_target, has_local_player};
use crate::components::{default_properties, spec_default_properties};
use crate::entity_table::{EntitySlot, keys_sorted, zero_entity};
use crate::shared_world::{FLAG_ALIVE, MAX_ENTITIES};

verus! {

/// State of the connection to the game server.
#[derive(Clone, Copy, Debug, PartialEq, Eq, Structural)]
pub enum ConnectionState {
    Disconnected,
    Connecting,
    InGame,
    Reconnecting,
    Failed,
}

/// What [`ConnectionSession::begin_connect`] decided.
#[derive(Clone, Copy, Debug, PartialEq, Eq, Structural)]
pub enum ConnectStart {
    /// A connection is being made or is in use: nothing is done.
    AlreadyActive,
    /// Open the transport now. `announce_reconnect` is set when this follows a
    /// failure after reconnect attempts, which is reported as a reconnect.
    Proceed { announce_reconnect: bool },
}

/// A connection is being made or is in use.
pub open spec fn is_active(s: ConnectionState) -> bool {
    s == ConnectionState::Connecting || s == ConnectionState::InGame || s
        == ConnectionState::Reconnecting
}

/// Connection state and the number of reconnect attempts since the last
/// successful connection.
#[derive(Clone, Copy, Debug, PartialEq, Eq, Structural)]
pub struct ConnectionSession {
    pub state: ConnectionState,
    pub reconnect_attempts: u32,
}

/// The decision of `begin_connect` on a session.
pub open spec fn connect_decision(s: ConnectionSession) -> ConnectStart {
    if is_active(s.state) {
        ConnectStart::AlreadyActive
    } else {
        ConnectStart::Proceed {
            announce_reconnect: s.state == ConnectionState::Failed && s.reconnect_attempts > 0,
        }
    }
}

/// The session after `begin_connect`.
pub open spec fn after_begin_connect(s: ConnectionSession) -> ConnectionSession {
    if is_active(s.state) {
        s
    } else {
        ConnectionSession { state: ConnectionState::Connecting, ..s }
    }
}

/// The session after a successful connection.
pub open spec fn after_connected(s: ConnectionSession) -> ConnectionSession {
    ConnectionSession { state: ConnectionState::InGame, reconnect_attempts: 0 }
}

/// The session after a failed connection or handshake.
pub open spec fn after_failed(s: ConnectionSession) -> ConnectionSession {
    ConnectionSession { state: ConnectionState::Failed, ..s }
}

/// The session after a reconnect was requested.
pub open spec fn after_reconnect(s: ConnectionSession) -> ConnectionSession {
    ConnectionSession {
        state: ConnectionState::Reconnecting,
        reconnect_attempts: (s.reconnect_attempts + 1) as u32,
    }
}

impl ConnectionSession {
    /// A fresh, disconnected session.
    pub fn new() -> (s: ConnectionSession)
        ensures
            s.state == ConnectionState::Disconnected,
            s.reconnect_attempts == 0,
    {
        ConnectionSession { state: ConnectionState::Disconnected, reconnect_attempts: 0 }
    }

    /// Starts a connection unless one is being made or in use.
    pub fn begin_connect(&mut self) -> (r: ConnectStart)
        ensures
            r == connect_decision(*old(self)),
            *final(self) == after_begin_connect(*old(self)),
    {
        if self.state == ConnectionState::Connecting || self.state == ConnectionState::InGame
            || self.state == ConnectionState::Reconnecting {
            return ConnectStart::AlreadyActive;
        }
        let announce_reconnect = self.state == ConnectionState::Failed && self.reconnect_attempts
            > 0;
        self.state = ConnectionState::Connecting;
        ConnectStart::Proceed { announce_reconnect }
    }

    /// The transport is open (and authenticated where a token was given).
    pub fn connect_succeeded(&mut self)
        ensures
            *final(self) == after_connected(*old(self)),
    {
        self.state = ConnectionState::InGame;
        self.reconnect_attempts = 0;
    }

    /// The transport could not be opened or the handshake failed.
    pub fn connect_failed(&mut self)
        ensures
            *final(self) == after_failed(*old(self)),
    {
        self.state = ConnectionState::Failed;
    }

    /// A reconnect: the attempt is counted and the state becomes
    /// `Reconnecting`, then a connection is started. Since `Reconnecting`
    /// already counts as active, that start decides `AlreadyActive`, and no
    /// transport is opened by a reconnect.
    pub fn reconnect(&mut self) -> (r: ConnectStart)
        requires
            old(self).reconnect_attempts < u32::MAX,
        ensures
            *final(self) == after_begin_connect(after_reconnect(*old(self))),
            r == connect_decision(after_reconnect(*old(self))),
    {
        self.state = ConnectionState::Reconnecting;
        self.reconnect_attempts = self.reconnect_attempts + 1;
        self.begin_connect()
    }

    /// The session was closed, by the client or by the transport.
    pub fn disconnected(&mut self)
        ensures
            final(self).state == ConnectionState::Disconnected,
            final(self).reconnect_attempts == old(self).reconnect_attempts,
    {
        self.state = ConnectionState::Disconnected;
    }
}

/// Starting a connection never disturbs one that is being made or in use, and
/// from any other state it moves to `Connecting` without touching the attempt count.
pub proof fn lemma_begin_connect_guards_active(s: ConnectionSession)
    ensures
        is_active(s.state) ==> connect_decision(s) == ConnectStart::AlreadyActive
            && after_begin_connect(s) == s,
        !is_active(s.state) ==> connect_decision(s) is Proceed && after_begin_connect(s).state
            == ConnectionState::Connecting && after_begin_connect(s).reconnect_attempts
            == s.reconnect_attempts,
{
}

/// A successful connection resets the reconnect count, whatever came before;
/// a failure after at least one reconnect is announced as a reconnect attempt
/// by the next connection start.
pub proof fn lemma_reconnect_count(s: ConnectionSession)
    requires
        s.reconnect_attempts < u32::MAX,
    ensures
        after_connected(s).reconnect_attempts == 0,
        connect_decision(after_failed(after_begin_connect(after_reconnect(s))))
            == (ConnectStart::Proceed { announce_reconnect: true }),
{
}

/// One inbound network event, as decoded by the transport layer.
#[derive(Debug)]
pub enum InboundEvent {
    /// A single component update (a datagram, a reliable message or a
    /// reassembled fragment).
    Update(EntityUpdate),
    /// A batch of component updates.
    Batch(Vec<EntityUpdate>),
    /// A discrete platform event.
    Platform(WorldEvent),
    /// The server acknowledged a world clear.
    ClearWorldAck,
    /// The server despawned an entity.
    EntityDespawned(u64),
    /// The transport session was closed.
    TransportClosed,
    /// The server pinged with this tick.
    Ping(u64),
    /// The server answered a ping sent at this tick.
    Pong(u64),
    /// Anything else: nothing is done.
    Other,
}

/// Something the transport layer is asked to do in answer to an event.
#[derive(Clone, Copy, Debug, PartialEq, Eq, Structural)]
pub enum Reply {
    /// Answer a ping with a pong carrying this tick.
    SendPong(u64),
    /// Record the round-trip time of the ping sent at this tick.
    RecordRtt(u64),
}

/// An update is fresh unless it is at or before the tick of the last world
/// clear (no clear yet is tick 0).
pub open spec fn is_fresh(last_clear_tick: u64, tick: u64) -> bool {
    last_clear_tick == 0 || tick > last_clear_tick
}

/// The fresh updates of a batch, in order.
pub open spec fn fresh_updates(last_clear_tick: u64, us: Seq<EntityUpdate>) -> Seq<EntityUpdate>
    decreases us.len(),
{
    if us.len() == 0 {
        Seq::empty()
    } else {
        fresh_updates(last_clear_tick, us.drop_last()) + (if is_fresh(
            last_clear_tick,
            us.last().tick,
        ) {
            seq![us.last()]
        } else {
            Seq::empty()
        })
    }
}

/// The fresh updates one event carries.
pub open spec fn event_updates(last_clear_tick: u64, e: InboundEvent) -> Seq<EntityUpdate> {
    match e {
        InboundEvent::Update(u) => if is_fresh(last_clear_tick, u.tick) {
            seq![u]
        } else {
            Seq::empty()
        },
        InboundEvent::Batch(us) => fresh_updates(last_clear_tick, us@),
        _ => Seq::empty(),
    }
}

/// The fresh updates of a sequence of events, in arrival order.
pub open spec fn inbound_updates(last_clear_tick: u64, evs: Seq<InboundEvent>) -> Seq<EntityUpdate>
    decreases evs.len(),
{
    if evs.len() == 0 {
        Seq::empty()
    } else {
        inbound_updates(last_clear_tick, evs.drop_last()) + event_updates(
            last_clear_tick,
            evs.last(),
        )
    }
}

/// The platform events of a sequence of events, in arrival order.
pub open spec fn inbound_platform(evs: Seq<InboundEvent>) -> Seq<WorldEvent>
    decreases evs.len(),
{
    if evs.len() == 0 {
        Seq::empty()
    } else {
        inbound_platform(evs.drop_last()) + match evs.last() {
            InboundEvent::Platform(e) => seq![e],
            _ => Seq::empty(),
        }
    }
}

/// The replies a sequence of events asks for, in arrival order.
pub open spec fn inbound_replies(evs: Seq<InboundEvent>) -> Seq<Reply>
    decreases evs.len(),
{
    if evs.len() == 0 {
        Seq::empty()
    } else {
        inbound_replies(evs.drop_last()) + match evs.last() {
            InboundEvent::Ping(t) => seq![Reply::SendPong(t)],
            InboundEvent::Pong(t) => seq![Reply::RecordRtt(t)],
            _ => Seq::empty(),
        }
    }
}

/// The entities despawned by a sequence of events, in arrival order.
pub open spec fn inbound_despawns(evs: Seq<InboundEvent>) -> Seq<u64>
    decreases evs.len(),
{
    if evs.len() == 0 {
        Seq::empty()
    } else {
        inbound_despawns(evs.drop_last()) + match evs.last() {
            InboundEvent::EntityDespawned(id) => seq![id],
            _ => Seq::empty(),
        }
    }
}

/// Some event acknowledges a world clear.
pub open spec fn has_clear_ack(evs: Seq<InboundEvent>) -> bool {
    exists|i: int| 0 <= i < evs.len() && #[trigger] evs[i] is ClearWorldAck
}

/// Some event reports the transport closed.
pub open spec fn has_transport_closed(evs: Seq<InboundEvent>) -> bool {
    exists|i: int| 0 <= i < evs.len() && #[trigger] evs[i] is TransportClosed
}

/// The map with the given keys removed, one after another.
pub open spec fn without_keys(m: Map<u64, EntitySlot>, ks: Seq<u64>) -> Map<u64, EntitySlot>
    decreases ks.len(),
{
    if ks.len() == 0 {
        m
    } else {
        without_keys(m, ks.drop_last()).remove(ks.last())
    }
}

/// The updates that are applied: none while the clear gate stays raised
/// (raised before and no acknowledgement among the events), else the fresh ones.
pub open spec fn admitted_updates(
    pending_clear: bool,
    last_clear_tick: u64,
    evs: Seq<InboundEvent>,
) -> Seq<EntityUpdate> {
    if pending_clear && !has_clear_ack(evs) {
        Seq::empty()
    } else {
        inbound_updates(last_clear_tick, evs)
    }
}

/// The latest tick of a sequence of updates (0 for none).
pub open spec fn max_update_tick(us: Seq<EntityUpdate>) -> u64
    decreases us.len(),
{
    if us.len() == 0 {
        0
    } else {
        let m = max_update_tick(us.drop_last());
        if us.last().tick > m {
            us.last().tick
        } else {
            m
        }
    }
}

/// The client/server tick difference as the client computes it: both ticks
/// truncated to `i32`, then subtracted.
pub open spec fn tick_drift(latest: u64, server: u64) -> int {
    (latest as i32) - (server as i32)
}

/// The drift can be computed and its magnitude taken without overflow.
pub open spec fn drift_in_range(latest: u64, server: u64) -> bool {
    i32::MIN < tick_drift(latest, server) <= i32::MAX
}

/// Whether the client adopts the server tick `server` (0 when no update
/// arrived): on the first sync, or when the drift exceeds 20 ticks.
pub open spec fn adopts_server_tick(latest: u64, first_sync: bool, server: u64) -> bool {
    server > 0 && (first_sync || tick_drift(latest, server) > 20 || tick_drift(latest, server)
        < -20)
}

/// What one tick's inbound events leave for the caller: replies to perform,
/// updates to apply to the world (in order), and platform events to dispatch
/// after them.
pub struct InboundOutcome {
    pub replies: Vec<Reply>,
    pub updates: Vec<EntityUpdate>,
    pub events: Vec<WorldEvent>,
}

/// The client's state besides the transport and the renderer: connection,
/// ping counter, the clear-world gate, tick synchronisation, playground
/// bookkeeping, and the world itself.
pub struct ClientSession {
    /// Connection lifecycle.
    pub connection: ConnectionSession,
    /// Ticks since start (wrapping); a ping goes out every 60th.
    pub ping_counter: u64,
    /// Raised by a server clear; updates are discarded until the server acknowledges.
    pub pending_clear: bool,
    /// The latest tick at the last server clear (0: none yet).
    pub last_clear_tick: u64,
    /// No tick from the server has been adopted yet.
    pub first_tick_sync: bool,
    /// Next network id for locally spawned playground entities.
    pub next_playground_id: u64,
    /// Whether playground entities rotate.
    pub rotation_enabled: bool,
    /// The action mask of the previous input, for edge-triggered actions.
    pub last_actions_mask: u32,
    /// The replicated world.
    pub world: ClientWorld,
}

impl ClientSession {
    /// The latest tick of the updates (0 for none).
    pub fn max_tick(updates: &Vec<EntityUpdate>) -> (m: u64)
        ensures
            m == max_update_tick(updates@),
    {
        let mut m: u64 = 0;
        let mut j: usize = 0;
        while j < updates.len()
            invariant
                j <= updates@.len(),
                m == max_update_tick(updates@.take(j as int)),
            decreases updates@.len() - j,
        {
            proof {
                assert(updates@.take(j + 1).drop_last() =~= updates@.take(j as int));
            }
            if updates[j].tick > m {
                m = updates[j].tick;
            }
            j = j + 1;
        }
        assert(updates@.take(updates@.len() as int) =~= updates@);
        m
    }

    /// Everything but the world and the fields that one tick's events change
    /// is the same in both sessions.
    pub open spec fn same_bookkeeping(&self, other: &ClientSession) -> bool {
        &&& self.ping_counter == other.ping_counter
        &&& self.last_clear_tick == other.last_clear_tick
        &&& self.next_playground_id == other.next_playground_id
        &&& self.rotation_enabled == other.rotation_enabled
        &&& self.last_actions_mask == other.last_actions_mask
    }

    /// Handles one tick's inbound events, in arrival order:
    /// - fresh updates (after the last clear tick) are collected, stale ones dropped;
    /// - platform events are collected for dispatch after the updates;
    /// - a clear acknowledgement lowers the clear gate;
    /// - a despawn removes the entity at once;
    /// - a closed transport makes the connection `Disconnected`;
    /// - pings and pongs become replies.
    ///
    /// Then, if the clear gate is still raised, the collected updates are discarded;
    /// otherwise the latest of their ticks is adopted as the client tick on the
    /// first sync or when the client has drifted more than 20 ticks from it.
    /// The updates to apply are handed back, in order, with the replies and the
    /// platform events.
    pub fn process_inbound(&mut self, events: Vec<InboundEvent>) -> (out: InboundOutcome)
        requires
            old(self).world.wf(),
            ({
                let m = max_update_tick(
                    admitted_updates(old(self).pending_clear, old(self).last_clear_tick, events@),
                );
                m > 0 ==> drift_in_range(old(self).world.latest_tick, m)
            }),
        ensures
            final(self).world.wf(),
            final(self).world.entities.view() == without_keys(
                old(self).world.entities.view(),
                inbound_despawns(events@),
            ),
            final(self).world.player_network_id == old(self).world.player_network_id,
            ({
                let m = max_update_tick(
                    admitted_updates(old(self).pending_clear, old(self).last_clear_tick, events@),
                );
                if adopts_server_tick(old(self).world.latest_tick, old(self).first_tick_sync, m) {
                    &&& final(self).world.latest_tick == m
                    &&& !final(self).first_tick_sync
                } else {
                    &&& final(self).world.latest_tick == old(self).world.latest_tick
                    &&& final(self).first_tick_sync == old(self).first_tick_sync
                }
            }),
            final(self).world.workspace_manifest == old(self).world.workspace_manifest,
            final(self).world.shared_world_ref == old(self).world.shared_world_ref,
            final(self).world.input_history == old(self).world.input_history,
            final(self).world.last_reconciled_tick == old(self).world.last_reconciled_tick,
            final(self).world.prediction_enabled == old(self).world.prediction_enabled,
            final(self).world.workspace_bounds == old(self).world.workspace_bounds,
            final(self).pending_clear == (old(self).pending_clear && !has_clear_ack(events@)),
            final(self).connection == (if has_transport_closed(events@) {
                ConnectionSession { state: ConnectionState::Disconnected, ..old(self).connection }
            } else {
                old(self).connection
            }),
            final(self).same_bookkeeping(&*old(self)),
            out.replies@ == inbound_replies(events@),
            out.updates@ == admitted_updates(
                old(self).pending_clear,
                old(self).last_clear_tick,
                events@,
            ),
            out.events@ == inbound_platform(events@),
    {
        let ghost evs = events@;
        let ghost old_view = self.world.entities.view();
        let ghost old_pending = self.pending_clear;
        let ghost old_conn = self.connection;
        let ghost old_self = *self;
        let last_clear = self.last_clear_tick;
        let mut replies: Vec<Reply> = Vec::new();
        let mut updates: Vec<EntityUpdate> = Vec::new();
        let mut platform: Vec<WorldEvent> = Vec::new();
        for ev in it: events.into_iter()
            invariant
                it.seq() == evs,
                last_clear == self.last_clear_tick,
                self.world.wf(),
                self.world.entities.view() == without_keys(
                    old_view,
                    inbound_despawns(evs.take(it.index())),
                ),
                updates@ == inbound_updates(last_clear, evs.take(it.index())),
                replies@ == inbound_replies(evs.take(it.index())),
                platform@ == inbound_platform(evs.take(it.index())),
                self.pending_clear == (old_pending && !has_clear_ack(evs.take(it.index()))),
                self.connection == (if has_transport_closed(evs.take(it.index())) {
                    ConnectionSession { state: ConnectionState::Disconnected, ..old_conn }
                } else {
                    old_conn
                }),
                self.world.player_network_id == old_self.world.player_network_id,
                self.world.latest_tick == old_self.world.latest_tick,
                self.world.workspace_manifest == old_self.world.workspace_manifest,
                self.world.shared_world_ref == old_self.world.shared_world_ref,
                self.world.input_history == old_self.world.input_history,
                self.world.last_reconciled_tick == old_self.world.last_reconciled_tick,
                self.world.prediction_enabled == old_self.world.prediction_enabled,
                self.world.workspace_bounds == old_self.world.workspace_bounds,
                self.first_tick_sync == old_self.first_tick_sync,
                self.same_bookkeeping(&old_self),
        {
            let ghost i = it.index();
            let ghost pre = evs.take(i);
            let ghost post = evs.take(i + 1);
            proof {
                assert(post.drop_last() =~= pre);
                assert(post.last() == ev);
                assert forall|j: int| 0 <= j < post.len() implies #[trigger] post[j] == (if j < i {
                    pre[j]
                } else {
                    ev
                }) by {}
                assert(has_clear_ack(post) == (has_clear_ack(pre) || ev is ClearWorldAck)) by {
                    if has_clear_ack(pre) {
                        let j = choose|j: int| 0 <= j < pre.len() && #[trigger] pre[j] is ClearWorldAck;
                        assert(post[j] is ClearWorldAck);
                    }
                    if ev is ClearWorldAck {
                        assert(post[i] is ClearWorldAck);
                    }
                }
                assert(has_transport_closed(post) == (has_transport_closed(pre) || ev is TransportClosed)) by {
                    if has_transport_closed(pre) {
                        let j = choose|j: int| 0 <= j < pre.len() && #[trigger] pre[j] is TransportClosed;
                        assert(post[j] is TransportClosed);
                    }
                    if ev is TransportClosed {
                        assert(post[i] is TransportClosed);
                    }
                }
            }
            match ev {
                InboundEvent::Update(u) => {
                    if last_clear == 0 || u.tick > last_clear {
                        updates.push(u);
                    }
                },
                InboundEvent::Batch(us) => {
                    let ghost base = updates@;
                    let ghost useq = us@;
                    for u in it2: us.into_iter()
                        invariant
                            it2.seq() == useq,
                            updates@ == base + fresh_updates(last_clear, useq.take(it2.index())),
                    {
                        let ghost k = it2.index();
                        proof {
                            assert(useq.take(k + 1).drop_last() =~= useq.take(k));
                            assert(useq.take(k + 1).last() == u);
                        }
                        if last_clear == 0 || u.tick > last_clear {
                            updates.push(u);
                        }
                        assert(updates@ =~= base + fresh_updates(last_clear, useq.take(k + 1)));
                    }
                    assert(useq.take(useq.len() as int) =~= useq);
                },
                InboundEvent::Platform(e) => {
                    platform.push(e);
                },
                InboundEvent::ClearWorldAck => {
                    self.pending_clear = false;
                },
                InboundEvent::EntityDespawned(id) => {
                    self.world.entities.remove(id);
                    proof {
                        let ks = inbound_despawns(pre);
                        assert(inbound_despawns(post) =~= ks.push(id));
                        assert(ks.push(id).drop_last() =~= ks);
                    }
                },
                InboundEvent::TransportClosed => {
                    self.connection.disconnected();
                },
                InboundEvent::Ping(t) => {
                    replies.push(Reply::SendPong(t));
                },
                InboundEvent::Pong(t) => {
                    replies.push(Reply::RecordRtt(t));
                },
                InboundEvent::Other => {},
            }
            assert(updates@ =~= inbound_updates(last_clear, post));
            assert(replies@ =~= inbound_replies(post));
            assert(platform@ =~= inbound_platform(post));
        }
        proof {
            assert(evs.take(evs.len() as int) =~= evs);
        }
        if self.pending_clear {
            updates = Vec::new();
        } else {
            let m = Self::max_tick(&updates);
            if m > 0 {
                let a = #[verifier::truncate] (self.world.latest_tick as i32);
                let b = #[verifier::truncate] (m as i32);
                let d: i32 = a - b;
                let drift: i32 = if d < 0 {
                    -d
                } else {
                    d
                };
                if self.first_tick_sync || drift > 20 {
                    self.world.latest_tick = m;
                    self.first_tick_sync = false;
                }
            }
        }
        InboundOutcome { replies, updates, events: platform }
    }
}

/// The slot of a locally spawned playground entity: alive, with the default
/// vitals of its type, at the given position and rotation (`f32` bits).
pub open spec fn playground_slot(id: u64, entity_type: u16, x: u32, y: u32, rotation: u32) -> EntitySlot {
    EntitySlot {
        network_id: id,
        x_bits: x,
        y_bits: y,
        rotation_bits: rotation,
        integrity: spec_default_properties(entity_type).0,
        priority: spec_default_properties(entity_type).1,
        entity_type,
        flags: FLAG_ALIVE,
        ..zero_entity()
    }
}

/// The id the next playground spawn takes: the id counter, except that a
/// counter still at its start value 1 over a non-empty world first moves past
/// the largest id present.
pub open spec fn spawn_id(next: u64, e: Seq<(u64, EntitySlot)>) -> int {
    if next == 1 && e.len() > 0 {
        e.last().0 + 1
    } else {
        next as int
    }
}

/// Tick synchronisation: when a tick's admitted updates have a latest tick
/// `m > 0`, the client takes `m` as its tick exactly when this is the first
/// sync or its own tick differs from `m` by more than 20, whether the client is
/// ahead or behind (both ticks taken as `i32`, as the client computes the
/// difference; for ticks below 2^31 that is the plain difference). With no
/// admitted update the client tick is never replaced.
pub proof fn lemma_tick_adoption(latest: u64, first_sync: bool, m: u64)
    ensures
        m == 0 ==> !adopts_server_tick(latest, first_sync, m),
        m > 0 && first_sync ==> adopts_server_tick(latest, first_sync, m),
        m > 0 ==> (adopts_server_tick(latest, first_sync, m) <==> (first_sync || (latest as i32)
            - (m as i32) > 20 || (m as i32) - (latest as i32) > 20)),
        m > 0 && latest < 0x8000_0000 && m < 0x8000_0000 ==> (adopts_server_tick(
            latest,
            first_sync,
            m,
        ) <==> (first_sync || latest > m + 20 || m > latest + 20)),
{
    if latest < 0x8000_0000 && m < 0x8000_0000 {
        assert((latest as i32) as int == latest as int) by (bit_vector)
            requires
                latest < 0x8000_0000u64,
        ;
        assert((m as i32) as int == m as int) by (bit_vector)
            requires
                m < 0x8000_0000u64,
        ;
    }
}

/// A local spawn creates an entity that carries its own id and sits at the
/// given position and rotation with the given type, alive, at rest, with the
/// default vitals of its type and nothing else set.
pub proof fn lemma_playground_slot(id: u64, entity_type: u16, x: u32, y: u32, rotation: u32)
    ensures
        ({
            let s = playground_slot(id, entity_type, x, y, rotation);
            &&& s.network_id == id
            &&& s.x_bits == x
            &&& s.y_bits == y
            &&& s.z_bits == 0
            &&& s.rotation_bits == rotation
            &&& s.dx_bits == 0 && s.dy_bits == 0 && s.dz_bits == 0
            &&& s.entity_type == entity_type
            &&& s.flags == FLAG_ALIVE
            &&& (s.integrity, s.priority) == spec_default_properties(entity_type)
            &&& s.extraction_active == 0 && s.extraction_target_id == 0
            &&& s.payload_count == 0 && s.payload_capacity == 0
            &&& s.interaction_target_id == 0 && s.interaction_flash_ticks == 0
        }),
{
}

/// The id of a local spawn is the id counter, except that a counter still at
/// its start value over a non-empty world moves past the largest id present;
/// either way, over a world in key order that the counter is already past,
/// the new id is above every id present.
pub proof fn lemma_spawn_id(next: u64, e: Seq<(u64, EntitySlot)>)
    ensures
        next != 1 || e.len() == 0 ==> spawn_id(next, e) == next,
        next == 1 && e.len() > 0 ==> spawn_id(next, e) == e[e.len() - 1].0 + 1,
        keys_sorted(e) && (next == 1 || (forall|j: int| 0 <= j < e.len() ==> #[trigger] e[j].0 < next))
            ==> forall|j: int| 0 <= j < e.len() ==> #[trigger] e[j].0 < spawn_id(next, e),
{
    if next == 1 && e.len() > 0 && keys_sorted(e) {
        assert forall|j: int| 0 <= j < e.len() implies #[trigger] e[j].0 < spawn_id(next, e) by {
            if j < e.len() - 1 {
                assert(e[j].0 < e[e.len() - 1].0);
            }
        }
    }
}

/// The replies to a tick's events: each ping gets a pong with its tick and
/// each pong records the round trip of its tick, in arrival order; nothing else
/// is answered.
pub proof fn lemma_inbound_replies(evs: Seq<InboundEvent>, t: u64)
    ensures
        inbound_replies(evs.push(InboundEvent::Ping(t))) == inbound_replies(evs).push(
            Reply::SendPong(t),
        ),
        inbound_replies(evs.push(InboundEvent::Pong(t))) == inbound_replies(evs).push(
            Reply::RecordRtt(t),
        ),
        inbound_replies(evs.push(InboundEvent::Other)) == inbound_replies(evs),
        inbound_replies(Seq::<InboundEvent>::empty()) == Seq::<Reply>::empty(),
{
    assert(evs.push(InboundEvent::Ping(t)).drop_last() =~= evs);
    assert(evs.push(InboundEvent::Pong(t)).drop_last() =~= evs);
    assert(evs.push(InboundEvent::Other).drop_last() =~= evs);
    assert(inbound_replies(evs) + Seq::<Reply>::empty() =~= inbound_replies(evs));
}

/// Despawns in a tick's events remove exactly the named entities: an entity
/// stays exactly when it was present and no despawn names it, and an entity
/// that stays is unchanged. Each despawn and each platform event is collected
/// in arrival order.
pub proof fn lemma_inbound_despawns(m: Map<u64, EntitySlot>, evs: Seq<InboundEvent>, k: u64, id: u64, w: WorldEvent)
    ensures
        without_keys(m, inbound_despawns(evs)).contains_key(k) == (m.contains_key(k)
            && !inbound_despawns(evs).contains(k)),
        without_keys(m, inbound_despawns(evs)).contains_key(k) ==> without_keys(
            m,
            inbound_despawns(evs),
        )[k] == m[k],
        inbound_despawns(evs.push(InboundEvent::EntityDespawned(id))) == inbound_despawns(evs).push(id),
        inbound_platform(evs.push(InboundEvent::Platform(w))) == inbound_platform(evs).push(w),
        inbound_despawns(evs.push(InboundEvent::Other)) == inbound_despawns(evs),
        inbound_platform(evs.push(InboundEvent::Other)) == inbound_platform(evs),
{
    lemma_without_keys(m, inbound_despawns(evs), k);
    assert(evs.push(InboundEvent::EntityDespawned(id)).drop_last() =~= evs);
    assert(evs.push(InboundEvent::Platform(w)).drop_last() =~= evs);
    assert(evs.push(InboundEvent::Other).drop_last() =~= evs);
    assert(inbound_despawns(evs) + Seq::<u64>::empty() =~= inbound_despawns(evs));
    assert(inbound_platform(evs) + Seq::<WorldEvent>::empty() =~= inbound_platform(evs));
}

proof fn lemma_without_keys(m: Map<u64, EntitySlot>, ks: Seq<u64>, k: u64)
    ensures
        without_keys(m, ks).contains_key(k) == (m.contains_key(k) && !ks.contains(k)),
        without_keys(m, ks).contains_key(k) ==> without_keys(m, ks)[k] == m[k],
    decreases ks.len(),
{
    if ks.len() > 0 {
        lemma_without_keys(m, ks.drop_last(), k);
        if ks.contains(k) && ks.last() != k {
            let i = choose|i: int| 0 <= i < ks.len() && ks[i] == k;
            assert(ks.drop_last()[i] == k);
        }
        if ks.drop_last().contains(k) {
            let i = choose|i: int| 0 <= i < ks.drop_last().len() && ks.drop_last()[i] == k;
            assert(ks[i] == k);
        }
        if ks.last() == k {
            assert(ks[ks.len() - 1] == k);
        }
    }
}

/// The updates collected from a tick's events, in arrival order: an update
/// after the last clear's tick (any update before the first clear) is
/// collected, an older one is dropped, and a batch contributes its updates
/// under the same rule, in batch order.
pub proof fn lemma_inbound_updates_collect(
    last_clear_tick: u64,
    evs: Seq<InboundEvent>,
    u: EntityUpdate,
    us: Seq<EntityUpdate>,
)
    ensures
        inbound_updates(last_clear_tick, Seq::<InboundEvent>::empty()) == Seq::<EntityUpdate>::empty(),
        (last_clear_tick == 0 || u.tick > last_clear_tick) ==> inbound_updates(
            last_clear_tick,
            evs.push(InboundEvent::Update(u)),
        ) == inbound_updates(last_clear_tick, evs).push(u),
        !(last_clear_tick == 0 || u.tick > last_clear_tick) ==> inbound_updates(
            last_clear_tick,
            evs.push(InboundEvent::Update(u)),
        ) == inbound_updates(last_clear_tick, evs),
        (last_clear_tick == 0 || u.tick > last_clear_tick) ==> fresh_updates(last_clear_tick, us.push(u))
            == fresh_updates(last_clear_tick, us).push(u),
        !(last_clear_tick == 0 || u.tick > last_clear_tick) ==> fresh_updates(
            last_clear_tick,
            us.push(u),
        ) == fresh_updates(last_clear_tick, us),
        fresh_updates(last_clear_tick, Seq::<EntityUpdate>::empty()) == Seq::<EntityUpdate>::empty(),
        inbound_updates(last_clear_tick, evs.push(InboundEvent::Other)) == inbound_updates(last_clear_tick, evs),
{
    assert(evs.push(InboundEvent::Update(u)).drop_last() =~= evs);
    assert(evs.push(InboundEvent::Other).drop_last() =~= evs);
    assert(us.push(u).drop_last() =~= us);
    assert(inbound_updates(last_clear_tick, evs) + Seq::<EntityUpdate>::empty() =~= inbound_updates(last_clear_tick, evs));
    assert(fresh_updates(last_clear_tick, us) + Seq::<EntityUpdate>::empty() =~= fresh_updates(last_clear_tick, us));
}

/// A batch among a tick's events contributes its fresh updates, in batch order.
pub proof fn lemma_inbound_batch(last_clear_tick: u64, evs: Seq<InboundEvent>, v: Vec<EntityUpdate>)
    ensures
        inbound_updates(last_clear_tick, evs.push(InboundEvent::Batch(v))) == inbound_updates(
            last_clear_tick,
            evs,
        ) + fresh_updates(last_clear_tick, v@),
{
    assert(evs.push(InboundEvent::Batch(v)).drop_last() =~= evs);
}

/// The latest tick of a sequence of updates is the largest of their ticks:
/// no update is later, and (for a non-empty sequence) some update has it; an
/// empty sequence gives 0.
pub proof fn lemma_max_update_tick(us: Seq<EntityUpdate>)
    ensures
        forall|i: int| 0 <= i < us.len() ==> #[trigger] us[i].tick <= max_update_tick(us),
        us.len() > 0 ==> exists|i: int| 0 <= i < us.len() && #[trigger] us[i].tick == max_update_tick(us),
        us.len() == 0 ==> max_update_tick(us) == 0,
    decreases us.len(),
{
    if us.len() > 0 {
        let p = us.drop_last();
        lemma_max_update_tick(p);
        assert forall|i: int| 0 <= i < us.len() implies #[trigger] us[i].tick <= max_update_tick(us) by {
            if i < us.len() - 1 {
                assert(us[i] == p[i]);
            }
        }
        if us.last().tick > max_update_tick(p) || p.len() == 0 {
            assert(us[us.len() - 1].tick == max_update_tick(us));
        } else {
            let i = choose|i: int| 0 <= i < p.len() && #[trigger] p[i].tick == max_update_tick(p);
            assert(us[i] == p[i]);
        }
    }
}

/// The entries that a local stress test of `n` spawns leaves: ids `first`,
/// `first + 1`, ... of type 1 at the origin.
pub open spec fn stress_entries(first: u64, n: nat) -> Seq<(u64, EntitySlot)> {
    Seq::new(n, |j: int| (((first + j) as u64), playground_slot((first + j) as u64, 1, 0, 0, 0)))
}

/// The status line of one entity for the user interface.
#[derive(Clone, Copy, Debug, PartialEq, Eq, Structural)]
pub struct EntityStatus {
    pub network_id: u64,
    pub integrity: u16,
    pub max_integrity: u16,
    pub priority: u16,
    pub max_priority: u16,
    pub entity_type: u16,
    pub is_player: bool,
}

/// The status of a slot; its maxima are the defaults of its type.
pub open spec fn status_of(s: EntitySlot) -> EntityStatus {
    EntityStatus {
        network_id: s.network_id,
        integrity: s.integrity,
        max_integrity: spec_default_properties(s.entity_type).0,
        priority: s.priority,
        max_priority: spec_default_properties(s.entity_type).1,
        entity_type: s.entity_type,
        is_player: s.flags & 0x04 != 0,
    }
}

/// The entries of external presence cursors, in order.
pub open spec fn presence_entries_of(e: Seq<(u64, EntitySlot)>) -> Seq<(u64, EntitySlot)>
    decreases e.len(),
{
    if e.len() == 0 {
        Seq::empty()
    } else {
        let r = presence_entries_of(e.drop_last());
        if e.last().1.entity_type == 0x2007 {
            r.push(e.last())
        } else {
            r
        }
    }
}

/// What one input amounts to, besides movement.
#[derive(Clone, Copy, Debug, PartialEq, Eq, Structural)]
pub struct InputPlan {
    /// The entity the command is addressed to.
    pub target: u64,
    /// Fire the tool (action bit 2).
    pub fire_tool: bool,
    /// Toggling extraction was requested (action bit 1 newly pressed).
    pub toggle_requested: bool,
    /// The extraction target of the toggle, if one was found.
    pub toggle_extraction: Option<u64>,
}

impl ClientSession {
    /// A fresh session over an empty world attached to the shared world `shared_world_ref`.
    pub fn new(shared_world_ref: usize) -> (s: ClientSession)
        ensures
            s.world.wf(),
            s.world.entities.view() == Map::<u64, EntitySlot>::empty(),
            s.world.entities.entries().len() == 0,
            s.world.player_network_id.is_none(),
            s.world.latest_tick == 0,
            s.world.shared_world_ref == Some(shared_world_ref),
            !s.world.prediction_enabled,
            s.world.workspace_bounds.is_none(),
            s.connection.state == ConnectionState::Disconnected,
            s.connection.reconnect_attempts == 0,
            s.ping_counter == 0,
            !s.pending_clear,
            s.last_clear_tick == 0,
            s.first_tick_sync,
            s.next_playground_id == 1,
            !s.rotation_enabled,
            s.last_actions_mask == 0,
    {
        let mut world = ClientWorld::with_prediction(false);
        world.shared_world_ref = Some(shared_world_ref);
        ClientSession {
            connection: ConnectionSession::new(),
            ping_counter: 0,
            pending_clear: false,
            last_clear_tick: 0,
            first_tick_sync: true,
            next_playground_id: 1,
            rotation_enabled: false,
            last_actions_mask: 0,
            world,
        }
    }

    /// Counts a tick (wrapping); a ping is due on every 60th.
    pub fn advance_ping(&mut self) -> (send_ping: bool)
        ensures
            final(self).ping_counter == (if old(self).ping_counter == u64::MAX {
                0
            } else {
                old(self).ping_counter + 1
            }),
            send_ping == (final(self).ping_counter % 60 == 0),
            final(self).world == old(self).world,
            final(self).connection == old(self).connection,
            final(self).pending_clear == old(self).pending_clear,
            final(self).first_tick_sync == old(self).first_tick_sync,
            final(self).last_clear_tick == old(self).last_clear_tick,
            final(self).next_playground_id == old(self).next_playground_id,
            final(self).rotation_enabled == old(self).rotation_enabled,
            final(self).last_actions_mask == old(self).last_actions_mask,
    {
        if self.ping_counter == u64::MAX {
            self.ping_counter = 0;
        } else {
            self.ping_counter = self.ping_counter + 1;
        }
        self.ping_counter % 60 == 0
    }

    /// The server was asked to clear the world: the local world is cleared at
    /// once, the player is forgotten, and the clear gate is raised at the
    /// current tick so that updates in flight cannot bring entities back.
    pub fn begin_server_clear(&mut self)
        requires
            old(self).world.wf(),
        ensures
            final(self).world.wf(),
            final(self).world.entities.view() == Map::<u64, EntitySlot>::empty(),
            final(self).world.player_network_id.is_none(),
            final(self).world.same_settings(&old(self).world),
            final(self).pending_clear,
            final(self).last_clear_tick == old(self).world.latest_tick,
            final(self).connection == old(self).connection,
            final(self).first_tick_sync == old(self).first_tick_sync,
            final(self).ping_counter == old(self).ping_counter,
            final(self).next_playground_id == old(self).next_playground_id,
            final(self).rotation_enabled == old(self).rotation_enabled,
            final(self).last_actions_mask == old(self).last_actions_mask,
    {
        let latest = self.world.latest_tick;
        self.world.clear_world();
        self.world.player_network_id = None;
        self.pending_clear = true;
        self.last_clear_tick = latest;
    }

    /// Without a server the world is cleared at once and the player forgotten;
    /// no gate is needed.
    pub fn clear_local(&mut self)
        requires
            old(self).world.wf(),
        ensures
            final(self).world.wf(),
            final(self).world.entities.view() == Map::<u64, EntitySlot>::empty(),
            final(self).world.player_network_id.is_none(),
            final(self).world.same_settings(&old(self).world),
            final(self).pending_clear == old(self).pending_clear,
            final(self).last_clear_tick == old(self).last_clear_tick,
            final(self).connection == old(self).connection,
            final(self).first_tick_sync == old(self).first_tick_sync,
            final(self).same_bookkeeping(&*old(self)),
    {
        self.world.clear_world();
        self.world.player_network_id = None;
    }

    /// Removes every entity of the playground; the player id is kept.
    pub fn playground_clear(&mut self)
        requires
            old(self).world.wf(),
        ensures
            final(self).world.wf(),
            final(self).world.entities.entries().len() == 0,
            final(self).world.entities.view() == Map::<u64, EntitySlot>::empty(),
            final(self).world.player_network_id == old(self).world.player_network_id,
            final(self).world.same_settings(&old(self).world),
            final(self).pending_clear == old(self).pending_clear,
            final(self).last_clear_tick == old(self).last_clear_tick,
            final(self).connection == old(self).connection,
            final(self).first_tick_sync == old(self).first_tick_sync,
            final(self).same_bookkeeping(&*old(self)),
    {
        self.world.entities.clear();
    }

    /// Spawns a playground entity locally, unless the world is full
    /// (`MAX_ENTITIES`), in which case nothing changes. The entity gets the
    /// next playground id (see [`spawn_id`]) and the counter moves past it.
    pub fn playground_spawn(&mut self, entity_type: u16, x: u32, y: u32, rotation: u32)
        requires
            old(self).world.wf(),
            old(self).world.entities.entries().len() < MAX_ENTITIES ==> spawn_id(
                old(self).next_playground_id,
                old(self).world.entities.entries(),
            ) < u64::MAX,
        ensures
            final(self).world.wf(),
            final(self).world.player_network_id == old(self).world.player_network_id,
            final(self).world.same_settings(&old(self).world),
            old(self).world.entities.entries().len() >= MAX_ENTITIES ==> {
                &&& final(self).world.entities == old(self).world.entities
                &&& final(self).next_playground_id == old(self).next_playground_id
            },
            old(self).world.entities.entries().len() < MAX_ENTITIES ==> {
                let id = spawn_id(old(self).next_playground_id, old(self).world.entities.entries());
                &&& final(self).world.entities.view() == old(self).world.entities.view().insert(
                    id as u64,
                    playground_slot(id as u64, entity_type, x, y, rotation),
                )
                &&& final(self).next_playground_id == id + 1
                &&& (forall|j: int|
                    0 <= j < old(self).world.entities.entries().len()
                        ==> #[trigger] old(self).world.entities.entries()[j].0 < id)
                    ==> final(self).world.entities.entries() == old(
                    self,
                ).world.entities.entries().push(
                    (id as u64, playground_slot(id as u64, entity_type, x, y, rotation)),
                )
            },
            final(self).pending_clear == old(self).pending_clear,
            final(self).last_clear_tick == old(self).last_clear_tick,
            final(self).connection == old(self).connection,
            final(self).first_tick_sync == old(self).first_tick_sync,
            final(self).ping_counter == old(self).ping_counter,
            final(self).rotation_enabled == old(self).rotation_enabled,
            final(self).last_actions_mask == old(self).last_actions_mask,
    {
        let n = self.world.entities.len();
        if n >= MAX_ENTITIES {
            return;
        }
        if self.next_playground_id == 1 && n > 0 {
            let (last_key, _) = self.world.entities.entry_at(n - 1);
            self.next_playground_id = last_key + 1;
        }
        let id = self.next_playground_id;
        self.next_playground_id = id + 1;
        let (integrity, priority) = default_properties(entity_type);
        let slot = EntitySlot {
            network_id: id,
            x_bits: x,
            y_bits: y,
            rotation_bits: rotation,
            integrity,
            priority,
            entity_type,
            flags: FLAG_ALIVE,
            ..EntitySlot::zeroed()
        };
        self.world.entities.insert(id, slot);
    }

    /// Turns the rotation of playground entities on or off.
    pub fn playground_set_rotation_enabled(&mut self, enabled: bool)
        ensures
            final(self).rotation_enabled == enabled,
            final(self).world == old(self).world,
            final(self).connection == old(self).connection,
            final(self).pending_clear == old(self).pending_clear,
            final(self).last_clear_tick == old(self).last_clear_tick,
            final(self).first_tick_sync == old(self).first_tick_sync,
            final(self).ping_counter == old(self).ping_counter,
            final(self).next_playground_id == old(self).next_playground_id,
            final(self).last_actions_mask == old(self).last_actions_mask,
    {
        self.rotation_enabled = enabled;
    }

    /// The local stress test: rotation is set, the playground is cleared, and
    /// `count` entities of type 1 are spawned at the origin (at most
    /// `MAX_ENTITIES` of them; the rest are ignored).
    pub fn playground_stress_test_local(&mut self, count: u16, rotate: bool)
        requires
            old(self).world.wf(),
            old(self).next_playground_id + count < u64::MAX,
        ensures
            ({
                let n: nat = if count < MAX_ENTITIES {
                    count as nat
                } else {
                    MAX_ENTITIES as nat
                };
                &&& final(self).world.entities.entries() == stress_entries(
                    old(self).next_playground_id,
                    n,
                )
                &&& final(self).next_playground_id == old(self).next_playground_id + n
            }),
            final(self).world.wf(),
            final(self).rotation_enabled == rotate,
            final(self).world.player_network_id == old(self).world.player_network_id,
            final(self).world.same_settings(&old(self).world),
            final(self).pending_clear == old(self).pending_clear,
            final(self).last_clear_tick == old(self).last_clear_tick,
            final(self).connection == old(self).connection,
            final(self).first_tick_sync == old(self).first_tick_sync,
            final(self).ping_counter == old(self).ping_counter,
            final(self).last_actions_mask == old(self).last_actions_mask,
    {
        self.rotation_enabled = rotate;
        self.playground_clear();
        let ghost first = self.next_playground_id;
        let ghost start = *self;
        let mut c: u16 = 0;
        while c < count
            invariant
                c <= count,
                first + count < u64::MAX,
                self.world.wf(),
                ({
                    let n: nat = if c < MAX_ENTITIES {
                        c as nat
                    } else {
                        MAX_ENTITIES as nat
                    };
                    &&& self.world.entities.entries() == stress_entries(first, n)
                    &&& self.next_playground_id == first + n
                }),
                self.rotation_enabled == rotate,
                self.world.player_network_id == start.world.player_network_id,
                self.world.same_settings(&start.world),
                self.pending_clear == start.pending_clear,
                self.last_clear_tick == start.last_clear_tick,
                self.connection == start.connection,
                self.first_tick_sync == start.first_tick_sync,
                self.ping_counter == start.ping_counter,
                self.last_actions_mask == start.last_actions_mask,
            decreases count - c,
        {
            let ghost n: nat = if c < MAX_ENTITIES {
                c as nat
            } else {
                MAX_ENTITIES as nat
            };
            proof {
                let e = self.world.entities.entries();
                assert(e.len() == n);
                if n > 0 {
                    assert(e.last().0 == first + n - 1);
                }
            }
            self.playground_spawn(1, 0, 0, 0);
            proof {
                if n < MAX_ENTITIES {
                    assert(spawn_id((first + n) as u64, stress_entries(first, n)) == first + n);
                    assert(self.world.entities.entries() =~= stress_entries(first, n + 1));
                }
            }
            c = c + 1;
        }
    }

    /// Decides the non-movement part of an input with action mask
    /// `actions_mask`: nothing (and no change) without a controlled entity (see
    /// [`is_control_target`]); otherwise the tool fires on bit 2, and a newly
    /// pressed bit 1 toggles extraction on `explicit_target`, or failing that
    /// on `nearest_resource`. The mask is remembered for the next edge.
    pub fn plan_input(
        &mut self,
        actions_mask: u32,
        explicit_target: Option<u64>,
        nearest_resource: Option<u64>,
    ) -> (r: Option<InputPlan>)
        requires
            old(self).world.wf(),
        ensures
            final(self).world == old(self).world,
            final(self).pending_clear == old(self).pending_clear,
            final(self).last_clear_tick == old(self).last_clear_tick,
            final(self).connection == old(self).connection,
            final(self).first_tick_sync == old(self).first_tick_sync,
            final(self).ping_counter == old(self).ping_counter,
            final(self).next_playground_id == old(self).next_playground_id,
            final(self).rotation_enabled == old(self).rotation_enabled,
            match r {
                None => {
                    &&& old(self).world.player_network_id.is_none()
                    &&& !has_local_player(old(self).world.entities.entries())
                    &&& final(self).last_actions_mask == old(self).last_actions_mask
                },
                Some(p) => {
                    let toggle = actions_mask & 2 != 0 && old(self).last_actions_mask & 2 == 0;
                    &&& is_control_target(
                        old(self).world.player_network_id,
                        old(self).world.entities.entries(),
                        p.target,
                    )
                    &&& p.fire_tool == (actions_mask & 4 != 0)
                    &&& p.toggle_requested == toggle
                    &&& p.toggle_extraction == (if toggle {
                        match explicit_target {
                            Some(t) => Some(t),
                            None => nearest_resource,
                        }
                    } else {
                        None::<u64>
                    })
                    &&& final(self).last_actions_mask == actions_mask
                },
            },
    {
        let target = match self.world.control_target() {
            Some(t) => t,
            None => return None,
        };
        let fire_tool = actions_mask & 4 != 0;
        let toggle_requested = actions_mask & 2 != 0 && self.last_actions_mask & 2 == 0;
        let toggle_extraction = if toggle_requested {
            match explicit_target {
                Some(t) => Some(t),
                None => nearest_resource,
            }
        } else {
            None
        };
        self.last_actions_mask = actions_mask;
        Some(InputPlan { target, fire_tool, toggle_requested, toggle_extraction })
    }

    /// The network ids of all entities, in increasing order, truncated to 32 bits.
    pub fn get_networked_entities(&self) -> (ids: Vec<u32>)
        requires
            self.world.wf(),
        ensures
            ids@.len() == self.world.entities.entries().len(),
            forall|i: int|
                0 <= i < ids@.len() ==> #[trigger] ids@[i] == self.world.entities.entries()[i].0 as u32,
    {
        let n = self.world.entities.len();
        let mut ids: Vec<u32> = Vec::new();
        let mut i: usize = 0;
        while i < n
            invariant
                self.world.wf(),
                n == self.world.entities.entries().len(),
                i <= n,
                ids@.len() == i,
                forall|j: int|
                    0 <= j < i ==> #[trigger] ids@[j] == self.world.entities.entries()[j].0 as u32,
            decreases n - i,
        {
            let (k, _) = self.world.entities.entry_at(i);
            ids.push(#[verifier::truncate] (k as u32));
            i = i + 1;
        }
        ids
    }

    /// The type of an entity (0 when it does not exist).
    pub fn get_entity_type(&self, network_id: u32) -> (t: u32)
        requires
            self.world.wf(),
        ensures
            t == (if self.world.entities.view().contains_key(network_id as u64) {
                self.world.entities.view()[network_id as u64].entity_type as u32
            } else {
                0
            }),
    {
        match self.world.entities.get(network_id as u64) {
            Some(slot) => slot.entity_type as u32,
            None => 0,
        }
    }

    /// The possessed entity's id, truncated to 32 bits.
    pub fn player_network_id(&self) -> (r: Option<u32>)
        ensures
            r == match self.world.player_network_id {
                Some(id) => Some(id as u32),
                None => None::<u32>,
            },
    {
        match self.world.player_network_id {
            Some(id) => Some(#[verifier::truncate] (id as u32)),
            None => None,
        }
    }

    /// The status of every entity, sorted by network id.
    pub fn entity_statuses(&self) -> (r: Vec<EntityStatus>)
        requires
            self.world.wf(),
        ensures
            r@.len() == self.world.entities.entries().len(),
            forall|i: int|
                0 <= i < r@.len() ==> #[trigger] r@[i] == status_of(self.world.entities.entries()[i].1),
            forall|i: int, j: int|
                0 <= i < j < r@.len() ==> #[trigger] r@[i].network_id < #[trigger] r@[j].network_id,
    {
        proof {
            let e = self.world.entities.entries();
            assert forall|i: int| 0 <= i < e.len() implies #[trigger] e[i].1.network_id == e[i].0 by {
                crate::entity_table::lemma_entries_map_at(e, i);
            }
        }
        let n = self.world.entities.len();
        let mut r: Vec<EntityStatus> = Vec::new();
        let mut i: usize = 0;
        while i < n
            invariant
                self.world.wf(),
                n == self.world.entities.entries().len(),
                i <= n,
                r@.len() == i,
                forall|j: int|
                    0 <= j < i ==> #[trigger] r@[j] == status_of(self.world.entities.entries()[j].1),
            decreases n - i,
        {
            let (_, s) = self.world.entities.entry_at(i);
            let (max_integrity, max_priority) = default_properties(s.entity_type);
            r.push(
                EntityStatus {
                    network_id: s.network_id,
                    integrity: s.integrity,
                    max_integrity,
                    priority: s.priority,
                    max_priority,
                    entity_type: s.entity_type,
                    is_player: s.flags & 0x04 != 0,
                },
            );
            i = i + 1;
        }
        r
    }

    /// The external presence cursors (entity type `0x2007`), in increasing id order.
    pub fn presence_entries(&self) -> (r: Vec<(u64, EntitySlot)>)
        requires
            self.world.wf(),
        ensures
            r@ == presence_entries_of(self.world.entities.entries()),
    {
        let ghost e = self.world.entities.entries();
        let n = self.world.entities.len();
        let mut r: Vec<(u64, EntitySlot)> = Vec::new();
        let mut i: usize = 0;
        while i < n
            invariant
                self.world.wf(),
                n == e.len(),
                e == self.world.entities.entries(),
                i <= n,
                r@ == presence_entries_of(e.take(i as int)),
            decreases n - i,
        {
            let p = self.world.entities.entry_at(i);
            proof {
                assert(e.take(i + 1).drop_last() =~= e.take(i as int));
            }
            if p.1.entity_type == 0x2007 {
                r.push(p);
            }
            i = i + 1;
        }
        assert(e.take(n as int) =~= e);
        r
    }

    /// The payload count and capacity of the possessed entity, `(0, 0)` when
    /// there is none.
    pub fn player_payload(&self) -> (r: (u32, u32))
        requires
            self.world.wf(),
        ensures
            r == match self.world.player_network_id {
                Some(id) => if self.world.entities.view().contains_key(id) {
                    (
                        self.world.entities.view()[id].payload_count as u32,
                        self.world.entities.view()[id].payload_capacity as u32,
                    )
                } else {
                    (0u32, 0u32)
                },
                None => (0u32, 0u32),
            },
    {
        match self.world.player_network_id {
            Some(id) => match self.world.entities.get(id) {
                Some(s) => (s.payload_count as u32, s.payload_capacity as u32),
                None => (0, 0),
            },
            None => (0, 0),
        }
    }
}

/// Every update of a batch that passes the freshness filter is fresh.
proof fn lemma_fresh_updates_fresh(last_clear_tick: u64, us: Seq<EntityUpdate>)
    ensures
        forall|i: int|
            0 <= i < fresh_updates(last_clear_tick, us).len() ==> is_fresh(
                last_clear_tick,
                #[trigger] fresh_updates(last_clear_tick, us)[i].tick,
            ),
    decreases us.len(),
{
    if us.len() > 0 {
        lemma_fresh_updates_fresh(last_clear_tick, us.drop_last());
        let a = fresh_updates(last_clear_tick, us.drop_last());
        let r = fresh_updates(last_clear_tick, us);
        assert forall|i: int| 0 <= i < r.len() implies is_fresh(last_clear_tick, #[trigger] r[i].tick) by {
            if i < a.len() {
                assert(r[i] == a[i]);
            } else {
                assert(r[i] == us.last());
            }
        }
    }
}

/// Every update collected from a sequence of events is fresh.
proof fn lemma_inbound_updates_fresh(last_clear_tick: u64, evs: Seq<InboundEvent>)
    ensures
        forall|i: int|
            0 <= i < inbound_updates(last_clear_tick, evs).len() ==> is_fresh(
                last_clear_tick,
                #[trigger] inbound_updates(last_clear_tick, evs)[i].tick,
            ),
    decreases evs.len(),
{
    if evs.len() > 0 {
        lemma_inbound_updates_fresh(last_clear_tick, evs.drop_last());
        let a = inbound_updates(last_clear_tick, evs.drop_last());
        let b = event_updates(last_clear_tick, evs.last());
        let r = inbound_updates(last_clear_tick, evs);
        match evs.last() {
            InboundEvent::Batch(us) => lemma_fresh_updates_fresh(last_clear_tick, us@),
            _ => {},
        }
        assert forall|i: int| 0 <= i < r.len() implies is_fresh(last_clear_tick, #[trigger] r[i].tick) by {
            if i < a.len() {
                assert(r[i] == a[i]);
            } else {
                assert(r[i] == b[i - a.len()]);
            }
        }
    }
}

/// The clear-world gate: while a server clear awaits its acknowledgement
/// (`pending_clear`) and a tick's events do not bring it, none of their updates
/// is applied; otherwise exactly their fresh updates are, in arrival order:
/// each later than the last clear's tick `last_clear_tick` (any, before the
/// first clear), so updates in flight at a clear can never bring entities back.
pub proof fn lemma_clear_gate(pending_clear: bool, last_clear_tick: u64, evs: Seq<InboundEvent>)
    ensures
        pending_clear && !has_clear_ack(evs) ==> admitted_updates(
            pending_clear,
            last_clear_tick,
            evs,
        ).len() == 0,
        !(pending_clear && !has_clear_ack(evs)) ==> admitted_updates(
            pending_clear,
            last_clear_tick,
            evs,
        ) == inbound_updates(last_clear_tick, evs),
        forall|i: int|
            0 <= i < admitted_updates(pending_clear, last_clear_tick, evs).len() ==> (last_clear_tick
                == 0 || #[trigger] admitted_updates(pending_clear, last_clear_tick, evs)[i].tick
                > last_clear_tick),
{
    lemma_inbound_updates_fresh(last_clear_tick, evs);
}

/// The latest tick of two sequences of updates together is the larger of their latest ticks.
proof fn lemma_max_update_tick_concat(a: Seq<EntityUpdate>, b: Seq<EntityUpdate>)
    ensures
        max_update_tick(a + b) == (if max_update_tick(b) > max_update_tick(a) {
            max_update_tick(b)
        } else {
            max_update_tick(a)
        }),
    decreases b.len(),
{
    if b.len() == 0 {
        assert(a + b =~= a);
    } else {
        lemma_max_update_tick_concat(a, b.drop_last());
        assert((a + b).drop_last() =~= a + b.drop_last());
    }
}

impl ClientSession {
    /// The latest tick among the updates that [`ClientSession::process_inbound`]
    /// would admit from these events (0 when it would admit none).
    pub fn admitted_max_tick(&self, events: &Vec<InboundEvent>) -> (m: u64)
        ensures
            m == max_update_tick(admitted_updates(self.pending_clear, self.last_clear_tick, events@)),
    {
        let ghost evs = events@;
        let last = self.last_clear_tick;
        let mut m: u64 = 0;
        let mut ack = false;
        let mut i: usize = 0;
        while i < events.len()
            invariant
                i <= evs.len(),
                evs == events@,
                last == self.last_clear_tick,
                m == max_update_tick(inbound_updates(last, evs.take(i as int))),
                ack == has_clear_ack(evs.take(i as int)),
            decreases evs.len() - i,
        {
            let ghost pre = evs.take(i as int);
            let ghost post = evs.take(i + 1);
            proof {
                assert(post.drop_last() =~= pre);
                lemma_max_update_tick_concat(
                    inbound_updates(last, pre),
                    event_updates(last, evs[i as int]),
                );
                assert(has_clear_ack(post) == (has_clear_ack(pre) || evs[i as int] is ClearWorldAck)) by {
                    if has_clear_ack(pre) {
                        let j = choose|j: int| 0 <= j < pre.len() && #[trigger] pre[j] is ClearWorldAck;
                        assert(post[j] is ClearWorldAck);
                    }
                    if evs[i as int] is ClearWorldAck {
                        assert(post[i as int] is ClearWorldAck);
                    }
                }
            }
            match &events[i] {
                InboundEvent::Update(u) => {
                    if last == 0 || u.tick > last {
                        assert(max_update_tick(seq![*u]) == u.tick) by {
                            assert(seq![*u].drop_last() =~= Seq::<EntityUpdate>::empty());
                            assert(max_update_tick(Seq::<EntityUpdate>::empty()) == 0);
                        }
                        if u.tick > m {
                            m = u.tick;
                        }
                    } else {
                        assert(max_update_tick(Seq::<EntityUpdate>::empty()) == 0);
                    }
                },
                InboundEvent::Batch(us) => {
                    let mut mb: u64 = 0;
                    let mut j: usize = 0;
                    while j < us.len()
                        invariant
                            j <= us@.len(),
                            mb == max_update_tick(fresh_updates(last, us@.take(j as int))),
                        decreases us@.len() - j,
                    {
                        proof {
                            let f0 = fresh_updates(last, us@.take(j as int));
                            assert(us@.take(j + 1).drop_last() =~= us@.take(j as int));
                            let tail = if is_fresh(last, us@[j as int].tick) {
                                seq![us@[j as int]]
                            } else {
                                Seq::<EntityUpdate>::empty()
                            };
                            lemma_max_update_tick_concat(f0, tail);
                            assert(us@.take(j + 1).last() == us@[j as int]);
                            assert(fresh_updates(last, us@.take(j + 1)) == f0 + tail);
                            assert(seq![us@[j as int]].drop_last() =~= Seq::<EntityUpdate>::empty());
                            assert(max_update_tick(Seq::<EntityUpdate>::empty()) == 0);
                            assert(max_update_tick(seq![us@[j as int]]) == us@[j as int].tick);
                        }
                        if last == 0 || us[j].tick > last {
                            if us[j].tick > mb {
                                mb = us[j].tick;
                            }
                        }
                        j = j + 1;
                    }
                    assert(us@.take(us@.len() as int) =~= us@);
                    if mb > m {
                        m = mb;
                    }
                },
                InboundEvent::ClearWorldAck => {
                    ack = true;
                    assert(max_update_tick(Seq::<EntityUpdate>::empty()) == 0);
                },
                _ => {
                    assert(max_update_tick(Seq::<EntityUpdate>::empty()) == 0);
                },
            }
            i = i + 1;
        }
        assert(evs.take(evs.len() as int) =~= evs);
        if self.pending_clear && !ack {
            0
        } else {
            m
        }
    }

    /// Whether [`ClientSession::process_inbound`] can handle these events: the
    /// client/server tick difference it computes must not overflow.
    pub fn inbound_drift_in_range(&self, events: &Vec<InboundEvent>) -> (ok: bool)
        ensures
            ok == ({
                let m = max_update_tick(
                    admitted_updates(self.pending_clear, self.last_clear_tick, events@),
                );
                m > 0 ==> drift_in_range(self.world.latest_tick, m)
            }),
    {
        let m = self.admitted_max_tick(events);
        if m == 0 {
            return true;
        }
        let a = #[verifier::truncate] (self.world.latest_tick as i32) as i64;
        let b = #[verifier::truncate] (m as i32) as i64;
        let d = a - b;
        d > i32::MIN as i64 && d <= i32::MAX as i64
    }
}

} // verus!
