//! Verified core of the Aetheris browser client.
//!
//! The crate holds the decision logic of the client:
//! - `shared_world`: the double-buffered shared world that the game worker
//!   publishes for the render worker, and the registry of its handles;
//! - `entity_table`, `world_state`, `components`: the client-side entity world
//!   and the rules by which replicated components and platform events change it;
//! - `session`: the connection lifecycle, one tick's inbound events, the
//!   clear-world gate, tick synchronisation and the playground commands;
//! - `transport_inbox`: what the transport keeps of received data until a tick;
//! - `wire`: how a received message body or fragment becomes an inbound event,
//!   and how the client's commands are encoded;
//! - `snapshots`, `render_plan`, `render_modes`: what the render worker buffers
//!   and what a frame draws;
//! - `metrics`: the telemetry event ring, frame-time reservoir and identifiers;
//! - `css_color`, `assets`: the theme colour and asset container parsers.
//!
//! Everything that touches the browser, the GPU or floating point lives in the
//! companion application crate.

pub mod assets;
pub mod components;
pub mod css_color;
pub mod entity_table;
pub mod metrics;
pub mod render_modes;
pub mod render_plan;
pub mod session;
pub mod shared_world;
pub mod snapshots;
pub mod transport_inbox;
pub mod wire;
pub mod world_state;
