# aetheris-client

The decision logic of the Aetheris browser client as a Verus-verified library,
with an unverified application crate around it.

- `src/` — the verified library (`aetheris_client`): the double-buffered shared
  world and its handle registry, the replicated entity world, the client
  session (connection lifecycle, inbound event handling, the clear-world gate,
  tick synchronisation, playground commands), the decoding of received
  datagrams, messages and fragments into inbound events (with a model of the
  fragment reassembler) and the encoding of the client's
  commands, the snapshot buffer and frame plan of the render worker, telemetry
  buffers and identifiers, and the CSS colour and `.aeb` asset parsers.
  Positions and velocities are kept as `f32` bit patterns so that the library
  never computes with floating point.
- `app/` — what the library leaves out: floating-point physics and
  interpolation (including the reconciliation of the predicted player),
  telemetry timing, the encoding of inputs with floating-point movement, the
  mirror into JavaScript-allocated shared memory, and the per-tick driver that
  connects a transport to the session.
- `tests/` — tests of the library on concrete values.

Outside crates are reached from the library only through a few trusted
wrappers (MessagePack decoding, the protocol encoder and fragment
reassembler, XXH64, ULID formatting, Zstandard decompression, the system
random source), each documented at its definition.
