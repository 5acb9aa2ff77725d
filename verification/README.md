# rf_telemetry

Verified core of an ESP32 / ESP-NOW telemetry pipeline: wire framing of
telemetry and gateway-link packets, replay protection, the rules engine, the
gateway command models (host simulation and on-device firmware), the
hardware-backend line parser, the firmware inboxes and command-line assembler,
and the helpers of the HIL simulator. The functions in `src/` carry contracts
proved by Verus, except a small set of trusted wrappers (`#[verifier::external_body]`)
around calls into outside crates and std: CRC-16/XMODEM (`crc16`), COBS
(`cobs`), the fixed-capacity buffers and queues of `heapless`, UTF-8 checking,
`String::push` and std's `Debug` text of a string. Their contracts are taken
on trust and their doc comments say what they claim. Properties that span
several calls are stated and proved as `law_*` proof functions.

Layout:

- `src/codec.rs`, `src/frame.rs`, `src/gwlink.rs`, `src/uart.rs` — framing:
  `COBS(payload || crc16_le)` on UART/ZMQ, `[vendor][payload || crc16_le]` on
  ESP-NOW, and splitting of a `0x00`-delimited byte stream.
- `src/replay.rs`, `src/rules.rs`, `src/control.rs`, `src/live.rs`,
  `src/config.rs` — control-plane decisions.
- `src/gateway.rs`, `src/gateway_sim.rs`, `src/gateway_laws.rs`,
  `src/gateway_inv.rs` — the gateway model, its executable simulation, and
  what holds of every state reachable from the initial one.
- `src/device_gateway.rs`, `src/device_laws.rs`, `src/sim_node.rs`,
  `src/mac.rs`, `src/inbox.rs` — firmware decisions of the two boards.
- `src/hw_backend.rs`, `src/pipeline.rs`, `src/sim_tools.rs`,
  `src/firmware_config.rs` — HIL simulator and edge-gateway helpers.
- `src/hw_laws.rs`, `src/command_laws.rs` — the hardware round trip: the
  lines the hardware backend sends are relayed by the S3 node as the matching
  requests, and the replies the node prints are read back into the snapshot.
- `src/text.rs` — verified text and number formatting.
- `tests/` — executable tests of the library.
- `app/` — the host services (control plane, edge gateway, HIL simulator):
  I/O, HTTP routes, serialization and the floating-point signal model, around
  the library.

The postcard serialization of messages lives in `app/`; the library frames
and checks the serialized bytes.
