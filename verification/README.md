# modbus

A Modbus protocol library whose core is verified with Verus.

`src/` is the verified library:

- `function_codes/` — request and response PDUs of every function code,
  each with exact encode/decode contracts and encode-then-decode laws;
  `codec.rs` holds the shared big-endian field layout.
- `exception.rs` — exception codes and exception response PDUs.
- `rtu.rs`, `ascii.rs` — RTU (CRC-16) and ASCII (hex + LRC-8) ADU framing.
- `framing.rs` — byte-at-a-time frame assembly for stream transports, with
  the law that a sent ASCII frame is received whole.
- `helpers.rs` — register/byte conversions for integers and strings under
  every byte order and word order, with round-trip laws.
- `transport.rs`, `client.rs`, `rtu_adapter.rs`, `ascii_client.rs` — the
  transport and adapter seams, response validation, the client core, and
  the RTU and ASCII adapters.
- `ascii_server.rs` — reading ASCII requests (synchronous and
  asynchronous streams), address filtering, and response framing on the
  server side. A data store and the dispatch of request PDUs to it are not
  part of this crate, so there is no complete server loop.
- `config.rs`, `metrics.rs` — configuration conversion and counters.

`app/` holds what the verifier does not take: `std::io` stream and serial
transports, the retry loops that sleep, tokio-based asynchronous pieces,
serde-based configuration loading, and floating-point register values.

The `idle_timeout` of `ClientConfig` is carried but not applied by the
transports here; the stream's own read timeout governs.

`tests/` exercises the library on concrete values.
