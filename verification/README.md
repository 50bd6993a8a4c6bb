# EdgeMouse core

EdgeMouse shares one mouse and keyboard between two computers: moving the
pointer across the configured screen edge hands control to the other machine.
This crate is the verified core of the agent. The functions under `src/` are
checked by Verus against their `requires` / `ensures` contracts, and the proofs
named `law_*` state properties that span several calls. The exceptions are the
small wrappers marked `#[verifier::external_body]` around calls into `ring`,
`spake2`, `toml` and std: their contracts are trusted, and their doc comments
say what they claim of the code they call. The injector and
clipboard traits state what every platform adapter implementing them must
keep.

## Layout

- `src/wire.rs`, `src/text.rs` — big-endian framing and text helpers.
- `src/geometry.rs`, `src/topology.rs`, `src/input.rs` — edges, identities and
  the input events exchanged between the machines.
- `src/session.rs` — who controls the pointer: crossings, sequence numbers,
  recovery of local control.
- `src/receiver.rs` — the receiving side of a remote-control session.
- `src/link.rs` — the decisions of the connection loop: which peer messages
  end a connection, when a request to take control back is honoured, and when
  waiting for the peer gives up.
- `src/keyboard.rs` — key routing and the macOS / HID key maps.
- `src/network.rs`, `src/diagnostics.rs` — heartbeats, move coalescing,
  reconnect backoff and the timing summaries of the loops.
- `src/redact.rs` — hiding the last group of IPv4 addresses in diagnostic
  text.
- `src/control.rs`, `src/discovery.rs` — the loopback control channel and LAN
  discovery packets.
- `src/pairing.rs`, `src/pake.rs`, `src/exchange.rs` — one-time-code pairing:
  offers, certificate records, HMAC tags (`ring`) and the SPAKE2 exchange
  (`spake2`) as a state machine driven by the caller.
- `src/import.rs` — importing a paired configuration: its identity files are
  found through its TOML document (`toml`) and renamed with a time stamp.
- `src/agent_config.rs` — the checks the agent's configuration values pass.
- `src/settings.rs`, `src/config_text.rs`, `src/clipboard.rs` — shared
  settings with per-field logical clocks, in-place configuration edits, and
  clipboard synchronisation.
- `app/` — the command line and the sockets around the library.
- `tests/` — the test suite, run against the compiled library.

Floating-point pointer geometry and the platform adapters stay outside the
verified core and hand it plain values.
