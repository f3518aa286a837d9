# rektal

The kernel of a DMX lighting-control system, verified with Verus: fixture
types and fixtures placed in the DMX address space, the reservation of DMX
channels, the kernel's command line, client sessions and subscriptions, the
client's reactions to the kernel, and the Art-Net and Enttec output formats.

Layout:

- `src/fixture` — property and channel layouts, fixture types, fixtures and
  their DMX output.
- `src/engine` — the fixture engine: channel reservations across universes;
  `src/engine/laws.rs` holds its laws (reservations stay in agreement with
  the fixtures after every command, whatever its outcome; fixtures never
  share a channel; removing undoes adding; moving back undoes a move; a move
  in place changes nothing; a fixture's type stays readable; adding on free
  channels succeeds; fatal errors never occur in a consistent engine).
- `src/cli` — reading a command line, and executing its action on the kernel.
- `src/networking` — messages, the handshake, framing, sessions,
  subscriptions, and the kernel's handling of client messages.
- `src/client_state.rs` — the client's connection state and its decisions on
  user-interface events and kernel messages.
- `src/logging.rs`, `src/dmx_output.rs` — log lines and output packets.
- `src/launcher.rs` — the shell command, window title and terminal arguments
  that run a program in a terminal window of its own.
- `app/` — the kernel program: console, TCP server, Art-Net output loop,
  logging sinks, the serde copies of the message types, and the
  floating-point conversions (percentages, color models).
