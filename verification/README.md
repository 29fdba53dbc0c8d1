# rsgdb

A GDB Remote Serial Protocol proxy: GDB connects to rsgdb, rsgdb relays
every packet and acknowledgement unchanged to a debug stub (OpenOCD,
gdbserver, probe-rs, …) and back, and logs, annotates and records what
passes.

## Layout

- `src/` — the library, verified with Verus: RSP framing and checksums, the
  stream codec and its round-trip laws, command parsing, configuration
  defaults, validation and precedence (file < environment < command line),
  argv templating for spawned stubs, SSH and flash tools, RTOS reply
  summaries, the SVD register map, per-session relay statistics, recording
  budgets and the record/replay round trip.
- `app/` — the program around it: command line, TOML and JSON files,
  logging setup, sockets, child processes and the async relay loop.
- `tests/` — tests of the library's public API.
