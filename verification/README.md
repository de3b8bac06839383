# xash3d-query

A tool that asks Xash3D master servers for game servers and game servers for
what they are, written as a verified library with a thin program around it.

- `src/` is the library: packets, the rules of an inquiry, reports and the
  monitor. Every function is verified against its contract; calls into
  `xash3d-protocol`, `crossterm` and std stand behind small wrappers whose
  contracts are stated and not proved. `src/laws.rs` holds what is true of the
  library as a whole.
- `tests/` runs the library with the real outside crates.
- `app/` is the program: arguments, sockets, clocks, the terminal and JSON.

Sockets and clocks never enter the library. `Scan::servers` and
`Scan::server_info` begin a conversation; the program tells it what was sent and
received, and it tells the program what to do next.
