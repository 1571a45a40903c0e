# litevpn

A point-to-point VPN that carries IP packets between a TUN device and QUIC
datagrams, for one server and one client at a time.

- `src/` is the library, verified with Verus: the authentication exchange
  (request grammar, encoder, server verdict and reply), configuration
  defaults and validation, the client token, PEM certificate and key
  reading, the QUIC transport settings, the datagram backlog and loss
  monitor that drive the egress pumps, the benchmark plan, counting and
  report, the single-client slot of the server, and the macOS split routes
  (the `route` commands, and the gateway read from `route` output). Each
  public function states its result in its `ensures` (where the
  result rests on randomness or on what the connection reports, what holds
  of every outcome); the
  `lemma_*` proof functions state properties that span several functions.
- `tests/` runs the library on concrete values.
- `app/` holds the programs (`server`, `client`, `keygen`) around the
  library: file, socket and device I/O, the async packet pumps, the
  floating-point egress pacer and the macOS route guard.
