# netlab-server

A network test server: a WebSocket client asks for TCP, TLS-over-TCP or UDP
ports, and the server relays what peers send on those ports back over the
WebSocket (hex-encoded), and sends what the client asks to them.

## Layout

- `src/` — the library, verified with Verus:
  - `domain/` — ports and port ranges, port types and their wire labels,
    client ids and statistics, hex coding, errors;
  - `application/` — the random port pool, the port service (sessions and
    the ports they hold), the WebSocket request dispatcher and its JSON
    replies, metric names;
  - `infrastructure/` — the client table of a port, the TCP connection
    state machine, the UDP peer registry, TLS material;
  - `config.rs` — the configuration and its layering (defaults, file,
    environment).
- `app/` — the server binary: sockets, the HTTP/WebSocket server, the
  Prometheus exporter, start-up.
- `tests/` — tests of the library.
