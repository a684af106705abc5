# arp

A fast reverse proxy: a server with a public address exposes TCP, UDP,
HTTP, HTTPS, secret (stcp/sudp) and peer-to-peer (xtcp) services that run
behind clients in private networks.

## Layout

- `src/` — the library, verified with Verus: configuration and its
  validation, the control-message protocol and its framing, the
  multiplexing, UDP and relay frames, authentication and per-token rules,
  packet ciphers and compression, port allocation, the proxy directory and
  registration decisions, HTTP/HTTPS virtual-host routing, load-balanced
  backend pools, NAT hole-punching brokerage, the client's and server's
  session decisions, metrics, and the dashboard and admin texts. Every
  public function carries a contract; the laws that relate functions are
  public proof functions beside them.
- `tests/` — the library's tests.
- `app/` — the `arp` program around the library: `arp server` and
  `arp client [run|status|check]`, with the sockets, TLS, WebSocket, KCP and
  QUIC transports, the async tasks, the serde forms of the configuration
  and messages, logging, and the HTTP APIs.

## Configuration

Both sides read TOML files (`server.toml`, `client.toml` by default); see
the serde forms in `app/wire.rs` for the keys and their defaults.
`log_file` and `log_max_days` send the log to daily files and purge old
ones.
