# bemyvpn

The core of a peer-to-peer VPN in which anyone can share their internet
connection with guests, written in Verus: every rule the client follows is a
function with a contract, proved.

## Layout

- `src/` — the verified library.
  - `stun.rs` — STUN Binding requests and the parsing of answers (only our own
    transaction, only plausible external addresses).
  - `punch.rs`, `hub.rs` — NAT hole punching: per-host tokens, what a datagram
    may open, the host's flood quota and the coordinator's vouches.
  - `keepalive.rs`, `session.rs` — link liveness, goodbyes, the reconnecting
    pump of a guest session and the values that the platform shell reads.
  - `hosting.rs`, `rank.rs` — guest slots, the directory announcement, the
    password frame, punch targets, and the quick-start order of hosts.
  - `routes.rs`, `sysout.rs`, `desktop.rs` — the routing plans of the desktop
    guest (Linux, macOS, Windows), their rollback, the parsing of the system
    tools' output, adapter failures and `utun` framing.
  - `config.rs`, `update.rs`, `version.rs` — configuration rules and defaults,
    self-update (release files, downloads, helper scripts) and versions.
  - `addr.rs`, `text.rs`, `ids.rs`, `error.rs` — address ranges, text helpers,
    host ids and the error type.
- `app/` — the shell around it: sockets, files, processes, HTTPS, the tunnel
  device and the async loops, each decision taken by the library.
- `tests/` — the tests.

Laws that span several functions are public proof functions named `law_*`.
