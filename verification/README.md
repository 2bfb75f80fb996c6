# lanlink

The verified core of a desktop helper that lets Minecraft players find LAN
games and play across the internet through a QUIC tunnel and a lobby service.

- `src/` is the library, verified with Verus:
  - `stun.rs`: STUN Binding requests, reading the public endpoint out of a
    Binding Success Response, and the order in which STUN servers are asked.
  - `lan.rs`: the Java Edition LAN announcement, the Bedrock RakNet ping and
    pong, and NetherNet discovery results, as server-list entries.
  - `lobby.rs`: lobby service URLs, published bodies, reply handling, the
    lobby list, and the presence a host publishes.
  - `json.rs`: the JSON model the lobby messages are handled in.
  - `status.rs`: the application status and how hosting and connecting
    change it.
  - `p2p.rs`: geolocation of peers and the events reported about them.
  - `tls.rs`: the host's self-signed certificate and the signature schemes
    the client's certificate check offers (the check itself, which accepts
    any certificate, is the rustls trait implementation in `app/`).
  - `text.rs`: decimal rendering, UTF-8 decoding, splitting.
- `app/` is the Tauri application around it: commands, sockets, timers,
  threads, HTTP and QUIC.
- `tests/` exercises the library on concrete values.
