# pong

A small message server over a Unix socket, with its protocol logic verified
by Verus.

- `src/codec.rs`: frames (type number, length, body, trailer): decoding from
  a `BytesMut`, encoding, and building frames as clients send them.
- `src/message.rs`: reading registration messages through a `Cursor`.
- `src/shared.rs`: the peers registered by channel name and the key-value
  store shared by all connections.
- `src/session.rs`: what a connection decides for each frame it receives.
- `src/buffers.rs`, `src/text.rs`: the calls into `bytes` and `std` that the
  library trusts, each with the contract it is trusted for.
- `app/`: the server that runs it all over tokio, and the clients.
