# xscp

XSCP is a line-oriented, pipe-delimited UTF-8 chat protocol with a 512-byte
PDU budget. This crate holds its verified protocol layer and the verified
decisions of its reference server and client.

- `src/wire.rs`: the byte-level grammar (delimiters, `\r\n` trimming, field
  splitting, decimal status codes) and the lemmas about it.
- `src/request.rs`, `src/response.rs`, `src/notification.rs`: the PDUs, with
  constructors, parsers and wire writers specified exactly, and the laws
  (round trip, canonical form, framing and budget).
- `src/session/`, `src/storage.rs`: registration of logged-in nicknames and
  the login decision.
- `src/connection/`: the server's connection state machine.
- `src/client.rs`: the client's login exchange and reading of server lines.
- `app/`: the tokio server and client that run the above over TCP.
