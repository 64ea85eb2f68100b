# h3

HTTP/3 (RFC 9114) and QPACK (RFC 9204) protocol logic, written in Verus and
proved against its specifications.

## Layout

- `src/` — the verified library. It does no I/O: callers hand it the bytes
  they received and perform what it returns.
  - `varint` — QUIC variable-length integers.
  - `proto` — frames and their payloads (`frame`), SETTINGS (`settings`),
    unidirectional stream types (`stream`), error codes carried in frames
    (`error`), field sections (`headers`), and the proof that the field
    lines written for a section read back as it (`header_lines`).
  - `frame`, `frame_stream`, `buf` — decoding frames from a stream as its
    bytes arrive, with unknown frames discarded and buffered frames bounded.
  - `qpack` — prefix integers, Huffman coding, string literals (at once,
    and incrementally),
    encoder and decoder stream instructions.
  - `error`, `error2`, `shared_state`, `connection`, `connection_errors` —
    error codes and errors, the state a connection shares with its streams,
    the decisions taken on the peer's control and unidirectional streams,
    and how an error ends the connection (reported once, closed at most
    once).
  - `ext`, `datagram_handler`, `datagram_traits`, `webtransport` — extended
    CONNECT protocols, HTTP datagrams and WebTransport session acceptance.
  - `config`, `params`, `client`, `server` — configuration builders.
- `tests/` — tests run against the compiled library.
- `app/` — glue that is not verified: conversions to and from the `http`
  crate's request and header types, loops that feed a frame stream from a
  blocking reader, and the lock that shares a connection's state between
  tasks.

String literals are written Huffman-coded (`qpack::huffman`, the code of
RFC 7541 Appendix B); both Huffman-coded and plain literals are read. The
decoder is proved to give back whatever the encoder coded.
