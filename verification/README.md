# immuxdb

The wire-protocol front ends of the ImmuxDB immutable database, written in
Verus: every codec and decision function carries a contract, and Verus proves
the code against it.

## Layout

- `src/` — the verified library.
  - `utils.rs`: little-endian integers and single-bit access, with their
    round-trip lemmas.
  - `config.rs`: the server configuration, its defaults and command line, and
    how it is kept in the core.
  - `storage/`: the key-value core the front ends keep connection state in
    (a read gives back the last write of a key).
  - `cortices/mysql/`: MySQL packets (initial handshake, handshake response,
    auth switch, OK packet, capability and status flags, length-encoded
    integers) and the login exchange.
  - `cortices/mongo/`: MongoDB wire messages (header, OP_MSG, OP_REPLY,
    OP_QUERY), their parsers and serializers, the commands they ask of the
    store, and the replies the server answers by itself.
  - `cortices/unicus/`: the HTTP front end, from a request to the
    instruction it asks for.
  - `cortices/tcp.rs`: what a connection does after each read and send.
  - `connectors/`: the requests an HTTP client of the server sends.
- `tests/` — tests of the library on concrete values.
- `app/` — the server program: command line, TCP listeners, serde/bincode
  encoding of the configuration, BSON documents that carry floats or the
  time, and the HTTP client's transport.
