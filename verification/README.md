# Hush

The logic of the Hush protocol, verified with Verus: binary type-length-value
encoding, authenticated sessions, length-prefixed frames, request routing, media
tokens and topic-based events.

## Layout

- `src/tlv/` — values, their bytes, and the laws that tie the two together
- `src/session/` — keys, encryption, the handshake, and the store of sessions
- `src/frame/` — frames, requests and responses
- `src/client.rs` — a client's side of a session
- `src/server/` — routing, the steps of connections and streams, and the
  certificates and key of a server
- `src/media.rs`, `src/hub.rs`, `src/middleware.rs`, `src/logger.rs`,
  `src/transport.rs` — tokens, events, handlers around handlers, log lines, names
- `src/crypto.rs`, `src/time.rs` — what comes from outside: ciphers, key
  agreement, random bytes, clocks
- `src/assoc.rs`, `src/bytes.rs`, `src/table.rs`, `src/text.rs` — small shared
  parts
- `app/` — connections over QUIC and TLS, around the library

## What is proved

The contracts in `src/` speak of plain mathematics: sequences of bytes,
characters and named values. Of what comes from a clock or from chance they say
that it was read off that clock, or drawn; which reading or which bytes came is
open. On top of the contracts stand laws, as public proof functions whose names
begin with `law_`: among them that reading gives back what was written, for
values, frames, requests and responses, plain or encrypted; that a server with its keys in memory admits a client exactly when it
has the API key that the client names, and that both derive the same session key;
and that a request reaches the handler of its opcode.

The functions marked `external_body` are trusted. Each names the outside function
it calls and says what is taken for granted of it.
