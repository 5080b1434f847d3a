# Solarscape core

The verified logic of the Solarscape game services, written in Verus.

- `src/` is the library. Verus proves every function in it; the public ones
  carry contracts that say what they do: token and hexadecimal encoding, account name and email checks,
  password checks through `argon2`, the connection handshake through
  `chacha20poly1305`, the WebSocket handler's ping and close rules, chunk
  indexing and marching-cubes triangulation, chunk lock and dependency
  bookkeeping, movement key handling and frame-time statistics.
- `tests/` exercises the library on concrete values.
- `app/` is the program around it: the gateway's HTTP endpoints (`axum`),
  the sector server's connection acceptor (`tokio`), and the terrain and
  collision code that works in floating point.

Calls into outside crates go through a few small trusted functions, each
documented with what its contract claims of the crate.
