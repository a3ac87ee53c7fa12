# Shade

Shade is an IRC bot that manages channels together with other bots of its kind.
The nodes form a mesh over mutual TLS and keep their users, channels, settings
and masks in step by last write wins. Operators work through an HTTP+JSON API.

The library under `src/` is verified with [Verus](https://github.com/verus-lang/verus):

- `model`: users, channels, masks, flags, roles, audit entries, tokens, passwords
  and op cookies.
- `ircd`: the IRC parser, capability negotiation, SASL, server state, the mode
  queue, the write limiter and the session state machine.
- `proto`, `mesh`: the messages between nodes, their framing, the handshake,
  snapshots and the peer registry.
- `store`: which row a write or a message of another node leaves, and how rows
  are laid out in columns.
- `api`: what each request of the admin API may do and what is recorded of it.
- `node`: certificates, backups, session setup, operator requests and the
  observation of ops.

Beside the contracts stand the laws that span several functions, as public proof
functions: merges commute and are idempotent, deleted masks stay deleted, cookies
and tokens that were issued are recognised, flag sets survive their text form, and
others.

`tests/` runs the library on concrete values. `app/` is the program around it:
sockets, TLS, SQLite, HTTP and the command line.
