# wormhole-core

The engine of a wormhole file transfer, written in Verus. The library decides; it
does no input or output of its own.

- `src/file_name.rs`: the file that a path names, and the cleaning of names that a
  peer sent. Paths are read as on Unix-like systems; `app/` first takes the name
  out of a path by the rules of the system that it runs on.
- `src/unique_name.rs`: the search for a name that is not taken.
- `src/mailbox.rs`: wormhole codes, and which mailbox they lead to.
- `src/send.rs`, `src/offer.rs`, `src/accept.rs`, `src/receive.rs`: the sessions
  that send a file, wait for an offer, save an accepted file, and receive in one
  go. A session says what is to be done next and is told what came of it.
- `src/incoming.rs`: what an app sees: an offer that it answers once, and the
  listener that it gets reports through.
- `src/transit.rs`, `src/progress.rs`: how a connection and the progress are
  described, and which relay is offered.
- `src/test_file.rs`: files with known contents, for trying out a transfer.
- `src/error.rs`, `src/text.rs`: errors, and small building blocks.

What the library takes from `magic_wormhole` stands behind three functions, each
with a contract that is trusted: reading a code (`mailbox::parse_code`), the words
for a connection (`transit::connection_text`) and the default relay
(`transit::default_relay_hint`).

`app/` runs the sessions over the network and on the file system, and exports them
through UniFFI. `tests/` tries out the library on concrete values.
