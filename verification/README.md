# bettercoding

The core of the BetterCoding server, with its behaviour stated in contracts and
proved by Verus.

- `src/` is the library. What talks to the outside (a database, a terminal, the
  file system, a socket) is split in two: a state machine or a decision in
  `src/`, which says what is done next and is proved, and the code that does it.
  Properties that span several steps stand beside the machines as proof
  functions whose names start with `law_`.
- `src/foreign.rs` holds the calls into other crates, each with what is relied
  on.
- `tests/` runs the library.
- `app/` does what the machines ask for: files, sockets, the environment, and
  ports for what other parts of the server provide.

Identifiers are 128-bit numbers, and times are nanoseconds since the epoch
unless a name says otherwise.
