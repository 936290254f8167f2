# fuser

The logic of a FUSE session and of its FUSE-over-io_uring transport, verified with Verus.

* `src/ll/` holds the wire structures of the transport and their byte layout.
* `src/uring/` holds the transport: the buffer layout and the staging of requests, the entries of a
  ring and the commit protocol, the ring thread, and the sharing of the kernel's queues between
  rings. `accounting.rs` and `protocol.rs` state what every operation keeps and what the protocol
  promises.
* `src/session/` holds the session: its options, the INIT handshake, its threads and its teardown.
* `src/commands/` holds what the test runner starts and how it judges the outcome.
* `src/bytes.rs`, `src/text.rs`, `src/errno.rs` and `src/error.rs` are shared by all of them.

Everything that waits, maps memory or enters the kernel is in `app/`, which runs the library's
state machines: each of them tells its driver what to do next and is told what came of it. `app/`
is also the test runner. `tests/` holds the tests of the library.

The library trusts a few functions from outside: `u16::to_ne_bytes`, `format!("{:?}")`,
`page_size::get`, `io_uring::cqueue::more` and four functions of `smallvec::SmallVec`. Each is
declared with a comment on what is claimed of it.
