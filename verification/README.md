# entanglement_rs

A bridge between a client/server messaging transport, which is a C library, and
asynchronous Rust code, together with the programs that test and measure it.

* `src/` is the library: what is decided and computed on whole numbers, bytes and text.
  It is verified with Verus, but for a few items that are believed: the channels of the
  crate `tokio` (`channel`), two readings of bytes as text (`ctext`) and the address of
  a buffer (`buffers`). The doc comment of each says what is claimed of it.
  The modules: return codes and errors (`error`), values that cross the C boundary
  (`packet`, `ctext`, `buffers`), the decisions of the threads that run the transport
  (`server`, `client`, `config`, `channel`), and the logic of the test programs (`soak`,
  `soak_run`, `bench`, `reporter`, `echo`, `echo_server`, `stress`, `stress_run`,
  `loopback`, `options`, `percent`, `text`, `wire`).
* `app/` is ordinary Rust around it, which is not verified: the calls of the C library
  through the crate `entanglement_sys`, the threads, the clock and the printing. It also
  computes what is a floating-point number: rates over elapsed seconds, and the verdict
  of the stress test. A thread performs the action that the library has decided on, and
  hands back what became of it.
* `tests/` runs the library on concrete values.

A thread of the bridge is a state machine: `expects` says which inputs can come in a
phase, and `step` takes one and gives the next action. The laws about whole runs are
public proof functions whose names begin with `law_`. One of them says that the commands
that a thread takes out of its channel are carried out in the order in which they were
taken; that the channel hands out what its users have put in is up to `tokio`.
