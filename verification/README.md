# openfang_channels

Channels for a multi-agent Discord setup, as a verified Verus library.

`src/` is the library. It computes on plain values only: which Discord messages
reach the agent, how relevant they are, which of several agents takes one, what
becomes of a boardroom thread, what the gateway connection does next, and which
requests go to the REST API. Every function states its result over mathematical
models of its types. Laws that span functions are public proof functions whose
names begin with `law_`.

The library calls `serde_json`, `chrono`, `dashmap`, `urlencoding` and `zeroize`
through small items whose contracts are believed. Each stands in the file
that needs it, with a comment that says what is claimed of the call.

`app/` does the input and output: it connects, sends, stores, waits and logs as the
library says. `tests/` runs the library with the real crates.
