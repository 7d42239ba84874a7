# praxis

The decisions of an HTTP reverse proxy whose requests and responses pass through
a pipeline of filters, verified with Verus.

`src/` is the library. It holds no I/O: each phase of a request is split at its
outside work (the transport, the filters), and a function takes what came back
and says what is done next. Header collections and byte chunks are those of the
`http`, `pingora-http` and `bytes` crates; `src/headers.rs`, `src/transport.rs`
and `src/chunk.rs` state what is relied on of them, `src/text.rs` does so for one
function of the standard library, and every other contract is proved from that.

Some types are the library's own model of what other parts of the proxy hold:
`BodyBuffer`, `EndpointHealth` and `ClusterHealthEntry`, `FrameworkHeaders`, the
record and decoder of `src/sse/`, and the prefixes of internal headers. Their
contracts are proved of the code here. `FrameworkHeaders::insert` takes every
change: a value that cannot be sent is refused before it gets there, and a store
that refuses changes for reasons of its own is not modelled.

Functions named `law_..` are proofs. They state what holds of the library as a
whole, such as that no internal header reaches a client, that no filter sees a
request before every early check has passed, or that a streamed response which is
broken off cancels its source exactly once.

`app/` runs the phases against a transport and a filter pipeline, which it
reaches through the traits in `app/host.rs`. `tests/` runs the library on
concrete values with the real crates linked.
