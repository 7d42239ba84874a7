//! The decisions of an HTTP reverse proxy whose requests and responses pass
//! through a pipeline of filters.
//!
//! The proxy reads and writes through a transport and runs its filters outside of
//! this crate. What happens in between is decided here: which body modes hold,
//! which headers pass, what a filter's outcome means for the request, what is
//! written to the client and in which order. Each phase is split at its outside
//! work. A function takes what came back from that work and says what is done
//! next.
//!
//! - [`trace`] continues or starts a W3C trace and writes it for the next hop.
//! - [`headers`], [`transport`] and [`chunk`] model the header collections of the
//!   `http` and `pingora-http` crates and the byte chunks of `bytes`. All calls
//!   into these crates stand there.
//! - [`request_phase`], [`mutations`], [`body_handling`] and [`request_body`] carry
//!   a request to the upstream.
//! - [`response_phase`], [`strip`] and [`response_body`] carry its response back.
//! - [`rejection`], [`grpc`], [`terminal`] and [`streaming`] answer in place of the
//!   upstream.
//! - [`health`], [`logging`] and [`compression`] accompany a request, and [`body`]
//!   and [`context`] hold what its phases share.
//! - [`sse`] writes and reads Server-Sent Events.
//! - [`laws`] states what the operations above do for their callers.
//! - [`listener`] and [`cert_watcher_shutdowns`] belong to the set-up.
pub mod body;
pub mod body_handling;
pub mod cert_watcher_shutdowns;
pub mod chunk;
pub mod compression;
pub mod context;
pub mod grpc;
pub mod headers;
pub mod health;
pub mod laws;
pub mod listener;
pub mod logging;
pub mod mutations;
pub mod rejection;
pub mod request_body;
pub mod request_phase;
pub mod response_body;
pub mod response_phase;
pub mod sse;
pub mod streaming;
pub mod strip;
pub mod terminal;
pub mod text;
pub mod trace;
pub mod transport;
