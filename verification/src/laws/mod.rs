//! What holds of the library's operations, stated of their calls.
//!
//! Each law takes a call by its arguments and its result, and says what the
//! caller finds. An argument that a call changes is read with `old` before the call
//! and with `final` after it.
pub mod bodies;
pub mod headers;
pub mod health;
pub mod operations;
pub mod rejection;
pub mod request;
pub mod response;
pub mod sse;
pub mod terminal;
pub mod trace;
