//! Request-scoped correlation: W3C trace context parsing and propagation.
pub mod context;
pub mod parent;
pub mod split;
pub mod state;
