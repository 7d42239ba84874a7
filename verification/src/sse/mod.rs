//! Server-Sent Events: records, and their form on the wire.
pub mod decoder;
pub mod encoder;
pub mod record;
