//! What a listener's configuration means for its handler.
use vstd::prelude::*;
use vstd::string::*;

verus! {

/// The text before the listener's name in the name of its service.
pub const SERVICE_PREFIX: &'static str = "http-proxy:";

/// The part of a listener's configuration that its handler is set up from.
pub struct Listener {
    /// Name of the listener.
    pub name: String,
    /// How long a read from the client may take, in milliseconds.
    pub downstream_read_timeout_ms: Option<u64>,
    /// How many connections are served at a time.
    pub max_connections: Option<u32>,
}

/// What the handler of a listener is set up with.
pub struct HandlerSettings {
    /// Name of the service.
    pub service_name: String,
    /// How long a read from the client may take, in milliseconds.
    pub downstream_read_timeout_ms: Option<u64>,
    /// How many connections are served at a time.
    pub connection_permits: Option<usize>,
}

/// Reads the settings of a handler out of the listener's configuration.
pub fn handler_settings(listener: &Listener) -> (settings: HandlerSettings)
    ensures
        settings.service_name@ == SERVICE_PREFIX@ + listener.name@,
        settings.downstream_read_timeout_ms == listener.downstream_read_timeout_ms,
        settings.connection_permits is Some == listener.max_connections is Some,
        settings.connection_permits matches Some(permits) ==> permits
            == listener.max_connections->0,
{
    let mut service_name = SERVICE_PREFIX.to_owned();
    service_name.append(listener.name.as_str());
    HandlerSettings {
        service_name,
        downstream_read_timeout_ms: listener.downstream_read_timeout_ms,
        connection_permits: match listener.max_connections {
            Some(max) => Some(max as usize),
            None => None,
        },
    }
}

} // verus!
