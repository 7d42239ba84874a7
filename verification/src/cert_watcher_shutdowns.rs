//! Shutdown handles of the TLS certificate watchers.
use tokio::sync::watch;
use vstd::prelude::*;

verus! {

/// `tokio::sync::watch::Sender`, kept opaque.
#[verifier::external_type_specification]
#[verifier::external_body]
#[verifier::reject_recursive_types(T)]
pub struct ExWatchSender<T>(tokio::sync::watch::Sender<T>);

/// The shutdown handles of all certificate watchers, kept as long as the server
/// runs. Sending `true` through one asks its watcher to stop; dropping them stops
/// nothing.
pub struct CertWatcherShutdowns {
    _senders: Vec<watch::Sender<bool>>,
}

impl CertWatcherShutdowns {
    /// The handles, in the order in which they were collected.
    pub closed spec fn held(&self) -> Seq<watch::Sender<bool>> {
        self._senders@
    }

    /// Keeps the collected handles.
    pub fn new(senders: Vec<watch::Sender<bool>>) -> (shutdowns: Self)
        ensures
            shutdowns.held() == senders@,
    {
        CertWatcherShutdowns { _senders: senders }
    }
}

} // verus!
