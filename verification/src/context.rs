//! Request-scoped state: what the proxy keeps of a request between phases, and
//! what the filters of one phase are handed and hand back.
//!
//! Values that the proxy only carries for filters (extensions, per-filter state,
//! retry handles) have the type parameter `V`: nothing here looks inside them.
use crate::body::{BodyBuffer, BodyMode};
use bytes::Bytes;
use http::{HeaderMap, HeaderName, HeaderValue};
use std::collections::{HashMap, VecDeque};
use vstd::prelude::*;

verus! {

/// HTTP protocol version.
#[derive(Clone, Copy, Debug, PartialEq, Eq, Structural)]
pub enum HttpVersion {
    /// HTTP/0.9
    Http09,
    /// HTTP/1.0
    Http10,
    /// HTTP/1.1
    Http11,
    /// HTTP/2
    Http2,
    /// HTTP/3
    Http3,
}

/// An IP address by its octets.
#[derive(Clone, Copy, Debug, PartialEq, Eq)]
pub enum ClientAddr {
    /// IPv4.
    V4([u8; 4]),
    /// IPv6.
    V6([u8; 16]),
}

/// Identity of a TLS peer that presented a certificate.
pub struct PeerIdentity {
    /// Digest of the certificate; never empty.
    pub cert_digest: Vec<u8>,
    /// Organization named in the certificate.
    pub organization: Option<String>,
    /// Serial number of the certificate.
    pub serial_number: Option<String>,
}

/// A request as filters see it.
pub struct Request {
    /// Request method.
    pub method: String,
    /// Request target.
    pub uri: String,
    /// Header fields.
    pub headers: HeaderMap,
}

/// A response as filters see it.
pub struct Response {
    /// Status code.
    pub status: u16,
    /// Header fields.
    pub headers: HeaderMap,
}

/// A response that the proxy sends in place of the upstream's.
pub struct Rejection {
    /// Body to send, if any.
    pub body: Option<Bytes>,
    /// Header fields given as text.
    pub headers: Vec<(String, String)>,
    /// Header fields given as a map, for values that are not text.
    pub header_map: Option<HeaderMap>,
    /// Whether the downstream connection stays open afterwards.
    pub preserve_keepalive: bool,
    /// Status code.
    pub status: u16,
}

impl Rejection {
    /// A rejection with a status code and nothing else.
    pub fn status(status: u16) -> (rejection: Self)
        ensures
            rejection.status == status,
            rejection.body is None,
            rejection.headers@ == Seq::<(String, String)>::empty(),
            rejection.header_map is None,
            !rejection.preserve_keepalive,
    {
        Rejection {
            body: None,
            headers: Vec::new(),
            header_map: None,
            preserve_keepalive: false,
            status,
        }
    }

    /// Adds a header field.
    pub fn with_header(self, name: String, value: String) -> (rejection: Self)
        ensures
            rejection.headers@ == self.headers@.push((name, value)),
            rejection.status == self.status,
            rejection.body == self.body,
            rejection.header_map == self.header_map,
            rejection.preserve_keepalive == self.preserve_keepalive,
    {
        let mut rejection = self;
        rejection.headers.push((name, value));
        rejection
    }
}

/// Whether a rejection is the bare one for a status code.
pub open spec fn is_bare_rejection(rejection: Rejection, status: u16) -> bool {
    &&& rejection.status == status
    &&& rejection.body is None
    &&& rejection.headers@.len() == 0
    &&& rejection.header_map is None
    &&& !rejection.preserve_keepalive
}

/// A complete response made by a filter.
pub struct TerminalResponse {
    /// Status code.
    pub status: u16,
    /// Header fields.
    pub headers: HeaderMap,
    /// Body, if any.
    pub body: Option<Bytes>,
}

/// A response made by a filter whose body arrives chunk by chunk from a source
/// of type `S`.
pub struct StreamingTerminalResponse<S> {
    /// Status code.
    pub status: u16,
    /// Header fields.
    pub headers: HeaderMap,
    /// Where the chunks come from.
    pub body: S,
}

/// What the filters decided.
pub enum FilterAction<S> {
    /// Go on.
    Continue,
    /// Go on, and stop holding back the body.
    Release,
    /// Go on without seeing more of the body.
    BodyDone,
    /// Answer with a rejection.
    Reject(Rejection),
    /// Answer with a complete response.
    TerminalResponse(TerminalResponse),
    /// Answer with a streamed response.
    StreamingTerminalResponse(StreamingTerminalResponse<S>),
}

/// Whether a filter lets the request or response go on.
pub open spec fn is_proceed<S>(action: FilterAction<S>) -> bool {
    action is Continue || action is Release || action is BodyDone
}

/// A failure inside a filter.
pub struct FilterError {
    /// What went wrong.
    pub message: String,
}

/// The upstream endpoint that a request goes to.
pub struct Upstream<V> {
    /// Host and port.
    pub address: String,
    /// Authority override, if any.
    pub authority: Option<String>,
    /// Connection and TLS settings.
    pub connection: V,
}

/// What is kept of a request between phases.
pub struct RequestCtx<V> {
    /// Adapted request body still to be forwarded.
    pub adapted_request_body: Option<VecDeque<Bytes>>,
    /// Length of the adapted request body.
    pub adapted_request_body_len: Option<usize>,
    /// Endpoints already attempted for this request.
    pub attempted_endpoints: Vec<String>,
    /// Which filters are done with the body.
    pub cached_body_done_indices: Vec<bool>,
    /// Which filters of branches have run.
    pub cached_executed_branch_filters: Vec<bool>,
    /// Which filters have run.
    pub cached_executed_filter_indices: Vec<bool>,
    /// Address of the client.
    pub client_addr: Option<ClientAddr>,
    /// Protocol version of the client's request.
    pub client_http_version: Option<HttpVersion>,
    /// Cluster selected by the filters.
    pub cluster: Option<String>,
    /// Retry state of the cluster.
    pub cluster_retry_state: Option<V>,
    /// Whether that state was given back.
    pub cluster_retry_state_released: bool,
    /// Whether the connection was upgraded.
    pub connection_upgraded: bool,
    /// Whether the client connected with TLS.
    pub downstream_tls: bool,
    /// Selects another endpoint for a retry.
    pub endpoint_reselector: Option<V>,
    /// Request-scoped extension values.
    pub extensions: Vec<V>,
    /// Durable per-request metadata.
    pub filter_metadata: HashMap<String, String>,
    /// Results that filters published.
    pub filter_results: Vec<V>,
    /// Per-filter state by filter invocation.
    pub filter_state: HashMap<usize, V>,
    /// Cluster that metrics are attributed to.
    pub metrics_cluster: Option<String>,
    /// The same as a label that metrics share.
    pub metrics_cluster_shared: Option<String>,
    /// Route that metrics are attributed to.
    pub metrics_route: Option<String>,
    /// Length of a request body that filters changed.
    pub mutated_request_body_len: Option<usize>,
    /// Identity of the client's certificate.
    pub peer_identity: Option<PeerIdentity>,
    /// Rejection of a response, to be delivered by the error path.
    pub pending_rejection: Option<Rejection>,
    /// Request body that was read before the request phase.
    pub pre_read_body: Option<VecDeque<Bytes>>,
    /// Header mutations made while reading it.
    pub pre_read_mutations: Vec<V>,
    /// Request body held back so far.
    pub request_body_buffer: Option<BodyBuffer>,
    /// Request body bytes seen so far.
    pub request_body_bytes: u64,
    /// How the request body is delivered.
    pub request_body_mode: BodyMode,
    /// Whether the request body is no longer held back.
    pub request_body_released: bool,
    /// Whether the request method is idempotent.
    pub request_is_idempotent: bool,
    /// The request as the upstream receives it.
    pub request_snapshot: Option<Request>,
    /// Response body held back so far.
    pub response_body_buffer: Option<BodyBuffer>,
    /// Response body bytes seen so far.
    pub response_body_bytes: u64,
    /// How the response body is delivered.
    pub response_body_mode: BodyMode,
    /// Whether the response body is no longer held back.
    pub response_body_released: bool,
    /// Whether the response was delivered to completion.
    pub response_delivery_complete: bool,
    /// Response header kept for conditions on the body.
    pub response_header_snapshot: Option<Response>,
    /// Whether the response phase has run.
    pub response_phase_done: bool,
    /// Adapted request body kept for retries. Its presence marks that
    /// adaptation ran.
    pub retained_adapted_request_body: Option<VecDeque<Bytes>>,
    /// Pre-read request body kept for retries.
    pub retained_pre_read_body: Option<VecDeque<Bytes>>,
    /// Retry policy of the cluster.
    pub retry_policy: Option<V>,
    /// Retry policy of the route.
    pub route_retry_policy: Option<V>,
    /// Path that replaces the request's.
    pub rewritten_path: Option<String>,
    /// Index of the selected endpoint.
    pub selected_endpoint_index: Option<usize>,
    /// Structured metadata that filters published.
    pub structured_metadata: Vec<V>,
    /// Upstream endpoint selected by the load balancer.
    pub upstream: Option<Upstream<V>>,
    /// Whether an upstream peer was resolved.
    pub upstream_contacted: bool,
    /// Status code that the upstream answered with.
    pub upstream_response_status: Option<u16>,
}

impl<V> RequestCtx<V> {
    /// The state at the start of a request.
    pub fn new() -> (ctx: Self)
        ensures
            ctx.adapted_request_body is None,
            ctx.adapted_request_body_len is None,
            ctx.attempted_endpoints@.len() == 0,
            ctx.cached_body_done_indices@.len() == 0,
            ctx.cached_executed_branch_filters@.len() == 0,
            ctx.cached_executed_filter_indices@.len() == 0,
            ctx.client_addr is None,
            ctx.client_http_version is None,
            ctx.cluster is None,
            ctx.cluster_retry_state is None,
            !ctx.cluster_retry_state_released,
            !ctx.connection_upgraded,
            !ctx.downstream_tls,
            ctx.endpoint_reselector is None,
            ctx.extensions@.len() == 0,
            ctx.filter_metadata@ == Map::<String, String>::empty(),
            ctx.filter_results@.len() == 0,
            ctx.filter_state@ == Map::<usize, V>::empty(),
            ctx.metrics_cluster is None,
            ctx.metrics_cluster_shared is None,
            ctx.metrics_route is None,
            ctx.mutated_request_body_len is None,
            ctx.peer_identity is None,
            ctx.pending_rejection is None,
            ctx.pre_read_body is None,
            ctx.pre_read_mutations@.len() == 0,
            ctx.request_body_buffer is None,
            ctx.request_body_bytes == 0,
            ctx.request_body_mode == BodyMode::Stream,
            !ctx.request_body_released,
            !ctx.request_is_idempotent,
            ctx.request_snapshot is None,
            ctx.response_body_buffer is None,
            ctx.response_body_bytes == 0,
            ctx.response_body_mode == BodyMode::Stream,
            !ctx.response_body_released,
            !ctx.response_delivery_complete,
            ctx.response_header_snapshot is None,
            !ctx.response_phase_done,
            ctx.retained_adapted_request_body is None,
            ctx.retained_pre_read_body is None,
            ctx.retry_policy is None,
            ctx.route_retry_policy is None,
            ctx.rewritten_path is None,
            ctx.selected_endpoint_index is None,
            ctx.structured_metadata@.len() == 0,
            ctx.upstream is None,
            !ctx.upstream_contacted,
            ctx.upstream_response_status is None,
    {
        RequestCtx {
            adapted_request_body: None,
            adapted_request_body_len: None,
            attempted_endpoints: Vec::new(),
            cached_body_done_indices: Vec::new(),
            cached_executed_branch_filters: Vec::new(),
            cached_executed_filter_indices: Vec::new(),
            client_addr: None,
            client_http_version: None,
            cluster: None,
            cluster_retry_state: None,
            cluster_retry_state_released: false,
            connection_upgraded: false,
            downstream_tls: false,
            endpoint_reselector: None,
            extensions: Vec::new(),
            filter_metadata: HashMap::new(),
            filter_results: Vec::new(),
            filter_state: HashMap::new(),
            metrics_cluster: None,
            metrics_cluster_shared: None,
            metrics_route: None,
            mutated_request_body_len: None,
            peer_identity: None,
            pending_rejection: None,
            pre_read_body: None,
            pre_read_mutations: Vec::new(),
            request_body_buffer: None,
            request_body_bytes: 0,
            request_body_mode: BodyMode::Stream,
            request_body_released: false,
            request_is_idempotent: false,
            request_snapshot: None,
            response_body_buffer: None,
            response_body_bytes: 0,
            response_body_mode: BodyMode::Stream,
            response_body_released: false,
            response_delivery_complete: false,
            response_header_snapshot: None,
            response_phase_done: false,
            retained_adapted_request_body: None,
            retained_pre_read_body: None,
            retry_policy: None,
            route_retry_policy: None,
            rewritten_path: None,
            selected_endpoint_index: None,
            structured_metadata: Vec::new(),
            upstream: None,
            upstream_contacted: false,
            upstream_response_status: None,
        }
    }
}

/// What the filters of one phase were handed, as they left it.
pub struct FilterContext<V> {
    /// Endpoints already attempted for this request.
    pub attempted_endpoints: Vec<String>,
    /// Which filters are done with the body.
    pub body_done_indices: Vec<bool>,
    /// Request body that a filter bound to the upstream wrote anew.
    pub bound_request_body_rewrite: Option<Bytes>,
    /// Cluster selected by the filters.
    pub cluster: Option<String>,
    /// Retry state of the cluster.
    pub cluster_retry_state: Option<V>,
    /// Whether that state was given back.
    pub cluster_retry_state_released: bool,
    /// Selects another endpoint for a retry.
    pub endpoint_reselector: Option<V>,
    /// Which filters of branches have run.
    pub executed_branch_filters: Vec<bool>,
    /// Which filters have run.
    pub executed_filter_indices: Vec<bool>,
    /// Request-scoped extension values.
    pub extensions: Vec<V>,
    /// Header fields to add to the upstream request.
    pub extra_request_headers: Vec<(String, String)>,
    /// Durable per-request metadata.
    pub filter_metadata: HashMap<String, String>,
    /// Results that filters published.
    pub filter_results: Vec<V>,
    /// Per-filter state by filter invocation.
    pub filter_state: HashMap<usize, V>,
    /// Route that metrics are attributed to.
    pub metrics_route: Option<String>,
    /// Request body bytes seen so far.
    pub request_body_bytes: u64,
    /// How the request body is to be delivered.
    pub request_body_mode: BodyMode,
    /// Header fields to remove from the upstream request.
    pub request_headers_to_remove: Vec<HeaderName>,
    /// Header fields to set on the upstream request.
    pub request_headers_to_set: Vec<(HeaderName, HeaderValue)>,
    /// Response body bytes seen so far.
    pub response_body_bytes: u64,
    /// How the response body is to be delivered.
    pub response_body_mode: BodyMode,
    /// Whether a filter reported that it changed the response headers.
    pub response_headers_modified: bool,
    /// Retry policy of the cluster.
    pub retry_policy: Option<V>,
    /// Retry policy of the route.
    pub route_retry_policy: Option<V>,
    /// Path that replaces the request's.
    pub rewritten_path: Option<String>,
    /// Index of the selected endpoint.
    pub selected_endpoint_index: Option<usize>,
    /// Structured metadata that filters published.
    pub structured_metadata: Vec<V>,
    /// Upstream endpoint selected by the load balancer.
    pub upstream: Option<Upstream<V>>,
}

impl<V> FilterContext<V> {
    /// A context in which nothing is set.
    pub fn new() -> (fctx: Self)
        ensures
            fctx.attempted_endpoints@.len() == 0,
            fctx.body_done_indices@.len() == 0,
            fctx.bound_request_body_rewrite is None,
            fctx.cluster is None,
            fctx.cluster_retry_state is None,
            !fctx.cluster_retry_state_released,
            fctx.endpoint_reselector is None,
            fctx.executed_branch_filters@.len() == 0,
            fctx.executed_filter_indices@.len() == 0,
            fctx.extensions@.len() == 0,
            fctx.extra_request_headers@.len() == 0,
            fctx.filter_metadata@ == Map::<String, String>::empty(),
            fctx.filter_results@.len() == 0,
            fctx.filter_state@ == Map::<usize, V>::empty(),
            fctx.metrics_route is None,
            fctx.request_body_bytes == 0,
            fctx.request_body_mode == BodyMode::Stream,
            fctx.request_headers_to_remove@.len() == 0,
            fctx.request_headers_to_set@.len() == 0,
            fctx.response_body_bytes == 0,
            fctx.response_body_mode == BodyMode::Stream,
            !fctx.response_headers_modified,
            fctx.retry_policy is None,
            fctx.route_retry_policy is None,
            fctx.rewritten_path is None,
            fctx.selected_endpoint_index is None,
            fctx.structured_metadata@.len() == 0,
            fctx.upstream is None,
    {
        FilterContext {
            attempted_endpoints: Vec::new(),
            body_done_indices: Vec::new(),
            bound_request_body_rewrite: None,
            cluster: None,
            cluster_retry_state: None,
            cluster_retry_state_released: false,
            endpoint_reselector: None,
            executed_branch_filters: Vec::new(),
            executed_filter_indices: Vec::new(),
            extensions: Vec::new(),
            extra_request_headers: Vec::new(),
            filter_metadata: HashMap::new(),
            filter_results: Vec::new(),
            filter_state: HashMap::new(),
            metrics_route: None,
            request_body_bytes: 0,
            request_body_mode: BodyMode::Stream,
            request_headers_to_remove: Vec::new(),
            request_headers_to_set: Vec::new(),
            response_body_bytes: 0,
            response_body_mode: BodyMode::Stream,
            response_headers_modified: false,
            retry_policy: None,
            route_retry_policy: None,
            rewritten_path: None,
            selected_endpoint_index: None,
            structured_metadata: Vec::new(),
            upstream: None,
        }
    }
}

/// Which kind of proxy error a request is counted under.
#[derive(Clone, Copy, Debug, PartialEq, Eq, Structural)]
pub enum ErrorType {
    /// A filter or a size limit rejected the request.
    FilterReject,
    /// Something failed inside the proxy.
    Internal,
}

/// How a failed phase is reported to the transport.
#[derive(Clone, Copy, Debug, PartialEq, Eq, Structural)]
pub enum FaultKind {
    /// An HTTP status.
    HttpStatus(u16),
    /// An internal error.
    Internal,
}

/// An error that ends a phase.
pub struct Fault {
    /// How it is reported.
    pub kind: FaultKind,
    /// What it says.
    pub message: String,
}

impl Fault {
    /// An error with a text.
    pub fn explain(kind: FaultKind, message: &str) -> (fault: Self)
        ensures
            fault.kind == kind,
            fault.message@ == message@,
    {
        Fault { kind, message: message.to_owned() }
    }
}

} // verus!
