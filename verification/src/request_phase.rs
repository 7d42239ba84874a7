//! Request phase: in which order its tasks are done, what is captured of a
//! request, the filter run with its body adaptation, and what becomes of the
//! request.
//!
//! The filters themselves run outside; each function here takes what they
//! returned and says what happens next.
use crate::body::{
    clamp_body_mode_to_ceiling, clamped_mode, law_clamp_never_widens, mode_ceiling, take_list,
    BodyMode,
};
use crate::body_handling::{
    holds_adapted, holds_canonical, store_adapted_request_body, store_canonical_request_body,
};
use crate::chunk::{body_data, bytes_data};
use crate::context::{
    is_bare_rejection, is_proceed, ClientAddr, ErrorType, FilterAction, FilterContext, FilterError,
    HttpVersion, PeerIdentity, Rejection, Request, RequestCtx, StreamingTerminalResponse,
    TerminalResponse,
};
use crate::headers::{fields_view, header_entries, names_view, text_fields, Intake};
use crate::mutations::{
    apply_pending_header_mutations, apply_session_header_mutations, has_room,
    law_snapshot_matches_session, mutated, respelled, sets_valid_names, HeaderMutations,
    HeaderMutationsView,
};
use crate::text::same_text;
use crate::transport::{
    request_entries, request_in_step, request_spelled_names, same_request_line,
};
use bytes::Bytes;
use pingora_http::RequestHeader;
use std::collections::HashMap;
use vstd::prelude::*;

verus! {

// ----- Order of tasks -----

/// The checks that a request passes before anything else, in order.
#[derive(Clone, Copy, Debug, PartialEq, Eq, Structural)]
pub enum EarlyCheck {
    /// The `Host` header.
    Host,
    /// Header normalization.
    Normalize,
    /// Headers that are internal to the proxy.
    Reserved,
    /// `Max-Forwards`.
    MaxForwards,
}

/// What is done in the request phase, one after the other.
#[derive(Clone, Copy, Debug, PartialEq, Eq, Structural)]
pub enum RequestTask {
    /// One of the early checks.
    Check(EarlyCheck),
    /// Capture the request for logging and answer with the rejection that a check
    /// found. This ends the phase.
    RejectEarly,
    /// End the phase as the `Max-Forwards` check says.
    EndEarly {
        /// Whether the request is captured for logging.
        snapshot: bool,
        /// Whether the request was answered.
        handled: bool,
    },
    /// Capture what later phases need to know, and adopt the body modes.
    Capture,
    /// Read the request body ahead.
    PreRead,
    /// Handle a body that could not be read ahead. This ends the phase.
    EndPreRead,
    /// Run the request filters.
    RunFilters,
    /// Run the filters that adapt the body to the selected upstream.
    AdaptBody,
    /// Write back what the filters left, and act on what they decided. This ends
    /// the phase.
    Finish,
}

/// How a task went.
#[derive(Clone, Copy, Debug, PartialEq, Eq, Structural)]
pub enum RequestEvent {
    /// A check found nothing; the body was read; the adaptation ran.
    Clear,
    /// A check found a reason to reject.
    Found,
    /// The `Max-Forwards` check applies, and tells whether it answered.
    Answered(bool),
    /// The request was captured, and tells whether its body is to be read ahead.
    Captured(bool),
    /// The body could not be read ahead.
    Failed,
    /// The request filters ran, and tell whether the body is to be adapted.
    Ran(bool),
}

/// The task that follows a task, given how it went. `None` where the phase is over,
/// and for an event that the task cannot have.
pub open spec fn task_after(task: RequestTask, event: RequestEvent) -> Option<RequestTask> {
    match (task, event) {
        (RequestTask::Check(EarlyCheck::Host), RequestEvent::Clear) => Some(
            RequestTask::Check(EarlyCheck::Normalize),
        ),
        (RequestTask::Check(EarlyCheck::Normalize), RequestEvent::Clear) => Some(
            RequestTask::Check(EarlyCheck::Reserved),
        ),
        (RequestTask::Check(EarlyCheck::Reserved), RequestEvent::Clear) => Some(
            RequestTask::Check(EarlyCheck::MaxForwards),
        ),
        (RequestTask::Check(EarlyCheck::MaxForwards), RequestEvent::Clear) => Some(
            RequestTask::Capture,
        ),
        (RequestTask::Check(EarlyCheck::MaxForwards), RequestEvent::Answered(handled)) => Some(
            RequestTask::EndEarly { snapshot: handled, handled },
        ),
        (RequestTask::Check(EarlyCheck::MaxForwards), _) => None,
        (RequestTask::Check(_), RequestEvent::Found) => Some(RequestTask::RejectEarly),
        (RequestTask::Capture, RequestEvent::Captured(true)) => Some(RequestTask::PreRead),
        (RequestTask::Capture, RequestEvent::Captured(false)) => Some(RequestTask::RunFilters),
        (RequestTask::PreRead, RequestEvent::Clear) => Some(RequestTask::RunFilters),
        (RequestTask::PreRead, RequestEvent::Failed) => Some(RequestTask::EndPreRead),
        (RequestTask::RunFilters, RequestEvent::Ran(true)) => Some(RequestTask::AdaptBody),
        (RequestTask::RunFilters, RequestEvent::Ran(false)) => Some(RequestTask::Finish),
        (RequestTask::AdaptBody, RequestEvent::Clear) => Some(RequestTask::Finish),
        _ => None,
    }
}

/// The task that the request phase starts with.
pub fn first_request_task() -> (task: RequestTask)
    ensures
        task == RequestTask::Check(EarlyCheck::Host),
{
    RequestTask::Check(EarlyCheck::Host)
}

/// Says which task follows a task.
pub fn next_request_task(task: RequestTask, event: RequestEvent) -> (next: Option<RequestTask>)
    ensures
        next == task_after(task, event),
{
    match task {
        RequestTask::Check(EarlyCheck::MaxForwards) => match event {
            RequestEvent::Clear => Some(RequestTask::Capture),
            RequestEvent::Answered(handled) => Some(
                RequestTask::EndEarly { snapshot: handled, handled },
            ),
            _ => None,
        },
        RequestTask::Check(check) => match event {
            RequestEvent::Clear => match check {
                EarlyCheck::Host => Some(RequestTask::Check(EarlyCheck::Normalize)),
                EarlyCheck::Normalize => Some(RequestTask::Check(EarlyCheck::Reserved)),
                _ => Some(RequestTask::Check(EarlyCheck::MaxForwards)),
            },
            RequestEvent::Found => Some(RequestTask::RejectEarly),
            _ => None,
        },
        RequestTask::Capture => match event {
            RequestEvent::Captured(pre_read) => if pre_read {
                Some(RequestTask::PreRead)
            } else {
                Some(RequestTask::RunFilters)
            },
            _ => None,
        },
        RequestTask::PreRead => match event {
            RequestEvent::Clear => Some(RequestTask::RunFilters),
            RequestEvent::Failed => Some(RequestTask::EndPreRead),
            _ => None,
        },
        RequestTask::RunFilters => match event {
            RequestEvent::Ran(adapt) => if adapt {
                Some(RequestTask::AdaptBody)
            } else {
                Some(RequestTask::Finish)
            },
            _ => None,
        },
        RequestTask::AdaptBody => match event {
            RequestEvent::Clear => Some(RequestTask::Finish),
            _ => None,
        },
        _ => None,
    }
}

/// The tasks that are done, given how each of them went.
pub open spec fn tasks_of(events: Seq<RequestEvent>) -> Seq<RequestTask>
    decreases events.len(),
{
    if events.len() == 0 {
        seq![RequestTask::Check(EarlyCheck::Host)]
    } else {
        let done = tasks_of(events.drop_last());
        match task_after(done.last(), events.last()) {
            Some(task) => done.push(task),
            None => done,
        }
    }
}

/// One task can follow another.
spec fn follows(task: RequestTask, next: RequestTask) -> bool {
    exists|event: RequestEvent| #[trigger] task_after(task, event) == Some(next)
}

proof fn lemma_tasks_follow(events: Seq<RequestEvent>)
    ensures
        tasks_of(events).len() > 0,
        tasks_of(events)[0] == RequestTask::Check(EarlyCheck::Host),
        forall|i: int|
            0 < i < tasks_of(events).len() ==> follows(
                tasks_of(events)[i - 1],
                #[trigger] tasks_of(events)[i],
            ),
    decreases events.len(),
{
    if events.len() > 0 {
        let before = tasks_of(events.drop_last());
        lemma_tasks_follow(events.drop_last());
        let tasks = tasks_of(events);
        assert forall|i: int| 0 < i < tasks.len() implies follows(
            tasks[i - 1],
            #[trigger] tasks[i],
        ) by {
            if i < before.len() {
                assert(tasks[i] == before[i]);
                assert(tasks[i - 1] == before[i - 1]);
            } else {
                assert(task_after(before.last(), events.last()) == Some(tasks[i]));
                assert(tasks[i - 1] == before.last());
            }
        }
    }
}

/// No filter sees a request that did not pass every early check: the checks come
/// first, in their order, then the capture, and at most the reading of the body
/// before the filters. They run once, and adaptation only right after them.
pub proof fn law_filters_run_after_every_check(events: Seq<RequestEvent>, i: int)
    requires
        0 <= i < tasks_of(events).len(),
    ensures
        tasks_of(events)[i] == RequestTask::RunFilters ==> {
            &&& i == 5 || (i == 6 && tasks_of(events)[5] == RequestTask::PreRead)
            &&& tasks_of(events).take(5) == seq![
                RequestTask::Check(EarlyCheck::Host),
                RequestTask::Check(EarlyCheck::Normalize),
                RequestTask::Check(EarlyCheck::Reserved),
                RequestTask::Check(EarlyCheck::MaxForwards),
                RequestTask::Capture,
            ]
        },
        tasks_of(events)[i] == RequestTask::AdaptBody ==> i > 0 && tasks_of(events)[i - 1]
            == RequestTask::RunFilters,
{
    lemma_tasks_follow(events);
    let tasks = tasks_of(events);
    if i > 0 {
        assert(follows(tasks[i - 1], tasks[i]));
    }
    if tasks[i] == RequestTask::RunFilters {
        let at = if tasks[i - 1] == RequestTask::PreRead {
            assert(follows(tasks[i - 2], tasks[i - 1]));
            i - 2
        } else {
            i - 1
        };
        assert(tasks[at] == RequestTask::Capture);
        assert(follows(tasks[at - 1], tasks[at]));
        assert(follows(tasks[at - 2], tasks[at - 1]));
        assert(follows(tasks[at - 3], tasks[at - 2]));
        assert(follows(tasks[at - 4], tasks[at - 3]));
        if at > 4 {
            assert(follows(tasks[at - 5], tasks[at - 4]));
        }
        assert(tasks.take(5) =~= seq![tasks[0], tasks[1], tasks[2], tasks[3], tasks[4]]);
    }
}

/// A phase that is over stays over: nothing follows a task that ends it.
pub proof fn law_request_phase_ends_once(task: RequestTask, event: RequestEvent)
    requires
        task is RejectEarly || task is EndEarly || task is EndPreRead || task is Finish,
    ensures
        task_after(task, event) is None,
{
}

// ----- Captured facts -----

/// An IPv6 address that maps an IPv4 one.
pub open spec fn is_mapped_ipv4(octets: Seq<u8>) -> bool {
    &&& forall|i: int| 0 <= i < 10 ==> #[trigger] octets[i] == 0
    &&& octets[10] == 255
    &&& octets[11] == 255
}

/// Replaces an IPv6 address that maps an IPv4 one by the IPv4 address.
pub fn normalize_mapped_ipv4(addr: ClientAddr) -> (normalized: ClientAddr)
    ensures
        match addr {
            ClientAddr::V4(_) => normalized == addr,
            ClientAddr::V6(octets) => if is_mapped_ipv4(octets@) {
                normalized matches ClientAddr::V4(v4) && v4@ == octets@.subrange(12, 16)
            } else {
                normalized == addr
            },
        },
{
    match addr {
        ClientAddr::V4(_) => addr,
        ClientAddr::V6(octets) => {
            let mut i: usize = 0;
            while i < 10
                invariant
                    i <= 10,
                    addr == ClientAddr::V6(octets),
                    forall|j: int| 0 <= j < i ==> #[trigger] octets@[j] == 0,
                decreases 10 - i,
            {
                if octets[i] != 0 {
                    return addr;
                }
                i += 1;
            }
            if octets[10] != 255 || octets[11] != 255 {
                return addr;
            }
            let v4: [u8; 4] = [octets[12], octets[13], octets[14], octets[15]];
            assert(v4@ =~= octets@.subrange(12, 16));
            ClientAddr::V4(v4)
        },
    }
}

/// What the TLS layer tells about a client certificate.
pub struct TlsDigest {
    /// Digest of the certificate; empty when none was presented.
    pub cert_digest: Vec<u8>,
    /// Organization named in the certificate.
    pub organization: Option<String>,
    /// Serial number of the certificate.
    pub serial_number: Option<String>,
}

/// The identity that a TLS digest gives: none without a certificate.
pub open spec fn identity_of(digest: TlsDigest) -> Option<PeerIdentity> {
    if digest.cert_digest@.len() == 0 {
        None
    } else {
        Some(
            PeerIdentity {
                cert_digest: digest.cert_digest,
                organization: digest.organization,
                serial_number: digest.serial_number,
            },
        )
    }
}

/// A method that may be repeated without harm.
pub open spec fn is_idempotent_method(method: Seq<char>) -> bool {
    method == "GET"@ || method == "HEAD"@ || method == "OPTIONS"@
}

/// Captures what later phases need to know of the client and the request.
pub fn capture_request_facts<V>(
    ctx: &mut RequestCtx<V>,
    version: HttpVersion,
    client_addr: Option<ClientAddr>,
    tls: Option<TlsDigest>,
    method: &str,
)
    ensures
        final(ctx).client_addr is Some == client_addr is Some,
        client_addr matches Some(addr) ==> match addr {
            ClientAddr::V6(octets) => if is_mapped_ipv4(octets@) {
                final(ctx).client_addr->0 matches ClientAddr::V4(v4) && v4@ == octets@.subrange(
                    12,
                    16,
                )
            } else {
                final(ctx).client_addr->0 == addr
            },
            ClientAddr::V4(_) => final(ctx).client_addr->0 == addr,
        },
        *final(ctx) == (RequestCtx {
            client_http_version: Some(version),
            client_addr: final(ctx).client_addr,
            downstream_tls: tls is Some,
            peer_identity: match tls {
                Some(digest) => identity_of(digest),
                None => None,
            },
            request_is_idempotent: is_idempotent_method(method@),
            ..*old(ctx)
        }),
{
    ctx.client_http_version = Some(version);
    ctx.client_addr = match client_addr {
        Some(addr) => Some(normalize_mapped_ipv4(addr)),
        None => None,
    };
    ctx.downstream_tls = tls.is_some();
    ctx.peer_identity = match tls {
        Some(digest) => if digest.cert_digest.len() == 0 {
            None
        } else {
            Some(
                PeerIdentity {
                    cert_digest: digest.cert_digest,
                    organization: digest.organization,
                    serial_number: digest.serial_number,
                },
            )
        },
        None => None,
    };
    ctx.request_is_idempotent = same_text(method, "GET") || same_text(method, "HEAD")
        || same_text(method, "OPTIONS");
}

/// Adopts the body modes of the pipeline. Returns whether the request body has
/// to be read before the filters run.
pub fn select_body_modes<V>(
    ctx: &mut RequestCtx<V>,
    request_body_mode: BodyMode,
    response_body_mode: BodyMode,
) -> (pre_read: bool)
    ensures
        pre_read == request_body_mode is StreamBuffer,
        *final(ctx) == (RequestCtx { request_body_mode, response_body_mode, ..*old(ctx) }),
{
    ctx.request_body_mode = request_body_mode;
    ctx.response_body_mode = response_body_mode;
    match request_body_mode {
        BodyMode::StreamBuffer { .. } => true,
        _ => false,
    }
}

// ----- Pre-read -----

/// Why a request body could not be read before the filters ran.
pub enum PreReadFailure {
    /// A size limit or a filter rejected it.
    Rejected(Rejection),
    /// A filter failed.
    Filter(FilterError),
    /// The client's connection failed.
    Io,
}

/// What follows a failed pre-read.
pub enum PreReadNext {
    /// The request is counted and answered with a rejection.
    Reject {
        /// What the request is counted under.
        error_type: ErrorType,
        /// What the client gets.
        rejection: Rejection,
    },
    /// The connection error is handled.
    HandleIo,
}

/// Says what follows a failed pre-read. The request is captured in any case.
pub fn pre_read_failed<V>(
    ctx: &mut RequestCtx<V>,
    request: Request,
    failure: PreReadFailure,
) -> (next: PreReadNext)
    ensures
        *final(ctx) == (RequestCtx { request_snapshot: Some(request), ..*old(ctx) }),
        match failure {
            PreReadFailure::Rejected(found) => next == (PreReadNext::Reject {
                error_type: ErrorType::FilterReject,
                rejection: found,
            }),
            PreReadFailure::Filter(_) => next matches PreReadNext::Reject { error_type, rejection }
                && error_type == ErrorType::Internal && is_bare_rejection(rejection, 500),
            PreReadFailure::Io => next is HandleIo,
        },
{
    ctx.request_snapshot = Some(request);
    match failure {
        PreReadFailure::Rejected(rejection) => PreReadNext::Reject {
            error_type: ErrorType::FilterReject,
            rejection,
        },
        PreReadFailure::Filter(_) => PreReadNext::Reject {
            error_type: ErrorType::Internal,
            rejection: Rejection::status(500),
        },
        PreReadFailure::Io => PreReadNext::HandleIo,
    }
}

// ----- Filter run -----

/// What the pipeline says of request-body adaptation.
#[derive(Clone, Copy, Debug)]
pub struct AdaptationPolicy {
    /// Whether any filter takes part in the selected-upstream body phase.
    pub participates: bool,
    /// Whether any of them writes the body.
    pub writes: bool,
    /// Largest adapted body.
    pub body_limit: usize,
    /// Largest body that a retry can replay.
    pub retry_limit: u64,
}

/// The pre-read body that adaptation starts from, when there is one.
pub fn pre_read_source<V>(policy: &AdaptationPolicy, ctx: &RequestCtx<V>) -> (source: Option<
    Bytes,
>)
    requires
        policy.participates && ctx.pre_read_body is Some ==> ctx.pre_read_body->0@.len() <= 1,
    ensures
        source is Some <==> policy.participates && ctx.pre_read_body is Some
            && ctx.pre_read_body->0@.len() > 0,
        source matches Some(chunk) ==> bytes_data(chunk) == bytes_data(ctx.pre_read_body->0@[0]),
{
    if !policy.participates {
        return None;
    }
    match &ctx.pre_read_body {
        Some(chunks) => if chunks.len() > 0 {
            Some(chunks[0].clone())
        } else {
            None
        },
        None => None,
    }
}

/// State of the filter run after the request filters.
pub struct RequestRun {
    /// Body that a filter bound to the upstream wrote anew.
    pub canonical: Option<Bytes>,
    /// Body that adaptation starts from.
    pub working: Option<Bytes>,
    /// Whether the selected-upstream body phase runs.
    pub adapt: bool,
}

/// Takes the outcome of the request filters: a rewritten body is what the
/// request forwards, so adaptation starts from it; an emptied one reads as no
/// body. Adaptation runs only for a request that goes on to a selected upstream.
pub fn after_request_filters<V, S>(
    policy: &AdaptationPolicy,
    action: &Result<FilterAction<S>, FilterError>,
    fctx: &mut FilterContext<V>,
    pre_read: Option<Bytes>,
) -> (run: RequestRun)
    ensures
        run.canonical == old(fctx).bound_request_body_rewrite,
        *final(fctx) == (FilterContext { bound_request_body_rewrite: None, ..*old(fctx) }),
        run.adapt == (policy.participates && *action is Ok && is_proceed(action->Ok_0)
            && old(fctx).upstream is Some),
        match old(fctx).bound_request_body_rewrite {
            Some(rewritten) => if policy.participates {
                &&& run.working is Some <==> bytes_data(rewritten).len() > 0
                &&& body_data(run.working) == bytes_data(rewritten)
            } else {
                run.working == pre_read
            },
            None => run.working == pre_read,
        },
{
    let canonical = fctx.bound_request_body_rewrite.take();
    let working = match &canonical {
        Some(rewritten) => if policy.participates {
            if rewritten.is_empty() {
                assert(bytes_data(*rewritten) =~= Seq::<u8>::empty());
                None
            } else {
                Some(rewritten.clone())
            }
        } else {
            pre_read
        },
        None => pre_read,
    };
    let proceeds = match action {
        Ok(FilterAction::Continue) | Ok(FilterAction::Release) | Ok(FilterAction::BodyDone) => true,
        _ => false,
    };
    RequestRun {
        canonical,
        working,
        adapt: policy.participates && proceeds && fctx.upstream.is_some(),
    }
}

/// An adapted request body to be stored: the body, or `None` for an empty one.
pub struct AdaptedBody(pub Option<Bytes>);

/// Takes the outcome of the selected-upstream body phase: a rejection or a
/// failure replaces what the request filters decided, and a written body is
/// either too large or the one to forward.
pub fn after_selected_upstream<S>(
    policy: &AdaptationPolicy,
    selected: Result<FilterAction<S>, FilterError>,
    working: Option<Bytes>,
    action: Result<FilterAction<S>, FilterError>,
) -> (next: (Result<FilterAction<S>, FilterError>, Option<AdaptedBody>))
    ensures
        match selected {
            Ok(FilterAction::Reject(rejection)) => next == (
                Ok::<FilterAction<S>, FilterError>(FilterAction::Reject(rejection)),
                None::<AdaptedBody>,
            ),
            Err(e) => next == (Err::<FilterAction<S>, FilterError>(e), None::<AdaptedBody>),
            Ok(_) => if !policy.writes {
                next == (action, None::<AdaptedBody>)
            } else if body_data(working).len() > policy.body_limit {
                &&& next.0 matches Ok(FilterAction::Reject(rejection)) && is_bare_rejection(
                    rejection,
                    413,
                )
                &&& next.1 is None
            } else {
                next == (action, Some(AdaptedBody(working)))
            },
        },
{
    match selected {
        Ok(FilterAction::Reject(rejection)) => (Ok(FilterAction::Reject(rejection)), None),
        Err(e) => (Err(e), None),
        Ok(_) => {
            if !policy.writes {
                return (action, None);
            }
            let len: usize = match &working {
                Some(body) => body.len(),
                None => 0,
            };
            if len > policy.body_limit {
                (Ok(FilterAction::Reject(Rejection::status(413))), None)
            } else {
                (action, Some(AdaptedBody(working)))
            }
        },
    }
}

/// Results of the request phase.
pub struct PipelineResult<S> {
    /// Final action.
    pub action: FilterAction<S>,
    /// Header changes for the transport's request header.
    pub mutations: HeaderMutations,
}

/// The header changes that filters left in their context.
pub open spec fn pending_mutations<V>(fctx: FilterContext<V>) -> HeaderMutationsView {
    HeaderMutationsView {
        remove: names_view(fctx.request_headers_to_remove@),
        set: fields_view(fctx.request_headers_to_set@),
        extra: text_fields(fctx.extra_request_headers@),
    }
}

/// What capturing a filtered request does: the request is kept as the upstream will
/// receive it, filter state moves from the filter context into the request context,
/// and metrics are attributed to the selected cluster.
pub open spec fn captures_request<V>(
    before: (RequestCtx<V>, FilterContext<V>),
    request: Request,
    after: (RequestCtx<V>, FilterContext<V>),
) -> bool {
    let (ctx, fctx) = before;
    &&& after.0.request_snapshot is Some
    &&& same_but_headers(after.0.request_snapshot->0, request)
    &&& header_entries(after.0.request_snapshot->0.headers) == mutated(
        header_entries(request.headers),
        pending_mutations(fctx),
        Intake::Stored,
    )
    &&& after.0.pre_read_mutations@.len() == 0
    &&& after.0 == RequestCtx {
        request_snapshot: after.0.request_snapshot,
        extensions: fctx.extensions,
        filter_metadata: fctx.filter_metadata,
        filter_state: fctx.filter_state,
        cached_executed_filter_indices: fctx.executed_filter_indices,
        cached_body_done_indices: fctx.body_done_indices,
        pre_read_mutations: after.0.pre_read_mutations,
        structured_metadata: fctx.structured_metadata,
        metrics_cluster_shared: fctx.cluster,
        metrics_cluster: fctx.cluster,
        ..ctx
    }
    &&& after.1.extensions@.len() == 0
    &&& after.1.filter_metadata@ == Map::<String, String>::empty()
    &&& after.1.filter_state@ == Map::<usize, V>::empty()
    &&& after.1.executed_filter_indices@.len() == 0
    &&& after.1.body_done_indices@.len() == 0
    &&& after.1.structured_metadata@.len() == 0
    &&& after.1.request_headers_to_remove@.len() == 0
    &&& after.1.request_headers_to_set@.len() == 0
    &&& after.1.extra_request_headers@.len() == 0
    &&& after.1 == FilterContext {
        extensions: after.1.extensions,
        filter_metadata: after.1.filter_metadata,
        filter_state: after.1.filter_state,
        executed_filter_indices: after.1.executed_filter_indices,
        body_done_indices: after.1.body_done_indices,
        structured_metadata: after.1.structured_metadata,
        request_headers_to_remove: after.1.request_headers_to_remove,
        request_headers_to_set: after.1.request_headers_to_set,
        extra_request_headers: after.1.extra_request_headers,
        ..fctx
    }
}

/// The context after the request phase, as it is on every outcome: besides what was
/// captured it holds the upstream and retry lifecycle, which the response phase has
/// to find to release them.
pub open spec fn phase_written<V>(
    captured: RequestCtx<V>,
    fctx: FilterContext<V>,
    route: Option<String>,
) -> RequestCtx<V> {
    RequestCtx {
        metrics_route: route,
        response_body_mode: clamped_mode(fctx.response_body_mode, captured.response_body_mode),
        cluster: fctx.cluster,
        upstream: fctx.upstream,
        selected_endpoint_index: fctx.selected_endpoint_index,
        cluster_retry_state: fctx.cluster_retry_state,
        cluster_retry_state_released: fctx.cluster_retry_state_released,
        endpoint_reselector: fctx.endpoint_reselector,
        ..captured
    }
}

/// What is written only for a request that goes on.
pub open spec fn proceed_written<V>(
    before: RequestCtx<V>,
    written: RequestCtx<V>,
    fctx: FilterContext<V>,
) -> RequestCtx<V> {
    RequestCtx {
        rewritten_path: fctx.rewritten_path,
        request_body_mode: clamped_mode(fctx.request_body_mode, before.request_body_mode),
        attempted_endpoints: fctx.attempted_endpoints,
        retry_policy: fctx.retry_policy,
        route_retry_policy: fctx.route_retry_policy,
        ..written
    }
}

/// The rewritten bodies of a request that goes on are stored; without them the
/// stored bodies stay as they were.
pub open spec fn bodies_stored<V>(
    before: RequestCtx<V>,
    canonical: Option<Bytes>,
    adapted: Option<AdaptedBody>,
    retry_limit: u64,
    after: RequestCtx<V>,
) -> bool {
    &&& match canonical {
        Some(body) => holds_canonical(after, body, retry_limit),
        None => after.pre_read_body == before.pre_read_body && after.mutated_request_body_len
            == before.mutated_request_body_len && after.retained_pre_read_body
            == before.retained_pre_read_body,
    }
    &&& match adapted {
        Some(body) => holds_adapted(after, body.0, retry_limit),
        None => after.adapted_request_body == before.adapted_request_body
            && after.adapted_request_body_len == before.adapted_request_body_len
            && after.retained_adapted_request_body == before.retained_adapted_request_body,
    }
    &&& after == RequestCtx {
        pre_read_body: after.pre_read_body,
        mutated_request_body_len: after.mutated_request_body_len,
        retained_pre_read_body: after.retained_pre_read_body,
        adapted_request_body: after.adapted_request_body,
        adapted_request_body_len: after.adapted_request_body_len,
        retained_adapted_request_body: after.retained_adapted_request_body,
        ..before
    }
}

/// Stores the rewritten bodies of a request that goes on.
fn store_rewritten_bodies<V>(
    ctx: &mut RequestCtx<V>,
    canonical: Option<Bytes>,
    adapted: Option<AdaptedBody>,
    retry_limit: u64,
)
    ensures
        bodies_stored(*old(ctx), canonical, adapted, retry_limit, *final(ctx)),
{
    match canonical {
        Some(body) => store_canonical_request_body(ctx, body, retry_limit),
        None => {},
    }
    match adapted {
        Some(AdaptedBody(body)) => store_adapted_request_body(ctx, body, retry_limit),
        None => {},
    }
}

/// A request that differs from another in its header fields alone.
pub open spec fn same_but_headers(a: Request, b: Request) -> bool {
    a.method == b.method && a.uri == b.uri
}

/// Captures a filtered request: keeps it as the upstream will receive it, and moves
/// filter state into the request context. Returns the header changes that the
/// filters asked for. What is asked next is the route that metrics are attributed
/// to.
pub fn capture_filtered_request<V>(
    ctx: &mut RequestCtx<V>,
    request: Request,
    fctx: &mut FilterContext<V>,
) -> (mutations: HeaderMutations)
    requires
        has_room(header_entries(request.headers), pending_mutations(*old(fctx)), Intake::Stored),
    ensures
        captures_request((*old(ctx), *old(fctx)), request, (*final(ctx), *final(fctx))),
        mutations@ == pending_mutations(*old(fctx)),
{
    let mut request = request;
    let mutations = HeaderMutations {
        remove: take_list(&mut fctx.request_headers_to_remove),
        set: take_list(&mut fctx.request_headers_to_set),
        extra: take_list(&mut fctx.extra_request_headers),
    };
    apply_pending_header_mutations(&mut request.headers, &mutations);
    ctx.request_snapshot = Some(request);
    ctx.extensions = take_list(&mut fctx.extensions);
    let mut filter_metadata: HashMap<String, String> = HashMap::new();
    std::mem::swap(&mut filter_metadata, &mut fctx.filter_metadata);
    ctx.filter_metadata = filter_metadata;
    let mut filter_state: HashMap<usize, V> = HashMap::new();
    std::mem::swap(&mut filter_state, &mut fctx.filter_state);
    ctx.filter_state = filter_state;
    ctx.cached_executed_filter_indices = take_list(&mut fctx.executed_filter_indices);
    ctx.cached_body_done_indices = take_list(&mut fctx.body_done_indices);
    // The request filters have used them; later phases must not.
    ctx.pre_read_mutations = Vec::new();
    ctx.structured_metadata = take_list(&mut fctx.structured_metadata);
    ctx.metrics_cluster_shared = copy_of(&fctx.cluster);
    ctx.metrics_cluster = copy_of(&fctx.cluster);
    mutations
}

/// A copy of an optional text.
fn copy_of(text: &Option<String>) -> (copy: Option<String>)
    ensures
        copy == *text,
{
    match text {
        Some(text) => Some(text.clone()),
        None => None,
    }
}

/// What ending the filter run does to a request context in which the request was
/// captured.
pub open spec fn ends_request_phase<V, S>(
    retry_limit: u64,
    captured: RequestCtx<V>,
    fctx: FilterContext<V>,
    route: Option<String>,
    action: Result<FilterAction<S>, FilterError>,
    canonical: Option<Bytes>,
    adapted: Option<AdaptedBody>,
    after: RequestCtx<V>,
) -> bool {
    let written = phase_written(captured, fctx, route);
    if action is Ok && is_proceed(action->Ok_0) {
        bodies_stored(
            proceed_written(captured, written, fctx),
            canonical,
            adapted,
            retry_limit,
            after,
        )
    } else {
        after == written
    }
}

/// Ends the filter run on a request that was captured: writes back the upstream and
/// retry lifecycle, and stores rewritten bodies of a request that goes on.
pub fn finish_request_phase<V, S>(
    policy: &AdaptationPolicy,
    ctx: &mut RequestCtx<V>,
    fctx: FilterContext<V>,
    mutations: HeaderMutations,
    route: Option<String>,
    action: Result<FilterAction<S>, FilterError>,
    canonical: Option<Bytes>,
    adapted: Option<AdaptedBody>,
) -> (result: Result<PipelineResult<S>, FilterError>)
    ensures
        ends_request_phase(
            policy.retry_limit,
            *old(ctx),
            fctx,
            route,
            action,
            canonical,
            adapted,
            *final(ctx),
        ),
        match action {
            Err(e) => result == Err::<PipelineResult<S>, FilterError>(e),
            Ok(decided) => {
                &&& result is Ok
                &&& if is_proceed(decided) {
                    &&& result->Ok_0.action is Continue
                    &&& result->Ok_0.mutations == mutations
                } else {
                    &&& result->Ok_0.action == decided
                    &&& result->Ok_0.mutations.remove@.len() == 0
                    &&& result->Ok_0.mutations.set@.len() == 0
                    &&& result->Ok_0.mutations.extra@.len() == 0
                }
            },
        },
{
    let baseline_request_body_mode = ctx.request_body_mode;
    let baseline_response_body_mode = ctx.response_body_mode;
    ctx.metrics_route = route;
    ctx.response_body_mode =
    clamp_body_mode_to_ceiling(fctx.response_body_mode, baseline_response_body_mode);
    ctx.cluster = fctx.cluster;
    ctx.upstream = fctx.upstream;
    ctx.selected_endpoint_index = fctx.selected_endpoint_index;
    ctx.cluster_retry_state = fctx.cluster_retry_state;
    ctx.cluster_retry_state_released = fctx.cluster_retry_state_released;
    ctx.endpoint_reselector = fctx.endpoint_reselector;
    match action {
        Ok(FilterAction::Continue) | Ok(FilterAction::Release) | Ok(FilterAction::BodyDone) => {
            ctx.rewritten_path = fctx.rewritten_path;
            ctx.request_body_mode =
            clamp_body_mode_to_ceiling(fctx.request_body_mode, baseline_request_body_mode);
            ctx.attempted_endpoints = fctx.attempted_endpoints;
            ctx.retry_policy = fctx.retry_policy;
            ctx.route_retry_policy = fctx.route_retry_policy;
            store_rewritten_bodies(ctx, canonical, adapted, policy.retry_limit);
            Ok(PipelineResult { action: FilterAction::Continue, mutations })
        },
        Ok(decided) => Ok(PipelineResult { action: decided, mutations: HeaderMutations::none() }),
        Err(e) => Err(e),
    }
}

// ----- Verdict -----

/// What becomes of a request after its phase.
pub enum RequestVerdict<S> {
    /// It goes to the upstream.
    Forward,
    /// It is counted and answered with a rejection.
    Reject {
        /// What the request is counted under.
        error_type: ErrorType,
        /// What the client gets.
        rejection: Rejection,
    },
    /// It is answered with a complete response.
    Terminal(TerminalResponse),
    /// It is answered with a streamed response.
    Streaming(StreamingTerminalResponse<S>),
}

/// Turns the results of the request phase into a verdict. The header changes of
/// a request that goes on are applied to the transport's request header.
pub fn request_verdict<S>(
    result: Result<PipelineResult<S>, FilterError>,
    session_header: &mut RequestHeader,
) -> (verdict: RequestVerdict<S>)
    requires
        result is Ok && is_proceed(result->Ok_0.action) ==> {
            &&& request_in_step(*old(session_header))
            &&& has_room(
                request_entries(*old(session_header)),
                result->Ok_0.mutations@,
                Intake::Named,
            )
        },
    ensures
        if result is Ok && is_proceed(result->Ok_0.action) {
            &&& request_in_step(*final(session_header))
            &&& same_request_line(*final(session_header), *old(session_header))
            &&& request_entries(*final(session_header)) == mutated(
                request_entries(*old(session_header)),
                result->Ok_0.mutations@,
                Intake::Named,
            )
            &&& request_spelled_names(*final(session_header)) == respelled(
                request_spelled_names(*old(session_header)),
                result->Ok_0.mutations@,
            )
        } else {
            *final(session_header) == *old(session_header)
        },
        match result {
            Err(_) => verdict matches RequestVerdict::Reject { error_type, rejection } && error_type
                == ErrorType::Internal && is_bare_rejection(rejection, 500),
            Ok(done) => match done.action {
                FilterAction::Reject(found) => verdict == (RequestVerdict::<S>::Reject {
                    error_type: ErrorType::FilterReject,
                    rejection: found,
                }),
                FilterAction::TerminalResponse(terminal) => verdict == RequestVerdict::<
                    S,
                >::Terminal(terminal),
                FilterAction::StreamingTerminalResponse(terminal) => verdict == RequestVerdict::<
                    S,
                >::Streaming(terminal),
                _ => verdict is Forward,
            },
        },
{
    match result {
        Err(_) => RequestVerdict::Reject {
            error_type: ErrorType::Internal,
            rejection: Rejection::status(500),
        },
        Ok(done) => match done.action {
            FilterAction::Reject(rejection) => RequestVerdict::Reject {
                error_type: ErrorType::FilterReject,
                rejection,
            },
            FilterAction::TerminalResponse(terminal) => RequestVerdict::Terminal(terminal),
            FilterAction::StreamingTerminalResponse(terminal) => RequestVerdict::Streaming(
                terminal,
            ),
            _ => {
                apply_session_header_mutations(session_header, &done.mutations);
                RequestVerdict::Forward
            },
        },
    }
}

/// Whatever the filters decided, the context ends up with the cluster, upstream,
/// endpoint and retry state that they left, so that the response phase can
/// release what the request phase took. `before` is what the filters left, `captured`
/// what was there once the request was captured.
pub proof fn law_lifecycle_is_written_on_every_outcome<V, S>(
    retry_limit: u64,
    before: (RequestCtx<V>, FilterContext<V>),
    request: Request,
    captured: (RequestCtx<V>, FilterContext<V>),
    route: Option<String>,
    action: Result<FilterAction<S>, FilterError>,
    canonical: Option<Bytes>,
    adapted: Option<AdaptedBody>,
    after: RequestCtx<V>,
)
    requires
        captures_request(before, request, captured),
        ends_request_phase(
            retry_limit,
            captured.0,
            captured.1,
            route,
            action,
            canonical,
            adapted,
            after,
        ),
    ensures
        after.cluster == before.1.cluster,
        after.metrics_cluster == before.1.cluster,
        after.metrics_cluster_shared == before.1.cluster,
        after.upstream == before.1.upstream,
        after.selected_endpoint_index == before.1.selected_endpoint_index,
        after.cluster_retry_state == before.1.cluster_retry_state,
        after.cluster_retry_state_released == before.1.cluster_retry_state_released,
        after.endpoint_reselector == before.1.endpoint_reselector,
        after.extensions == before.1.extensions,
        after.filter_metadata == before.1.filter_metadata,
        after.filter_state == before.1.filter_state,
        after.metrics_route == route,
        after.pre_read_mutations@.len() == 0,
{
}

/// A request that does not go on stores no rewritten body and keeps its path,
/// request body mode and retry policies.
pub proof fn law_stopped_request_stores_no_body<V, S>(
    retry_limit: u64,
    before: (RequestCtx<V>, FilterContext<V>),
    request: Request,
    captured: (RequestCtx<V>, FilterContext<V>),
    route: Option<String>,
    action: Result<FilterAction<S>, FilterError>,
    canonical: Option<Bytes>,
    adapted: Option<AdaptedBody>,
    after: RequestCtx<V>,
)
    requires
        captures_request(before, request, captured),
        ends_request_phase(
            retry_limit,
            captured.0,
            captured.1,
            route,
            action,
            canonical,
            adapted,
            after,
        ),
        action is Err || !is_proceed(action->Ok_0),
    ensures
        after.adapted_request_body == before.0.adapted_request_body,
        after.retained_adapted_request_body == before.0.retained_adapted_request_body,
        after.pre_read_body == before.0.pre_read_body,
        after.retained_pre_read_body == before.0.retained_pre_read_body,
        after.rewritten_path == before.0.rewritten_path,
        after.request_body_mode == before.0.request_body_mode,
        after.retry_policy == before.0.retry_policy,
        after.route_retry_policy == before.0.route_retry_policy,
{
}

/// The captured request holds the header fields that the upstream receives: a
/// request that went on with a snapshot equal to the transport's request header
/// still has equal ones once both were changed. Left out is a name to set that only
/// HTTP/2 allows.
pub proof fn law_snapshot_is_what_the_upstream_receives<V, S>(
    retry_limit: u64,
    before: (RequestCtx<V>, FilterContext<V>),
    request: Request,
    captured: (RequestCtx<V>, FilterContext<V>),
    route: Option<String>,
    action: Result<FilterAction<S>, FilterError>,
    canonical: Option<Bytes>,
    adapted: Option<AdaptedBody>,
    after: RequestCtx<V>,
    session: RequestHeader,
    changed_session: RequestHeader,
)
    requires
        captures_request(before, request, captured),
        ends_request_phase(
            retry_limit,
            captured.0,
            captured.1,
            route,
            action,
            canonical,
            adapted,
            after,
        ),
        sets_valid_names(pending_mutations(before.1)),
        header_entries(request.headers) == request_entries(session),
        request_entries(changed_session) == mutated(
            request_entries(session),
            pending_mutations(before.1),
            Intake::Named,
        ),
    ensures
        header_entries(after.request_snapshot->0.headers) == request_entries(changed_session),
{
    law_snapshot_matches_session(
        request.headers,
        session,
        captured.0.request_snapshot->0.headers,
        changed_session,
        pending_mutations(before.1),
    );
}

/// The body modes in force after the phase never let more bytes through than
/// those in force before it, unless a filter chose to stream.
pub proof fn law_request_phase_never_widens_modes<V, S>(
    retry_limit: u64,
    before: (RequestCtx<V>, FilterContext<V>),
    request: Request,
    captured: (RequestCtx<V>, FilterContext<V>),
    route: Option<String>,
    action: Result<FilterAction<S>, FilterError>,
    canonical: Option<Bytes>,
    adapted: Option<AdaptedBody>,
    after: RequestCtx<V>,
)
    requires
        captures_request(before, request, captured),
        ends_request_phase(
            retry_limit,
            captured.0,
            captured.1,
            route,
            action,
            canonical,
            adapted,
            after,
        ),
    ensures
        mode_ceiling(before.0.response_body_mode) matches Some(limit) ==> (
        after.response_body_mode is Stream || (mode_ceiling(after.response_body_mode) matches Some(
            kept,
        ) && kept <= limit)),
        mode_ceiling(before.0.request_body_mode) matches Some(limit) ==> (
        after.request_body_mode is Stream || (mode_ceiling(after.request_body_mode) matches Some(
            kept,
        ) && kept <= limit)),
{
    law_clamp_never_widens(before.1.response_body_mode, before.0.response_body_mode);
    law_clamp_never_widens(before.1.request_body_mode, before.0.request_body_mode);
}

} // verus!
