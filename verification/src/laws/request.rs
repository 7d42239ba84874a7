//! The request phase: what is captured of a request, and what becomes of it.
use crate::body::{clamped_mode, BodyMode};
use crate::body_handling::chunks_data;
use crate::chunk::{body_data, bytes_data};
use crate::context::{
    ClientAddr, ErrorType, FilterAction, FilterContext, FilterError, HttpVersion, Rejection,
    Request, RequestCtx,
};
use crate::headers::{fields_view, header_entries, names_view, text_fields, Intake};
use crate::mutations::{mutated, respelled, HeaderMutations};
use crate::request_phase::{
    after_request_filters, after_selected_upstream, capture_filtered_request, capture_request_facts,
    finish_request_phase, first_request_task, is_mapped_ipv4, next_request_task,
    normalize_mapped_ipv4, pre_read_failed, pre_read_source, request_verdict, select_body_modes,
    AdaptationPolicy, AdaptedBody, EarlyCheck, PipelineResult, PreReadFailure, PreReadNext,
    RequestEvent, RequestRun, RequestTask, RequestVerdict, TlsDigest,
};
use crate::transport::{
    request_entries, request_in_step, request_method, request_opaque_path, request_spelled_names,
    request_uri, request_version,
};
use bytes::Bytes;
use pingora_http::RequestHeader;
use std::collections::VecDeque;
use vstd::prelude::*;

verus! {

/// A request or response goes on.
pub open spec fn goes_on<S>(action: FilterAction<S>) -> bool {
    match action {
        FilterAction::Continue => true,
        FilterAction::Release => true,
        FilterAction::BodyDone => true,
        FilterAction::Reject(_) => false,
        FilterAction::TerminalResponse(_) => false,
        FilterAction::StreamingTerminalResponse(_) => false,
    }
}

/// A rejection has a status and nothing else, and closes the connection.
pub open spec fn says_only(rejection: Rejection, status: u16) -> bool {
    &&& rejection.status == status
    &&& rejection.body is None
    &&& rejection.headers@.len() == 0
    &&& rejection.header_map is None
    &&& !rejection.preserve_keepalive
}

/// A store holds exactly the given bytes: in one chunk, or in none where there are none.
pub open spec fn stores(chunks: Option<VecDeque<Bytes>>, data: Seq<u8>) -> bool {
    match chunks {
        Some(chunks) => {
            &&& chunks@.len() == (if data.len() > 0 {
                1nat
            } else {
                0
            })
            &&& data.len() > 0 ==> bytes_data(chunks@[0]) == data
        },
        None => false,
    }
}

/// Chunks that are one body, or none, store that body.
pub proof fn lemma_stores(chunks: VecDeque<Bytes>, data: Seq<u8>)
    requires
        chunks_data(chunks@) == (if data.len() == 0 {
            Seq::<Seq<u8>>::empty()
        } else {
            seq![data]
        }),
    ensures
        stores(Some(chunks), data),
{
    assert(chunks_data(chunks@).len() == chunks@.len());
    if data.len() > 0 {
        assert(chunks_data(chunks@)[0] == bytes_data(chunks@[0]));
        assert(seq![data].len() == 1);
    }
}

/// A request that goes on is forwarded as the filters chose: under their path, to their
/// cluster and upstream, with their retry policies, the endpoints that they attempted
/// and their body mode within its ceiling. Its header changes are handed on.
pub proof fn law_forwarded_request_is_as_the_filters_chose<V, S>(
    policy: &AdaptationPolicy,
    ctx: &mut RequestCtx<V>,
    fctx: FilterContext<V>,
    mutations: HeaderMutations,
    route: Option<String>,
    action: Result<FilterAction<S>, FilterError>,
    canonical: Option<Bytes>,
    adapted: Option<AdaptedBody>,
    result: Result<PipelineResult<S>, FilterError>,
)
    requires
        call_ensures(
            finish_request_phase::<V, S>,
            (policy, ctx, fctx, mutations, route, action, canonical, adapted),
            result,
        ),
        action is Ok && goes_on(action->Ok_0),
    ensures
        final(ctx).rewritten_path == fctx.rewritten_path,
        final(ctx).attempted_endpoints == fctx.attempted_endpoints,
        final(ctx).retry_policy == fctx.retry_policy,
        final(ctx).route_retry_policy == fctx.route_retry_policy,
        final(ctx).cluster == fctx.cluster,
        final(ctx).upstream == fctx.upstream,
        final(ctx).selected_endpoint_index == fctx.selected_endpoint_index,
        final(ctx).cluster_retry_state == fctx.cluster_retry_state,
        final(ctx).cluster_retry_state_released == fctx.cluster_retry_state_released,
        final(ctx).endpoint_reselector == fctx.endpoint_reselector,
        final(ctx).metrics_route == route,
        final(ctx).request_body_mode == clamped_mode(
            fctx.request_body_mode,
            old(ctx).request_body_mode,
        ),
        final(ctx).response_body_mode == clamped_mode(
            fctx.response_body_mode,
            old(ctx).response_body_mode,
        ),
        result is Ok,
        result->Ok_0.action is Continue,
        result->Ok_0.mutations == mutations,
{
}

/// A request that goes on forwards the bodies that its filters wrote, byte for byte: the
/// canonical one and the one adapted to the upstream, each with its length, and each
/// kept for a retry as long as a retry can replay it. A body that no filter wrote stays
/// as it was.
pub proof fn law_forwarded_request_has_the_bodies_that_filters_wrote<V, S>(
    policy: &AdaptationPolicy,
    ctx: &mut RequestCtx<V>,
    fctx: FilterContext<V>,
    mutations: HeaderMutations,
    route: Option<String>,
    action: Result<FilterAction<S>, FilterError>,
    canonical: Option<Bytes>,
    adapted: Option<AdaptedBody>,
    result: Result<PipelineResult<S>, FilterError>,
)
    requires
        call_ensures(
            finish_request_phase::<V, S>,
            (policy, ctx, fctx, mutations, route, action, canonical, adapted),
            result,
        ),
        action is Ok && goes_on(action->Ok_0),
    ensures
        canonical matches Some(body) ==> {
            &&& stores(final(ctx).pre_read_body, bytes_data(body))
            &&& final(ctx).mutated_request_body_len matches Some(len) && len == bytes_data(
                body,
            ).len()
            &&& final(ctx).retained_pre_read_body is Some <==> bytes_data(body).len()
                <= policy.retry_limit
            &&& final(ctx).retained_pre_read_body is Some ==> stores(
                final(ctx).retained_pre_read_body,
                bytes_data(body),
            )
        },
        canonical is None ==> {
            &&& final(ctx).pre_read_body == old(ctx).pre_read_body
            &&& final(ctx).mutated_request_body_len == old(ctx).mutated_request_body_len
            &&& final(ctx).retained_pre_read_body == old(ctx).retained_pre_read_body
        },
        adapted matches Some(body) ==> {
            &&& stores(final(ctx).adapted_request_body, body_data(body.0))
            &&& final(ctx).adapted_request_body_len matches Some(len) && len == body_data(
                body.0,
            ).len()
            &&& body_data(body.0).len() <= policy.retry_limit ==> stores(
                final(ctx).retained_adapted_request_body,
                body_data(body.0),
            )
            &&& body_data(body.0).len() > policy.retry_limit ==> stores(
                final(ctx).retained_adapted_request_body,
                Seq::empty(),
            )
        },
        adapted is None ==> {
            &&& final(ctx).adapted_request_body == old(ctx).adapted_request_body
            &&& final(ctx).adapted_request_body_len == old(ctx).adapted_request_body_len
            &&& final(ctx).retained_adapted_request_body == old(ctx).retained_adapted_request_body
        },
{
    match canonical {
        Some(body) => {
            lemma_stores(final(ctx).pre_read_body->0, bytes_data(body));
            if final(ctx).retained_pre_read_body is Some {
                lemma_stores(final(ctx).retained_pre_read_body->0, bytes_data(body));
            }
        },
        None => {},
    }
    match adapted {
        Some(body) => {
            lemma_stores(final(ctx).adapted_request_body->0, body_data(body.0));
            if body_data(body.0).len() <= policy.retry_limit {
                lemma_stores(final(ctx).retained_adapted_request_body->0, body_data(body.0));
            } else {
                lemma_stores(final(ctx).retained_adapted_request_body->0, Seq::empty());
            }
        },
        None => {},
    }
}

/// A request that is stopped keeps its path, body mode, bodies, attempted endpoints and
/// retry policies, and no header change is handed on. Its cluster, upstream and retry
/// state are still those that the filters left. What they decided, or their failure,
/// is passed on as it is.
pub proof fn law_stopped_request_only_keeps_its_lifecycle<V, S>(
    policy: &AdaptationPolicy,
    ctx: &mut RequestCtx<V>,
    fctx: FilterContext<V>,
    mutations: HeaderMutations,
    route: Option<String>,
    action: Result<FilterAction<S>, FilterError>,
    canonical: Option<Bytes>,
    adapted: Option<AdaptedBody>,
    result: Result<PipelineResult<S>, FilterError>,
)
    requires
        call_ensures(
            finish_request_phase::<V, S>,
            (policy, ctx, fctx, mutations, route, action, canonical, adapted),
            result,
        ),
        action is Err || !goes_on(action->Ok_0),
    ensures
        final(ctx).cluster == fctx.cluster,
        final(ctx).upstream == fctx.upstream,
        final(ctx).selected_endpoint_index == fctx.selected_endpoint_index,
        final(ctx).cluster_retry_state == fctx.cluster_retry_state,
        final(ctx).cluster_retry_state_released == fctx.cluster_retry_state_released,
        final(ctx).endpoint_reselector == fctx.endpoint_reselector,
        final(ctx).metrics_route == route,
        final(ctx).rewritten_path == old(ctx).rewritten_path,
        final(ctx).request_body_mode == old(ctx).request_body_mode,
        final(ctx).response_body_mode == clamped_mode(
            fctx.response_body_mode,
            old(ctx).response_body_mode,
        ),
        final(ctx).attempted_endpoints == old(ctx).attempted_endpoints,
        final(ctx).retry_policy == old(ctx).retry_policy,
        final(ctx).route_retry_policy == old(ctx).route_retry_policy,
        final(ctx).pre_read_body == old(ctx).pre_read_body,
        final(ctx).mutated_request_body_len == old(ctx).mutated_request_body_len,
        final(ctx).retained_pre_read_body == old(ctx).retained_pre_read_body,
        final(ctx).adapted_request_body == old(ctx).adapted_request_body,
        final(ctx).adapted_request_body_len == old(ctx).adapted_request_body_len,
        final(ctx).retained_adapted_request_body == old(ctx).retained_adapted_request_body,
        match action {
            Ok(decided) => {
                &&& result matches Ok(done) && done.action == decided
                &&& result->Ok_0.mutations.remove@.len() == 0
                &&& result->Ok_0.mutations.set@.len() == 0
                &&& result->Ok_0.mutations.extra@.len() == 0
            },
            Err(failure) => result == Err::<PipelineResult<S>, FilterError>(failure),
        },
{
}

/// Ending the request phase touches nothing that was captured before it, nor anything of
/// the response but its body mode.
pub proof fn law_ending_the_request_phase_keeps_the_rest<V, S>(
    policy: &AdaptationPolicy,
    ctx: &mut RequestCtx<V>,
    fctx: FilterContext<V>,
    mutations: HeaderMutations,
    route: Option<String>,
    action: Result<FilterAction<S>, FilterError>,
    canonical: Option<Bytes>,
    adapted: Option<AdaptedBody>,
    result: Result<PipelineResult<S>, FilterError>,
)
    requires
        call_ensures(
            finish_request_phase::<V, S>,
            (policy, ctx, fctx, mutations, route, action, canonical, adapted),
            result,
        ),
    ensures
        *final(ctx) == (RequestCtx {
            rewritten_path: final(ctx).rewritten_path,
            attempted_endpoints: final(ctx).attempted_endpoints,
            retry_policy: final(ctx).retry_policy,
            route_retry_policy: final(ctx).route_retry_policy,
            cluster: final(ctx).cluster,
            upstream: final(ctx).upstream,
            selected_endpoint_index: final(ctx).selected_endpoint_index,
            cluster_retry_state: final(ctx).cluster_retry_state,
            cluster_retry_state_released: final(ctx).cluster_retry_state_released,
            endpoint_reselector: final(ctx).endpoint_reselector,
            metrics_route: final(ctx).metrics_route,
            request_body_mode: final(ctx).request_body_mode,
            response_body_mode: final(ctx).response_body_mode,
            pre_read_body: final(ctx).pre_read_body,
            mutated_request_body_len: final(ctx).mutated_request_body_len,
            retained_pre_read_body: final(ctx).retained_pre_read_body,
            adapted_request_body: final(ctx).adapted_request_body,
            adapted_request_body_len: final(ctx).adapted_request_body_len,
            retained_adapted_request_body: final(ctx).retained_adapted_request_body,
            ..*old(ctx)
        }),
{
}

/// Capturing a filtered request keeps its method and target and takes in the header
/// changes; all that the filters asked to remove, set and add is handed back. The state
/// of the filters moves into the request, metrics go by their cluster, what was read ahead
/// is forgotten, and the rest of the filters' context stays.
pub proof fn law_captured_request_keeps_what_filters_left<V>(
    ctx: &mut RequestCtx<V>,
    request: Request,
    fctx: &mut FilterContext<V>,
    mutations: HeaderMutations,
)
    requires
        call_ensures(capture_filtered_request::<V>, (ctx, request, fctx), mutations),
    ensures
        final(ctx).request_snapshot is Some,
        final(ctx).request_snapshot->0.method == request.method,
        final(ctx).request_snapshot->0.uri == request.uri,
        header_entries(final(ctx).request_snapshot->0.headers) == mutated(
            header_entries(request.headers),
            mutations@,
            Intake::Stored,
        ),
        mutations@.remove == names_view(old(fctx).request_headers_to_remove@),
        mutations@.set == fields_view(old(fctx).request_headers_to_set@),
        mutations@.extra == text_fields(old(fctx).extra_request_headers@),
        final(ctx).extensions == old(fctx).extensions,
        final(ctx).filter_metadata == old(fctx).filter_metadata,
        final(ctx).filter_state == old(fctx).filter_state,
        final(ctx).structured_metadata == old(fctx).structured_metadata,
        final(ctx).cached_executed_filter_indices == old(fctx).executed_filter_indices,
        final(ctx).cached_body_done_indices == old(fctx).body_done_indices,
        final(ctx).metrics_cluster == old(fctx).cluster,
        final(ctx).metrics_cluster_shared == old(fctx).cluster,
        final(ctx).pre_read_mutations@.len() == 0,
        *final(ctx) == (RequestCtx {
            request_snapshot: final(ctx).request_snapshot,
            extensions: final(ctx).extensions,
            filter_metadata: final(ctx).filter_metadata,
            filter_state: final(ctx).filter_state,
            structured_metadata: final(ctx).structured_metadata,
            cached_executed_filter_indices: final(ctx).cached_executed_filter_indices,
            cached_body_done_indices: final(ctx).cached_body_done_indices,
            metrics_cluster: final(ctx).metrics_cluster,
            metrics_cluster_shared: final(ctx).metrics_cluster_shared,
            pre_read_mutations: final(ctx).pre_read_mutations,
            ..*old(ctx)
        }),
        final(fctx).extensions@.len() == 0,
        final(fctx).filter_metadata@ == Map::<String, String>::empty(),
        final(fctx).filter_state@ == Map::<usize, V>::empty(),
        final(fctx).executed_filter_indices@.len() == 0,
        final(fctx).body_done_indices@.len() == 0,
        final(fctx).structured_metadata@.len() == 0,
        final(fctx).request_headers_to_remove@.len() == 0,
        final(fctx).request_headers_to_set@.len() == 0,
        final(fctx).extra_request_headers@.len() == 0,
        *final(fctx) == (FilterContext {
            extensions: final(fctx).extensions,
            filter_metadata: final(fctx).filter_metadata,
            filter_state: final(fctx).filter_state,
            executed_filter_indices: final(fctx).executed_filter_indices,
            body_done_indices: final(fctx).body_done_indices,
            structured_metadata: final(fctx).structured_metadata,
            request_headers_to_remove: final(fctx).request_headers_to_remove,
            request_headers_to_set: final(fctx).request_headers_to_set,
            extra_request_headers: final(fctx).extra_request_headers,
            ..*old(fctx)
        }),
{
}

/// From the filters to the upstream: where the request goes on, the context holds the
/// path, the endpoints and the policies that the filters left in theirs, and the header
/// changes that go out are those that they asked for.
pub proof fn law_filters_decide_how_a_request_is_forwarded<V, S>(
    ctx: &mut RequestCtx<V>,
    request: Request,
    fctx: &mut FilterContext<V>,
    captured: HeaderMutations,
    policy: &AdaptationPolicy,
    later: &mut RequestCtx<V>,
    route: Option<String>,
    action: Result<FilterAction<S>, FilterError>,
    canonical: Option<Bytes>,
    adapted: Option<AdaptedBody>,
    result: Result<PipelineResult<S>, FilterError>,
)
    requires
        call_ensures(capture_filtered_request::<V>, (ctx, request, fctx), captured),
        *old(later) == *final(ctx),
        call_ensures(
            finish_request_phase::<V, S>,
            (policy, later, *final(fctx), captured, route, action, canonical, adapted),
            result,
        ),
        action is Ok && goes_on(action->Ok_0),
    ensures
        final(later).rewritten_path == old(fctx).rewritten_path,
        final(later).attempted_endpoints == old(fctx).attempted_endpoints,
        final(later).retry_policy == old(fctx).retry_policy,
        final(later).route_retry_policy == old(fctx).route_retry_policy,
        final(later).cluster == old(fctx).cluster,
        final(later).upstream == old(fctx).upstream,
        result is Ok,
        result->Ok_0.mutations@.remove == names_view(old(fctx).request_headers_to_remove@),
        result->Ok_0.mutations@.set == fields_view(old(fctx).request_headers_to_set@),
        result->Ok_0.mutations@.extra == text_fields(old(fctx).extra_request_headers@),
{
}

/// A request that goes on is forwarded with its header changes and its request line; any
/// other is answered as the filters decided, or with a bare 500 where they failed, and
/// its header stays as it was.
pub proof fn law_verdict_follows_the_filters<S>(
    result: Result<PipelineResult<S>, FilterError>,
    header: &mut RequestHeader,
    verdict: RequestVerdict<S>,
)
    requires
        call_ensures(request_verdict::<S>, (result, header), verdict),
    ensures
        result is Ok && goes_on(result->Ok_0.action) ==> {
            &&& verdict is Forward
            &&& request_in_step(*final(header))
            &&& request_entries(*final(header)) == mutated(
                request_entries(*old(header)),
                result->Ok_0.mutations@,
                Intake::Named,
            )
            &&& request_spelled_names(*final(header)) == respelled(
                request_spelled_names(*old(header)),
                result->Ok_0.mutations@,
            )
            &&& request_method(*final(header)) == request_method(*old(header))
            &&& request_uri(*final(header)) == request_uri(*old(header))
            &&& request_opaque_path(*final(header)) == request_opaque_path(*old(header))
            &&& request_version(*final(header)) == request_version(*old(header))
        },
        !(result is Ok && goes_on(result->Ok_0.action)) ==> *final(header) == *old(header)
            && verdict !is Forward,
        result is Err ==> (verdict matches RequestVerdict::Reject { error_type, rejection }
            && error_type == ErrorType::Internal && says_only(rejection, 500)),
        result matches Ok(done) ==> match done.action {
            FilterAction::Reject(found) => verdict matches RequestVerdict::Reject {
                error_type,
                rejection,
            } && error_type == ErrorType::FilterReject && rejection == found,
            FilterAction::TerminalResponse(found) => verdict matches RequestVerdict::Terminal(
                terminal,
            ) && terminal == found,
            FilterAction::StreamingTerminalResponse(found) => verdict
                matches RequestVerdict::Streaming(terminal) && terminal == found,
            _ => true,
        },
{
}

/// The selected-upstream phase can only stop a request or give it another body: its
/// rejection or failure replaces the decision, a body that it wrote is forwarded if it
/// is within the limit and answered with a bare 413 if it is not, and a pipeline that
/// writes none leaves the decision and the body alone.
pub proof fn law_adaptation_stops_or_rewrites<S>(
    policy: &AdaptationPolicy,
    selected: Result<FilterAction<S>, FilterError>,
    working: Option<Bytes>,
    action: Result<FilterAction<S>, FilterError>,
    next: (Result<FilterAction<S>, FilterError>, Option<AdaptedBody>),
)
    requires
        call_ensures(after_selected_upstream::<S>, (policy, selected, working, action), next),
    ensures
        selected matches Err(failure) ==> next.0 == Err::<FilterAction<S>, FilterError>(failure)
            && next.1 is None,
        selected matches Ok(FilterAction::Reject(rejection)) ==> (next.0 matches Ok(
            FilterAction::Reject(sent),
        ) && sent == rejection) && next.1 is None,
        selected is Ok && !(selected->Ok_0 is Reject) && !policy.writes ==> next.0 == action
            && next.1 is None,
        selected is Ok && !(selected->Ok_0 is Reject) && policy.writes && body_data(working).len()
            <= policy.body_limit ==> next.0 == action && (next.1 matches Some(body) && body.0
            == working),
        selected is Ok && !(selected->Ok_0 is Reject) && policy.writes && body_data(working).len()
            > policy.body_limit ==> (next.0 matches Ok(FilterAction::Reject(sent)) && says_only(
            sent,
            413,
        )) && next.1 is None,
{
}

/// Adaptation runs exactly for a request that goes on to a selected upstream, where a
/// filter takes part in it. It starts from the body that was written anew, and from the
/// one read ahead where none was; what was written anew is taken out of the context.
pub proof fn law_adaptation_starts_from_what_is_forwarded<V, S>(
    policy: &AdaptationPolicy,
    ctx: &RequestCtx<V>,
    source: Option<Bytes>,
    action: &Result<FilterAction<S>, FilterError>,
    fctx: &mut FilterContext<V>,
    run: RequestRun,
)
    requires
        call_ensures(pre_read_source::<V>, (policy, ctx), source),
        call_ensures(after_request_filters::<V, S>, (policy, action, fctx, source), run),
    ensures
        run.adapt <==> policy.participates && *action is Ok && goes_on(action->Ok_0)
            && old(fctx).upstream is Some,
        run.canonical == old(fctx).bound_request_body_rewrite,
        final(fctx).bound_request_body_rewrite is None,
        *final(fctx) == (FilterContext {
            bound_request_body_rewrite: final(fctx).bound_request_body_rewrite,
            ..*old(fctx)
        }),
        policy.participates ==> body_data(run.working) == (match (
            old(fctx).bound_request_body_rewrite,
            ctx.pre_read_body,
        ) {
            (Some(rewritten), _) => bytes_data(rewritten),
            (None, Some(chunks)) => if chunks@.len() > 0 {
                bytes_data(chunks@[0])
            } else {
                Seq::empty()
            },
            (None, None) => Seq::empty(),
        }),
        !policy.participates ==> run.working is None,
{
}

/// A body that could not be read ahead is answered: with the rejection that was found,
/// with a bare 500 where a filter failed, and by the connection's own error handling
/// otherwise. The request is captured in each case, and nothing else changes.
pub proof fn law_failed_pre_read_is_answered<V>(
    ctx: &mut RequestCtx<V>,
    request: Request,
    failure: PreReadFailure,
    next: PreReadNext,
)
    requires
        call_ensures(pre_read_failed::<V>, (ctx, request, failure), next),
    ensures
        *final(ctx) == (RequestCtx { request_snapshot: Some(request), ..*old(ctx) }),
        failure matches PreReadFailure::Rejected(found) ==> (next matches PreReadNext::Reject {
            error_type,
            rejection,
        } && error_type == ErrorType::FilterReject && rejection == found),
        failure is Filter ==> (next matches PreReadNext::Reject { error_type, rejection }
            && error_type == ErrorType::Internal && says_only(rejection, 500)),
        failure is Io <==> next is HandleIo,
{
}

/// What is captured of a client is what it brought: its version, whether it came with TLS
/// and with which certificate, if any, and its address, where an IPv4 address in IPv6
/// form is the IPv4 one. GET, HEAD and OPTIONS can be repeated, no other method.
pub proof fn law_captured_facts_are_those_of_the_client<V>(
    ctx: &mut RequestCtx<V>,
    version: HttpVersion,
    client_addr: Option<ClientAddr>,
    tls: Option<TlsDigest>,
    method: &str,
)
    requires
        call_ensures(
            capture_request_facts::<V>,
            (ctx, version, client_addr, tls, method),
            (),
        ),
    ensures
        final(ctx).client_http_version == Some(version),
        final(ctx).downstream_tls == tls is Some,
        final(ctx).peer_identity is Some <==> tls is Some && tls->0.cert_digest@.len() > 0,
        final(ctx).peer_identity matches Some(identity) ==> identity.cert_digest
            == tls->0.cert_digest && identity.organization == tls->0.organization
            && identity.serial_number == tls->0.serial_number,
        final(ctx).request_is_idempotent <==> method@ == "GET"@ || method@ == "HEAD"@ || method@
            == "OPTIONS"@,
        final(ctx).client_addr is Some <==> client_addr is Some,
        client_addr matches Some(addr) ==> unwraps(addr, final(ctx).client_addr->0),
        *final(ctx) == (RequestCtx {
            client_http_version: final(ctx).client_http_version,
            downstream_tls: final(ctx).downstream_tls,
            peer_identity: final(ctx).peer_identity,
            request_is_idempotent: final(ctx).request_is_idempotent,
            client_addr: final(ctx).client_addr,
            ..*old(ctx)
        }),
{
    if let Some(addr) = client_addr {
        lemma_mapped(addr);
    }
}

/// An address is replaced exactly where it is an IPv4 one in IPv6 form, that is ten zero
/// octets, two of 255, and the four octets of the IPv4 address.
pub open spec fn unwraps(addr: ClientAddr, normalized: ClientAddr) -> bool {
    &&& addr is V4 ==> normalized == addr
    &&& addr matches ClientAddr::V6(octets) ==> {
        let mapped = octets@.take(12) == seq![0u8, 0, 0, 0, 0, 0, 0, 0, 0, 0, 255, 255];
        &&& mapped ==> (normalized matches ClientAddr::V4(v4) && v4@ == octets@.skip(12))
        &&& !mapped ==> normalized == addr
    }
}

/// Mapped addresses, and no others, are replaced by the IPv4 address that they stand for.
pub proof fn law_mapped_addresses_are_unwrapped(addr: ClientAddr, normalized: ClientAddr)
    requires
        call_ensures(normalize_mapped_ipv4, (addr,), normalized),
    ensures
        unwraps(addr, normalized),
{
    lemma_mapped(addr);
}

/// What the octets of a mapped address look like.
proof fn lemma_mapped(addr: ClientAddr)
    ensures
        addr matches ClientAddr::V6(octets) ==> (is_mapped_ipv4(octets@) <==> octets@.take(12)
            == seq![0u8, 0, 0, 0, 0, 0, 0, 0, 0, 0, 255, 255]) && octets@.skip(12)
            == octets@.subrange(12, 16),
{
    match addr {
        ClientAddr::V6(octets) => {
            let prefix = seq![0u8, 0, 0, 0, 0, 0, 0, 0, 0, 0, 255, 255];
            assert(octets@.len() == 16);
            assert(octets@.skip(12) =~= octets@.subrange(12, 16));
            if octets@.take(12) == prefix {
                assert forall|i: int| 0 <= i < 12 implies octets@[i] == prefix[i] by {
                    assert(octets@.take(12)[i] == octets@[i]);
                }
                assert forall|i: int| 0 <= i < 10 implies #[trigger] octets@[i] == 0 by {
                    assert(octets@[i] == prefix[i]);
                }
                assert(octets@[10] == prefix[10] && octets@[11] == prefix[11]);
            } else if is_mapped_ipv4(octets@) {
                assert(octets@.take(12) =~= prefix);
            }
        },
        ClientAddr::V4(_) => {},
    }
}

/// The body modes of the pipeline are adopted as they are, and a request body is read
/// ahead exactly where it is held back.
pub proof fn law_body_modes_are_adopted<V>(
    ctx: &mut RequestCtx<V>,
    request_body_mode: BodyMode,
    response_body_mode: BodyMode,
    pre_read: bool,
)
    requires
        call_ensures(
            select_body_modes::<V>,
            (ctx, request_body_mode, response_body_mode),
            pre_read,
        ),
    ensures
        pre_read <==> request_body_mode is StreamBuffer,
        final(ctx).request_body_mode == request_body_mode,
        final(ctx).response_body_mode == response_body_mode,
        *final(ctx) == (RequestCtx {
            request_body_mode: final(ctx).request_body_mode,
            response_body_mode: final(ctx).response_body_mode,
            ..*old(ctx)
        }),
{
}

/// The place of an early check in their order.
pub open spec fn place(check: EarlyCheck) -> int {
    match check {
        EarlyCheck::Host => 0,
        EarlyCheck::Normalize => 1,
        EarlyCheck::Reserved => 2,
        EarlyCheck::MaxForwards => 3,
    }
}

/// A request that an early check objects to goes no further: what is found is answered,
/// and the last check ends the phase as it says. A check that finds nothing is followed
/// by the next, and the last one by the capture.
pub proof fn law_early_checks_gate_the_phase(
    check: EarlyCheck,
    event: RequestEvent,
    next: Option<RequestTask>,
)
    requires
        call_ensures(next_request_task, (RequestTask::Check(check), event), next),
    ensures
        event is Found && check !is MaxForwards ==> next == Some(RequestTask::RejectEarly),
        event matches RequestEvent::Answered(handled) ==> (check is MaxForwards ==> next == Some(
            RequestTask::EndEarly { snapshot: handled, handled },
        )),
        event is Clear && check is MaxForwards ==> next == Some(RequestTask::Capture),
        event is Clear && check !is MaxForwards ==> (next matches Some(RequestTask::Check(later))
            && place(later) == place(check) + 1),
        next is Some && !(next->0 is RejectEarly) && !(next->0 is EndEarly) ==> event is Clear,
{
}

/// A captured request is read ahead exactly where its body is held back; once the body is
/// there, or need not be, the filters run; and the body is adapted exactly where they say
/// so. A body that cannot be read ends the phase.
pub proof fn law_captured_request_reaches_its_filters(
    event: RequestEvent,
    captured: Option<RequestTask>,
    read: Option<RequestTask>,
    ran: Option<RequestTask>,
    adapted: Option<RequestTask>,
)
    requires
        call_ensures(next_request_task, (RequestTask::Capture, event), captured),
        call_ensures(next_request_task, (RequestTask::PreRead, event), read),
        call_ensures(next_request_task, (RequestTask::RunFilters, event), ran),
        call_ensures(next_request_task, (RequestTask::AdaptBody, event), adapted),
    ensures
        event matches RequestEvent::Captured(pre_read) ==> captured == Some(
            if pre_read {
                RequestTask::PreRead
            } else {
                RequestTask::RunFilters
            },
        ),
        event is Clear ==> read == Some(RequestTask::RunFilters),
        event is Failed ==> read == Some(RequestTask::EndPreRead),
        event matches RequestEvent::Ran(adapt) ==> ran == Some(
            if adapt {
                RequestTask::AdaptBody
            } else {
                RequestTask::Finish
            },
        ),
        event is Clear ==> adapted == Some(RequestTask::Finish),
        captured is Some ==> event is Captured,
        read is Some ==> event is Clear || event is Failed,
        ran is Some ==> event is Ran,
        adapted is Some ==> event is Clear,
{
}

/// What ends the phase is followed by nothing.
pub proof fn law_ended_phases_go_no_further(
    task: RequestTask,
    event: RequestEvent,
    next: Option<RequestTask>,
)
    requires
        call_ensures(next_request_task, (task, event), next),
        task is RejectEarly || task is EndEarly || task is EndPreRead || task is Finish,
    ensures
        next is None,
{
}

/// A request starts with nothing known, done or held, and its bodies are streamed.
pub proof fn law_fresh_requests_hold_nothing<V>(ctx: RequestCtx<V>)
    requires
        call_ensures(RequestCtx::<V>::new, (), ctx),
    ensures
        ctx.adapted_request_body is None,
        ctx.adapted_request_body_len is None,
        ctx.attempted_endpoints@.len() == 0,
        ctx.cached_body_done_indices@.len() == 0,
        ctx.cached_executed_branch_filters@.len() == 0,
        ctx.cached_executed_filter_indices@.len() == 0,
        ctx.client_addr is None,
        ctx.client_http_version is None,
        ctx.cluster is None,
        ctx.cluster_retry_state is None,
        !ctx.cluster_retry_state_released,
        !ctx.connection_upgraded,
        !ctx.downstream_tls,
        ctx.endpoint_reselector is None,
        ctx.extensions@.len() == 0,
        ctx.filter_metadata@ == Map::<String, String>::empty(),
        ctx.filter_results@.len() == 0,
        ctx.filter_state@ == Map::<usize, V>::empty(),
        ctx.metrics_cluster is None,
        ctx.metrics_cluster_shared is None,
        ctx.metrics_route is None,
        ctx.mutated_request_body_len is None,
        ctx.peer_identity is None,
        ctx.pending_rejection is None,
        ctx.pre_read_body is None,
        ctx.pre_read_mutations@.len() == 0,
        ctx.request_body_buffer is None,
        ctx.request_body_bytes == 0,
        ctx.request_body_mode == BodyMode::Stream,
        !ctx.request_body_released,
        !ctx.request_is_idempotent,
        ctx.request_snapshot is None,
        ctx.response_body_buffer is None,
        ctx.response_body_bytes == 0,
        ctx.response_body_mode == BodyMode::Stream,
        !ctx.response_body_released,
        !ctx.response_delivery_complete,
        ctx.response_header_snapshot is None,
        !ctx.response_phase_done,
        ctx.retained_adapted_request_body is None,
        ctx.retained_pre_read_body is None,
        ctx.retry_policy is None,
        ctx.route_retry_policy is None,
        ctx.rewritten_path is None,
        ctx.selected_endpoint_index is None,
        ctx.structured_metadata@.len() == 0,
        ctx.upstream is None,
        !ctx.upstream_contacted,
        ctx.upstream_response_status is None,
{
}

/// Filters start with nothing set, and bodies are streamed.
pub proof fn law_fresh_filters_hold_nothing<V>(fctx: FilterContext<V>)
    requires
        call_ensures(FilterContext::<V>::new, (), fctx),
    ensures
        fctx.attempted_endpoints@.len() == 0,
        fctx.body_done_indices@.len() == 0,
        fctx.bound_request_body_rewrite is None,
        fctx.cluster is None,
        fctx.cluster_retry_state is None,
        !fctx.cluster_retry_state_released,
        fctx.endpoint_reselector is None,
        fctx.executed_branch_filters@.len() == 0,
        fctx.executed_filter_indices@.len() == 0,
        fctx.extensions@.len() == 0,
        fctx.extra_request_headers@.len() == 0,
        fctx.filter_metadata@ == Map::<String, String>::empty(),
        fctx.filter_results@.len() == 0,
        fctx.filter_state@ == Map::<usize, V>::empty(),
        fctx.metrics_route is None,
        fctx.request_body_bytes == 0,
        fctx.request_body_mode == BodyMode::Stream,
        fctx.request_headers_to_remove@.len() == 0,
        fctx.request_headers_to_set@.len() == 0,
        fctx.response_body_bytes == 0,
        fctx.response_body_mode == BodyMode::Stream,
        !fctx.response_headers_modified,
        fctx.retry_policy is None,
        fctx.route_retry_policy is None,
        fctx.rewritten_path is None,
        fctx.selected_endpoint_index is None,
        fctx.structured_metadata@.len() == 0,
        fctx.upstream is None,
{
}

/// The phase starts with the first check.
pub proof fn law_request_phase_starts_with_the_first_check(task: RequestTask)
    requires
        call_ensures(first_request_task, (), task),
    ensures
        task matches RequestTask::Check(check) && place(check) == 0,
{
}

} // verus!
