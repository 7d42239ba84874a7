//! Bodies, chunk by chunk: which chunks reach the filters, which are refused, and what
//! comes out.
use super::request::{lemma_stores, says_only, stores};
use crate::body::{
    accumulate_stream_buffer, check_body_size_limit, clamp_body_mode_to_ceiling,
    exceeds_body_ceiling, held_data, is_countable, is_holdable, release_stream_buffer,
    suppress_stream_buffer_chunk, BodyBuffer, BodyFilterOutput, BodyMode, BodyOverflow,
};
use crate::body_handling::{
    chunks_data, drain_pre_read_body, retry_copy, store_adapted_request_body,
    store_canonical_request_body,
};
use crate::chunk::{body_data, bytes_data};
use crate::context::{
    ErrorType, Fault, FaultKind, FilterAction, FilterContext, FilterError, RequestCtx,
};
use crate::request_body::{
    request_body_finish, request_body_gate, request_body_refusal, request_chunk_is_measurable,
    BodyDecision, BodyLimit, BodyOutcome, BodyPolicy,
};
use crate::response_body::{
    mark_delivered_at_eos, response_body_finish, response_body_gate, response_body_refusal,
    response_chunk_is_measurable,
};
use crate::text::decimal;
use bytes::Bytes;
use std::collections::VecDeque;
use vstd::prelude::*;
use vstd::string::*;

verus! {

// ----- Modes and limits -----

/// A clamped mode is of the kind that was asked for. Its limit is the smaller of the one
/// asked for and that of the baseline; where only one of them has a limit, it is that
/// one, except that a mode that streams stays without.
pub proof fn law_clamped_mode_has_the_smaller_limit(
    mode: BodyMode,
    baseline: BodyMode,
    clamped: BodyMode,
)
    requires
        call_ensures(clamp_body_mode_to_ceiling, (mode, baseline), clamped),
    ensures
        mode is Stream ==> clamped is Stream,
        baseline is Stream ==> clamped == mode,
        baseline == (BodyMode::StreamBuffer { max_bytes: None }) ==> clamped == mode,
        forall|limit: usize|
            #![auto]
            (baseline == (BodyMode::SizeLimit { max_bytes: limit }) || baseline == (
            BodyMode::StreamBuffer { max_bytes: Some(limit) })) ==> {
                &&& mode matches BodyMode::SizeLimit { max_bytes } ==> (clamped
                    matches BodyMode::SizeLimit { max_bytes: kept } && kept <= max_bytes && kept
                    <= limit && (kept == max_bytes || kept == limit))
                &&& mode matches BodyMode::StreamBuffer { max_bytes: Some(max) } ==> (clamped
                    matches BodyMode::StreamBuffer { max_bytes: Some(kept) } && kept <= max && kept
                    <= limit && (kept == max || kept == limit))
                &&& mode == (BodyMode::StreamBuffer { max_bytes: None }) ==> clamped == (
                BodyMode::StreamBuffer { max_bytes: Some(limit) })
            },
{
}

/// A body is over a size limit exactly when its bytes so far, this chunk counted, are
/// more than the limit; a chunk is counted once, and none changes nothing.
pub proof fn law_size_limit_counts_every_chunk(
    body: Option<&Bytes>,
    counted: &mut u64,
    max_bytes: usize,
    exceeded: bool,
)
    requires
        call_ensures(check_body_size_limit, (body, counted, max_bytes), exceeded),
    ensures
        body matches Some(chunk) ==> *final(counted) == *old(counted) + bytes_data(*chunk).len(),
        body is None ==> *final(counted) == *old(counted) && !exceeded,
        body is Some ==> (exceeded <==> *final(counted) > max_bytes),
{
}

/// A streamed body is over the global limit exactly when its bytes so far and this chunk
/// are more than the limit. No limit, and the largest number there is, limit nothing.
pub proof fn law_global_limit_is_exact(
    ceiling: Option<usize>,
    counted: u64,
    chunk: Option<&Bytes>,
    exceeds: bool,
)
    requires
        call_ensures(exceeds_body_ceiling, (ceiling, counted, chunk), exceeds),
    ensures
        ceiling is None ==> !exceeds,
        ceiling matches Some(max) ==> (max < u64::MAX ==> (exceeds <==> counted + (match chunk {
            Some(chunk) => bytes_data(*chunk).len(),
            None => 0,
        }) > max)),
        ceiling matches Some(max) ==> max == u64::MAX ==> !exceeds,
{
}

/// A buffer takes a chunk exactly when the total is within its limit, behind what it
/// holds, and else stays as it is. What comes out is what went in.
pub proof fn law_buffer_holds_what_fits(
    max_bytes: usize,
    fresh: BodyBuffer,
    buffer: &mut BodyBuffer,
    chunk: &Bytes,
    pushed: Result<(), BodyOverflow>,
    out: Bytes,
)
    requires
        call_ensures(BodyBuffer::new, (max_bytes,), fresh),
        call_ensures(BodyBuffer::push, (buffer, chunk), pushed),
        call_ensures(BodyBuffer::freeze, (*final(buffer),), out),
    ensures
        fresh@.len() == 0 && fresh.limit() == max_bytes,
        final(buffer).limit() == old(buffer).limit(),
        pushed is Ok <==> old(buffer)@.len() + bytes_data(*chunk).len() <= old(buffer).limit(),
        pushed is Ok ==> bytes_data(out) == old(buffer)@ + bytes_data(*chunk),
        pushed is Err ==> bytes_data(out) == old(buffer)@,
{
}

/// The size up to which chunks are held back: that of the buffer there is, or else the
/// one of the mode, or else the absolute maximum.
pub open spec fn holds_up_to(
    buffer: Option<BodyBuffer>,
    max_bytes: Option<usize>,
    absolute_max: usize,
    limit: usize,
) -> bool {
    &&& buffer matches Some(held) ==> limit == held.limit()
    &&& buffer is None && max_bytes is Some ==> limit == max_bytes->0
    &&& buffer is None && max_bytes is None ==> limit == absolute_max
}

/// A chunk that is held back joins the buffer, behind what is there; at the end of the
/// stream all that is held becomes the body. A chunk that takes the buffer over its limit
/// is reported and changes neither.
pub proof fn law_held_back_chunks_accumulate(
    body: &mut Option<Bytes>,
    buffer: &mut Option<BodyBuffer>,
    end_of_stream: bool,
    max_bytes: Option<usize>,
    absolute_max: usize,
    overflow: bool,
    limit: usize,
)
    requires
        call_ensures(
            accumulate_stream_buffer,
            (body, buffer, end_of_stream, max_bytes, absolute_max),
            overflow,
        ),
        holds_up_to(*old(buffer), max_bytes, absolute_max, limit),
    ensures
        overflow <==> *old(body) is Some && held_data(*old(buffer)).len() + body_data(
            *old(body),
        ).len() > limit,
        overflow ==> *final(body) == *old(body) && held_data(*final(buffer)) == held_data(
            *old(buffer),
        ),
        !overflow && !end_of_stream ==> held_data(*final(buffer)) == held_data(*old(buffer))
            + body_data(*old(body)) && *final(body) == *old(body),
        !overflow && end_of_stream ==> body_data(*final(body)) == held_data(*old(buffer))
            + body_data(*old(body)) && *final(buffer) is None,
        !overflow && end_of_stream ==> (*final(body) is Some <==> *old(body) is Some || *old(
            buffer) is Some),
        overflow ==> *final(buffer) is Some,
        !overflow && !end_of_stream ==> (*final(buffer) is Some <==> *old(body) is Some || *old(
            buffer) is Some),
        *final(buffer) matches Some(held) ==> held.limit() == limit,
{
}

/// A chunk is dropped exactly while it is held back; releasing hands on what was held
/// back once, in place of the chunk, and at the end of the stream leaves the body alone.
pub proof fn law_releasing_hands_on_what_was_held(
    dropped: &mut Option<Bytes>,
    is_stream_buffer: bool,
    released: bool,
    end_of_stream: bool,
    body: &mut Option<Bytes>,
    flag: &mut bool,
    buffer: &mut Option<BodyBuffer>,
)
    requires
        call_ensures(
            suppress_stream_buffer_chunk,
            (dropped, is_stream_buffer, released, end_of_stream),
            (),
        ),
        call_ensures(
            release_stream_buffer,
            (body, is_stream_buffer, flag, buffer, end_of_stream),
            (),
        ),
        *old(flag) == released,
    ensures
        is_stream_buffer && !released && !end_of_stream ==> *final(dropped) is None,
        !is_stream_buffer || released || end_of_stream ==> *final(dropped) == *old(dropped),
        is_stream_buffer && !released && !end_of_stream ==> {
            &&& body_data(*final(body)) == held_data(*old(buffer))
            &&& *final(body) is Some <==> *old(buffer) is Some
            &&& *final(buffer) is None
        },
        !is_stream_buffer || released || end_of_stream ==> *final(body) == *old(body)
            && *final(buffer) == *old(buffer),
        *final(flag) <==> released || is_stream_buffer,
{
}

// ----- Request body -----

/// Something stored is forwarded in place of what arrives.
pub open spec fn is_drained<V>(ctx: RequestCtx<V>) -> bool {
    ctx.retained_adapted_request_body is Some || ctx.pre_read_body is Some
}

/// Where no filter needs the body, after an upgrade, and while a stored body is forwarded,
/// chunks pass without the filters; in the first two cases they pass as they are.
pub proof fn law_request_chunks_pass_where_nothing_filters_them<V>(
    policy: &BodyPolicy,
    ctx: &mut RequestCtx<V>,
    body: &mut Option<Bytes>,
    end_of_stream: bool,
    decision: BodyDecision,
)
    requires
        call_ensures(request_body_gate::<V>, (policy, ctx, body, end_of_stream), decision),
        old(ctx).connection_upgraded || is_drained(*old(ctx)) || !policy.needs_body,
    ensures
        decision is Forward,
        old(ctx).connection_upgraded || !is_drained(*old(ctx)) ==> *final(body) == *old(body)
            && *final(ctx) == *old(ctx),
{
}

/// Where a filter needs the body and the request was captured, every chunk that is
/// streamed or held back and breaks no limit is handed to the filters, released or not.
pub proof fn law_request_chunks_reach_the_filters<V>(
    policy: &BodyPolicy,
    ctx: &mut RequestCtx<V>,
    body: &mut Option<Bytes>,
    end_of_stream: bool,
    decision: BodyDecision,
    limit: usize,
)
    requires
        call_ensures(request_body_gate::<V>, (policy, ctx, body, end_of_stream), decision),
        !old(ctx).connection_upgraded && !is_drained(*old(ctx)) && policy.needs_body,
        old(ctx).request_snapshot is Some,
        match old(ctx).request_body_mode {
            BodyMode::Stream => policy.ceiling matches Some(max) ==> old(ctx).request_body_bytes
                + body_data(*old(body)).len() <= max,
            BodyMode::StreamBuffer { max_bytes } => {
                ||| old(ctx).request_body_released
                ||| *old(body) is None
                ||| holds_up_to(
                    old(ctx).request_body_buffer,
                    max_bytes,
                    policy.absolute_max,
                    limit,
                ) && held_data(old(ctx).request_body_buffer).len() + body_data(*old(body)).len()
                    <= limit
            },
            BodyMode::SizeLimit { .. } => false,
        },
    ensures
        decision is RunFilters,
        old(ctx).request_body_mode is Stream || old(ctx).request_body_released ==> *final(body)
            == *old(body) && *final(ctx) == *old(ctx),
{
}

/// A request chunk is refused exactly where it takes the body over the limit of its mode,
/// and what is refused is named. A body whose mode is a size limit is only counted.
pub proof fn law_request_chunks_over_their_limit_are_refused<V>(
    policy: &BodyPolicy,
    ctx: &mut RequestCtx<V>,
    body: &mut Option<Bytes>,
    end_of_stream: bool,
    decision: BodyDecision,
    limit: usize,
)
    requires
        call_ensures(request_body_gate::<V>, (policy, ctx, body, end_of_stream), decision),
        !old(ctx).connection_upgraded && !is_drained(*old(ctx)) && policy.needs_body,
        old(ctx).request_body_mode matches BodyMode::StreamBuffer { max_bytes } ==> holds_up_to(
            old(ctx).request_body_buffer,
            max_bytes,
            policy.absolute_max,
            limit,
        ),
    ensures
        decision == BodyDecision::TooLarge(BodyLimit::Size) <==> (old(ctx).request_body_mode
            matches BodyMode::SizeLimit { max_bytes } && *old(body) is Some
                && old(ctx).request_body_bytes + body_data(*old(body)).len() > max_bytes),
        decision == BodyDecision::TooLarge(BodyLimit::Buffer)
            <==> (old(ctx).request_body_mode is StreamBuffer
            && !old(ctx).request_body_released && *old(body) is Some
            && held_data(old(ctx).request_body_buffer).len() + body_data(*old(body)).len()
            > limit),
        decision == BodyDecision::TooLarge(BodyLimit::Global)
            <==> (old(ctx).request_body_mode is Stream && policy.ceiling is Some
            && policy.ceiling->0 < u64::MAX
            && old(ctx).request_body_bytes + body_data(*old(body)).len() > policy.ceiling->0),
        old(ctx).request_body_mode is SizeLimit && !(decision is TooLarge) ==> decision is Forward,
        old(ctx).request_snapshot is None && !(old(ctx).request_body_mode is SizeLimit)
            && !(decision is TooLarge) ==> decision is SnapshotMissing,
        old(ctx).request_body_mode is SizeLimit ==> {
            &&& final(ctx).request_body_bytes as int == old(ctx).request_body_bytes + body_data(
                *old(body),
            ).len() || old(ctx).request_body_bytes + body_data(*old(body)).len() > u64::MAX
            &&& *final(body) == *old(body)
            &&& *final(ctx) == (RequestCtx {
                request_body_bytes: final(ctx).request_body_bytes,
                ..*old(ctx)
            })
        },
        old(ctx).request_body_mode is Stream ==> *final(ctx) == *old(ctx) && *final(body)
            == *old(body),
        old(ctx).request_body_mode is StreamBuffer && decision is TooLarge ==> {
            &&& *final(body) == *old(body)
            &&& held_data(final(ctx).request_body_buffer) == held_data(
                old(ctx).request_body_buffer,
            )
            &&& final(ctx).request_body_buffer matches Some(held) ==> old(
                ctx).request_body_buffer matches Some(was) ==> held.limit() == was.limit()
            &&& *final(ctx) == (RequestCtx {
                request_body_buffer: final(ctx).request_body_buffer,
                ..*old(ctx)
            })
        },
{
}

/// While a request body is held back, a chunk that fits joins the buffer behind what is
/// there; at the end of the stream all of it becomes the body and the count starts again.
pub proof fn law_held_back_request_bodies_accumulate<V>(
    policy: &BodyPolicy,
    ctx: &mut RequestCtx<V>,
    body: &mut Option<Bytes>,
    end_of_stream: bool,
    decision: BodyDecision,
)
    requires
        call_ensures(request_body_gate::<V>, (policy, ctx, body, end_of_stream), decision),
        !old(ctx).connection_upgraded && !is_drained(*old(ctx)) && policy.needs_body,
        old(ctx).request_body_mode is StreamBuffer && !old(ctx).request_body_released,
        !(decision is TooLarge),
    ensures
        final(ctx).request_body_buffer matches Some(held) ==> old(ctx).request_body_mode
            matches BodyMode::StreamBuffer { max_bytes } && holds_up_to(
            old(ctx).request_body_buffer,
            max_bytes,
            policy.absolute_max,
            held.limit(),
        ),
        !end_of_stream ==> (final(ctx).request_body_buffer is Some <==> *old(body) is Some || old(
            ctx).request_body_buffer is Some),
        !end_of_stream ==> held_data(final(ctx).request_body_buffer) == held_data(
            old(ctx).request_body_buffer,
        ) + body_data(*old(body)) && *final(body) == *old(body) && final(ctx).request_body_bytes
            == old(ctx).request_body_bytes,
        end_of_stream ==> body_data(*final(body)) == held_data(old(ctx).request_body_buffer)
            + body_data(*old(body)) && final(ctx).request_body_buffer is None
                && final(ctx).request_body_bytes == 0,
        *final(ctx) == (RequestCtx {
            request_body_buffer: final(ctx).request_body_buffer,
            request_body_bytes: final(ctx).request_body_bytes,
            ..*old(ctx)
        }),
{
}

/// A refused request chunk is answered with a bare 413 that says which limit it broke; one
/// of a request that was never captured fails the phase; any other goes on.
pub proof fn law_refused_request_chunks_are_answered(decision: BodyDecision, outcome: BodyOutcome)
    requires
        call_ensures(request_body_refusal, (decision,), outcome),
    ensures
        decision matches BodyDecision::TooLarge(limit) ==> {
            &&& outcome matches BodyOutcome::Reject { error_type, rejection, fault }
            &&& error_type == ErrorType::FilterReject
            &&& says_only(rejection, 413)
            &&& fault.kind == FaultKind::HttpStatus(413)
            &&& limit is Size ==> fault.message@ == "request body exceeds maximum size"@
            &&& limit is Buffer ==> fault.message@
                == "request body exceeds stream_buffer size limit"@
            &&& limit is Global ==> fault.message@
                == "streamed request body exceeds global body limit"@
        },
        decision is SnapshotMissing ==> (outcome matches BodyOutcome::Fail(fault) && fault.kind
            == FaultKind::Internal && fault.message@
            == "request snapshot not set when request body hooks are active"@),
        decision is Forward || decision is RunFilters ==> outcome is Forward,
{
}

/// The shared fields of a request context are those that the body filters left.
pub open spec fn shares<V>(fctx: FilterContext<V>, ctx: RequestCtx<V>) -> bool {
    &&& ctx.cluster == fctx.cluster
    &&& ctx.upstream == fctx.upstream
    &&& ctx.extensions == fctx.extensions
    &&& ctx.filter_metadata == fctx.filter_metadata
    &&& ctx.filter_state == fctx.filter_state
    &&& ctx.cached_executed_branch_filters == fctx.executed_branch_filters
    &&& ctx.cached_executed_filter_indices == fctx.executed_filter_indices
    &&& ctx.cached_body_done_indices == fctx.body_done_indices
    &&& ctx.attempted_endpoints == fctx.attempted_endpoints
}

/// What the request body filters decided is done: a chunk that they let through goes on
/// exactly as they left it, unless it is still held back; a release hands on what was held
/// back; a rejection and a failure are answered and end the phase. Whatever they decided,
/// their state, their count and their path are taken over.
pub proof fn law_request_body_filters_are_obeyed<V, S>(
    result: Result<FilterAction<S>, FilterError>,
    fctx: FilterContext<V>,
    ctx: &mut RequestCtx<V>,
    body: &mut Option<Bytes>,
    end_of_stream: bool,
    outcome: BodyOutcome,
)
    requires
        call_ensures(
            request_body_finish::<V, S>,
            (result, fctx, ctx, body, end_of_stream),
            outcome,
        ),
    ensures
        shares(fctx, *final(ctx)),
        final(ctx).request_body_bytes == fctx.request_body_bytes,
        final(ctx).rewritten_path == fctx.rewritten_path,
        ({
            let holds = old(ctx).request_body_mode is StreamBuffer
                && !old(ctx).request_body_released;
            let stopped = result is Err || result->Ok_0 is Reject;
            &&& outcome is Forward <==> !stopped
            &&& stopped ==> *final(body) == *old(body)
            &&& !stopped && (!holds || end_of_stream) ==> *final(body) == *old(body)
            &&& !stopped && !(result->Ok_0 is Release) && holds && !end_of_stream
                ==> *final(body) is None
            &&& !stopped && result->Ok_0 is Release && holds && !end_of_stream ==> body_data(
                *final(body),
            ) == held_data(old(ctx).request_body_buffer) && final(ctx).request_body_buffer is None
            &&& !(!stopped && result->Ok_0 is Release && holds && !end_of_stream)
                ==> final(ctx).request_body_buffer == old(ctx).request_body_buffer
            &&& final(ctx).request_body_released <==> old(ctx).request_body_released || (!stopped
                && result->Ok_0 is Release && old(ctx).request_body_mode is StreamBuffer)
        }),
        result matches Err(e) ==> (outcome matches BodyOutcome::Reject {
            error_type,
            rejection,
            fault,
        } && error_type == ErrorType::Internal && says_only(rejection, 500) && fault.kind
            == FaultKind::Internal && fault.message@ == "request body filter error: "@
            + e.message@),
        result matches Ok(FilterAction::Reject(found)) ==> (outcome matches BodyOutcome::Reject {
            error_type,
            rejection,
            fault,
        } && error_type == ErrorType::FilterReject && rejection == found && fault.kind
            == FaultKind::HttpStatus(found.status) && fault.message@
            == "request body rejected by filter pipeline"@),
        *final(ctx) == (RequestCtx {
            cluster: final(ctx).cluster,
            upstream: final(ctx).upstream,
            extensions: final(ctx).extensions,
            filter_metadata: final(ctx).filter_metadata,
            filter_state: final(ctx).filter_state,
            cached_executed_branch_filters: final(ctx).cached_executed_branch_filters,
            cached_executed_filter_indices: final(ctx).cached_executed_filter_indices,
            cached_body_done_indices: final(ctx).cached_body_done_indices,
            attempted_endpoints: final(ctx).attempted_endpoints,
            request_body_bytes: final(ctx).request_body_bytes,
            rewritten_path: final(ctx).rewritten_path,
            request_body_released: final(ctx).request_body_released,
            request_body_buffer: final(ctx).request_body_buffer,
            ..*old(ctx)
        }),
{
}

// ----- Response body -----

/// Where no filter needs the body, and after an upgrade, response chunks pass as they are.
/// Without an upgrade the last one completes the delivery.
pub proof fn law_response_chunks_pass_where_nothing_filters_them<V>(
    policy: &BodyPolicy,
    ctx: &mut RequestCtx<V>,
    body: &mut Option<Bytes>,
    end_of_stream: bool,
    decision: BodyDecision,
)
    requires
        call_ensures(response_body_gate::<V>, (policy, ctx, body, end_of_stream), decision),
        old(ctx).connection_upgraded || !policy.needs_body,
    ensures
        decision is Forward,
        *final(body) == *old(body),
        *final(ctx) == (RequestCtx {
            response_delivery_complete: final(ctx).response_delivery_complete,
            ..*old(ctx)
        }),
        final(ctx).response_delivery_complete <==> old(ctx).response_delivery_complete || (
        end_of_stream && !old(ctx).connection_upgraded),
{
}

/// Where a filter needs the body and the request was captured, every response chunk that is
/// streamed or held back and breaks no limit is handed to the filters, released or not.
pub proof fn law_response_chunks_reach_the_filters<V>(
    policy: &BodyPolicy,
    ctx: &mut RequestCtx<V>,
    body: &mut Option<Bytes>,
    end_of_stream: bool,
    decision: BodyDecision,
    limit: usize,
)
    requires
        call_ensures(response_body_gate::<V>, (policy, ctx, body, end_of_stream), decision),
        !old(ctx).connection_upgraded && policy.needs_body,
        old(ctx).request_snapshot is Some,
        policy.ceiling matches Some(max) ==> old(ctx).response_body_bytes + body_data(
            *old(body),
        ).len() <= max,
        match old(ctx).response_body_mode {
            BodyMode::Stream => true,
            BodyMode::StreamBuffer { max_bytes } => {
                ||| old(ctx).response_body_released
                ||| *old(body) is None
                ||| holds_up_to(
                    old(ctx).response_body_buffer,
                    max_bytes,
                    policy.absolute_max,
                    limit,
                ) && held_data(old(ctx).response_body_buffer).len() + body_data(*old(body)).len()
                    <= limit
            },
            BodyMode::SizeLimit { .. } => false,
        },
    ensures
        decision is RunFilters,
        final(ctx).response_delivery_complete == old(ctx).response_delivery_complete,
        old(ctx).response_body_mode is Stream || old(ctx).response_body_released ==> *final(body)
            == *old(body) && *final(ctx) == *old(ctx),
{
}

/// A response chunk is refused exactly where it takes the body over the limit of its mode,
/// or over the global one where the mode has no size limit; what is refused is named. A
/// body whose mode is a size limit is counted, and delivered with its last chunk.
pub proof fn law_response_chunks_over_their_limit_are_refused<V>(
    policy: &BodyPolicy,
    ctx: &mut RequestCtx<V>,
    body: &mut Option<Bytes>,
    end_of_stream: bool,
    decision: BodyDecision,
    limit: usize,
)
    requires
        call_ensures(response_body_gate::<V>, (policy, ctx, body, end_of_stream), decision),
        !old(ctx).connection_upgraded && policy.needs_body,
        old(ctx).response_body_mode matches BodyMode::StreamBuffer { max_bytes } ==> holds_up_to(
            old(ctx).response_body_buffer,
            max_bytes,
            policy.absolute_max,
            limit,
        ),
    ensures
        decision == BodyDecision::TooLarge(BodyLimit::Size) <==> (old(ctx).response_body_mode
            matches BodyMode::SizeLimit { max_bytes } && *old(body) is Some
                && old(ctx).response_body_bytes + body_data(*old(body)).len() > max_bytes),
        decision == BodyDecision::TooLarge(BodyLimit::Global)
            <==> (!(old(ctx).response_body_mode is SizeLimit) && policy.ceiling is Some
            && policy.ceiling->0
            < u64::MAX && old(ctx).response_body_bytes + body_data(*old(body)).len()
            > policy.ceiling->0),
        decision == BodyDecision::TooLarge(BodyLimit::Buffer)
            <==> (old(ctx).response_body_mode is StreamBuffer && decision != BodyDecision::TooLarge(
            BodyLimit::Global,
        ) && !old(ctx).response_body_released && *old(body) is Some && held_data(
            old(ctx).response_body_buffer,
        ).len() + body_data(*old(body)).len() > limit),
        old(ctx).response_body_mode is SizeLimit && !(decision is TooLarge) ==> decision is Forward,
        old(ctx).request_snapshot is None && !(old(ctx).response_body_mode is SizeLimit)
            && !(decision is TooLarge) ==> decision is SnapshotMissing,
        old(ctx).response_body_mode is SizeLimit ==> {
            &&& final(ctx).response_body_bytes as int == old(ctx).response_body_bytes + body_data(
                *old(body),
            ).len() || old(ctx).response_body_bytes + body_data(*old(body)).len() > u64::MAX
            &&& *final(body) == *old(body)
            &&& final(ctx).response_delivery_complete <==> old(ctx).response_delivery_complete || (
            end_of_stream && decision is Forward)
            &&& *final(ctx) == (RequestCtx {
                response_body_bytes: final(ctx).response_body_bytes,
                response_delivery_complete: final(ctx).response_delivery_complete,
                ..*old(ctx)
            })
        },
        old(ctx).response_body_mode is Stream ==> *final(ctx) == *old(ctx) && *final(body)
            == *old(body),
        old(ctx).response_body_mode is StreamBuffer && decision is TooLarge ==> {
            &&& *final(body) == *old(body)
            &&& held_data(final(ctx).response_body_buffer) == held_data(
                old(ctx).response_body_buffer,
            )
            &&& final(ctx).response_body_buffer matches Some(held) ==> old(
                ctx).response_body_buffer matches Some(was) ==> held.limit() == was.limit()
            &&& *final(ctx) == (RequestCtx {
                response_body_buffer: final(ctx).response_body_buffer,
                ..*old(ctx)
            })
        },
{
}

/// While a response body is held back, a chunk that fits joins the buffer behind what is
/// there; at the end of the stream all of it becomes the body and the count starts again.
pub proof fn law_held_back_response_bodies_accumulate<V>(
    policy: &BodyPolicy,
    ctx: &mut RequestCtx<V>,
    body: &mut Option<Bytes>,
    end_of_stream: bool,
    decision: BodyDecision,
)
    requires
        call_ensures(response_body_gate::<V>, (policy, ctx, body, end_of_stream), decision),
        !old(ctx).connection_upgraded && policy.needs_body,
        old(ctx).response_body_mode is StreamBuffer && !old(ctx).response_body_released,
        !(decision is TooLarge),
    ensures
        final(ctx).response_body_buffer matches Some(held) ==> old(ctx).response_body_mode
            matches BodyMode::StreamBuffer { max_bytes } && holds_up_to(
            old(ctx).response_body_buffer,
            max_bytes,
            policy.absolute_max,
            held.limit(),
        ),
        !end_of_stream ==> (final(ctx).response_body_buffer is Some <==> *old(body) is Some || old(
            ctx).response_body_buffer is Some),
        !end_of_stream ==> held_data(final(ctx).response_body_buffer) == held_data(
            old(ctx).response_body_buffer,
        ) + body_data(*old(body)) && *final(body) == *old(body) && final(ctx).response_body_bytes
            == old(ctx).response_body_bytes,
        end_of_stream ==> body_data(*final(body)) == held_data(old(ctx).response_body_buffer)
            + body_data(*old(body)) && final(ctx).response_body_buffer is None
                && final(ctx).response_body_bytes == 0,
        *final(ctx) == (RequestCtx {
            response_body_buffer: final(ctx).response_body_buffer,
            response_body_bytes: final(ctx).response_body_bytes,
            ..*old(ctx)
        }),
{
}

/// A refused response chunk fails the phase and says why; any other goes on.
pub proof fn law_refused_response_chunks_fail(
    decision: BodyDecision,
    outcome: Result<(), Fault>,
)
    requires
        call_ensures(response_body_refusal, (decision,), outcome),
    ensures
        decision matches BodyDecision::TooLarge(limit) ==> {
            &&& outcome matches Err(fault)
            &&& fault.kind == FaultKind::Internal
            &&& limit is Size ==> fault.message@ == "response body exceeds maximum size"@
            &&& limit is Buffer ==> fault.message@
                == "response body exceeds stream_buffer size limit"@
            &&& limit is Global ==> fault.message@ == "response body exceeds global body limit"@
        },
        decision is SnapshotMissing ==> (outcome matches Err(fault) && fault.kind
            == FaultKind::Internal && fault.message@
            == "request snapshot not set when response body hooks are active"@),
        decision is Forward || decision is RunFilters ==> outcome is Ok,
{
}

/// What the response body filters decided is done: a chunk that they let through goes on
/// exactly as they left it, unless it is still held back; a release hands on what was held
/// back; a rejection and a failure end the phase with an error. The last chunk completes
/// the delivery exactly where it goes on. Whatever was decided, the filters' state and
/// their count are taken over.
pub proof fn law_response_body_filters_are_obeyed<V, S>(
    result: Result<FilterAction<S>, FilterError>,
    fctx: FilterContext<V>,
    ctx: &mut RequestCtx<V>,
    body: &mut Option<Bytes>,
    end_of_stream: bool,
    outcome: Result<(), Fault>,
)
    requires
        call_ensures(
            response_body_finish::<V, S>,
            (result, fctx, ctx, body, end_of_stream),
            outcome,
        ),
    ensures
        shares(fctx, *final(ctx)),
        final(ctx).response_body_bytes == fctx.response_body_bytes,
        ({
            let holds = old(ctx).response_body_mode is StreamBuffer
                && !old(ctx).response_body_released;
            let stopped = result is Err || result->Ok_0 is Reject;
            &&& outcome is Ok <==> !stopped
            &&& stopped ==> *final(body) == *old(body)
            &&& !stopped && (!holds || end_of_stream) ==> *final(body) == *old(body)
            &&& !stopped && !(result->Ok_0 is Release) && holds && !end_of_stream
                ==> *final(body) is None
            &&& !stopped && result->Ok_0 is Release && holds && !end_of_stream ==> body_data(
                *final(body),
            ) == held_data(old(ctx).response_body_buffer) && final(ctx).response_body_buffer is None
            &&& !(!stopped && result->Ok_0 is Release && holds && !end_of_stream)
                ==> final(ctx).response_body_buffer == old(ctx).response_body_buffer
            &&& final(ctx).response_body_released <==> old(ctx).response_body_released || (!stopped
                && result->Ok_0 is Release && old(ctx).response_body_mode is StreamBuffer)
            &&& final(ctx).response_delivery_complete <==> old(ctx).response_delivery_complete || (
            !stopped && end_of_stream)
        }),
        result matches Err(e) ==> (outcome matches Err(fault) && fault.kind == FaultKind::Internal
            && fault.message@ == "response body filter error: "@ + e.message@),
        result matches Ok(FilterAction::Reject(found)) ==> (outcome matches Err(fault)
            && fault.kind == FaultKind::Internal && fault.message@
            == "response body filter rejected response with status "@ + decimal(
            found.status as nat,
        )),
        *final(ctx) == (RequestCtx {
            cluster: final(ctx).cluster,
            upstream: final(ctx).upstream,
            extensions: final(ctx).extensions,
            filter_metadata: final(ctx).filter_metadata,
            filter_state: final(ctx).filter_state,
            cached_executed_branch_filters: final(ctx).cached_executed_branch_filters,
            cached_executed_filter_indices: final(ctx).cached_executed_filter_indices,
            cached_body_done_indices: final(ctx).cached_body_done_indices,
            attempted_endpoints: final(ctx).attempted_endpoints,
            response_body_bytes: final(ctx).response_body_bytes,
            response_body_released: final(ctx).response_body_released,
            response_body_buffer: final(ctx).response_body_buffer,
            response_delivery_complete: final(ctx).response_delivery_complete,
            ..*old(ctx)
        }),
{
}

/// Marking a response delivered does so at the end of its stream and nowhere else.
pub proof fn law_delivery_is_marked_at_the_end<V>(ctx: &mut RequestCtx<V>, end_of_stream: bool)
    requires
        call_ensures(mark_delivered_at_eos::<V>, (ctx, end_of_stream), ()),
    ensures
        final(ctx).response_delivery_complete <==> old(ctx).response_delivery_complete
            || end_of_stream,
        *final(ctx) == (RequestCtx {
            response_delivery_complete: final(ctx).response_delivery_complete,
            ..*old(ctx)
        }),
{
}

// ----- Whole streams -----

/// The bytes of a list of chunks, in order.
pub open spec fn concatenated(chunks: Seq<Option<Bytes>>) -> Seq<u8> {
    chunks.fold_left(Seq::empty(), |data: Seq<u8>, chunk: Option<Bytes>| data + body_data(chunk))
}

/// Over a whole stream that is not held back, what the client gets is what the response
/// body filters let through, byte for byte: no chunk is lost, repeated or moved. `left`
/// are the bodies that the filters left, `sent` those that went on, and `states` the
/// contexts before and after each.
pub proof fn law_streamed_responses_lose_nothing<V, S>(
    results: Seq<Result<FilterAction<S>, FilterError>>,
    contexts: Seq<FilterContext<V>>,
    states: Seq<&mut RequestCtx<V>>,
    bodies: Seq<&mut Option<Bytes>>,
    ends: Seq<bool>,
    outcomes: Seq<Result<(), Fault>>,
    left: Seq<Option<Bytes>>,
    sent: Seq<Option<Bytes>>,
)
    requires
        outcomes.len() == sent.len(),
        left.len() == sent.len(),
        forall|i: int|
            #![trigger outcomes[i]]
            0 <= i < sent.len() ==> {
                &&& call_ensures(
                    response_body_finish::<V, S>,
                    (results[i], contexts[i], states[i], bodies[i], ends[i]),
                    outcomes[i],
                )
                &&& *bodies[i] == left[i] && *final(bodies[i]) == sent[i]
                &&& !(states[i].response_body_mode is StreamBuffer)
                    || states[i].response_body_released
                &&& results[i] is Ok && !(results[i]->Ok_0 is Reject)
            },
    ensures
        sent == left,
        concatenated(sent) == concatenated(left),
        forall|i: int| 0 <= i < sent.len() ==> #[trigger] outcomes[i] is Ok,
{
    assert forall|i: int| 0 <= i < sent.len() implies sent[i] == left[i] && (
    #[trigger] outcomes[i]) is Ok by {
    }
    assert(sent =~= left) by {
        assert forall|i: int| 0 <= i < sent.len() implies sent[i] == left[i] by {
            assert(outcomes[i] is Ok);
        }
    }
}

/// See `law_streamed_responses_lose_nothing`, for the body that the upstream gets.
pub proof fn law_streamed_requests_lose_nothing<V, S>(
    results: Seq<Result<FilterAction<S>, FilterError>>,
    contexts: Seq<FilterContext<V>>,
    states: Seq<&mut RequestCtx<V>>,
    bodies: Seq<&mut Option<Bytes>>,
    ends: Seq<bool>,
    outcomes: Seq<BodyOutcome>,
    left: Seq<Option<Bytes>>,
    sent: Seq<Option<Bytes>>,
)
    requires
        outcomes.len() == sent.len(),
        left.len() == sent.len(),
        forall|i: int|
            #![trigger outcomes[i]]
            0 <= i < sent.len() ==> {
                &&& call_ensures(
                    request_body_finish::<V, S>,
                    (results[i], contexts[i], states[i], bodies[i], ends[i]),
                    outcomes[i],
                )
                &&& *bodies[i] == left[i] && *final(bodies[i]) == sent[i]
                &&& !(states[i].request_body_mode is StreamBuffer)
                    || states[i].request_body_released
                &&& results[i] is Ok && !(results[i]->Ok_0 is Reject)
            },
    ensures
        sent == left,
        concatenated(sent) == concatenated(left),
        forall|i: int| 0 <= i < sent.len() ==> #[trigger] outcomes[i] is Forward,
{
    assert forall|i: int| 0 <= i < sent.len() implies sent[i] == left[i] && (
    #[trigger] outcomes[i]) is Forward by {
    }
    assert(sent =~= left) by {
        assert forall|i: int| 0 <= i < sent.len() implies sent[i] == left[i] by {
            assert(outcomes[i] is Forward);
        }
    }
}

/// A request body is held back.
pub open spec fn is_held_back_request<V>(ctx: RequestCtx<V>) -> bool {
    &&& !ctx.connection_upgraded
    &&& !is_drained(ctx)
    &&& ctx.request_body_mode is StreamBuffer
    &&& !ctx.request_body_released
}

/// A request body that is held back arrives whole, whatever number of chunks it has, where the
/// filters let them through: of each chunk but the last nothing goes on and it joins those
/// before it, and with the last one all of them go on, in order and byte for byte, as far
/// as the filters leave them.
pub proof fn law_held_back_requests_arrive_whole<V, S>(
    policy: &BodyPolicy,
    ctx: &mut RequestCtx<V>,
    chunk: &mut Option<Bytes>,
    decision: BodyDecision,
    result: Result<FilterAction<S>, FilterError>,
    fctx: FilterContext<V>,
    later: &mut RequestCtx<V>,
    body: &mut Option<Bytes>,
    outcome: BodyOutcome,
    end_of_stream: bool,
    data: Seq<u8>,
)
    requires
        call_ensures(request_body_gate::<V>, (policy, ctx, chunk, end_of_stream), decision),
        decision !is TooLarge,
        call_ensures(
            request_body_finish::<V, S>,
            (result, fctx, later, body, end_of_stream),
            outcome,
        ),
        *old(later) == *final(ctx),
        *old(body) == *final(chunk),
        result is Ok && !(result->Ok_0 is Reject) && !(result->Ok_0 is Release),
        policy.needs_body,
        is_held_back_request(*old(ctx)),
        held_data(old(ctx).request_body_buffer) == data,
    ensures
        !end_of_stream ==> *final(body) is None,
        !end_of_stream ==> held_data(final(later).request_body_buffer) == data + body_data(
            *old(chunk),
        ),
        end_of_stream ==> body_data(*final(body)) == data + body_data(*old(chunk)),
        end_of_stream ==> final(later).request_body_buffer is None,
        is_held_back_request(*final(later)),
        outcome is Forward,
{
}

/// A response body is held back.
pub open spec fn is_held_back_response<V>(ctx: RequestCtx<V>) -> bool {
    &&& !ctx.connection_upgraded
    &&& ctx.response_body_mode is StreamBuffer
    &&& !ctx.response_body_released
}

/// See `law_held_back_requests_arrive_whole`; the last chunk of a response, and no other,
/// completes its delivery.
pub proof fn law_held_back_responses_arrive_whole<V, S>(
    policy: &BodyPolicy,
    ctx: &mut RequestCtx<V>,
    chunk: &mut Option<Bytes>,
    decision: BodyDecision,
    result: Result<FilterAction<S>, FilterError>,
    fctx: FilterContext<V>,
    later: &mut RequestCtx<V>,
    body: &mut Option<Bytes>,
    outcome: Result<(), Fault>,
    end_of_stream: bool,
    data: Seq<u8>,
)
    requires
        call_ensures(response_body_gate::<V>, (policy, ctx, chunk, end_of_stream), decision),
        decision !is TooLarge,
        call_ensures(
            response_body_finish::<V, S>,
            (result, fctx, later, body, end_of_stream),
            outcome,
        ),
        *old(later) == *final(ctx),
        *old(body) == *final(chunk),
        result is Ok && !(result->Ok_0 is Reject) && !(result->Ok_0 is Release),
        policy.needs_body,
        is_held_back_response(*old(ctx)),
        held_data(old(ctx).response_body_buffer) == data,
    ensures
        !end_of_stream ==> *final(body) is None,
        !end_of_stream ==> held_data(final(later).response_body_buffer) == data + body_data(
            *old(chunk),
        ),
        end_of_stream ==> body_data(*final(body)) == data + body_data(*old(chunk)),
        end_of_stream ==> final(later).response_body_buffer is None,
        is_held_back_response(*final(later)),
        outcome is Ok,
        final(later).response_delivery_complete <==> old(ctx).response_delivery_complete
            || end_of_stream,
{
}

// ----- Stored bodies -----

/// A body stored for the upstream is forwarded before anything else, byte for byte and
/// once: the adapted one where there is one, else the canonical one. What arrives from the
/// client meanwhile is not.
pub proof fn law_stored_bodies_are_what_is_forwarded<V>(
    ctx: &mut RequestCtx<V>,
    body: Option<Bytes>,
    retry_limit: u64,
    later: &mut RequestCtx<V>,
    arrived: &mut Option<Bytes>,
    active: bool,
)
    requires
        call_ensures(store_adapted_request_body::<V>, (ctx, body, retry_limit), ()),
        *old(later) == *final(ctx),
        call_ensures(drain_pre_read_body::<V>, (later, arrived), active),
    ensures
        active,
        body_data(*final(arrived)) == body_data(body),
        *final(arrived) is Some <==> body_data(body).len() > 0,
        final(later).adapted_request_body is None,
        final(later).pre_read_body == old(ctx).pre_read_body,
        final(later).adapted_request_body_len matches Some(len) && len == body_data(body).len(),
        final(ctx).retained_adapted_request_body is Some,
        body_data(body).len() <= retry_limit ==> stores(
            final(later).retained_adapted_request_body,
            body_data(body),
        ),
        body_data(body).len() > retry_limit ==> stores(
            final(later).retained_adapted_request_body,
            Seq::empty(),
        ),
        *final(ctx) == (RequestCtx {
            adapted_request_body: final(ctx).adapted_request_body,
            adapted_request_body_len: final(ctx).adapted_request_body_len,
            retained_adapted_request_body: final(ctx).retained_adapted_request_body,
            ..*old(ctx)
        }),
{
    lemma_stores(final(ctx).adapted_request_body->0, body_data(body));
    if body_data(body).len() <= retry_limit {
        lemma_stores(final(ctx).retained_adapted_request_body->0, body_data(body));
    } else {
        assert(chunks_data(final(ctx).retained_adapted_request_body->0@).len() == 0);
    }
}

/// See `law_stored_bodies_are_what_is_forwarded`, for the canonical body.
pub proof fn law_stored_canonical_bodies_are_what_is_forwarded<V>(
    ctx: &mut RequestCtx<V>,
    body: Bytes,
    retry_limit: u64,
    later: &mut RequestCtx<V>,
    arrived: &mut Option<Bytes>,
    active: bool,
)
    requires
        old(ctx).retained_adapted_request_body is None,
        call_ensures(store_canonical_request_body::<V>, (ctx, body, retry_limit), ()),
        *old(later) == *final(ctx),
        call_ensures(drain_pre_read_body::<V>, (later, arrived), active),
    ensures
        active,
        body_data(*final(arrived)) == bytes_data(body),
        *final(arrived) is Some <==> bytes_data(body).len() > 0,
        final(later).pre_read_body is None,
        final(later).mutated_request_body_len matches Some(len) && len == bytes_data(body).len(),
        final(later).retained_pre_read_body is Some <==> bytes_data(body).len() <= retry_limit,
        final(later).retained_pre_read_body is Some ==> stores(
            final(later).retained_pre_read_body,
            bytes_data(body),
        ),
        *final(ctx) == (RequestCtx {
            pre_read_body: final(ctx).pre_read_body,
            mutated_request_body_len: final(ctx).mutated_request_body_len,
            retained_pre_read_body: final(ctx).retained_pre_read_body,
            ..*old(ctx)
        }),
{
    lemma_stores(final(ctx).pre_read_body->0, bytes_data(body));
    if bytes_data(body).len() <= retry_limit {
        lemma_stores(final(ctx).retained_pre_read_body->0, bytes_data(body));
    }
}

/// What draining does: the first stored chunk goes on, and the others stay in order. Once
/// adaptation ran only adapted chunks are forwarded.
pub open spec fn forwards_stored<V>(
    before: RequestCtx<V>,
    after: RequestCtx<V>,
    forwarded: Option<Bytes>,
) -> bool {
    let adapted = before.retained_adapted_request_body is Some;
    let chunks = if adapted {
        before.adapted_request_body
    } else {
        before.pre_read_body
    };
    let rest = if adapted {
        after.adapted_request_body
    } else {
        after.pre_read_body
    };
    &&& chunks matches Some(stored) ==> {
        &&& stored@.len() > 0 ==> forwarded == Some(stored@[0])
        &&& stored@.len() == 0 ==> forwarded is None
        &&& stored@.len() > 1 ==> (rest matches Some(left) && left@ == stored@.skip(1))
        &&& stored@.len() == 1 ==> rest is None
    }
    &&& chunks is None ==> forwarded is None && rest is None
    &&& adapted ==> after == RequestCtx { adapted_request_body: rest, ..before }
    &&& !adapted ==> after == RequestCtx { pre_read_body: rest, ..before }
}

/// Draining forwards the first stored chunk and keeps the others in order; where nothing
/// is stored what arrives goes on. Once adaptation ran only adapted chunks are forwarded.
pub proof fn law_draining_takes_the_first_stored_chunk<V>(
    ctx: &mut RequestCtx<V>,
    body: &mut Option<Bytes>,
    active: bool,
)
    requires
        call_ensures(drain_pre_read_body::<V>, (ctx, body), active),
    ensures
        active <==> is_drained(*old(ctx)),
        !active ==> *final(body) == *old(body) && *final(ctx) == *old(ctx),
        active ==> forwards_stored(*old(ctx), *final(ctx), *final(body)),
{
    lemma_rest(*old(ctx));
}

/// While a body is stored, a chunk that arrives from the client is replaced by the first of
/// the stored ones, unless the connection was upgraded.
pub proof fn law_stored_chunks_replace_what_arrives<V>(
    policy: &BodyPolicy,
    ctx: &mut RequestCtx<V>,
    body: &mut Option<Bytes>,
    end_of_stream: bool,
    decision: BodyDecision,
)
    requires
        call_ensures(request_body_gate::<V>, (policy, ctx, body, end_of_stream), decision),
        !old(ctx).connection_upgraded && is_drained(*old(ctx)),
    ensures
        decision is Forward,
        forwards_stored(*old(ctx), *final(ctx), *final(body)),
{
    lemma_rest(*old(ctx));
}

proof fn lemma_rest<V>(ctx: RequestCtx<V>)
    ensures
        ctx.adapted_request_body matches Some(chunks) ==> chunks@.len() > 0 ==> chunks@.skip(1)
            == chunks@.drop_first(),
        ctx.pre_read_body matches Some(chunks) ==> chunks@.len() > 0 ==> chunks@.skip(1)
            == chunks@.drop_first(),
{
    if let Some(chunks) = ctx.adapted_request_body {
        if chunks@.len() > 0 {
            assert(chunks@.skip(1) =~= chunks@.drop_first());
        }
    }
    if let Some(chunks) = ctx.pre_read_body {
        if chunks@.len() > 0 {
            assert(chunks@.skip(1) =~= chunks@.drop_first());
        }
    }
}

/// A copy for retries is kept exactly where the body is within the limit, chunk by chunk.
pub proof fn law_copies_for_retries_are_whole(
    chunks: &VecDeque<Bytes>,
    len: usize,
    retry_limit: u64,
    copy: Option<VecDeque<Bytes>>,
    i: int,
)
    requires
        call_ensures(retry_copy, (chunks, len, retry_limit), copy),
    ensures
        copy is Some <==> len <= retry_limit,
        copy matches Some(kept) ==> kept@.len() == chunks@.len() && (0 <= i < chunks@.len()
            ==> bytes_data(kept@[i]) == bytes_data(chunks@[i])),
{
    if let Some(kept) = copy {
        assert(chunks_data(kept@).len() == kept@.len());
        assert(chunks_data(chunks@).len() == chunks@.len());
        if 0 <= i < chunks@.len() {
            assert(chunks_data(kept@)[i] == bytes_data(kept@[i]));
            assert(chunks_data(chunks@)[i] == bytes_data(chunks@[i]));
        }
    }
}

// ----- What a machine can count and hold -----

/// A chunk can be counted where the total fits a counter, and held back where the total is
/// over the limit or fits in half of what can be addressed.
pub proof fn law_chunks_are_measured_within_the_machine(
    counted: u64,
    chunk: Option<&Bytes>,
    countable: bool,
    buffer: &Option<BodyBuffer>,
    max_bytes: Option<usize>,
    absolute_max: usize,
    holds: bool,
    limit: usize,
    len: nat,
)
    requires
        call_ensures(is_countable, (counted, chunk), countable),
        call_ensures(is_holdable, (chunk, buffer, max_bytes, absolute_max), holds),
        holds_up_to(*buffer, max_bytes, absolute_max, limit),
        len == (match chunk {
            Some(chunk) => bytes_data(*chunk).len(),
            None => 0,
        }),
    ensures
        countable <==> counted + len <= u64::MAX,
        holds <==> held_data(*buffer).len() + len > limit || held_data(*buffer).len() + len
            <= isize::MAX / 2,
{
}

/// A chunk is measurable where it is not measured at all, and else where a size limit can
/// count it and a buffer can hold it.
pub proof fn law_measurable_chunks_can_be_decided<V>(
    policy: &BodyPolicy,
    ctx: &RequestCtx<V>,
    body: &Option<Bytes>,
    of_request: bool,
    of_response: bool,
    request_limit: usize,
    response_limit: usize,
)
    requires
        call_ensures(request_chunk_is_measurable::<V>, (policy, ctx, body), of_request),
        call_ensures(response_chunk_is_measurable::<V>, (policy, ctx, body), of_response),
        ctx.request_body_mode matches BodyMode::StreamBuffer { max_bytes } ==> holds_up_to(
            ctx.request_body_buffer,
            max_bytes,
            policy.absolute_max,
            request_limit,
        ),
        ctx.response_body_mode matches BodyMode::StreamBuffer { max_bytes } ==> holds_up_to(
            ctx.response_body_buffer,
            max_bytes,
            policy.absolute_max,
            response_limit,
        ),
    ensures
        ({
            let len = body_data(*body).len();
            let held = held_data(ctx.request_body_buffer).len() + len;
            let measured = !ctx.connection_upgraded && !is_drained(*ctx) && policy.needs_body;
            &&& !measured || ctx.request_body_mode is Stream ==> of_request
            &&& measured && ctx.request_body_mode is SizeLimit ==> (of_request
                <==> ctx.request_body_bytes + len <= u64::MAX)
            &&& measured && ctx.request_body_mode is StreamBuffer ==> (of_request
                <==> ctx.request_body_released || held > request_limit || held <= isize::MAX / 2)
        }),
        ({
            let len = body_data(*body).len();
            let held = held_data(ctx.response_body_buffer).len() + len;
            let measured = !ctx.connection_upgraded && policy.needs_body;
            &&& !measured || ctx.response_body_mode is Stream ==> of_response
            &&& measured && ctx.response_body_mode is SizeLimit ==> (of_response
                <==> ctx.response_body_bytes + len <= u64::MAX)
            &&& measured && ctx.response_body_mode is StreamBuffer ==> (of_response
                <==> ctx.response_body_released || held > response_limit || held <= isize::MAX / 2)
        }),
{
}

/// What body filters share travels whole: taken out of their context and written back, it
/// is what they left, and nothing else of either changes.
pub proof fn law_shared_fields_travel_whole<V>(
    fctx: &mut FilterContext<V>,
    output: BodyFilterOutput<V>,
    ctx: &mut RequestCtx<V>,
)
    requires
        call_ensures(BodyFilterOutput::<V>::take_from, (fctx,), output),
        call_ensures(BodyFilterOutput::<V>::write_back, (output, ctx), ()),
    ensures
        shares(*old(fctx), *final(ctx)),
        *final(ctx) == (RequestCtx {
            cluster: final(ctx).cluster,
            upstream: final(ctx).upstream,
            extensions: final(ctx).extensions,
            filter_metadata: final(ctx).filter_metadata,
            filter_state: final(ctx).filter_state,
            cached_executed_branch_filters: final(ctx).cached_executed_branch_filters,
            cached_executed_filter_indices: final(ctx).cached_executed_filter_indices,
            cached_body_done_indices: final(ctx).cached_body_done_indices,
            attempted_endpoints: final(ctx).attempted_endpoints,
            ..*old(ctx)
        }),
        final(fctx).cluster is None && final(fctx).upstream is None,
        final(fctx).extensions@.len() == 0,
        final(fctx).filter_metadata@ == Map::<String, String>::empty(),
        final(fctx).filter_state@ == Map::<usize, V>::empty(),
        final(fctx).executed_branch_filters@.len() == 0,
        final(fctx).executed_filter_indices@.len() == 0,
        final(fctx).body_done_indices@.len() == 0,
        final(fctx).attempted_endpoints@.len() == 0,
        *final(fctx) == (FilterContext {
            cluster: final(fctx).cluster,
            upstream: final(fctx).upstream,
            extensions: final(fctx).extensions,
            filter_metadata: final(fctx).filter_metadata,
            filter_state: final(fctx).filter_state,
            executed_branch_filters: final(fctx).executed_branch_filters,
            executed_filter_indices: final(fctx).executed_filter_indices,
            body_done_indices: final(fctx).body_done_indices,
            attempted_endpoints: final(fctx).attempted_endpoints,
            ..*old(fctx)
        }),
{
}

} // verus!
