//! Response body phase: which chunks reach the filters, which are held back, and
//! when a response counts as delivered.
//!
//! A chunk passes [`response_body_gate`] first. Where that says so the body
//! filters run, and [`response_body_finish`] takes their outcome.
use crate::body::{
    accumulate_stream_buffer, accumulates, check_body_size_limit, exceeds_body_ceiling, held_data,
    hold_limit, holdable, is_countable, is_holdable, mode_ceiling, over_ceiling,
    release_stream_buffer, releases, suppress_stream_buffer_chunk, BodyFilterOutput, BodyMode,
};
use crate::chunk::body_data;
use crate::context::{Fault, FaultKind, FilterAction, FilterContext, FilterError, RequestCtx};
use crate::request_body::{is_buffering, BodyDecision, BodyLimit, BodyPolicy};
use crate::text::{decimal, decimal_text};
use bytes::Bytes;
use vstd::prelude::*;
use vstd::string::*;

verus! {

/// Whether response chunks are being held back right now.
pub open spec fn holds_response_body<V>(ctx: RequestCtx<V>) -> bool {
    is_buffering(ctx.response_body_mode) && !ctx.response_body_released
}

/// The context once a response was delivered to completion.
pub open spec fn delivered<V>(ctx: RequestCtx<V>, end_of_stream: bool) -> RequestCtx<V> {
    if end_of_stream {
        RequestCtx { response_delivery_complete: true, ..ctx }
    } else {
        ctx
    }
}

/// Records that the response was delivered to completion.
///
/// Called only where the chunk goes on: a response aborted at the end of its
/// stream was not delivered.
pub fn mark_delivered_at_eos<V>(ctx: &mut RequestCtx<V>, end_of_stream: bool)
    ensures
        *final(ctx) == delivered(*old(ctx), end_of_stream),
{
    if end_of_stream {
        ctx.response_delivery_complete = true;
    }
}

/// Whether a response chunk gets past the early exits, to be measured.
pub open spec fn response_chunk_is_measured<V>(policy: BodyPolicy, ctx: RequestCtx<V>) -> bool {
    !ctx.connection_upgraded && policy.needs_body
}

/// The limits that the counters of the machine set on one response chunk.
pub open spec fn response_chunk_fits<V>(
    policy: BodyPolicy,
    ctx: RequestCtx<V>,
    body: Option<Bytes>,
) -> bool {
    &&& ctx.response_body_mode is SizeLimit ==> ctx.response_body_bytes + body_data(body).len()
        <= u64::MAX
    &&& holds_response_body(ctx) ==> holdable(
        held_data(ctx.response_body_buffer).len() + body_data(body).len(),
        hold_limit(
            ctx.response_body_buffer,
            mode_ceiling(ctx.response_body_mode),
            policy.absolute_max,
        ),
    )
}

/// What becomes of a response chunk that is measured. The global limit applies
/// in every mode but the size limit, which carries its own.
pub open spec fn measured_response_chunk<V>(
    policy: BodyPolicy,
    ctx: RequestCtx<V>,
    body: Option<Bytes>,
) -> BodyDecision {
    let len = body_data(body).len();
    let go_on = if ctx.request_snapshot is Some {
        BodyDecision::RunFilters
    } else {
        BodyDecision::SnapshotMissing
    };
    match ctx.response_body_mode {
        BodyMode::SizeLimit { max_bytes } => if body is Some && ctx.response_body_bytes + len
            > max_bytes {
            BodyDecision::TooLarge(BodyLimit::Size)
        } else {
            BodyDecision::Forward
        },
        BodyMode::StreamBuffer { max_bytes } => if over_ceiling(
            policy.ceiling,
            ctx.response_body_bytes,
            len,
        ) {
            BodyDecision::TooLarge(BodyLimit::Global)
        } else if !ctx.response_body_released && body is Some && held_data(
            ctx.response_body_buffer,
        ).len() + len > hold_limit(ctx.response_body_buffer, max_bytes, policy.absolute_max) {
            BodyDecision::TooLarge(BodyLimit::Buffer)
        } else {
            go_on
        },
        BodyMode::Stream => if over_ceiling(policy.ceiling, ctx.response_body_bytes, len) {
            BodyDecision::TooLarge(BodyLimit::Global)
        } else {
            go_on
        },
    }
}

/// What measuring a response chunk does to the state: a size limit counts it and
/// may complete the delivery, a buffer takes it in, and a completed buffer
/// starts the count again.
pub open spec fn measures_response_chunk<V>(
    policy: BodyPolicy,
    end_of_stream: bool,
    before: (RequestCtx<V>, Option<Bytes>),
    after: (RequestCtx<V>, Option<Bytes>),
) -> bool {
    let (ctx, body) = before;
    let decision = measured_response_chunk(policy, ctx, body);
    match ctx.response_body_mode {
        BodyMode::SizeLimit { .. } => {
            &&& after.1 == body
            &&& after.0 == delivered(
                RequestCtx {
                    response_body_bytes: (ctx.response_body_bytes + body_data(body).len()) as u64,
                    ..ctx
                },
                end_of_stream && decision is Forward,
            )
        },
        BodyMode::StreamBuffer { max_bytes } => if ctx.response_body_released || decision
            == BodyDecision::TooLarge(BodyLimit::Global) {
            after == before
        } else {
            let overflow = decision is TooLarge;
            &&& accumulates(
                (body, ctx.response_body_buffer),
                end_of_stream,
                hold_limit(ctx.response_body_buffer, max_bytes, policy.absolute_max),
                (after.1, after.0.response_body_buffer),
                overflow,
            )
            &&& after.0 == RequestCtx {
                response_body_buffer: after.0.response_body_buffer,
                response_body_bytes: if end_of_stream && !overflow {
                    0
                } else {
                    ctx.response_body_bytes
                },
                ..ctx
            }
        },
        BodyMode::Stream => after == before,
    }
}

/// Tells whether a response chunk is within the limits that the counters of the machine
/// set, so that it can be decided upon.
pub fn response_chunk_is_measurable<V>(
    policy: &BodyPolicy,
    ctx: &RequestCtx<V>,
    body: &Option<Bytes>,
) -> (measurable: bool)
    ensures
        measurable == (response_chunk_is_measured(*policy, *ctx) ==> response_chunk_fits(
            *policy,
            *ctx,
            *body,
        )),
{
    if ctx.connection_upgraded || !policy.needs_body {
        return true;
    }
    match ctx.response_body_mode {
        BodyMode::SizeLimit { .. } => is_countable(ctx.response_body_bytes, body.as_ref()),
        BodyMode::StreamBuffer { max_bytes } => ctx.response_body_released || is_holdable(
            body.as_ref(),
            &ctx.response_body_buffer,
            max_bytes,
            policy.absolute_max,
        ),
        BodyMode::Stream => true,
    }
}

/// Decides what happens to a response chunk, enforcing size limits.
pub fn response_body_gate<V>(
    policy: &BodyPolicy,
    ctx: &mut RequestCtx<V>,
    body: &mut Option<Bytes>,
    end_of_stream: bool,
) -> (decision: BodyDecision)
    requires
        response_chunk_is_measured(*policy, *old(ctx)) ==> response_chunk_fits(
            *policy,
            *old(ctx),
            *old(body),
        ),
    ensures
        if old(ctx).connection_upgraded {
            &&& decision == BodyDecision::Forward
            &&& *final(ctx) == *old(ctx)
            &&& *final(body) == *old(body)
        } else if !policy.needs_body {
            &&& decision == BodyDecision::Forward
            &&& *final(ctx) == delivered(*old(ctx), end_of_stream)
            &&& *final(body) == *old(body)
        } else {
            &&& decision == measured_response_chunk(*policy, *old(ctx), *old(body))
            &&& measures_response_chunk(
                *policy,
                end_of_stream,
                (*old(ctx), *old(body)),
                (*final(ctx), *final(body)),
            )
        },
{
    if ctx.connection_upgraded {
        return BodyDecision::Forward;
    }
    if !policy.needs_body {
        mark_delivered_at_eos(ctx, end_of_stream);
        return BodyDecision::Forward;
    }
    match ctx.response_body_mode {
        BodyMode::SizeLimit { max_bytes } => {
            if check_body_size_limit(body.as_ref(), &mut ctx.response_body_bytes, max_bytes) {
                return BodyDecision::TooLarge(BodyLimit::Size);
            }
            mark_delivered_at_eos(ctx, end_of_stream);
            return BodyDecision::Forward;
        },
        _ => {
            if exceeds_body_ceiling(policy.ceiling, ctx.response_body_bytes, body.as_ref()) {
                return BodyDecision::TooLarge(BodyLimit::Global);
            }
        },
    }
    match ctx.response_body_mode {
        BodyMode::StreamBuffer { max_bytes } => if !ctx.response_body_released {
            if accumulate_stream_buffer(
                body,
                &mut ctx.response_body_buffer,
                end_of_stream,
                max_bytes,
                policy.absolute_max,
            ) {
                return BodyDecision::TooLarge(BodyLimit::Buffer);
            }
            if end_of_stream {
                // The chunks were counted as they came; the filters now count
                // the whole buffer.
                ctx.response_body_bytes = 0;
            }
        },
        _ => {},
    }
    if ctx.request_snapshot.is_some() {
        BodyDecision::RunFilters
    } else {
        BodyDecision::SnapshotMissing
    }
}

/// What is reported about a response body over a limit.
pub open spec fn response_limit_message(limit: BodyLimit) -> Seq<char> {
    match limit {
        BodyLimit::Size => "response body exceeds maximum size"@,
        BodyLimit::Buffer => "response body exceeds stream_buffer size limit"@,
        BodyLimit::Global => "response body exceeds global body limit"@,
    }
}

/// The outcome of a response chunk that does not reach the filters.
pub fn response_body_refusal(decision: BodyDecision) -> (outcome: Result<(), Fault>)
    requires
        decision !is RunFilters,
    ensures
        match decision {
            BodyDecision::TooLarge(limit) => outcome matches Err(fault) && fault.kind
                == FaultKind::Internal && fault.message@ == response_limit_message(limit),
            BodyDecision::SnapshotMissing => outcome matches Err(fault) && fault.kind
                == FaultKind::Internal && fault.message@
                == "request snapshot not set when response body hooks are active"@,
            _ => outcome is Ok,
        },
{
    let message = match decision {
        BodyDecision::TooLarge(BodyLimit::Size) => "response body exceeds maximum size",
        BodyDecision::TooLarge(
            BodyLimit::Buffer,
        ) => "response body exceeds stream_buffer size limit",
        BodyDecision::TooLarge(BodyLimit::Global) => "response body exceeds global body limit",
        BodyDecision::SnapshotMissing =>
            "request snapshot not set when response body hooks are active",
        _ => return Ok(()),
    };
    Err(Fault::explain(FaultKind::Internal, message))
}

/// What finishing a response chunk does to the state: the shared fields and the
/// count are taken from the filter context; a chunk still held back is dropped,
/// a release hands on what was held back, and the end of a stream that goes on
/// completes the delivery.
pub open spec fn finishes_response_chunk<V, S>(
    result: Result<FilterAction<S>, FilterError>,
    fctx: FilterContext<V>,
    end_of_stream: bool,
    before: (RequestCtx<V>, Option<Bytes>),
    after: (RequestCtx<V>, Option<Bytes>),
) -> bool {
    let (ctx, body) = before;
    let written = RequestCtx {
        response_body_bytes: fctx.response_body_bytes,
        ..BodyFilterOutput::of(fctx).written(ctx)
    };
    match result {
        Ok(FilterAction::Release) => {
            &&& releases(
                (body, ctx.response_body_buffer),
                holds_response_body(ctx),
                end_of_stream,
                (after.1, after.0.response_body_buffer),
            )
            &&& after.0 == delivered(
                RequestCtx {
                    response_body_released: ctx.response_body_released || is_buffering(
                        ctx.response_body_mode,
                    ),
                    response_body_buffer: after.0.response_body_buffer,
                    ..written
                },
                end_of_stream,
            )
        },
        Ok(FilterAction::Reject(_)) | Err(_) => after.0 == written && after.1 == body,
        _ => {
            &&& after.0 == delivered(written, end_of_stream)
            &&& after.1 == (if holds_response_body(ctx) && !end_of_stream {
                None
            } else {
                body
            })
        },
    }
}

/// Takes the outcome of the response body filters.
pub fn response_body_finish<V, S>(
    result: Result<FilterAction<S>, FilterError>,
    fctx: FilterContext<V>,
    ctx: &mut RequestCtx<V>,
    body: &mut Option<Bytes>,
    end_of_stream: bool,
) -> (outcome: Result<(), Fault>)
    ensures
        finishes_response_chunk(
            result,
            fctx,
            end_of_stream,
            (*old(ctx), *old(body)),
            (*final(ctx), *final(body)),
        ),
        match result {
            Ok(FilterAction::Reject(rejection)) => outcome matches Err(fault) && fault.kind
                == FaultKind::Internal && fault.message@
                == "response body filter rejected response with status "@ + decimal(
                rejection.status as nat,
            ),
            Err(e) => outcome matches Err(fault) && fault.kind == FaultKind::Internal
                && fault.message@ == "response body filter error: "@ + e.message@,
            _ => outcome is Ok,
        },
{
    let mut fctx = fctx;
    let is_stream_buffer = match ctx.response_body_mode {
        BodyMode::StreamBuffer { .. } => true,
        _ => false,
    };
    ctx.response_body_bytes = fctx.response_body_bytes;
    let output = BodyFilterOutput::take_from(&mut fctx);
    output.write_back(ctx);
    match result {
        Ok(FilterAction::Release) => {
            release_stream_buffer(
                body,
                is_stream_buffer,
                &mut ctx.response_body_released,
                &mut ctx.response_body_buffer,
                end_of_stream,
            );
            mark_delivered_at_eos(ctx, end_of_stream);
            Ok(())
        },
        Ok(FilterAction::Reject(rejection)) => {
            let mut message = "response body filter rejected response with status ".to_owned();
            message.append(decimal_text(rejection.status as u64).as_str());
            Err(Fault { kind: FaultKind::Internal, message })
        },
        Err(e) => {
            let mut message = "response body filter error: ".to_owned();
            message.append(e.message.as_str());
            Err(Fault { kind: FaultKind::Internal, message })
        },
        _ => {
            suppress_stream_buffer_chunk(
                body,
                is_stream_buffer,
                ctx.response_body_released,
                end_of_stream,
            );
            mark_delivered_at_eos(ctx, end_of_stream);
            Ok(())
        },
    }
}

/// A response body never gets past its limit: a chunk that is not refused keeps the
/// counted bytes within a size limit, the bytes held back, and those that come out
/// of the buffer, within the size that is held back, and a body of any other mode
/// within the global limit.
pub proof fn law_response_body_stays_within_its_limit<V>(
    policy: BodyPolicy,
    end_of_stream: bool,
    before: (RequestCtx<V>, Option<Bytes>),
    after: (RequestCtx<V>, Option<Bytes>),
)
    requires
        response_chunk_fits(policy, before.0, before.1),
        measures_response_chunk(policy, end_of_stream, before, after),
        !(measured_response_chunk(policy, before.0, before.1) is TooLarge),
        before.0.response_body_buffer matches Some(buffer) ==> buffer@.len() <= buffer.limit(),
    ensures
        before.0.response_body_mode matches BodyMode::SizeLimit { max_bytes } ==> (
        before.0.response_body_bytes <= max_bytes ==> after.0.response_body_bytes <= max_bytes),
        after.0.response_body_buffer matches Some(buffer) ==> buffer@.len() <= buffer.limit(),
        holds_response_body(before.0) && end_of_stream ==> body_data(after.1).len() <= hold_limit(
            before.0.response_body_buffer,
            mode_ceiling(before.0.response_body_mode),
            policy.absolute_max,
        ),
        !(before.0.response_body_mode is SizeLimit) ==> (policy.ceiling matches Some(max) ==> max
            == u64::MAX || before.0.response_body_bytes + body_data(before.1).len() <= max),
{
}

/// A response chunk that breaks a limit, and one that the filters reject or fail
/// on, never completes the delivery.
pub proof fn law_aborted_response_is_not_delivered<V, S>(
    policy: BodyPolicy,
    result: Result<FilterAction<S>, FilterError>,
    fctx: FilterContext<V>,
    end_of_stream: bool,
    before: (RequestCtx<V>, Option<Bytes>),
    after: (RequestCtx<V>, Option<Bytes>),
)
    requires
        ({
            &&& measured_response_chunk(policy, before.0, before.1) is TooLarge
            &&& measures_response_chunk(policy, end_of_stream, before, after)
        }) || ({
            &&& result is Err || result->Ok_0 is Reject
            &&& finishes_response_chunk(result, fctx, end_of_stream, before, after)
        }),
    ensures
        after.0.response_delivery_complete == before.0.response_delivery_complete,
{
}

/// A chunk in the middle of a stream never completes the delivery.
pub proof fn law_delivery_completes_only_at_the_end<V, S>(
    policy: BodyPolicy,
    result: Result<FilterAction<S>, FilterError>,
    fctx: FilterContext<V>,
    before: (RequestCtx<V>, Option<Bytes>),
    after: (RequestCtx<V>, Option<Bytes>),
)
    requires
        measures_response_chunk(policy, false, before, after) || finishes_response_chunk(
            result,
            fctx,
            false,
            before,
            after,
        ),
    ensures
        after.0.response_delivery_complete == before.0.response_delivery_complete,
{
}

} // verus!
