//! Request body phase: which chunks reach the filters, which are held back, and
//! which are too many.
//!
//! A chunk passes [`request_body_gate`] first. Where that says so the body
//! filters run, and [`request_body_finish`] takes their outcome.
use crate::body::{
    accumulate_stream_buffer, accumulates, check_body_size_limit, exceeds_body_ceiling, held_data,
    hold_limit, holdable, is_countable, is_holdable, mode_ceiling, over_ceiling,
    release_stream_buffer, releases, suppress_stream_buffer_chunk, BodyFilterOutput, BodyMode,
};
use crate::body_handling::{drain_active, drain_pre_read_body, drains};
use crate::chunk::body_data;
use crate::context::{
    is_bare_rejection, ErrorType, Fault, FaultKind, FilterAction, FilterContext, FilterError,
    Rejection, RequestCtx,
};
use bytes::Bytes;
use vstd::prelude::*;
use vstd::string::*;

verus! {

/// Body rules of a pipeline, for one direction.
pub struct BodyPolicy {
    /// Whether any filter looks at the body.
    pub needs_body: bool,
    /// Global limit on the body, if there is one.
    pub ceiling: Option<usize>,
    /// Size up to which bodies are held back when nothing else says so.
    pub absolute_max: usize,
}

/// Which limit a body broke.
#[derive(Clone, Copy, Debug, PartialEq, Eq, Structural)]
pub enum BodyLimit {
    /// The size limit of the mode.
    Size,
    /// The size up to which chunks are held back.
    Buffer,
    /// The global limit.
    Global,
}

/// What happens to a chunk.
#[derive(Clone, Copy, Debug, PartialEq, Eq, Structural)]
pub enum BodyDecision {
    /// It is forwarded as it is now.
    Forward,
    /// The body filters run on it.
    RunFilters,
    /// The body is too large.
    TooLarge(BodyLimit),
    /// The filters would run, but the request was never captured.
    SnapshotMissing,
}

/// How a body phase ends.
pub enum BodyOutcome {
    /// The chunk goes on.
    Forward,
    /// The request is answered with a rejection and the phase fails.
    Reject {
        /// What the request is counted under.
        error_type: ErrorType,
        /// What the client gets.
        rejection: Rejection,
        /// What the transport is told.
        fault: Fault,
    },
    /// The phase fails.
    Fail(Fault),
}

/// Whether the mode holds chunks back.
pub open spec fn is_buffering(mode: BodyMode) -> bool {
    mode is StreamBuffer
}

/// Whether request chunks are being held back right now.
pub open spec fn holds_request_body<V>(ctx: RequestCtx<V>) -> bool {
    is_buffering(ctx.request_body_mode) && !ctx.request_body_released
}

/// Whether a request chunk gets past the early exits, to be measured against the
/// mode.
pub open spec fn request_chunk_is_measured<V>(policy: BodyPolicy, ctx: RequestCtx<V>) -> bool {
    !ctx.connection_upgraded && !drain_active(ctx) && policy.needs_body
}

/// The limits that the counters of the machine set on one request chunk.
pub open spec fn request_chunk_fits<V>(
    policy: BodyPolicy,
    ctx: RequestCtx<V>,
    body: Option<Bytes>,
) -> bool {
    &&& ctx.request_body_mode is SizeLimit ==> ctx.request_body_bytes + body_data(body).len()
        <= u64::MAX
    &&& holds_request_body(ctx) ==> holdable(
        held_data(ctx.request_body_buffer).len() + body_data(body).len(),
        hold_limit(
            ctx.request_body_buffer,
            mode_ceiling(ctx.request_body_mode),
            policy.absolute_max,
        ),
    )
}

/// What becomes of a request chunk that is measured.
pub open spec fn measured_request_chunk<V>(
    policy: BodyPolicy,
    ctx: RequestCtx<V>,
    body: Option<Bytes>,
) -> BodyDecision {
    let len = body_data(body).len();
    let go_on = if ctx.request_snapshot is Some {
        BodyDecision::RunFilters
    } else {
        BodyDecision::SnapshotMissing
    };
    match ctx.request_body_mode {
        BodyMode::SizeLimit { max_bytes } => if body is Some && ctx.request_body_bytes + len
            > max_bytes {
            BodyDecision::TooLarge(BodyLimit::Size)
        } else {
            BodyDecision::Forward
        },
        BodyMode::StreamBuffer { max_bytes } => if !ctx.request_body_released && body is Some
            && held_data(ctx.request_body_buffer).len() + len > hold_limit(
            ctx.request_body_buffer,
            max_bytes,
            policy.absolute_max,
        ) {
            BodyDecision::TooLarge(BodyLimit::Buffer)
        } else {
            go_on
        },
        BodyMode::Stream => if over_ceiling(policy.ceiling, ctx.request_body_bytes, len) {
            BodyDecision::TooLarge(BodyLimit::Global)
        } else {
            go_on
        },
    }
}

/// What measuring a request chunk does to the state: a size limit counts it, a
/// buffer takes it in, and a completed buffer starts the count again.
pub open spec fn measures_request_chunk<V>(
    policy: BodyPolicy,
    end_of_stream: bool,
    before: (RequestCtx<V>, Option<Bytes>),
    after: (RequestCtx<V>, Option<Bytes>),
) -> bool {
    let (ctx, body) = before;
    match ctx.request_body_mode {
        BodyMode::SizeLimit { .. } => {
            &&& after.1 == body
            &&& after.0 == RequestCtx {
                request_body_bytes: (ctx.request_body_bytes + body_data(body).len()) as u64,
                ..ctx
            }
        },
        BodyMode::StreamBuffer { max_bytes } => if ctx.request_body_released {
            after == before
        } else {
            let overflow = measured_request_chunk(policy, ctx, body) is TooLarge;
            &&& accumulates(
                (body, ctx.request_body_buffer),
                end_of_stream,
                hold_limit(ctx.request_body_buffer, max_bytes, policy.absolute_max),
                (after.1, after.0.request_body_buffer),
                overflow,
            )
            &&& after.0 == RequestCtx {
                request_body_buffer: after.0.request_body_buffer,
                request_body_bytes: if end_of_stream && !overflow {
                    0
                } else {
                    ctx.request_body_bytes
                },
                ..ctx
            }
        },
        BodyMode::Stream => after == before,
    }
}

/// Tells whether a request chunk is within the limits that the counters of the machine
/// set, so that it can be decided upon.
pub fn request_chunk_is_measurable<V>(
    policy: &BodyPolicy,
    ctx: &RequestCtx<V>,
    body: &Option<Bytes>,
) -> (measurable: bool)
    ensures
        measurable == (request_chunk_is_measured(*policy, *ctx) ==> request_chunk_fits(
            *policy,
            *ctx,
            *body,
        )),
{
    if ctx.connection_upgraded || ctx.retained_adapted_request_body.is_some()
        || ctx.pre_read_body.is_some() || !policy.needs_body {
        return true;
    }
    match ctx.request_body_mode {
        BodyMode::SizeLimit { .. } => is_countable(ctx.request_body_bytes, body.as_ref()),
        BodyMode::StreamBuffer { max_bytes } => ctx.request_body_released || is_holdable(
            body.as_ref(),
            &ctx.request_body_buffer,
            max_bytes,
            policy.absolute_max,
        ),
        BodyMode::Stream => true,
    }
}

/// Decides what happens to a request chunk, enforcing size limits.
pub fn request_body_gate<V>(
    policy: &BodyPolicy,
    ctx: &mut RequestCtx<V>,
    body: &mut Option<Bytes>,
    end_of_stream: bool,
) -> (decision: BodyDecision)
    requires
        request_chunk_is_measured(*policy, *old(ctx)) ==> request_chunk_fits(
            *policy,
            *old(ctx),
            *old(body),
        ),
    ensures
        if old(ctx).connection_upgraded {
            &&& decision == BodyDecision::Forward
            &&& *final(ctx) == *old(ctx)
            &&& *final(body) == *old(body)
        } else if drain_active(*old(ctx)) {
            &&& decision == BodyDecision::Forward
            &&& drains(*old(ctx), *old(body), *final(ctx), *final(body))
        } else if !policy.needs_body {
            &&& decision == BodyDecision::Forward
            &&& *final(ctx) == *old(ctx)
            &&& *final(body) == *old(body)
        } else {
            &&& decision == measured_request_chunk(*policy, *old(ctx), *old(body))
            &&& measures_request_chunk(
                *policy,
                end_of_stream,
                (*old(ctx), *old(body)),
                (*final(ctx), *final(body)),
            )
        },
{
    if ctx.connection_upgraded {
        return BodyDecision::Forward;
    }
    if drain_pre_read_body(ctx, body) {
        return BodyDecision::Forward;
    }
    if !policy.needs_body {
        return BodyDecision::Forward;
    }
    match ctx.request_body_mode {
        BodyMode::SizeLimit { max_bytes } => {
            return if check_body_size_limit(
                body.as_ref(),
                &mut ctx.request_body_bytes,
                max_bytes,
            ) {
                BodyDecision::TooLarge(BodyLimit::Size)
            } else {
                BodyDecision::Forward
            };
        },
        BodyMode::StreamBuffer { max_bytes } => if !ctx.request_body_released {
            if accumulate_stream_buffer(
                body,
                &mut ctx.request_body_buffer,
                end_of_stream,
                max_bytes,
                policy.absolute_max,
            ) {
                return BodyDecision::TooLarge(BodyLimit::Buffer);
            }
            if end_of_stream {
                // The chunks were counted as they came; the filters now count
                // the whole buffer.
                ctx.request_body_bytes = 0;
            }
        },
        BodyMode::Stream => {
            if exceeds_body_ceiling(policy.ceiling, ctx.request_body_bytes, body.as_ref()) {
                return BodyDecision::TooLarge(BodyLimit::Global);
            }
        },
    }
    if ctx.request_snapshot.is_some() {
        BodyDecision::RunFilters
    } else {
        BodyDecision::SnapshotMissing
    }
}

/// What is reported about a request body over a limit.
pub open spec fn request_limit_message(limit: BodyLimit) -> Seq<char> {
    match limit {
        BodyLimit::Size => "request body exceeds maximum size"@,
        BodyLimit::Buffer => "request body exceeds stream_buffer size limit"@,
        BodyLimit::Global => "streamed request body exceeds global body limit"@,
    }
}

/// The outcome of a request chunk that does not reach the filters: one over a
/// limit is answered with 413.
pub fn request_body_refusal(decision: BodyDecision) -> (outcome: BodyOutcome)
    requires
        decision !is RunFilters,
    ensures
        match decision {
            BodyDecision::TooLarge(limit) => outcome matches BodyOutcome::Reject {
                error_type,
                rejection,
                fault,
            } && error_type == ErrorType::FilterReject && is_bare_rejection(rejection, 413)
                && fault.kind == FaultKind::HttpStatus(413) && fault.message@
                == request_limit_message(limit),
            BodyDecision::SnapshotMissing => outcome matches BodyOutcome::Fail(fault) && fault.kind
                == FaultKind::Internal && fault.message@
                == "request snapshot not set when request body hooks are active"@,
            _ => outcome is Forward,
        },
{
    match decision {
        BodyDecision::TooLarge(limit) => {
            let message = match limit {
                BodyLimit::Size => "request body exceeds maximum size",
                BodyLimit::Buffer => "request body exceeds stream_buffer size limit",
                BodyLimit::Global => "streamed request body exceeds global body limit",
            };
            BodyOutcome::Reject {
                error_type: ErrorType::FilterReject,
                rejection: Rejection::status(413),
                fault: Fault::explain(FaultKind::HttpStatus(413), message),
            }
        },
        BodyDecision::SnapshotMissing => BodyOutcome::Fail(
            Fault::explain(
                FaultKind::Internal,
                "request snapshot not set when request body hooks are active",
            ),
        ),
        _ => BodyOutcome::Forward,
    }
}

/// What finishing a request chunk does to the state: the shared fields, the
/// count and the rewritten path are taken from the filter context; a chunk still
/// held back is dropped, and a release hands on what was held back.
pub open spec fn finishes_request_chunk<V, S>(
    result: Result<FilterAction<S>, FilterError>,
    fctx: FilterContext<V>,
    end_of_stream: bool,
    before: (RequestCtx<V>, Option<Bytes>),
    after: (RequestCtx<V>, Option<Bytes>),
) -> bool {
    let (ctx, body) = before;
    let written = RequestCtx {
        request_body_bytes: fctx.request_body_bytes,
        rewritten_path: fctx.rewritten_path,
        ..BodyFilterOutput::of(fctx).written(ctx)
    };
    match result {
        Ok(FilterAction::Release) => {
            &&& releases(
                (body, ctx.request_body_buffer),
                holds_request_body(ctx),
                end_of_stream,
                (after.1, after.0.request_body_buffer),
            )
            &&& after.0 == RequestCtx {
                request_body_released: ctx.request_body_released || is_buffering(
                    ctx.request_body_mode,
                ),
                request_body_buffer: after.0.request_body_buffer,
                ..written
            }
        },
        Ok(FilterAction::Reject(_)) | Err(_) => after.0 == written && after.1 == body,
        _ => {
            &&& after.0 == written
            &&& after.1 == (if holds_request_body(ctx) && !end_of_stream {
                None
            } else {
                body
            })
        },
    }
}

/// Takes the outcome of the request body filters.
pub fn request_body_finish<V, S>(
    result: Result<FilterAction<S>, FilterError>,
    fctx: FilterContext<V>,
    ctx: &mut RequestCtx<V>,
    body: &mut Option<Bytes>,
    end_of_stream: bool,
) -> (outcome: BodyOutcome)
    ensures
        finishes_request_chunk(
            result,
            fctx,
            end_of_stream,
            (*old(ctx), *old(body)),
            (*final(ctx), *final(body)),
        ),
        match result {
            Ok(FilterAction::Reject(rejected)) => outcome matches BodyOutcome::Reject {
                error_type,
                rejection,
                fault,
            } && error_type == ErrorType::FilterReject && rejection == rejected && fault.kind
                == FaultKind::HttpStatus(rejected.status) && fault.message@
                == "request body rejected by filter pipeline"@,
            Err(e) => outcome matches BodyOutcome::Reject { error_type, rejection, fault }
                && error_type == ErrorType::Internal && is_bare_rejection(rejection, 500)
                && fault.kind == FaultKind::Internal && fault.message@
                == "request body filter error: "@ + e.message@,
            _ => outcome is Forward,
        },
{
    let mut fctx = fctx;
    let is_stream_buffer = match ctx.request_body_mode {
        BodyMode::StreamBuffer { .. } => true,
        _ => false,
    };
    ctx.request_body_bytes = fctx.request_body_bytes;
    ctx.rewritten_path = fctx.rewritten_path.take();
    let output = BodyFilterOutput::take_from(&mut fctx);
    output.write_back(ctx);
    match result {
        Ok(FilterAction::Release) => {
            release_stream_buffer(
                body,
                is_stream_buffer,
                &mut ctx.request_body_released,
                &mut ctx.request_body_buffer,
                end_of_stream,
            );
            BodyOutcome::Forward
        },
        Ok(FilterAction::Reject(rejection)) => {
            let fault = Fault::explain(
                FaultKind::HttpStatus(rejection.status),
                "request body rejected by filter pipeline",
            );
            BodyOutcome::Reject { error_type: ErrorType::FilterReject, rejection, fault }
        },
        Err(e) => {
            let mut message = "request body filter error: ".to_owned();
            message.append(e.message.as_str());
            BodyOutcome::Reject {
                error_type: ErrorType::Internal,
                rejection: Rejection::status(500),
                fault: Fault { kind: FaultKind::Internal, message },
            }
        },
        _ => {
            suppress_stream_buffer_chunk(
                body,
                is_stream_buffer,
                ctx.request_body_released,
                end_of_stream,
            );
            BodyOutcome::Forward
        },
    }
}

/// A request body never gets past its limit: a chunk that is not refused keeps the
/// counted bytes within a size limit, the bytes held back, and those that come out
/// of the buffer, within the size that is held back, and a streamed body within the
/// global limit.
pub proof fn law_request_body_stays_within_its_limit<V>(
    policy: BodyPolicy,
    end_of_stream: bool,
    before: (RequestCtx<V>, Option<Bytes>),
    after: (RequestCtx<V>, Option<Bytes>),
)
    requires
        request_chunk_fits(policy, before.0, before.1),
        measures_request_chunk(policy, end_of_stream, before, after),
        !(measured_request_chunk(policy, before.0, before.1) is TooLarge),
        before.0.request_body_buffer matches Some(buffer) ==> buffer@.len() <= buffer.limit(),
    ensures
        before.0.request_body_mode matches BodyMode::SizeLimit { max_bytes } ==> (
        before.0.request_body_bytes <= max_bytes ==> after.0.request_body_bytes <= max_bytes),
        after.0.request_body_buffer matches Some(buffer) ==> buffer@.len() <= buffer.limit(),
        holds_request_body(before.0) && end_of_stream ==> body_data(after.1).len() <= hold_limit(
            before.0.request_body_buffer,
            mode_ceiling(before.0.request_body_mode),
            policy.absolute_max,
        ),
        before.0.request_body_mode is Stream ==> (policy.ceiling matches Some(max) ==> max
            == u64::MAX || before.0.request_body_bytes + body_data(before.1).len() <= max),
{
}

} // verus!
