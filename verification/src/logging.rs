//! The end of a request: response filters that never ran, and the access record
//! of a request that ended early.
use crate::context::{FilterContext, RequestCtx};
use vstd::prelude::*;

verus! {

/// Whether the response filters are still to be run: for a captured request whose
/// response phase never happened.
pub fn cleanup_due<V>(ctx: &RequestCtx<V>) -> (due: bool)
    ensures
        due == (!ctx.response_phase_done && ctx.request_snapshot is Some),
{
    !ctx.response_phase_done && ctx.request_snapshot.is_some()
}

/// The request context after the response filters ran at the end of a request.
/// Cluster and upstream are put back, so that the access record can name them.
pub open spec fn cleaned_up<V>(ctx: RequestCtx<V>, fctx: FilterContext<V>) -> RequestCtx<V> {
    RequestCtx {
        extensions: fctx.extensions,
        filter_metadata: fctx.filter_metadata,
        filter_state: fctx.filter_state,
        cached_executed_filter_indices: fctx.executed_filter_indices,
        cached_body_done_indices: fctx.body_done_indices,
        cluster: fctx.cluster,
        upstream: fctx.upstream,
        ..ctx
    }
}

/// Takes what the response filters left at the end of a request. What they decided
/// no longer matters.
pub fn logging_cleanup<V>(ctx: &mut RequestCtx<V>, fctx: FilterContext<V>)
    ensures
        *final(ctx) == cleaned_up(*old(ctx), fctx),
{
    ctx.extensions = fctx.extensions;
    ctx.filter_metadata = fctx.filter_metadata;
    ctx.filter_state = fctx.filter_state;
    ctx.cached_executed_filter_indices = fctx.executed_filter_indices;
    ctx.cached_body_done_indices = fctx.body_done_indices;
    ctx.cluster = fctx.cluster;
    ctx.upstream = fctx.upstream;
}

/// Whether a request may lack an access record: it was captured, its response was
/// neither delivered to completion nor upgraded, and access is logged at all.
pub fn fallback_record_possible<V>(ctx: &RequestCtx<V>, has_access_log: bool) -> (possible: bool)
    ensures
        possible == lacks_record(*ctx, has_access_log),
{
    !ctx.response_delivery_complete && !ctx.connection_upgraded && has_access_log
        && ctx.request_snapshot.is_some()
}

/// See `fallback_record_possible`.
pub open spec fn lacks_record<V>(ctx: RequestCtx<V>, has_access_log: bool) -> bool {
    &&& !ctx.response_delivery_complete
    &&& !ctx.connection_upgraded
    &&& has_access_log
    &&& ctx.request_snapshot is Some
}

/// Which access record is written at the end of a request.
#[derive(Clone, Copy, Debug, PartialEq, Eq, Structural)]
pub enum FallbackRecord {
    /// None.
    Skip,
    /// The filters are asked to write theirs.
    AskFilters,
    /// One of the fixed shape.
    FixedShape,
}

/// Says whether an access record is written for a request that ended early: not
/// where the filter already wrote one, and not for a request that the filter's
/// conditions leave out. Sampling does not apply.
pub fn maybe_emit_fallback_access_log<V>(
    ctx: &RequestCtx<V>,
    has_access_log: bool,
    already_emitted: bool,
    conditions_match: bool,
) -> (record: FallbackRecord)
    ensures
        record == (if lacks_record(*ctx, has_access_log) && !already_emitted && conditions_match {
            FallbackRecord::AskFilters
        } else {
            FallbackRecord::Skip
        }),
{
    if !fallback_record_possible(ctx, has_access_log) {
        return FallbackRecord::Skip;
    }
    if already_emitted || !conditions_match {
        return FallbackRecord::Skip;
    }
    FallbackRecord::AskFilters
}

/// Says what is written once the filters were asked for their record: one of the fixed
/// shape, unless a filter wrote its own.
pub fn after_deferred_record(claimed: bool) -> (record: FallbackRecord)
    ensures
        record == (if claimed {
            FallbackRecord::Skip
        } else {
            FallbackRecord::FixedShape
        }),
{
    if claimed {
        FallbackRecord::Skip
    } else {
        FallbackRecord::FixedShape
    }
}

/// Running the response filters at the end of a request does not change whether an
/// access record is due.
pub proof fn law_cleanup_keeps_the_record_due<V>(
    ctx: RequestCtx<V>,
    fctx: FilterContext<V>,
    has_access_log: bool,
)
    ensures
        lacks_record(cleaned_up(ctx, fctx), has_access_log) == lacks_record(ctx, has_access_log),
{
}

} // verus!
