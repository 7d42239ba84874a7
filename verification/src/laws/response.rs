//! The response phase: what filters are shown of a response, and what the client gets.
use super::headers::{
    is_internal, is_spelled_as_before, is_spelled_as_usual, lemma_appended_are_spelled_as_usual,
    lemma_lined_up_names_are_distinct, lemma_removed_names,
};
use crate::body::clamped_mode;
use crate::context::{
    Fault, FaultKind, FilterAction, FilterContext, FilterError, HttpVersion, RequestCtx, Response,
};
use crate::headers::{
    ascii_lower, entry_values, fields_of, has_entry, header_entries, lemma_lower_idempotent,
    name_text, names_view,
};
use crate::mutations::removed;
use crate::response_phase::{
    classify_upgrade, enter_response_filters, final_entries, finish_response_phase,
    handle_response_result, header_name_fingerprint, is_websocket_101,
    law_value_edits_keep_the_fingerprint, request_has_upgrade, run_response_pipeline,
    start_response_phase, ResponsePolicy, ResponseStart,
};
use crate::strip::{
    law_rebuild_keeps_fields, law_strip_hides_reserved_headers, lemma_listed_is_reserved,
    lemma_removed_stays_sendable, lemma_removed_stays_well_formed, lists_name, reserved_names,
    sendable_entries, well_formed,
};
use crate::text::{ascii_text, is_visible};
use crate::trace::state::{is_ows, lemma_trim_end, lemma_trim_start, trimmed};
use crate::transport::{
    canonical_reason, custom_reason, in_step, lines_up, name_counts, reason_phrase,
    response_entries, response_status, response_version, spelled_names,
};
use http::{HeaderMap, HeaderName};
use pingora_http::ResponseHeader;
use vstd::prelude::*;
use vstd::string::*;

verus! {

// ----- Upgrades -----

/// Only white space.
pub open spec fn is_blank(s: Seq<char>) -> bool {
    forall|i: int| 0 <= i < s.len() ==> #[trigger] s[i] == ' ' || s[i] == '\t'
}

/// A text with white space around it is trimmed to the text.
proof fn lemma_padded(before: Seq<char>, text: Seq<char>, after: Seq<char>)
    requires
        is_blank(before),
        is_blank(after),
        text.len() > 0,
        !is_ows(text[0]),
        !is_ows(text.last()),
    ensures
        trimmed(before + text + after) == text,
{
    let whole = before + text + after;
    assert forall|i: int| 0 <= i < before.len() implies is_ows(whole[i]) by {
        assert(whole[i] == before[i]);
    }
    assert(whole[before.len() as int] == text[0]);
    lemma_trim_start(whole, before.len() as int);
    let rest = whole.skip(before.len() as int);
    assert(rest =~= text + after);
    assert forall|i: int| text.len() <= i < rest.len() implies is_ows(rest[i]) by {
        assert(rest[i] == after[i - text.len()]);
    }
    assert(rest[text.len() - 1] == text.last());
    lemma_trim_end(rest, text.len() as int);
    assert(rest.take(text.len() as int) =~= text);
}

/// An upgrade is one to WebSocket exactly where the first `Upgrade` value is that word, in
/// any case and with white space around it, and the handshake is answered.
pub proof fn law_websocket_answers_are_recognised(
    headers: &HeaderMap,
    accepted: bool,
    before: Seq<char>,
    word: Seq<char>,
    after: Seq<char>,
)
    requires
        call_ensures(is_websocket_101, (headers,), accepted),
        is_blank(before) && is_blank(after),
        word.len() > 0 && !is_ows(word[0]) && !is_ows(word.last()),
    ensures
        ({
            let values = entry_values(header_entries(*headers), "upgrade"@);
            &&& accepted ==> values.len() > 0 && is_visible(values[0].0) && has_entry(
                header_entries(*headers),
                "sec-websocket-accept"@,
            )
            &&& values.len() > 0 && is_visible(values[0].0) && ascii_text(values[0].0) == before
                + word + after ==> (accepted <==> ascii_lower(word) == "websocket"@ && has_entry(
                header_entries(*headers),
                "sec-websocket-accept"@,
            ))
            &&& values.len() > 0 && ascii_text(values[0].0) == before ==> !accepted
        }),
{
    lemma_padded(before, word, after);
    lemma_blank(before);
}

/// White space alone is trimmed to nothing.
proof fn lemma_blank(text: Seq<char>)
    requires
        is_blank(text),
    ensures
        trimmed(text).len() == 0,
        "websocket"@.len() > 0,
{
    reveal_strlit("websocket");
    assert forall|i: int| 0 <= i < text.len() implies is_ows(text[i]) by {
        assert(text[i] == ' ' || text[i] == '\t');
    }
    lemma_trim_start(text, text.len() as int);
    assert(text.skip(text.len() as int) =~= Seq::empty());
}

/// A response upgrades the connection only with status 101. One that the client did not ask
/// for is an error of the upstream, and one that was asked for counts where it is a valid
/// answer to a WebSocket handshake.
pub proof fn law_upgrades_are_those_that_were_asked_for<V>(
    ctx: &RequestCtx<V>,
    upstream: &ResponseHeader,
    upgrade: Result<bool, Fault>,
    asked: bool,
    fields: &HeaderMap,
    accepted: bool,
)
    requires
        call_ensures(classify_upgrade::<V>, (ctx, upstream), upgrade),
        call_ensures(request_has_upgrade::<V>, (ctx,), asked),
        header_entries(*fields) == response_entries(*upstream),
        call_ensures(is_websocket_101, (fields,), accepted),
    ensures
        asked <==> (ctx.request_snapshot is Some && has_entry(
            header_entries(ctx.request_snapshot->0.headers),
            "upgrade"@,
        )),
        response_status(*upstream) != 101 ==> upgrade == Ok::<bool, Fault>(false),
        response_status(*upstream) == 101 && asked ==> upgrade == Ok::<bool, Fault>(accepted),
        response_status(*upstream) == 101 && !asked ==> (upgrade matches Err(fault) && fault.kind
            == FaultKind::HttpStatus(502) && fault.message@
            == "unsolicited 101 response from upstream"@),
{
}

// ----- What filters are shown -----

/// The response filters are shown the upstream's status and every field of its response but
/// the hop-by-hop ones and those that are internal to the proxy; the transport's header is
/// left without fields and is the same otherwise. The status is recorded, and whether the
/// connection was upgraded.
pub proof fn law_filters_are_shown_the_response<V>(
    ctx: &mut RequestCtx<V>,
    upstream: &mut ResponseHeader,
    hop_by_hop: &Vec<HeaderName>,
    upgraded: bool,
    pipeline_is_empty: bool,
    start: ResponseStart,
    name: Seq<char>,
    i: int,
    print: u64,
)
    requires
        call_ensures(
            start_response_phase::<V>,
            (ctx, upstream, hop_by_hop, upgraded, pipeline_is_empty),
            start,
        ),
        call_ensures(header_name_fingerprint, (&start.response.headers,), print),
        well_formed(response_entries(*old(upstream))),
    ensures
        lines_up(spelled_names(*final(upstream)), header_entries(start.response.headers)),
        in_step(*old(upstream)) && !is_internal(name) && (forall|j: int|
            0 <= j < hop_by_hop@.len() ==> name_text(#[trigger] hop_by_hop@[j]) != ascii_lower(
                name,
            )) ==> is_spelled_as_before(*old(upstream), *final(upstream), ascii_lower(name)),
        start.response.status == response_status(*old(upstream)),
        is_internal(name) ==> !has_entry(
            header_entries(start.response.headers),
            ascii_lower(name),
        ),
        0 <= i < hop_by_hop@.len() ==> !has_entry(
            header_entries(start.response.headers),
            name_text(hop_by_hop@[i]),
        ),
        !is_internal(name) && (forall|j: int|
            0 <= j < hop_by_hop@.len() ==> name_text(#[trigger] hop_by_hop@[j]) != ascii_lower(
                name,
            )) ==> entry_values(header_entries(start.response.headers), ascii_lower(name))
            == entry_values(response_entries(*old(upstream)), ascii_lower(name)),
        start.fingerprint == (if pipeline_is_empty {
            None
        } else {
            Some(print)
        }),
        response_entries(*final(upstream)).len() == 0,
        response_status(*final(upstream)) == response_status(*old(upstream)),
        custom_reason(*final(upstream)) == custom_reason(*old(upstream)),
        response_version(*final(upstream)) == response_version(*old(upstream)),
        final(ctx).connection_upgraded == upgraded,
        final(ctx).upstream_response_status == Some(response_status(*old(upstream))),
        *final(ctx) == (RequestCtx {
            connection_upgraded: final(ctx).connection_upgraded,
            upstream_response_status: final(ctx).upstream_response_status,
            ..*old(ctx)
        }),
{
    let received = response_entries(*old(upstream));
    let names = names_view(hop_by_hop@);
    let lower = ascii_lower(name);
    let passed = removed(received, names);
    lemma_removed_names(received, names, lower);
    lemma_removed_stays_well_formed(received, names);
    law_strip_hides_reserved_headers(passed, name);
    if 0 <= i < hop_by_hop@.len() {
        let hop = name_text(hop_by_hop@[i]);
        assert(names[i] == hop);
        lemma_removed_names(received, names, hop);
        lemma_removed_names(passed, reserved_names(fields_of(passed)), hop);
    }
    if lists_name(names, lower) {
        let j = choose|j: int| 0 <= j < names.len() && #[trigger] names[j] == lower;
        assert(names[j] == name_text(hop_by_hop@[j]));
    }
    if in_step(*old(upstream)) {
        if let Some(spelled) = spelled_names(*old(upstream)) {
            let internal = reserved_names(fields_of(passed));
            lemma_lined_up_names_are_distinct(spelled, received);
            lemma_removed_names(spelled, names, lower);
            lemma_removed_names(removed(spelled, names), internal, lower);
            if !is_internal(name) && lists_name(internal, lower) {
                lemma_listed_is_reserved(fields_of(passed), lower);
                lemma_lower_idempotent(name);
            }
        }
    }
}

/// The filters run exactly for a request that was captured; either way the phase counts as
/// done.
pub proof fn law_response_filters_need_a_captured_request<V>(
    ctx: &mut RequestCtx<V>,
    entered: Result<(), Fault>,
)
    requires
        call_ensures(enter_response_filters::<V>, (ctx,), entered),
    ensures
        entered is Ok <==> old(ctx).request_snapshot is Some,
        entered matches Err(fault) ==> fault.kind == FaultKind::Internal && fault.message@
            == "request snapshot not set during response phase"@,
        final(ctx).response_phase_done,
        *final(ctx) == (RequestCtx {
            response_phase_done: final(ctx).response_phase_done,
            ..*old(ctx)
        }),
{
}

/// What the response filters left is taken over: their cluster, whether its retry state was
/// given back, their values and state, the endpoints attempted, and their body mode
/// within its ceiling. Whether they changed headers is what they reported.
pub proof fn law_response_filters_are_written_back<V>(
    ctx: &mut RequestCtx<V>,
    fctx: FilterContext<V>,
    flagged: bool,
)
    requires
        call_ensures(run_response_pipeline::<V>, (ctx, fctx), flagged),
    ensures
        flagged == fctx.response_headers_modified,
        final(ctx).cluster == fctx.cluster,
        final(ctx).cluster_retry_state_released == fctx.cluster_retry_state_released,
        final(ctx).extensions == fctx.extensions,
        final(ctx).filter_metadata == fctx.filter_metadata,
        final(ctx).filter_state == fctx.filter_state,
        final(ctx).cached_executed_filter_indices == fctx.executed_filter_indices,
        final(ctx).cached_body_done_indices == fctx.body_done_indices,
        final(ctx).attempted_endpoints == fctx.attempted_endpoints,
        final(ctx).response_body_mode == clamped_mode(
            fctx.response_body_mode,
            old(ctx).response_body_mode,
        ),
        *final(ctx) == (RequestCtx {
            cluster: final(ctx).cluster,
            cluster_retry_state_released: final(ctx).cluster_retry_state_released,
            extensions: final(ctx).extensions,
            filter_metadata: final(ctx).filter_metadata,
            filter_state: final(ctx).filter_state,
            cached_executed_filter_indices: final(ctx).cached_executed_filter_indices,
            cached_body_done_indices: final(ctx).cached_body_done_indices,
            attempted_endpoints: final(ctx).attempted_endpoints,
            response_body_mode: final(ctx).response_body_mode,
            ..*old(ctx)
        }),
{
}

/// Two maps with the same names in the same order, each with as many values, have one
/// fingerprint.
pub proof fn law_fingerprints_are_of_names(
    one: &HeaderMap,
    other: &HeaderMap,
    print: u64,
    other_print: u64,
)
    requires
        call_ensures(header_name_fingerprint, (one,), print),
        call_ensures(header_name_fingerprint, (other,), other_print),
        name_counts(header_entries(*one)) == name_counts(header_entries(*other)),
    ensures
        print == other_print,
{
    law_value_edits_keep_the_fingerprint(header_entries(*one), header_entries(*other));
}

// ----- What the client gets -----

/// A header that is made anew is one of HTTP/1.1, and keeps the reason phrase: the one that
/// was set, or the standard one of the status before, or that of its own status where
/// that one has none.
pub open spec fn has_kept_reason(before: ResponseHeader, after: ResponseHeader) -> bool {
    let standard = canonical_reason(response_status(before));
    &&& response_version(after) == HttpVersion::Http11
    &&& custom_reason(before) is Some ==> reason_phrase(after) == custom_reason(before)
    &&& custom_reason(before) is None && standard is Some ==> reason_phrase(after) == standard
    &&& custom_reason(before) is None && standard is None ==> reason_phrase(after)
        == canonical_reason(response_status(after))
}

/// A header is written with the spellings, the version and the reason phrase of another.
pub open spec fn is_written_as_before(before: ResponseHeader, after: ResponseHeader) -> bool {
    &&& spelled_names(after) == spelled_names(before)
    &&& response_version(after) == response_version(before)
    &&& custom_reason(after) == custom_reason(before)
}

/// A response that the filters let through is written back with their status and their
/// fields, and one without a body is thereby delivered. A rejection is kept for the error
/// path and reported under its status; a failure is reported with its words; both leave
/// the header alone.
pub proof fn law_filtered_responses_are_written_back<V, S>(
    result: Result<FilterAction<S>, FilterError>,
    upstream: &mut ResponseHeader,
    response: Response,
    headers_modified: bool,
    is_bodyless: bool,
    ctx: &mut RequestCtx<V>,
    handled: Result<(), Fault>,
    name: Seq<char>,
)
    requires
        call_ensures(
            handle_response_result::<V, S>,
            (result, upstream, response, headers_modified, is_bodyless, ctx),
            handled,
        ),
        sendable_entries(header_entries(response.headers)),
    ensures
        handled is Ok <==> result is Ok && !(result->Ok_0 is Reject),
        handled is Ok ==> {
            &&& response_status(*final(upstream)) == response.status
            &&& response_entries(*final(upstream)) == header_entries(response.headers)
            &&& headers_modified ==> in_step(*final(upstream)) && is_spelled_as_usual(
                *final(upstream),
                name,
            ) && has_kept_reason(*old(upstream), *final(upstream))
            &&& !headers_modified ==> is_written_as_before(*old(upstream), *final(upstream))
            &&& final(ctx).response_delivery_complete <==> old(ctx).response_delivery_complete
                || is_bodyless
            &&& *final(ctx) == (RequestCtx {
                response_delivery_complete: final(ctx).response_delivery_complete,
                ..*old(ctx)
            })
        },
        handled is Err ==> *final(upstream) == *old(upstream),
        result matches Ok(FilterAction::Reject(rejection)) ==> {
            &&& handled->Err_0.kind == FaultKind::HttpStatus(rejection.status)
            &&& handled->Err_0.message@ == "response rejected by filter pipeline"@
            &&& *final(ctx) == (RequestCtx { pending_rejection: Some(rejection), ..*old(ctx) })
        },
        result matches Err(e) ==> {
            &&& handled->Err_0.kind == FaultKind::Internal
            &&& handled->Err_0.message@ == "response filter error: "@ + e.message@
            &&& *final(ctx) == *old(ctx)
        },
{
    law_rebuild_keeps_fields(header_entries(response.headers));
    lemma_appended_are_spelled_as_usual(fields_of(header_entries(response.headers)), name);
}

/// Ending the response phase, the client gets what the filters left but for internal fields,
/// whether or not they reported a change. Fields without internal ones among them go out
/// as they are. Where a condition on the body needs it, the header is kept for it.
pub proof fn law_clients_get_what_filters_left<V, S>(
    policy: &ResponsePolicy,
    result: Result<FilterAction<S>, FilterError>,
    upstream: &mut ResponseHeader,
    response: Response,
    before: Option<u64>,
    flagged: bool,
    is_bodyless: bool,
    ctx: &mut RequestCtx<V>,
    handled: Result<(), Fault>,
    print: u64,
    name: Seq<char>,
)
    requires
        call_ensures(
            finish_response_phase::<V, S>,
            (policy, result, upstream, response, before, flagged, is_bodyless, ctx),
            handled,
        ),
        call_ensures(header_name_fingerprint, (&response.headers,), print),
        sendable_entries(header_entries(response.headers)),
    ensures
        handled is Ok <==> result is Ok && !(result->Ok_0 is Reject),
        handled is Ok ==> {
            let sent = response_entries(*final(upstream));
            &&& response_status(*final(upstream)) == response.status
            &&& !policy.is_empty && is_internal(name) ==> !has_entry(sent, ascii_lower(name))
            &&& policy.is_empty || !is_internal(name) ==> entry_values(sent, ascii_lower(name))
                == entry_values(header_entries(response.headers), ascii_lower(name))
            &&& flagged || (before is Some && before != Some(print)) ==> in_step(*final(upstream))
                && is_spelled_as_usual(*final(upstream), name) && has_kept_reason(
                *old(upstream),
                *final(upstream),
            )
            &&& !flagged && (before is None || before == Some(print)) ==> is_written_as_before(
                *old(upstream),
                *final(upstream),
            )
            &&& *final(ctx) == (RequestCtx {
                response_delivery_complete: final(ctx).response_delivery_complete,
                response_header_snapshot: final(ctx).response_header_snapshot,
                ..*old(ctx)
            })
            &&& final(ctx).response_delivery_complete <==> old(ctx).response_delivery_complete
                || is_bodyless
            &&& policy.any_response_body_condition ==> {
                &&& final(ctx).response_header_snapshot matches Some(kept) && kept.status
                    == response.status && header_entries(kept.headers) == sent
            }
            &&& !policy.any_response_body_condition ==> final(ctx).response_header_snapshot
                == old(ctx).response_header_snapshot
        },
        handled is Err ==> *final(upstream) == *old(upstream),
        result matches Ok(FilterAction::Reject(rejection)) ==> handled->Err_0.kind
            == FaultKind::HttpStatus(rejection.status) && handled->Err_0.message@
            == "response rejected by filter pipeline"@ && *final(ctx) == (RequestCtx {
            pending_rejection: Some(rejection),
            ..*old(ctx)
        }),
        result matches Err(e) ==> handled->Err_0.kind == FaultKind::Internal
            && handled->Err_0.message@ == "response filter error: "@ + e.message@ && *final(ctx)
            == *old(ctx),
{
    let left = header_entries(response.headers);
    law_strip_hides_reserved_headers(left, name);
    lemma_removed_stays_sendable(left, reserved_names(fields_of(left)));
    law_rebuild_keeps_fields(final_entries(*policy, left));
    lemma_appended_are_spelled_as_usual(fields_of(final_entries(*policy, left)), name);
}

/// From the upstream to the client: where the filters change nothing, the client gets the
/// upstream's status and every field that is neither hop-by-hop nor internal, with its
/// values in order.
pub proof fn law_untouched_responses_pass_through<V, S>(
    ctx: &mut RequestCtx<V>,
    upstream: &mut ResponseHeader,
    hop_by_hop: &Vec<HeaderName>,
    upgraded: bool,
    policy: &ResponsePolicy,
    start: ResponseStart,
    result: Result<FilterAction<S>, FilterError>,
    later: &mut ResponseHeader,
    flagged: bool,
    is_bodyless: bool,
    later_ctx: &mut RequestCtx<V>,
    handled: Result<(), Fault>,
    print: u64,
    name: Seq<char>,
)
    requires
        call_ensures(
            start_response_phase::<V>,
            (ctx, upstream, hop_by_hop, upgraded, policy.is_empty),
            start,
        ),
        call_ensures(header_name_fingerprint, (&start.response.headers,), print),
        sendable_entries(response_entries(*old(upstream))),
        *old(later) == *final(upstream),
        call_ensures(
            finish_response_phase::<V, S>,
            (
                policy,
                result,
                later,
                start.response,
                start.fingerprint,
                flagged,
                is_bodyless,
                later_ctx,
            ),
            handled,
        ),
        result is Ok && !(result->Ok_0 is Reject),
        !is_internal(name),
        forall|j: int|
            0 <= j < hop_by_hop@.len() ==> name_text(#[trigger] hop_by_hop@[j]) != ascii_lower(
                name,
            ),
    ensures
        handled is Ok,
        response_status(*final(later)) == response_status(*old(upstream)),
        entry_values(response_entries(*final(later)), ascii_lower(name)) == entry_values(
            response_entries(*old(upstream)),
            ascii_lower(name),
        ),
{
    let received = response_entries(*old(upstream));
    let passed = removed(received, names_view(hop_by_hop@));
    lemma_removed_stays_sendable(received, names_view(hop_by_hop@));
    lemma_removed_stays_sendable(passed, reserved_names(fields_of(passed)));
    law_filters_are_shown_the_response(
        ctx,
        upstream,
        hop_by_hop,
        upgraded,
        policy.is_empty,
        start,
        name,
        -1,
        print,
    );
    law_clients_get_what_filters_left(
        policy,
        result,
        later,
        start.response,
        start.fingerprint,
        flagged,
        is_bodyless,
        later_ctx,
        handled,
        print,
        name,
    );
}

} // verus!
