//! Responses made by filters, sent at once or streamed.
use super::headers::{
    is_internal, is_spelled_as_usual, lemma_appended_are_spelled_as_usual, lemma_removed_names,
};
use super::request::says_only;
use crate::body::{clamped_mode, BodyMode};
use crate::chunk::{body_data, bytes_data};
use crate::context::{
    FilterAction, FilterContext, FilterError, HttpVersion, Rejection, RequestCtx, Response,
};
use crate::headers::{
    accepted_fields, accepted_spellings, appended, ascii_lower, distinct_names, entries_insert,
    entries_remove, entry_values, fields_of, has_entry, header_entries, lemma_insert,
    lemma_lower_idempotent, lemma_remove, name_text, names_view, plain, titled, Entries, Intake,
    Spellings,
};
use crate::mutations::removed;
use crate::rejection::{length_value, CONTENT_LENGTH};
use crate::response_phase::shown_entries;
use crate::streaming::{
    chunk_event, commit_stream, next_stream_step, start_stream, suppressed_header, Commitment,
    StreamAction, StreamEvent, StreamPhase,
};
use crate::strip::{
    law_rebuild_keeps_fields, law_strip_hides_reserved_headers, lemma_removed_stays_sendable,
    lists_name, reserved_names, sendable_entries,
};
use crate::terminal::{
    after_terminal_filters, begin_terminal_response, build_streaming_terminal_header,
    build_terminal_header, finish_terminal_body, finish_terminal_response, framed_entries,
    kept_fields, law_streaming_has_one_framing, law_terminal_hides_reserved_headers,
    law_terminal_length_is_that_of_the_body, lemma_framing_names, plan_terminal_response,
    prepare_streaming_headers, streaming_entries, streaming_size_limit_exceeded,
    terminal_body_filters_run, terminal_entries, terminal_spellings, TerminalNext, TerminalPlan,
    CHUNKED, TRANSFER_ENCODING,
};
use crate::text::{ascii_bytes, decimal};
use crate::transport::{custom_reason, in_step, response_entries, response_status, response_version};
use bytes::Bytes;
use http::{HeaderMap, HeaderName};
use pingora_http::ResponseHeader;
use vstd::prelude::*;
use vstd::string::*;

verus! {

// ----- Filters -----

/// A terminal response is filtered exactly where the request was captured, under a status
/// that can be sent: its own from 100 to 999, else 500. The status that it came with is
/// recorded, and the response phase counts as done.
pub proof fn law_terminal_responses_are_filtered<V>(
    ctx: &mut RequestCtx<V>,
    status: u16,
    headers: HeaderMap,
    begun: (Response, bool),
    run: bool,
)
    requires
        call_ensures(begin_terminal_response::<V>, (ctx, status, headers), begun),
        call_ensures(terminal_body_filters_run::<V>, (&*old(ctx),), run),
    ensures
        100 <= status <= 999 ==> begun.0.status == status,
        !(100 <= status <= 999) ==> begun.0.status == 500,
        begun.0.headers == headers,
        begun.1 <==> old(ctx).request_snapshot is Some,
        run <==> old(ctx).request_snapshot is Some,
        final(ctx).response_phase_done,
        final(ctx).upstream_response_status == Some(status),
        *final(ctx) == (RequestCtx {
            response_phase_done: final(ctx).response_phase_done,
            upstream_response_status: final(ctx).upstream_response_status,
            ..*old(ctx)
        }),
{
}

/// What the filters of a terminal response left is in the request context.
pub open spec fn takes_over<V>(fctx: FilterContext<V>, ctx: RequestCtx<V>) -> bool {
    &&& ctx.cluster == fctx.cluster
    &&& ctx.upstream == fctx.upstream
    &&& ctx.extensions == fctx.extensions
    &&& ctx.filter_metadata == fctx.filter_metadata
    &&& ctx.filter_state == fctx.filter_state
    &&& ctx.filter_results == fctx.filter_results
    &&& ctx.structured_metadata == fctx.structured_metadata
    &&& ctx.cached_executed_branch_filters == fctx.executed_branch_filters
    &&& ctx.cached_executed_filter_indices == fctx.executed_filter_indices
    &&& ctx.cached_body_done_indices == fctx.body_done_indices
}

/// Two contexts that differ at most in what the filters of a terminal response leave, in
/// the response body and in its delivery.
pub open spec fn same_request<V>(one: RequestCtx<V>, other: RequestCtx<V>) -> bool {
    one == RequestCtx {
        cluster: one.cluster,
        upstream: one.upstream,
        extensions: one.extensions,
        filter_metadata: one.filter_metadata,
        filter_state: one.filter_state,
        filter_results: one.filter_results,
        structured_metadata: one.structured_metadata,
        cached_executed_branch_filters: one.cached_executed_branch_filters,
        cached_executed_filter_indices: one.cached_executed_filter_indices,
        cached_body_done_indices: one.cached_body_done_indices,
        response_body_mode: one.response_body_mode,
        response_body_bytes: one.response_body_bytes,
        response_delivery_complete: one.response_delivery_complete,
        ..other
    }
}

/// What the response filters decided of a terminal response is done: it goes on as they left
/// it, a rejection takes its place, and a failure is answered with a bare 500. Their
/// state is taken over in each case, and their body mode within its ceiling.
pub proof fn law_terminal_filters_are_obeyed<V, S>(
    ctx: &mut RequestCtx<V>,
    fctx: FilterContext<V>,
    result: Result<FilterAction<S>, FilterError>,
    response: Response,
    prepared: Result<Response, Rejection>,
)
    requires
        call_ensures(
            finish_terminal_response::<V, S>,
            (ctx, fctx, result, response),
            prepared,
        ),
    ensures
        takes_over(fctx, *final(ctx)),
        same_request(*final(ctx), *old(ctx)),
        final(ctx).response_body_mode == clamped_mode(
            fctx.response_body_mode,
            old(ctx).response_body_mode,
        ),
        final(ctx).response_body_bytes == old(ctx).response_body_bytes,
        final(ctx).response_delivery_complete == old(ctx).response_delivery_complete,
        match result {
            Ok(FilterAction::Reject(rejection)) => prepared matches Err(sent) && sent == rejection,
            Err(_) => prepared matches Err(sent) && says_only(sent, 500),
            Ok(_) => prepared matches Ok(sent) && sent == response,
        },
{
}

/// What the body filters decided of a terminal response is done, and its end completes the
/// delivery exactly where they let it through.
pub proof fn law_terminal_body_filters_are_obeyed<V, S>(
    ctx: &mut RequestCtx<V>,
    fctx: FilterContext<V>,
    result: Result<FilterAction<S>, FilterError>,
    end_of_stream: bool,
    passed: Result<(), Rejection>,
)
    requires
        call_ensures(finish_terminal_body::<V, S>, (ctx, fctx, result, end_of_stream), passed),
    ensures
        takes_over(fctx, *final(ctx)),
        same_request(*final(ctx), *old(ctx)),
        final(ctx).response_body_mode == old(ctx).response_body_mode,
        final(ctx).response_body_bytes == fctx.response_body_bytes,
        final(ctx).response_delivery_complete <==> old(ctx).response_delivery_complete || (
        end_of_stream && result is Ok && !(result->Ok_0 is Reject)),
        match result {
            Ok(FilterAction::Reject(rejection)) => passed matches Err(sent) && sent == rejection,
            Err(_) => passed matches Err(sent) && says_only(sent, 500),
            Ok(_) => passed is Ok,
        },
{
}

/// The body filters run on a terminal response that has a body, if its request was captured;
/// one without a body is delivered with its header.
pub proof fn law_bodyless_terminal_responses_are_delivered<V>(
    ctx: &mut RequestCtx<V>,
    is_bodyless: bool,
    next: TerminalNext,
)
    requires
        call_ensures(after_terminal_filters::<V>, (ctx, is_bodyless), next),
    ensures
        next is RunBodyFilters <==> !is_bodyless && old(ctx).request_snapshot is Some,
        final(ctx).response_delivery_complete <==> old(ctx).response_delivery_complete
            || is_bodyless,
        *final(ctx) == (RequestCtx {
            response_delivery_complete: final(ctx).response_delivery_complete,
            ..*old(ctx)
        }),
{
}

// ----- Sent at once -----

/// The status line is that of a new header.
pub open spec fn is_standard(header: ResponseHeader, status: u16) -> bool {
    &&& response_status(header) == status
    &&& custom_reason(header) is None
    &&& response_version(header) == HttpVersion::Http11
}

/// No name of the list is `name`.
pub open spec fn not_among(names: Seq<HeaderName>, name: Seq<char>) -> bool {
    forall|j: int| 0 <= j < names.len() ==> name_text(#[trigger] names[j]) != name
}

/// What is shown of fields, seen from one name.
proof fn lemma_shown(entries: Entries, hop_by_hop: Seq<HeaderName>, name: Seq<char>)
    requires
        sendable_entries(entries),
    ensures
        sendable_entries(shown_entries(entries, names_view(hop_by_hop))),
        is_internal(name) ==> !has_entry(
            shown_entries(entries, names_view(hop_by_hop)),
            ascii_lower(name),
        ),
        !is_internal(name) && not_among(hop_by_hop, ascii_lower(name)) ==> entry_values(
            shown_entries(entries, names_view(hop_by_hop)),
            ascii_lower(name),
        ) == entry_values(entries, ascii_lower(name)) && has_entry(
            shown_entries(entries, names_view(hop_by_hop)),
            ascii_lower(name),
        ) == has_entry(entries, ascii_lower(name)),
        lists_name(names_view(hop_by_hop), ascii_lower(name)) ==> !has_entry(
            shown_entries(entries, names_view(hop_by_hop)),
            ascii_lower(name),
        ),
{
    let names = names_view(hop_by_hop);
    let lower = ascii_lower(name);
    let passed = removed(entries, names);
    lemma_removed_names(entries, names, lower);
    lemma_removed_stays_sendable(entries, names);
    law_strip_hides_reserved_headers(passed, name);
    lemma_removed_stays_sendable(passed, reserved_names(fields_of(passed)));
    lemma_removed_names(passed, reserved_names(fields_of(passed)), lower);
    lemma_lower_idempotent(name);
    if lists_name(names, lower) {
        let j = choose|j: int| 0 <= j < names.len() && #[trigger] names[j] == lower;
        assert(names[j] == name_text(hop_by_hop[j]));
    }
    crate::headers::lemma_entry_index(entries, lower);
    crate::headers::lemma_entry_index(shown_entries(entries, names), lower);
    if !is_internal(name) && lists_name(reserved_names(fields_of(passed)), lower) {
        crate::strip::lemma_listed_is_reserved(fields_of(passed), lower);
    }
}

/// How a buffered response spells a name.
proof fn lemma_terminal_spelling(
    entries: Entries,
    len: nat,
    body_prohibited: bool,
    is_head: bool,
    name: Seq<char>,
)
    ensures
        is_head || name != CONTENT_LENGTH@ ==> entry_values(
            terminal_spellings(entries, body_prohibited, is_head),
            name,
        ) == Seq::new(
            entry_values(terminal_entries(entries, len, body_prohibited, is_head), name).len(),
            |i: int| titled(name),
        ),
{
    let fields = kept_fields(fields_of(entries), is_head);
    let sent = appended(Entries::empty(), accepted_fields(fields, Intake::Named));
    let spelled = appended(Spellings::empty(), accepted_spellings(fields, Intake::Named));
    lemma_appended_are_spelled_as_usual(fields, name);
    lemma_insert(sent, CONTENT_LENGTH@, length_value(len), name);
    lemma_insert(spelled, CONTENT_LENGTH@, CONTENT_LENGTH@, name);
}

/// A buffered terminal response goes out under its status, from 200 to 599, with the length
/// of its body and every other field that is neither hop-by-hop nor internal; any other
/// status is answered with a bare 500. Its body follows, unless the request was HEAD or
/// the status is 204 or 304, and then no length is made up.
pub proof fn law_terminal_responses_are_sent_whole(
    response: Response,
    body: Option<Bytes>,
    hop_by_hop: &Vec<HeaderName>,
    is_head: bool,
    plan: TerminalPlan,
    name: Seq<char>,
)
    requires
        call_ensures(plan_terminal_response, (response, body, hop_by_hop, is_head), plan),
        sendable_entries(header_entries(response.headers)),
    ensures
        !(200 <= response.status <= 599) ==> (plan matches TerminalPlan::Reject(rejection)
            && says_only(rejection, 500)),
        200 <= response.status <= 599 ==> {
            let bodyless = is_head || response.status == 204 || response.status == 304;
            &&& plan matches TerminalPlan::Write { header, end_of_stream, body: sent }
            &&& is_standard(header, response.status)
            &&& in_step(header)
            &&& sent == (if bodyless {
                None
            } else {
                body
            })
            &&& end_of_stream <==> sent is None
            &&& !bodyless ==> entry_values(response_entries(header), "content-length"@) == seq![
                plain(ascii_bytes(decimal(body_data(body).len()))),
            ]
            &&& !is_head && bodyless ==> !has_entry(response_entries(header), "content-length"@)
            &&& is_head || ascii_lower(name) != "content-length"@ ==> is_spelled_as_usual(
                header,
                ascii_lower(name),
            )
            &&& is_internal(name) ==> !has_entry(response_entries(header), ascii_lower(name))
            &&& !is_internal(name) && not_among(hop_by_hop@, ascii_lower(name)) && (is_head
                || ascii_lower(name) != "content-length"@) ==> entry_values(
                response_entries(header),
                ascii_lower(name),
            ) == entry_values(header_entries(response.headers), ascii_lower(name))
        },
{
    let entries = header_entries(response.headers);
    let shown = shown_entries(entries, names_view(hop_by_hop@));
    lemma_shown(entries, hop_by_hop@, name);
    if 200 <= response.status <= 599 {
        let prohibited = response.status == 204 || response.status == 304;
        law_terminal_length_is_that_of_the_body(
            shown,
            body_data(body).len(),
            prohibited,
            is_head,
            ascii_lower(name),
        );
        lemma_terminal_spelling(
            shown,
            body_data(body).len(),
            prohibited,
            is_head,
            ascii_lower(name),
        );
        if is_internal(name) {
            law_terminal_hides_reserved_headers(
                entries,
                names_view(hop_by_hop@),
                body_data(body).len(),
                response.status,
                is_head,
                false,
                HttpVersion::Http11,
                name,
            );
        }
    }
}

/// Building the header of a buffered response keeps the fields that it is given, but for a
/// length of its own; it is built exactly for the statuses from 200 to 599.
pub proof fn law_terminal_headers_have_the_length_of_the_body(
    response: &Response,
    body: Option<&Bytes>,
    body_prohibited: bool,
    is_head: bool,
    built: Option<ResponseHeader>,
    name: Seq<char>,
)
    requires
        call_ensures(
            build_terminal_header,
            (response, body, body_prohibited, is_head),
            built,
        ),
        sendable_entries(header_entries(response.headers)),
    ensures
        built is Some <==> 200 <= response.status <= 599,
        built matches Some(header) ==> {
            let len = match body {
                Some(chunk) => bytes_data(*chunk).len(),
                None => 0,
            };
            &&& is_standard(header, response.status)
            &&& !is_head && !body_prohibited ==> entry_values(
                response_entries(header),
                "content-length"@,
            ) == seq![plain(ascii_bytes(decimal(len)))]
            &&& !is_head && body_prohibited ==> !has_entry(
                response_entries(header),
                "content-length"@,
            )
            &&& is_head || name != "content-length"@ ==> entry_values(
                response_entries(header),
                name,
            ) == entry_values(header_entries(response.headers), name)
            &&& is_head || name != "content-length"@ ==> is_spelled_as_usual(header, name)
        },
{
    let len = match body {
        Some(chunk) => bytes_data(*chunk).len(),
        None => 0,
    };
    lemma_terminal_spelling(
        header_entries(response.headers),
        len,
        body_prohibited,
        is_head,
        name,
    );
    law_terminal_length_is_that_of_the_body(
        header_entries(response.headers),
        len,
        body_prohibited,
        is_head,
        name,
    );
}

/// Building the header of a streamed response keeps every field, and it is built exactly for
/// the statuses from 200 to 599.
pub proof fn law_streamed_headers_are_built_as_they_are(
    response: &Response,
    built: Option<ResponseHeader>,
    name: Seq<char>,
)
    requires
        call_ensures(build_streaming_terminal_header, (response,), built),
        sendable_entries(header_entries(response.headers)),
    ensures
        built is Some <==> 200 <= response.status <= 599,
        built matches Some(header) ==> {
            &&& is_standard(header, response.status)
            &&& in_step(header)
            &&& response_entries(header) == header_entries(response.headers)
            &&& is_spelled_as_usual(header, name)
        },
{
    law_rebuild_keeps_fields(header_entries(response.headers));
    lemma_appended_are_spelled_as_usual(fields_of(header_entries(response.headers)), name);
}

// ----- Streamed -----

/// A name that framing does not decide.
pub open spec fn is_unframed(name: Seq<char>) -> bool {
    name != "content-length"@ && name != "transfer-encoding"@
}

/// Framing, seen from one other name.
proof fn lemma_framed(
    shown: Entries,
    status: u16,
    is_head: bool,
    is_not_modified: bool,
    version: HttpVersion,
    name: Seq<char>,
)
    requires
        distinct_names(shown),
        name != TRANSFER_ENCODING@,
    ensures
        name != CONTENT_LENGTH@ || !(status == 204 || (!is_head && !is_not_modified))
            ==> entry_values(
            framed_entries(shown, status, is_head, is_not_modified, version),
            name,
        ) == entry_values(shown, name),
{
    lemma_remove(shown, CONTENT_LENGTH@, name);
    let unmeasured = if status == 204 || (!is_head && !is_not_modified) {
        entries_remove(shown, CONTENT_LENGTH@)
    } else {
        shown
    };
    lemma_remove(unmeasured, TRANSFER_ENCODING@, name);
    let unframed = entries_remove(unmeasured, TRANSFER_ENCODING@);
    lemma_insert(unframed, TRANSFER_ENCODING@, plain(ascii_bytes(CHUNKED@)), name);
}

/// Preparing a streamed response leaves one framing: with a body on HTTP/1.1 the mark that
/// it is chunked, and else no transfer coding; a length only where there is no body to
/// measure and the status allows one. Other fields stay unless they are hop-by-hop or
/// internal.
pub proof fn law_streamed_responses_are_framed_once(
    response: &mut Response,
    hop_by_hop: &Vec<HeaderName>,
    is_head: bool,
    is_not_modified: bool,
    version: HttpVersion,
    name: Seq<char>,
)
    requires
        call_ensures(
            prepare_streaming_headers,
            (response, hop_by_hop, is_head, is_not_modified, version),
            (),
        ),
        sendable_entries(header_entries(old(response).headers)),
    ensures
        final(response).status == old(response).status,
        ({
            let sent = header_entries(final(response).headers);
            let given = header_entries(old(response).headers);
            let has_body = !is_head && !is_not_modified;
            &&& has_body || old(response).status == 204 ==> !has_entry(sent, "content-length"@)
            &&& has_body && version == HttpVersion::Http11 ==> entry_values(
                sent,
                "transfer-encoding"@,
            ) == seq![plain(ascii_bytes("chunked"@))]
            &&& !(has_body && version == HttpVersion::Http11) ==> !has_entry(
                sent,
                "transfer-encoding"@,
            )
            &&& is_internal(name) ==> !has_entry(sent, ascii_lower(name))
            &&& is_unframed(ascii_lower(name)) && !is_internal(name) && not_among(
                hop_by_hop@,
                ascii_lower(name),
            ) ==> entry_values(sent, ascii_lower(name)) == entry_values(given, ascii_lower(name))
            &&& !has_body && old(response).status != 204 && not_among(
                hop_by_hop@,
                "content-length"@,
            ) ==> entry_values(sent, "content-length"@) == entry_values(given, "content-length"@)
        }),
{
    let given = header_entries(old(response).headers);
    let names = names_view(hop_by_hop@);
    let shown = shown_entries(given, names);
    let status = old(response).status;
    lemma_framing_names();
    lemma_shown(given, hop_by_hop@, name);
    lemma_shown(given, hop_by_hop@, CONTENT_LENGTH@);
    law_streaming_has_one_framing(given, names, status, is_head, is_not_modified, version);
    if ascii_lower(name) != TRANSFER_ENCODING@ {
        lemma_framed(shown, status, is_head, is_not_modified, version, ascii_lower(name));
    }
    lemma_framed(shown, status, is_head, is_not_modified, version, CONTENT_LENGTH@);
    if is_internal(name) {
        law_terminal_hides_reserved_headers(
            given,
            names,
            0,
            status,
            is_head,
            is_not_modified,
            version,
            name,
        );
    }
    if is_internal(CONTENT_LENGTH@) {
        crate::terminal::lemma_framing_is_not_reserved(CONTENT_LENGTH@);
    }
}

/// A response is streamed exactly where its body is not to be buffered, it may have one and
/// its status, from 200 to 599, can be sent; a HEAD answer, a 204 and a 304 go without their
/// body, as they are.
pub proof fn law_responses_are_streamed_where_they_can_be<V>(
    ctx: &RequestCtx<V>,
    response: Response,
    hop_by_hop: &Vec<HeaderName>,
    is_head: bool,
    version: HttpVersion,
    commitment: Commitment,
    name: Seq<char>,
    event: StreamEvent,
)
    requires
        call_ensures(
            commit_stream::<V>,
            (ctx, response, hop_by_hop, is_head, version),
            commitment,
        ),
        call_ensures(Commitment::event, (&commitment,), event),
        sendable_entries(header_entries(response.headers)),
    ensures
        ({
            let bodyless = is_head || response.status == 204 || response.status == 304;
            let buffers = ctx.response_body_mode is StreamBuffer;
            &&& buffers ==> commitment is Refused
            &&& !buffers && bodyless ==> commitment == Commitment::Bodyless(response)
            &&& !buffers && !bodyless ==> (commitment is Ready <==> 200 <= response.status <= 599)
            &&& !buffers && !bodyless ==> (commitment is Refused <==> !(200 <= response.status
                <= 599))
        }),
        commitment is Refused <==> event is Refused,
        commitment is Bodyless <==> event is Bodyless,
        commitment is Ready <==> event is Ready,
        commitment matches Commitment::Ready(prepared, header) ==> {
            let sent = response_entries(header);
            &&& prepared.status == response.status
            &&& header_entries(prepared.headers) == response_entries(header)
            &&& is_standard(header, response.status)
            &&& in_step(header)
            &&& is_spelled_as_usual(header, ascii_lower(name))
            &&& !has_entry(sent, "content-length"@)
            &&& version == HttpVersion::Http11 ==> entry_values(sent, "transfer-encoding"@) == seq![
                plain(ascii_bytes("chunked"@)),
            ]
            &&& version != HttpVersion::Http11 ==> !has_entry(sent, "transfer-encoding"@)
            &&& is_internal(name) ==> !has_entry(sent, ascii_lower(name))
            &&& is_unframed(ascii_lower(name)) && !is_internal(name) && not_among(
                hop_by_hop@,
                ascii_lower(name),
            ) ==> entry_values(sent, ascii_lower(name)) == entry_values(
                header_entries(response.headers),
                ascii_lower(name),
            )
        },
{
    let given = header_entries(response.headers);
    let names = names_view(hop_by_hop@);
    let shown = shown_entries(given, names);
    let status = response.status;
    lemma_framing_names();
    lemma_shown(given, hop_by_hop@, name);
    law_streaming_has_one_framing(given, names, status, false, false, version);
    if ascii_lower(name) != TRANSFER_ENCODING@ {
        lemma_framed(shown, status, false, false, version, ascii_lower(name));
    }
    if is_internal(name) {
        law_terminal_hides_reserved_headers(given, names, 0, status, false, false, version, name);
    }
    lemma_framed_stays_sendable(shown, status, false, false, version);
    law_rebuild_keeps_fields(streaming_entries(given, names, status, false, false, version));
    lemma_appended_are_spelled_as_usual(
        fields_of(streaming_entries(given, names, status, false, false, version)),
        ascii_lower(name),
    );
}

/// Framing keeps entries sendable.
proof fn lemma_framed_stays_sendable(
    shown: Entries,
    status: u16,
    is_head: bool,
    is_not_modified: bool,
    version: HttpVersion,
)
    requires
        sendable_entries(shown),
    ensures
        sendable_entries(framed_entries(shown, status, is_head, is_not_modified, version)),
{
    lemma_framing_names();
    lemma_remove_one(shown, CONTENT_LENGTH@);
    let unmeasured = if status == 204 || (!is_head && !is_not_modified) {
        entries_remove(shown, CONTENT_LENGTH@)
    } else {
        shown
    };
    lemma_remove_one(unmeasured, TRANSFER_ENCODING@);
    let unframed = entries_remove(unmeasured, TRANSFER_ENCODING@);
    let value = plain(ascii_bytes(CHUNKED@));
    let marked = entries_insert(unframed, TRANSFER_ENCODING@, value);
    lemma_remove(unmeasured, TRANSFER_ENCODING@, TRANSFER_ENCODING@);
    crate::headers::lemma_entry_index(unframed, TRANSFER_ENCODING@);
    assert(marked =~= unframed.push((TRANSFER_ENCODING@, seq![value])));
    assert forall|i: int, j: int| 0 <= i < j < marked.len() implies #[trigger] marked[i].0
        != #[trigger] marked[j].0 by {
        if j < unframed.len() {
            assert(unframed[i].0 != unframed[j].0);
        } else {
            assert(unframed[i].0 != TRANSFER_ENCODING@);
        }
    }
    assert forall|i: int| 0 <= i < marked.len() implies #[trigger] marked[i].1.len() > 0
        && ascii_lower(marked[i].0) == marked[i].0 by {
        if i < unframed.len() {
            assert(unframed[i].1.len() > 0);
        }
    }
    assert forall|i: int| 0 <= i < marked.len() implies crate::headers::valid_name(
        #[trigger] marked[i].0,
    ) by {
        if i < unframed.len() {
            assert(crate::headers::valid_name(unframed[i].0));
        }
    }
}

/// Removing one name keeps entries sendable.
proof fn lemma_remove_one(entries: Entries, name: Seq<char>)
    requires
        sendable_entries(entries),
    ensures
        sendable_entries(entries_remove(entries, name)),
{
    lemma_removed_stays_sendable(entries, seq![name]);
    assert(seq![name].drop_last() =~= Seq::empty());
    reveal_with_fuel(removed, 2);
}

/// A response whose body its source gave up counts as delivered; its header goes out with its
/// fields and no transfer coding, exactly where its status can be sent.
pub proof fn law_suppressed_responses_are_delivered<V>(
    ctx: &mut RequestCtx<V>,
    response: Response,
    hop_by_hop: &Vec<HeaderName>,
    is_head: bool,
    built: Option<ResponseHeader>,
    name: Seq<char>,
)
    requires
        call_ensures(suppressed_header::<V>, (ctx, response, hop_by_hop, is_head), built),
        sendable_entries(header_entries(response.headers)),
    ensures
        final(ctx).response_delivery_complete,
        *final(ctx) == (RequestCtx {
            response_delivery_complete: final(ctx).response_delivery_complete,
            ..*old(ctx)
        }),
        built is Some <==> 200 <= response.status <= 599,
        built matches Some(header) ==> {
            let sent = response_entries(header);
            let given = header_entries(response.headers);
            let unmeasured = response.status == 204 || (!is_head && response.status != 304);
            &&& is_standard(header, response.status)
            &&& in_step(header)
            &&& is_spelled_as_usual(header, ascii_lower(name))
            &&& !has_entry(sent, "transfer-encoding"@)
            &&& unmeasured ==> !has_entry(sent, "content-length"@)
            &&& is_internal(name) ==> !has_entry(sent, ascii_lower(name))
            &&& is_unframed(ascii_lower(name)) && !is_internal(name) && not_among(
                hop_by_hop@,
                ascii_lower(name),
            ) ==> entry_values(sent, ascii_lower(name)) == entry_values(given, ascii_lower(name))
            &&& !unmeasured && not_among(hop_by_hop@, "content-length"@) ==> entry_values(
                sent,
                "content-length"@,
            ) == entry_values(given, "content-length"@)
        },
{
    let given = header_entries(response.headers);
    let names = names_view(hop_by_hop@);
    let shown = shown_entries(given, names);
    let status = response.status;
    let is_304 = status == 304;
    let version = HttpVersion::Http10;
    lemma_framing_names();
    lemma_shown(given, hop_by_hop@, name);
    lemma_shown(given, hop_by_hop@, CONTENT_LENGTH@);
    law_streaming_has_one_framing(given, names, status, is_head, is_304, version);
    if ascii_lower(name) != TRANSFER_ENCODING@ {
        lemma_framed(shown, status, is_head, is_304, version, ascii_lower(name));
    }
    lemma_framed(shown, status, is_head, is_304, version, CONTENT_LENGTH@);
    if is_internal(name) {
        law_terminal_hides_reserved_headers(
            given,
            names,
            0,
            status,
            is_head,
            is_304,
            version,
            name,
        );
    }
    if is_internal(CONTENT_LENGTH@) {
        crate::terminal::lemma_framing_is_not_reserved(CONTENT_LENGTH@);
    }
    lemma_framed_stays_sendable(shown, status, is_head, is_304, version);
    law_rebuild_keeps_fields(streaming_entries(given, names, status, is_head, is_304, version));
    lemma_appended_are_spelled_as_usual(
        fields_of(streaming_entries(given, names, status, is_head, is_304, version)),
        ascii_lower(name),
    );
}

/// A streamed chunk passes exactly where the filters let it through and the bytes so far are
/// within the limit: that of a size limit, or the global one where the mode only streams.
pub proof fn law_streamed_chunks_pass_within_their_limit<V>(
    ctx: &RequestCtx<V>,
    passed: Result<(), Rejection>,
    ceiling: Option<usize>,
    event: StreamEvent,
    exceeded: bool,
)
    requires
        call_ensures(chunk_event::<V>, (ctx, passed, ceiling), event),
        call_ensures(streaming_size_limit_exceeded::<V>, (ctx, ceiling), exceeded),
    ensures
        event is Passed || event is Stopped,
        event is Passed <==> passed is Ok && !exceeded,
        ctx.response_body_mode matches BodyMode::SizeLimit { max_bytes } ==> (exceeded
            <==> ctx.response_body_bytes > max_bytes),
        ctx.response_body_mode is Stream ==> (exceeded <==> ceiling is Some
            && ctx.response_body_bytes > ceiling->0),
        ctx.response_body_mode is StreamBuffer ==> !exceeded,
{
}

// ----- Order of a delivery -----

/// A delivery starts with the response filters, on the header of a source whose extensions
/// the request holds.
pub proof fn law_deliveries_start_with_the_filters(started: (StreamPhase, Vec<StreamAction>))
    requires
        call_ensures(start_stream, (), started),
    ensures
        started.0 is Preparing,
        started.1@ == seq![StreamAction::SwapExtensions, StreamAction::RunResponseFilters],
{
}

/// What the filters decide of the header is done: a rejection is sent, a response that cannot
/// be streamed is answered with 500, one without a body is suppressed at its source, and
/// any other is written.
pub proof fn law_prepared_streams_are_begun(
    event: StreamEvent,
    next: (StreamPhase, Vec<StreamAction>),
)
    requires
        call_ensures(next_stream_step, (StreamPhase::Preparing, event), next),
    ensures
        event is Rejected ==> next.0 is Closed && next.1@.last() == StreamAction::SendRejection
            && next.1@.contains(StreamAction::Cancel),
        event is Refused ==> next.0 is Closed && next.1@.last() == StreamAction::SendInternalError
            && next.1@.contains(StreamAction::Cancel),
        event is Bodyless ==> next.0 is Suppressing && next.1@.last() == StreamAction::Suppress,
        event is Ready ==> next.0 is WritingHeader && next.1@.last() == StreamAction::WriteHeader,
{
    if event is Rejected {
        assert(next.1@[0] == StreamAction::Cancel);
    }
    if event is Refused {
        assert(next.1@[2] == StreamAction::Cancel);
    }
}

/// Every chunk that the source gives is filtered, and written exactly where the filters let
/// it through; the source is asked again once it is written. The end of the source is
/// filtered too, and then written.
pub proof fn law_streamed_chunks_are_filtered_and_written(
    event: StreamEvent,
    header: (StreamPhase, Vec<StreamAction>),
    polled: (StreamPhase, Vec<StreamAction>),
    filtered: (StreamPhase, Vec<StreamAction>),
    written: (StreamPhase, Vec<StreamAction>),
    ended: (StreamPhase, Vec<StreamAction>),
)
    requires
        call_ensures(next_stream_step, (StreamPhase::WritingHeader, event), header),
        call_ensures(next_stream_step, (StreamPhase::Polling, event), polled),
        call_ensures(next_stream_step, (StreamPhase::FilteringChunk, event), filtered),
        call_ensures(next_stream_step, (StreamPhase::WritingChunk, event), written),
        call_ensures(next_stream_step, (StreamPhase::FilteringEnd, event), ended),
    ensures
        event is Written ==> header.0 is Polling && header.1@.last() == StreamAction::Poll,
        event is Chunk ==> polled.0 is FilteringChunk && polled.1@.last()
            == StreamAction::FilterChunk,
        event is End ==> polled.0 is FilteringEnd && polled.1@.last() == StreamAction::FilterEnd,
        event is Passed ==> filtered.0 is WritingChunk && filtered.1@.last()
            == StreamAction::WriteChunk,
        event is Written ==> written.0 is Polling && written.1@ == seq![StreamAction::Poll],
        event is Passed ==> ended.0 is WritingEnd && ended.1@ == seq![StreamAction::WriteEnd],
{
}

/// A stream that is broken off, by the client, the source, the filters or a write that fails,
/// cancels its source and closes the connection; the client gets nothing more. After the
/// last write there is nothing left to cancel.
pub proof fn law_broken_streams_are_shut_down(
    phase: StreamPhase,
    event: StreamEvent,
    next: (StreamPhase, Vec<StreamAction>),
)
    requires
        call_ensures(next_stream_step, (phase, event), next),
        ({
            ||| phase is WritingHeader && event is WriteFailed
            ||| phase is Polling && (event is Disconnected || event is SourceFailed)
            ||| phase is FilteringChunk && event is Stopped
            ||| phase is WritingChunk && event is WriteFailed
            ||| phase is FilteringEnd && event is Stopped
        }),
    ensures
        next.0 is Closed,
        next.1@.len() >= 2,
        next.1@.last() == StreamAction::Shutdown,
        next.1@[next.1@.len() - 2] == StreamAction::Cancel,
        forall|i: int|
            0 <= i < next.1@.len() - 2 ==> #[trigger] next.1@[i] == StreamAction::SwapExtensions,
{
}

/// What the source makes of a suppression decides the answer: the header alone where it can
/// be sent, and else 500 with the source cancelled. The last write of a delivery ends it,
/// and closes the connection exactly where it failed.
pub proof fn law_deliveries_end_with_their_last_write(
    event: StreamEvent,
    suppressing: (StreamPhase, Vec<StreamAction>),
    suppressed: (StreamPhase, Vec<StreamAction>),
    ending: (StreamPhase, Vec<StreamAction>),
)
    requires
        call_ensures(next_stream_step, (StreamPhase::Suppressing, event), suppressing),
        call_ensures(next_stream_step, (StreamPhase::WritingSuppressed, event), suppressed),
        call_ensures(next_stream_step, (StreamPhase::WritingEnd, event), ending),
    ensures
        event is Suppressed ==> suppressing.0 is WritingSuppressed && suppressing.1@ == seq![
            StreamAction::WriteSuppressedHeader,
        ],
        event is SuppressedUnsendable || event is SuppressFailed ==> suppressing.0 is Closed
            && suppressing.1@ == seq![StreamAction::Cancel, StreamAction::SendInternalError],
        event is Written ==> suppressed.0 is Closed && suppressed.1@.len() == 0,
        event is WriteFailed ==> suppressed.0 is Closed && suppressed.1@ == seq![
            StreamAction::Shutdown,
        ],
        event is Written ==> ending.0 is Closed && ending.1@.len() == 0,
        event is WriteFailed ==> ending.0 is Closed && ending.1@ == seq![StreamAction::Shutdown],
{
}

/// An event that does not belong to a phase changes nothing, and neither does any event once
/// the delivery is over. The exchange is aborted on a close only while the source is not
/// being asked.
pub proof fn law_stray_events_change_nothing(
    phase: StreamPhase,
    event: StreamEvent,
    next: (StreamPhase, Vec<StreamAction>),
)
    requires
        call_ensures(next_stream_step, (phase, event), next),
    ensures
        phase is Closed ==> next.0 is Closed && next.1@.len() == 0,
        (phase is Polling && (event is Written || event is Passed || event is Ready)) || (
        phase is FilteringChunk && (event is Chunk || event is End || event is Written)) || (
        phase is WritingChunk && (event is Chunk || event is End || event is Passed)) ==> next.0
            == phase && next.1@.len() == 0,
        next.1@.contains(StreamAction::AbortOnClose(false)) <==> phase is WritingHeader
            && event is Written,
        next.1@.contains(StreamAction::AbortOnClose(true)) <==> phase is Polling && event is End,
{
    let actions = next.1@;
    if phase is WritingHeader && event is Written {
        assert(actions[0] == StreamAction::AbortOnClose(false));
    }
    if phase is Polling && event is End {
        assert(actions[0] == StreamAction::AbortOnClose(true));
    }
    if actions.contains(StreamAction::AbortOnClose(false)) {
        let i = actions.index_of(StreamAction::AbortOnClose(false));
        assert(0 <= i < actions.len() && actions[i] == StreamAction::AbortOnClose(false));
    }
    if actions.contains(StreamAction::AbortOnClose(true)) {
        let i = actions.index_of(StreamAction::AbortOnClose(true));
        assert(0 <= i < actions.len() && actions[i] == StreamAction::AbortOnClose(true));
    }
}

} // verus!
