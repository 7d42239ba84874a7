//! Responses made by filters: running the response filters on them, and the
//! header and body that are sent.
use crate::body::{clamp_body_mode_to_ceiling, clamped_mode, BodyMode};
use crate::chunk::{body_data, bytes_data};
use crate::context::{
    is_bare_rejection, FilterAction, FilterContext, FilterError, HttpVersion, Rejection, RequestCtx,
    Response,
};
use crate::headers::{
    accepted_fields, accepted_spellings, appended, ascii_lower, distinct_names, entries_insert,
    entries_remove, entry_index, entry_values, fields_of, fields_view, has_entry, header_entries,
    is_reserved_name, known_name, lemma_accepted_push, lemma_all_accepted, lemma_appended,
    lemma_appended_push, lemma_copied_few, lemma_entry_index, lemma_fields_among, lemma_insert,
    lemma_remove, map_fields, map_insert, map_remove, names_among, names_view, parse_value, plain,
    spelling, valid_name, valid_value, values_under, Entries, Fields, Intake, Spellings,
    MAX_HEADER_NAMES, RESERVED_EXTENSION_PREFIX, RESERVED_PROXY_PREFIX,
};
use crate::mutations::removed;
use crate::rejection::{
    insert_length, length_value, lemma_length_is_sendable, sent_status, CONTENT_LENGTH,
};
use crate::response_body::delivered;
use crate::response_phase::{
    lemma_shown_shrinks, rebuilt_entries, rebuilt_spellings, shown_entries,
};
use crate::strip::{
    law_rebuild_keeps_fields, law_strip_hides_reserved_headers, lemma_removed,
    lemma_removed_stays_well_formed, lemma_sendable_fields, reserved_names, sendable_entries,
    strip_hop_by_hop_header_map, strip_reserved_internal_header_map, well_formed,
};
use crate::text::{ascii_bytes, same_text};
use crate::transport::{
    custom_reason, in_step, name_counts, plain_status_line, response_append_field, response_build,
    response_entries, response_status, response_version, spelled_names,
};
use bytes::Bytes;
use http::{HeaderMap, HeaderName};
use pingora_http::ResponseHeader;
use vstd::prelude::*;
use vstd::string::*;
use vstd::utf8::*;

verus! {

/// The header name of the transfer coding.
pub const TRANSFER_ENCODING: &'static str = "transfer-encoding";

/// The transfer coding of a body of unknown length.
pub const CHUNKED: &'static str = "chunked";

// ----- Response filters -----

/// Starts a terminal response: records it as the response and gives filters a
/// status that can be sent. The second result tells whether the filters run;
/// without a captured request the response is sent as it is.
pub fn begin_terminal_response<V>(
    ctx: &mut RequestCtx<V>,
    status: u16,
    headers: HeaderMap,
) -> (begun: (Response, bool))
    ensures
        begun.0 == (Response { status: sent_status(status), headers }),
        begun.1 == old(ctx).request_snapshot is Some,
        *final(ctx) == (RequestCtx {
            response_phase_done: true,
            upstream_response_status: Some(status),
            ..*old(ctx)
        }),
{
    let sent: u16 = if 100 <= status && status <= 999 {
        status
    } else {
        500
    };
    ctx.response_phase_done = true;
    ctx.upstream_response_status = Some(status);
    (Response { status: sent, headers }, ctx.request_snapshot.is_some())
}

/// What the filters of a terminal response leave in the request context.
pub open spec fn terminal_written<V>(before: RequestCtx<V>, fctx: FilterContext<V>) -> RequestCtx<
    V,
> {
    RequestCtx {
        cluster: fctx.cluster,
        upstream: fctx.upstream,
        extensions: fctx.extensions,
        filter_metadata: fctx.filter_metadata,
        filter_state: fctx.filter_state,
        filter_results: fctx.filter_results,
        structured_metadata: fctx.structured_metadata,
        cached_executed_branch_filters: fctx.executed_branch_filters,
        cached_executed_filter_indices: fctx.executed_filter_indices,
        cached_body_done_indices: fctx.body_done_indices,
        ..before
    }
}

/// Takes the outcome of the response filters on a terminal response. A rejection
/// replaces the response; a failure is answered with 500.
pub fn finish_terminal_response<V, S>(
    ctx: &mut RequestCtx<V>,
    fctx: FilterContext<V>,
    result: Result<FilterAction<S>, FilterError>,
    response: Response,
) -> (prepared: Result<Response, Rejection>)
    ensures
        *final(ctx) == (RequestCtx {
            response_body_mode: clamped_mode(
                fctx.response_body_mode,
                old(ctx).response_body_mode,
            ),
            ..terminal_written(*old(ctx), fctx)
        }),
        match result {
            Ok(FilterAction::Reject(rejection)) => prepared == Err::<Response, Rejection>(
                rejection,
            ),
            Err(_) => prepared matches Err(rejection) && is_bare_rejection(rejection, 500),
            Ok(_) => prepared == Ok::<Response, Rejection>(response),
        },
{
    let baseline_response_body_mode = ctx.response_body_mode;
    ctx.cluster = fctx.cluster;
    ctx.upstream = fctx.upstream;
    ctx.extensions = fctx.extensions;
    ctx.filter_metadata = fctx.filter_metadata;
    ctx.filter_state = fctx.filter_state;
    ctx.filter_results = fctx.filter_results;
    ctx.structured_metadata = fctx.structured_metadata;
    ctx.cached_executed_branch_filters = fctx.executed_branch_filters;
    ctx.cached_executed_filter_indices = fctx.executed_filter_indices;
    ctx.cached_body_done_indices = fctx.body_done_indices;
    ctx.response_body_mode =
    clamp_body_mode_to_ceiling(fctx.response_body_mode, baseline_response_body_mode);
    match result {
        Ok(FilterAction::Reject(rejection)) => Err(rejection),
        Err(_) => Err(Rejection::status(500)),
        Ok(_) => Ok(response),
    }
}

/// Whether the body filters run on a chunk of a terminal response: only for a
/// request that was captured.
pub fn terminal_body_filters_run<V>(ctx: &RequestCtx<V>) -> (run: bool)
    ensures
        run == ctx.request_snapshot is Some,
{
    ctx.request_snapshot.is_some()
}

/// Takes the outcome of the body filters on a chunk of a terminal response. The
/// end of a stream that goes on completes the delivery.
pub fn finish_terminal_body<V, S>(
    ctx: &mut RequestCtx<V>,
    fctx: FilterContext<V>,
    result: Result<FilterAction<S>, FilterError>,
    end_of_stream: bool,
) -> (passed: Result<(), Rejection>)
    ensures
        *final(ctx) == delivered(
            RequestCtx {
                response_body_bytes: fctx.response_body_bytes,
                ..terminal_written(*old(ctx), fctx)
            },
            end_of_stream && passed is Ok,
        ),
        match result {
            Ok(FilterAction::Reject(rejection)) => passed == Err::<(), Rejection>(rejection),
            Err(_) => passed matches Err(rejection) && is_bare_rejection(rejection, 500),
            Ok(_) => passed is Ok,
        },
{
    ctx.response_body_bytes = fctx.response_body_bytes;
    ctx.cluster = fctx.cluster;
    ctx.upstream = fctx.upstream;
    ctx.extensions = fctx.extensions;
    ctx.filter_metadata = fctx.filter_metadata;
    ctx.filter_state = fctx.filter_state;
    ctx.filter_results = fctx.filter_results;
    ctx.structured_metadata = fctx.structured_metadata;
    ctx.cached_executed_branch_filters = fctx.executed_branch_filters;
    ctx.cached_executed_filter_indices = fctx.executed_filter_indices;
    ctx.cached_body_done_indices = fctx.body_done_indices;
    match result {
        Ok(FilterAction::Reject(rejection)) => Err(rejection),
        Err(_) => Err(Rejection::status(500)),
        Ok(_) => {
            if end_of_stream {
                ctx.response_delivery_complete = true;
            }
            Ok(())
        },
    }
}

// ----- Buffered delivery -----

/// What follows the response filters of a buffered terminal response.
#[derive(Clone, Copy, Debug, PartialEq, Eq, Structural)]
pub enum TerminalNext {
    /// The body filters run on the whole body.
    RunBodyFilters,
    /// The response is sent.
    Send,
}

/// Says what follows the response filters. A response without a body is
/// delivered with its header.
pub fn after_terminal_filters<V>(ctx: &mut RequestCtx<V>, is_bodyless: bool) -> (next: TerminalNext)
    ensures
        next == (if !is_bodyless && old(ctx).request_snapshot is Some {
            TerminalNext::RunBodyFilters
        } else {
            TerminalNext::Send
        }),
        *final(ctx) == delivered(*old(ctx), is_bodyless),
{
    if is_bodyless {
        ctx.response_delivery_complete = true;
        return TerminalNext::Send;
    }
    if terminal_body_filters_run(ctx) {
        TerminalNext::RunBodyFilters
    } else {
        TerminalNext::Send
    }
}

/// A status that forbids a body.
pub open spec fn forbids_body(status: u16) -> bool {
    status == 204 || status == 304
}

/// A status that a terminal response can be sent with.
pub open spec fn is_final_status(status: u16) -> bool {
    200 <= status <= 599
}

/// The fields without the body length.
pub open spec fn without_length(fields: Fields) -> Fields
    decreases fields.len(),
{
    if fields.len() == 0 {
        Seq::empty()
    } else if fields.last().0 == CONTENT_LENGTH@ {
        without_length(fields.drop_last())
    } else {
        without_length(fields.drop_last()).push(fields.last())
    }
}

/// The fields that a terminal header takes over: the answer to a HEAD request
/// keeps its body length.
pub open spec fn kept_fields(fields: Fields, is_head: bool) -> Fields {
    if is_head {
        fields
    } else {
        without_length(fields)
    }
}

/// The entries of the header of a buffered terminal response.
pub open spec fn terminal_entries(
    entries: Entries,
    body_len: nat,
    body_prohibited: bool,
    is_head: bool,
) -> Entries {
    let kept = appended(
        Seq::empty(),
        accepted_fields(kept_fields(fields_of(entries), is_head), Intake::Named),
    );
    if body_prohibited || is_head {
        kept
    } else {
        entries_insert(kept, CONTENT_LENGTH@, length_value(body_len))
    }
}

/// The spellings of the header of a buffered terminal response.
pub open spec fn terminal_spellings(
    entries: Entries,
    body_prohibited: bool,
    is_head: bool,
) -> Spellings {
    let kept = appended(
        Seq::empty(),
        accepted_spellings(kept_fields(fields_of(entries), is_head), Intake::Named),
    );
    if body_prohibited || is_head {
        kept
    } else {
        entries_insert(kept, CONTENT_LENGTH@, CONTENT_LENGTH@)
    }
}

proof fn lemma_kept_step(fields: Fields, is_head: bool, i: int)
    requires
        0 <= i < fields.len(),
    ensures
        kept_fields(fields.take(i + 1), is_head) == (if is_head || fields[i].0 != CONTENT_LENGTH@ {
            kept_fields(fields.take(i), is_head).push(fields[i])
        } else {
            kept_fields(fields.take(i), is_head)
        }),
{
    assert(fields.take(i + 1) =~= fields.take(i).push(fields[i]));
    assert(fields.take(i + 1).drop_last() =~= fields.take(i));
}

/// The fields that are kept have names that are among the entries they are from.
proof fn lemma_kept_among(fields: Fields, is_head: bool, entries: Entries)
    requires
        names_among(fields, entries),
    ensures
        names_among(kept_fields(fields, is_head), entries),
    decreases fields.len(),
{
    if !is_head && fields.len() > 0 {
        let shorter = fields.drop_last();
        assert forall|i: int| 0 <= i < shorter.len() implies has_entry(
            entries,
            #[trigger] shorter[i].0,
        ) by {
            assert(has_entry(entries, fields[i].0));
        }
        lemma_kept_among(shorter, is_head, entries);
        assert(has_entry(entries, fields[fields.len() - 1].0));
        let before = without_length(shorter);
        let after = without_length(fields);
        assert forall|i: int| 0 <= i < after.len() implies has_entry(
            entries,
            #[trigger] after[i].0,
        ) by {
            if i < before.len() {
                assert(has_entry(entries, before[i].0));
            }
        }
    }
}

/// Copying the first fields that are kept of a map makes no more entries than it
/// has, and adds no name.
proof fn lemma_kept_few(entries: Entries, is_head: bool, i: int, name: Seq<char>)
    requires
        0 <= i <= fields_of(entries).len(),
    ensures
        ({
            let kept = kept_fields(fields_of(entries).take(i), is_head);
            let made = appended(Entries::empty(), accepted_fields(kept, Intake::Named));
            made.len() <= entries.len() && (has_entry(made, name) ==> has_entry(entries, name))
        }),
{
    let fields = fields_of(entries).take(i);
    lemma_fields_among(entries, i);
    lemma_kept_among(fields, is_head, entries);
    lemma_copied_few(kept_fields(fields, is_head), entries, name);
}

/// Appends the fields of a map to a header without fields.
fn append_map_fields(header: &mut ResponseHeader, headers: &HeaderMap, with_length: bool)
    requires
        response_entries(*old(header)) == Entries::empty(),
        spelled_names(*old(header)) == Some(Spellings::empty()),
        in_step(*old(header)),
        header_entries(*headers).len() < MAX_HEADER_NAMES,
    ensures
        response_entries(*final(header)) == appended(
            Entries::empty(),
            accepted_fields(
                kept_fields(fields_of(header_entries(*headers)), with_length),
                Intake::Named,
            ),
        ),
        spelled_names(*final(header)) == Some(
            appended(
                Spellings::empty(),
                accepted_spellings(
                    kept_fields(fields_of(header_entries(*headers)), with_length),
                    Intake::Named,
                ),
            ),
        ),
        response_entries(*final(header)).len() < MAX_HEADER_NAMES,
        response_status(*final(header)) == response_status(*old(header)),
        custom_reason(*final(header)) == custom_reason(*old(header)),
        response_version(*final(header)) == response_version(*old(header)),
        in_step(*final(header)),
{
    let fields = map_fields(headers);
    let ghost entries = header_entries(*headers);
    let ghost views = fields_of(entries);
    let ghost none = Entries::empty();
    let ghost blank = Spellings::empty();
    let ghost start = *header;
    assert(fields_view(fields@).len() == fields@.len());
    let mut i: usize = 0;
    assert(views.take(0) =~= Fields::empty());
    while i < fields.len()
        invariant
            i <= fields@.len(),
            fields_view(fields@) == views,
            views == fields_of(entries),
            entries.len() < MAX_HEADER_NAMES,
            none == Entries::empty(),
            response_entries(*header) == appended(
                none,
                accepted_fields(kept_fields(views.take(i as int), with_length), Intake::Named),
            ),
            spelled_names(*header) == Some(
                appended(
                    blank,
                    accepted_spellings(
                        kept_fields(views.take(i as int), with_length),
                        Intake::Named,
                    ),
                ),
            ),
            response_status(*header) == response_status(start),
            custom_reason(*header) == custom_reason(start),
            response_version(*header) == response_version(start),
            in_step(*header),
        decreases fields@.len() - i,
    {
        let name = &fields[i].0;
        proof {
            let kept = kept_fields(views.take(i as int), with_length);
            let field = views[i as int];
            assert(field == fields_view(fields@)[i as int]);
            lemma_kept_step(views, with_length, i as int);
            lemma_accepted_push(kept, field, Intake::Named);
            lemma_appended_push(none, accepted_fields(kept, Intake::Named), field);
            lemma_appended_push(
                blank,
                accepted_spellings(kept, Intake::Named),
                (field.0, spelling(field.0, Intake::Named)),
            );
            lemma_kept_few(entries, with_length, i as int, Seq::empty());
        }
        if with_length || !same_text(name.as_str(), CONTENT_LENGTH) {
            let _appended = response_append_field(header, name, &fields[i].1);
        }
        i += 1;
    }
    proof {
        lemma_kept_few(entries, with_length, i as int, Seq::empty());
        assert(views.take(i as int) =~= views);
    }
}

/// Builds the header of a buffered terminal response. `None` for a status that
/// it cannot be sent with.
pub fn build_terminal_header(
    response: &Response,
    body: Option<&Bytes>,
    body_prohibited: bool,
    is_head: bool,
) -> (built: Option<ResponseHeader>)
    requires
        is_final_status(response.status) ==> header_entries(response.headers).len()
            < MAX_HEADER_NAMES,
    ensures
        built is Some <==> is_final_status(response.status),
        built matches Some(header) ==> {
            &&& response_status(header) == response.status
            &&& plain_status_line(header)
            &&& in_step(header)
            &&& response_entries(header) == terminal_entries(
                header_entries(response.headers),
                match body {
                    Some(chunk) => bytes_data(*chunk).len(),
                    None => 0,
                },
                body_prohibited,
                is_head,
            )
            &&& spelled_names(header) == Some(
                terminal_spellings(header_entries(response.headers), body_prohibited, is_head),
            )
        },
{
    if response.status < 200 || response.status > 599 {
        return None;
    }
    let mut header = response_build(response.status, 8).unwrap();
    assert(name_counts(response_entries(header)) =~= name_counts(Spellings::empty()));
    append_map_fields(&mut header, &response.headers, is_head);
    if !body_prohibited && !is_head {
        let len: usize = match body {
            Some(chunk) => chunk.len(),
            None => 0,
        };
        insert_length(&mut header, len);
    }
    Some(header)
}

/// How a buffered terminal response is written.
pub enum TerminalPlan {
    /// The response cannot be sent; a rejection is.
    Reject(Rejection),
    /// Header, then body if there is one.
    Write {
        /// Header to write.
        header: ResponseHeader,
        /// Whether the header ends the stream.
        end_of_stream: bool,
        /// Body to write after the header.
        body: Option<Bytes>,
    },
}

/// Plans how to send a buffered terminal response: hop-by-hop and internal
/// headers are stripped, and no body goes out with a HEAD answer or a status that
/// forbids it.
pub fn plan_terminal_response(
    response: Response,
    body: Option<Bytes>,
    hop_by_hop: &Vec<HeaderName>,
    is_head: bool,
) -> (plan: TerminalPlan)
    requires
        is_final_status(response.status) ==> header_entries(response.headers).len()
            < MAX_HEADER_NAMES,
    ensures
        !is_final_status(response.status) ==> (plan matches TerminalPlan::Reject(rejection)
            && is_bare_rejection(rejection, 500)),
        is_final_status(response.status) ==> {
            let send_body = !is_head && !forbids_body(response.status);
            &&& plan matches TerminalPlan::Write { header, end_of_stream, body: sent }
            &&& response_status(header) == response.status
            &&& plain_status_line(header)
            &&& in_step(header)
            &&& response_entries(header) == terminal_entries(
                shown_entries(header_entries(response.headers), names_view(hop_by_hop@)),
                body_data(body).len(),
                forbids_body(response.status),
                is_head,
            )
            &&& spelled_names(header) == Some(
                terminal_spellings(
                    shown_entries(header_entries(response.headers), names_view(hop_by_hop@)),
                    forbids_body(response.status),
                    is_head,
                ),
            )
            &&& end_of_stream == (!send_body || body is None)
            &&& sent == (if send_body {
                body
            } else {
                None
            })
        },
{
    proof {
        lemma_shown_shrinks(header_entries(response.headers), names_view(hop_by_hop@));
    }
    let mut response = response;
    strip_hop_by_hop_header_map(&mut response.headers, hop_by_hop);
    strip_reserved_internal_header_map(&mut response.headers);
    let body_prohibited = response.status == 204 || response.status == 304;
    match build_terminal_header(&response, body.as_ref(), body_prohibited, is_head) {
        Some(header) => {
            let send_body = !is_head && !body_prohibited;
            let end_of_stream = !send_body || body.is_none();
            TerminalPlan::Write {
                header,
                end_of_stream,
                body: if send_body {
                    body
                } else {
                    None
                },
            }
        },
        None => TerminalPlan::Reject(Rejection::status(500)),
    }
}

// ----- Streamed delivery -----

/// The fields of a streamed response: hop-by-hop and internal ones are stripped,
/// and the framing is that of a stream.
pub open spec fn streaming_entries(
    entries: Entries,
    hop_by_hop: Seq<Seq<char>>,
    status: u16,
    is_head: bool,
    is_not_modified: bool,
    version: HttpVersion,
) -> Entries {
    framed_entries(
        shown_entries(entries, hop_by_hop),
        status,
        is_head,
        is_not_modified,
        version,
    )
}

/// Fields with the framing of a stream: the body length goes unless there is no
/// body to measure, and only HTTP/1.1 marks the body as chunked.
pub open spec fn framed_entries(
    shown: Entries,
    status: u16,
    is_head: bool,
    is_not_modified: bool,
    version: HttpVersion,
) -> Entries {
    let unmeasured = if status == 204 || (!is_head && !is_not_modified) {
        entries_remove(shown, CONTENT_LENGTH@)
    } else {
        shown
    };
    let unframed = entries_remove(unmeasured, TRANSFER_ENCODING@);
    if version == HttpVersion::Http11 && !is_head && !is_not_modified {
        entries_insert(unframed, TRANSFER_ENCODING@, plain(ascii_bytes(CHUNKED@)))
    } else {
        unframed
    }
}

/// The framing headers are written in lower case and accepted as they are.
pub proof fn lemma_framing_names()
    ensures
        ascii_lower(CONTENT_LENGTH@) == CONTENT_LENGTH@,
        ascii_lower(TRANSFER_ENCODING@) == TRANSFER_ENCODING@,
        CONTENT_LENGTH@ != TRANSFER_ENCODING@,
        valid_name(CONTENT_LENGTH@),
        valid_name(TRANSFER_ENCODING@),
        encode_utf8(CHUNKED@) == ascii_bytes(CHUNKED@),
        valid_value(ascii_bytes(CHUNKED@)),
{
    lemma_length_is_sendable(0);
    reveal_strlit("content-length");
    reveal_strlit("transfer-encoding");
    reveal_strlit("chunked");
    assert(ascii_lower(TRANSFER_ENCODING@) =~= TRANSFER_ENCODING@);
    assert(CONTENT_LENGTH@.len() != TRANSFER_ENCODING@.len());
    assert(is_ascii_chars(CHUNKED@));
    is_ascii_chars_encode_utf8(CHUNKED@);
    assert(encode_utf8(CHUNKED@) =~= ascii_bytes(CHUNKED@));
}

/// Whether a streamed response is marked as chunked.
pub open spec fn is_chunked(is_head: bool, is_not_modified: bool, version: HttpVersion) -> bool {
    version == HttpVersion::Http11 && !is_head && !is_not_modified
}

/// Preparing a streamed response adds at most the mark that it is chunked.
pub proof fn lemma_streaming_fits(
    entries: Entries,
    hop_by_hop: Seq<Seq<char>>,
    status: u16,
    is_head: bool,
    is_not_modified: bool,
    version: HttpVersion,
)
    ensures
        streaming_entries(entries, hop_by_hop, status, is_head, is_not_modified, version).len()
            <= entries.len() + (if is_chunked(is_head, is_not_modified, version) {
            1int
        } else {
            0
        }),
{
    let shown = shown_entries(entries, hop_by_hop);
    lemma_shown_shrinks(entries, hop_by_hop);
    lemma_entry_index(shown, CONTENT_LENGTH@);
    let unmeasured = if status == 204 || (!is_head && !is_not_modified) {
        entries_remove(shown, CONTENT_LENGTH@)
    } else {
        shown
    };
    lemma_entry_index(unmeasured, TRANSFER_ENCODING@);
    let unframed = entries_remove(unmeasured, TRANSFER_ENCODING@);
    lemma_entry_index(unframed, TRANSFER_ENCODING@);
}

/// Removes transport framing and hop-by-hop headers before a streamed response
/// is committed.
pub fn prepare_streaming_headers(
    response: &mut Response,
    hop_by_hop: &Vec<HeaderName>,
    is_head: bool,
    is_not_modified: bool,
    version: HttpVersion,
)
    requires
        is_chunked(is_head, is_not_modified, version) ==> header_entries(
            old(response).headers,
        ).len() < MAX_HEADER_NAMES,
    ensures
        final(response).status == old(response).status,
        header_entries(final(response).headers) == streaming_entries(
            header_entries(old(response).headers),
            names_view(hop_by_hop@),
            old(response).status,
            is_head,
            is_not_modified,
            version,
        ),
{
    proof {
        lemma_framing_names();
        lemma_shown_shrinks(header_entries(response.headers), names_view(hop_by_hop@));
    }
    strip_hop_by_hop_header_map(&mut response.headers, hop_by_hop);
    strip_reserved_internal_header_map(&mut response.headers);
    proof {
        lemma_entry_index(header_entries(response.headers), CONTENT_LENGTH@);
    }
    if response.status == 204 || (!is_head && !is_not_modified) {
        map_remove(&mut response.headers, &known_name(CONTENT_LENGTH));
    }
    proof {
        lemma_entry_index(header_entries(response.headers), TRANSFER_ENCODING@);
    }
    map_remove(&mut response.headers, &known_name(TRANSFER_ENCODING));
    if version == HttpVersion::Http11 && !is_head && !is_not_modified {
        let chunked = parse_value(CHUNKED.as_bytes()).unwrap();
        map_insert(&mut response.headers, &known_name(TRANSFER_ENCODING), &chunked);
    }
}

/// Builds the header of a streamed response without making up a body length.
/// `None` for a status that it cannot be sent with.
pub fn build_streaming_terminal_header(response: &Response) -> (built: Option<ResponseHeader>)
    requires
        is_final_status(response.status) ==> header_entries(response.headers).len()
            < MAX_HEADER_NAMES,
    ensures
        built is Some <==> is_final_status(response.status),
        built matches Some(header) ==> {
            &&& response_status(header) == response.status
            &&& plain_status_line(header)
            &&& in_step(header)
            &&& response_entries(header) == rebuilt_entries(header_entries(response.headers))
            &&& spelled_names(header) == Some(
                rebuilt_spellings(header_entries(response.headers)),
            )
        },
{
    if response.status < 200 || response.status > 599 {
        return None;
    }
    let mut header = response_build(response.status, 8).unwrap();
    assert(name_counts(response_entries(header)) =~= name_counts(Spellings::empty()));
    append_map_fields(&mut header, &response.headers, true);
    Some(header)
}

/// The limit on a streamed response: that of the mode, or the global one where
/// the mode only streams.
pub open spec fn streaming_limit(mode: BodyMode, ceiling: Option<usize>) -> Option<usize> {
    match mode {
        BodyMode::SizeLimit { max_bytes } => Some(max_bytes),
        BodyMode::Stream => ceiling,
        BodyMode::StreamBuffer { .. } => None,
    }
}

/// Whether a streamed response has gone over its limit.
pub fn streaming_size_limit_exceeded<V>(
    ctx: &RequestCtx<V>,
    ceiling: Option<usize>,
) -> (exceeded: bool)
    ensures
        exceeded == (match streaming_limit(ctx.response_body_mode, ceiling) {
            Some(max) => ctx.response_body_bytes > max,
            None => false,
        }),
{
    let max: usize = match ctx.response_body_mode {
        BodyMode::SizeLimit { max_bytes } => max_bytes,
        BodyMode::Stream => match ceiling {
            Some(max) => max,
            None => return false,
        },
        BodyMode::StreamBuffer { .. } => return false,
    };
    ctx.response_body_bytes > max as u64
}

/// A streamed response has exactly one framing: over HTTP/1.1 a body is marked
/// as chunked and carries no length, and in no other case is a transfer coding
/// sent.
pub proof fn law_streaming_has_one_framing(
    entries: Entries,
    hop_by_hop: Seq<Seq<char>>,
    status: u16,
    is_head: bool,
    is_not_modified: bool,
    version: HttpVersion,
)
    requires
        distinct_names(entries),
    ensures
        ({
            let sent = streaming_entries(
                entries,
                hop_by_hop,
                status,
                is_head,
                is_not_modified,
                version,
            );
            let has_body = !is_head && !is_not_modified;
            &&& has_body ==> !has_entry(sent, CONTENT_LENGTH@)
            &&& status == 204 ==> !has_entry(sent, CONTENT_LENGTH@)
            &&& has_entry(sent, TRANSFER_ENCODING@) <==> version == HttpVersion::Http11 && has_body
            &&& has_entry(sent, TRANSFER_ENCODING@) ==> entry_values(sent, TRANSFER_ENCODING@)
                == seq![plain(ascii_bytes(CHUNKED@))]
        }),
{
    lemma_framing_names();
    lemma_removed(entries, hop_by_hop, CONTENT_LENGTH@);
    let stripped = removed(entries, hop_by_hop);
    lemma_removed(stripped, reserved_names(fields_of(stripped)), CONTENT_LENGTH@);
    let shown = shown_entries(entries, hop_by_hop);
    lemma_remove(shown, CONTENT_LENGTH@, CONTENT_LENGTH@);
    let unmeasured = if status == 204 || (!is_head && !is_not_modified) {
        entries_remove(shown, CONTENT_LENGTH@)
    } else {
        shown
    };
    lemma_remove(unmeasured, TRANSFER_ENCODING@, TRANSFER_ENCODING@);
    lemma_remove(unmeasured, TRANSFER_ENCODING@, CONTENT_LENGTH@);
    let unframed = entries_remove(unmeasured, TRANSFER_ENCODING@);
    lemma_insert(unframed, TRANSFER_ENCODING@, plain(ascii_bytes(CHUNKED@)), TRANSFER_ENCODING@);
    lemma_insert(unframed, TRANSFER_ENCODING@, plain(ascii_bytes(CHUNKED@)), CONTENT_LENGTH@);
}

/// The body length of a buffered terminal response is that of its body, whatever
/// a filter wrote, and where no body may be sent none is made up. The answer to a
/// HEAD request keeps the length that its filters gave it. Every other header goes
/// out as it was.
pub proof fn law_terminal_length_is_that_of_the_body(
    entries: Entries,
    body_len: nat,
    body_prohibited: bool,
    is_head: bool,
    name: Seq<char>,
)
    requires
        sendable_entries(entries),
    ensures
        ({
            let sent = terminal_entries(entries, body_len, body_prohibited, is_head);
            &&& !is_head && !body_prohibited ==> entry_values(sent, CONTENT_LENGTH@)
                == seq![length_value(body_len)]
            &&& !is_head && body_prohibited ==> !has_entry(sent, CONTENT_LENGTH@)
            &&& is_head ==> sent == entries
            &&& name != CONTENT_LENGTH@ ==> entry_values(sent, name) == entry_values(entries, name)
        }),
{
    let none = Entries::empty();
    let fields = fields_of(entries);
    let sent = kept_fields(fields, is_head);
    lemma_kept_names(entries, is_head);
    lemma_all_accepted(sent);
    lemma_sendable_fields(entries);
    let kept = appended(none, sent);
    lemma_insert(kept, CONTENT_LENGTH@, length_value(body_len), CONTENT_LENGTH@);
    lemma_insert(kept, CONTENT_LENGTH@, length_value(body_len), name);
    lemma_appended(none, sent, CONTENT_LENGTH@);
    lemma_appended(none, sent, name);
    law_rebuild_keeps_fields(entries);
    lemma_appended(none, fields, name);
    lemma_without_length(fields, name);
}

/// The fields that are kept of sendable entries have names that are accepted.
proof fn lemma_kept_names(entries: Entries, is_head: bool)
    requires
        sendable_entries(entries),
    ensures
        forall|i: int|
            0 <= i < kept_fields(fields_of(entries), is_head).len() ==> valid_name(
                (#[trigger] kept_fields(fields_of(entries), is_head)[i]).0,
            ),
{
    let fields = fields_of(entries);
    let kept = kept_fields(fields, is_head);
    lemma_fields_among(entries, fields.len() as int);
    assert(fields.take(fields.len() as int) =~= fields);
    lemma_kept_among(fields, is_head, entries);
    assert forall|i: int| 0 <= i < kept.len() implies valid_name((#[trigger] kept[i]).0) by {
        assert(has_entry(entries, kept[i].0));
        lemma_entry_index(entries, kept[i].0);
        assert(valid_name(entries[entry_index(entries, kept[i].0)].0));
    }
}

/// No header that is internal to the proxy reaches the client with a response that
/// a filter made, be it sent at once or streamed.
pub proof fn law_terminal_hides_reserved_headers(
    entries: Entries,
    hop_by_hop: Seq<Seq<char>>,
    body_len: nat,
    status: u16,
    is_head: bool,
    is_not_modified: bool,
    version: HttpVersion,
    name: Seq<char>,
)
    requires
        well_formed(entries),
        is_reserved_name(name),
    ensures
        !has_entry(
            terminal_entries(
                shown_entries(entries, hop_by_hop),
                body_len,
                forbids_body(status),
                is_head,
            ),
            ascii_lower(name),
        ),
        !has_entry(
            streaming_entries(entries, hop_by_hop, status, is_head, is_not_modified, version),
            ascii_lower(name),
        ),
{
    let lower = ascii_lower(name);
    let passed = removed(entries, hop_by_hop);
    let shown = shown_entries(entries, hop_by_hop);
    lemma_framing_is_not_reserved(name);
    lemma_removed_stays_well_formed(entries, hop_by_hop);
    law_strip_hides_reserved_headers(passed, name);
    lemma_removed_stays_well_formed(passed, reserved_names(fields_of(passed)));
    lemma_terminal_adds_no_name(shown, body_len, forbids_body(status), is_head, lower);
    lemma_streaming_adds_no_name(shown, status, is_head, is_not_modified, version, lower);
}

/// A name that frames the body is not internal to the proxy.
pub proof fn lemma_framing_is_not_reserved(name: Seq<char>)
    requires
        is_reserved_name(name),
    ensures
        ascii_lower(name) != CONTENT_LENGTH@,
        ascii_lower(name) != TRANSFER_ENCODING@,
{
    reveal_strlit("content-length");
    reveal_strlit("transfer-encoding");
    reveal_strlit("x-praxis-");
    reveal_strlit("x-ext-");
    let lower = ascii_lower(name);
    if RESERVED_PROXY_PREFIX@.is_prefix_of(lower) {
        assert(lower.subrange(0, RESERVED_PROXY_PREFIX@.len() as int)[0] == 'x');
    } else {
        assert(lower.subrange(0, RESERVED_EXTENSION_PREFIX@.len() as int)[0] == 'x');
    }
    assert(lower[0] == 'x');
}

/// A buffered terminal header has no name but its length that was not there.
proof fn lemma_terminal_adds_no_name(
    entries: Entries,
    body_len: nat,
    body_prohibited: bool,
    is_head: bool,
    name: Seq<char>,
)
    requires
        name != CONTENT_LENGTH@,
        !has_entry(entries, name),
    ensures
        !has_entry(terminal_entries(entries, body_len, body_prohibited, is_head), name),
{
    let fields = fields_of(entries);
    assert(fields.take(fields.len() as int) =~= fields);
    lemma_kept_few(entries, is_head, fields.len() as int, name);
    let kept = appended(
        Entries::empty(),
        accepted_fields(kept_fields(fields, is_head), Intake::Named),
    );
    lemma_insert(kept, CONTENT_LENGTH@, length_value(body_len), name);
}

/// A streamed header has no name but its framing that was not there.
proof fn lemma_streaming_adds_no_name(
    shown: Entries,
    status: u16,
    is_head: bool,
    is_not_modified: bool,
    version: HttpVersion,
    name: Seq<char>,
)
    requires
        distinct_names(shown),
        name != TRANSFER_ENCODING@,
        !has_entry(shown, name),
    ensures
        !has_entry(framed_entries(shown, status, is_head, is_not_modified, version), name),
{
    lemma_remove(shown, CONTENT_LENGTH@, name);
    let unmeasured = if status == 204 || (!is_head && !is_not_modified) {
        entries_remove(shown, CONTENT_LENGTH@)
    } else {
        shown
    };
    lemma_remove(unmeasured, TRANSFER_ENCODING@, name);
    let unframed = entries_remove(unmeasured, TRANSFER_ENCODING@);
    lemma_insert(unframed, TRANSFER_ENCODING@, plain(ascii_bytes(CHUNKED@)), name);
}

/// Leaving out the body length takes away its values and no others.
proof fn lemma_without_length(fields: Fields, name: Seq<char>)
    ensures
        values_under(without_length(fields), CONTENT_LENGTH@).len() == 0,
        name != CONTENT_LENGTH@ ==> values_under(without_length(fields), name) == values_under(
            fields,
            name,
        ),
    decreases fields.len(),
{
    if fields.len() > 0 {
        let shorter = fields.drop_last();
        lemma_without_length(shorter, name);
        if fields.last().0 != CONTENT_LENGTH@ {
            assert(without_length(fields).drop_last() =~= without_length(shorter));
        }
    }
}

} // verus!
