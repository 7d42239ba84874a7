//! Response phase: what happens to the upstream's response header before,
//! during and after the response filters.
//!
//! The filters themselves run outside; each function here takes what they
//! returned and says what happens next.
use crate::body::{clamp_body_mode_to_ceiling, clamped_mode};
use crate::context::{
    Fault, FaultKind, FilterAction, FilterContext, FilterError, HttpVersion, RequestCtx, Response,
};
use crate::headers::{
    accepted_fields, accepted_spellings, appended, ascii_lower, entry_fields, entry_values,
    fields_of, fields_view, has_entry, header_entries, is_reserved_name, known_name,
    lemma_accepted_push, lemma_appended_push, lemma_copied_few, lemma_fields_among, lower_char,
    map_clone, map_contains, map_fields, map_values, names_view, spelling, to_lower, valid_name,
    value_data, values_view, Entries, Fields, Intake, Spellings, MAX_HEADER_NAMES,
};
use crate::mutations::removed;
use crate::rejection::response_header_from_pingora;
use crate::strip::{
    also_without, law_rebuild_keeps_fields, law_strip_hides_reserved_headers,
    law_strip_leaves_clean_headers_alone, lemma_removed_shrinks, lemma_removed_stays_well_formed,
    lemma_shorter_is_well_formed, reserved_names, sendable_entries, strip_hop_by_hop_response,
    strip_reserved_internal, strip_reserved_internal_header_map, well_formed, without_reserved,
};
use crate::text::{ascii_text, chars_of, is_visible, visible_text};
use crate::trace::state::{trim_ows, trimmed};
use crate::transport::{
    canonical_reason, custom_reason, in_step, lines_up, name_counts, plain_status_line,
    reason_phrase, response_append_field, response_build, response_code, response_entries,
    response_get_reason, response_map, response_put_map, response_set_code, response_set_reason,
    response_status, response_version, spelled_names,
};
use http::{HeaderMap, HeaderName};
use pingora_http::ResponseHeader;
use std::collections::hash_map::DefaultHasher;
use std::hash::Hasher;
use vstd::prelude::*;
use vstd::std_specs::hash::DefaultHasherAdditionalSpecFns;
use vstd::string::*;
use vstd::utf8::*;

verus! {

/// The header name of a protocol upgrade.
pub const UPGRADE: &'static str = "upgrade";

/// The header name of an accepted WebSocket handshake.
pub const WEBSOCKET_ACCEPT: &'static str = "sec-websocket-accept";

/// The protocol name of WebSocket.
pub const WEBSOCKET: &'static str = "websocket";

// ----- Upgrades -----

/// The captured request asked for a protocol upgrade.
pub open spec fn asks_upgrade<V>(ctx: RequestCtx<V>) -> bool {
    ctx.request_snapshot is Some && has_entry(
        header_entries(ctx.request_snapshot->0.headers),
        UPGRADE@,
    )
}

/// Whether the client's request had an `Upgrade` header. Without a captured
/// request it had none.
pub fn request_has_upgrade<V>(ctx: &RequestCtx<V>) -> (asked: bool)
    ensures
        asked == asks_upgrade(*ctx),
{
    proof {
        lemma_upgrade_names();
    }
    match &ctx.request_snapshot {
        Some(request) => map_contains(&request.headers, &known_name(UPGRADE)),
        None => false,
    }
}

/// The fields accept a WebSocket upgrade: the `Upgrade` value is `websocket`,
/// whatever its case and the white space around it, and the handshake is
/// answered.
pub open spec fn accepts_websocket(entries: Entries) -> bool {
    let upgrade = entry_values(entries, UPGRADE@);
    &&& upgrade.len() > 0
    &&& is_visible(upgrade[0].0)
    &&& ascii_lower(trimmed(ascii_text(upgrade[0].0))) == WEBSOCKET@
    &&& has_entry(entries, WEBSOCKET_ACCEPT@)
}

/// Whether a 101 response carries a valid WebSocket upgrade.
pub fn is_websocket_101(headers: &HeaderMap) -> (accepted: bool)
    ensures
        accepted == accepts_websocket(header_entries(*headers)),
{
    proof {
        lemma_upgrade_names();
    }
    let values = map_values(headers, &known_name(UPGRADE));
    assert(values_view(values@).len() == values@.len());
    if values.len() == 0 {
        return false;
    }
    assert(values_view(values@)[0].0 == value_data(values@[0]));
    let text = match visible_text(values[0].as_bytes()) {
        Some(text) => text,
        None => return false,
    };
    let value = trim_ows(text.as_slice());
    equals_lower(value.as_slice(), WEBSOCKET) && map_contains(
        headers,
        &known_name(WEBSOCKET_ACCEPT),
    )
}

/// Whether a text is a lower-case one, whatever its case.
fn equals_lower(text: &[char], lower: &str) -> (equal: bool)
    ensures
        equal == (ascii_lower(text@) == lower@),
{
    let expected = chars_of(lower);
    if text.len() != expected.len() {
        assert(ascii_lower(text@).len() != lower@.len());
        return false;
    }
    let mut i: usize = 0;
    while i < text.len()
        invariant
            i <= text@.len(),
            text@.len() == expected@.len(),
            expected@ == lower@,
            forall|j: int| 0 <= j < i ==> lower_char(text@[j]) == expected@[j],
        decreases text@.len() - i,
    {
        if to_lower(text[i]) != expected[i] {
            assert(ascii_lower(text@)[i as int] != lower@[i as int]);
            return false;
        }
        i += 1;
    }
    assert(ascii_lower(text@) =~= lower@);
    true
}

/// The header names of an upgrade are valid and written in lower case.
proof fn lemma_upgrade_names()
    ensures
        ascii_lower(UPGRADE@) == UPGRADE@,
        ascii_lower(WEBSOCKET_ACCEPT@) == WEBSOCKET_ACCEPT@,
        valid_name(UPGRADE@),
        valid_name(WEBSOCKET_ACCEPT@),
{
    reveal_strlit("upgrade");
    reveal_strlit("sec-websocket-accept");
    assert(ascii_lower(UPGRADE@) =~= UPGRADE@);
    assert(ascii_lower(WEBSOCKET_ACCEPT@) =~= WEBSOCKET_ACCEPT@);
}

/// Tells whether the response upgrades the connection. A 101 that the client
/// did not ask for is an error.
pub fn classify_upgrade<V>(ctx: &RequestCtx<V>, upstream: &ResponseHeader) -> (upgrade: Result<
    bool,
    Fault,
>)
    ensures
        match upgrade {
            Err(fault) => {
                &&& response_status(*upstream) == 101 && !asks_upgrade(*ctx)
                &&& fault.kind == FaultKind::HttpStatus(502)
                &&& fault.message@ == "unsolicited 101 response from upstream"@
            },
            Ok(upgraded) => {
                &&& !(response_status(*upstream) == 101 && !asks_upgrade(*ctx))
                &&& upgraded == (response_status(*upstream) == 101 && accepts_websocket(
                    response_entries(*upstream),
                ))
            },
        },
{
    if response_code(upstream) != 101 {
        return Ok(false);
    }
    if !request_has_upgrade(ctx) {
        return Err(
            Fault::explain(
                FaultKind::HttpStatus(502),
                "unsolicited 101 response from upstream",
            ),
        );
    }
    Ok(is_websocket_101(response_map(upstream)))
}

// ----- Name sequence -----

/// The names of the fields in iteration order, repeats included.
pub open spec fn name_sequence(entries: Entries) -> Seq<Seq<char>> {
    Seq::new(fields_of(entries).len(), |i: int| fields_of(entries)[i].0)
}

/// What is hashed for a sequence of names.
pub open spec fn hashed_names(names: Seq<Seq<char>>) -> Seq<Seq<u8>>
    decreases names.len(),
{
    if names.len() == 0 {
        Seq::empty()
    } else {
        hashed_names(names.drop_last()).push(encode_utf8(names.last())).push(seq![255u8])
    }
}

/// The fingerprint of a sequence of names.
pub open spec fn fingerprint(names: Seq<Seq<char>>) -> u64 {
    DefaultHasher::spec_finish(hashed_names(names))
}

/// Order-sensitive fingerprint of a map's name sequence. Values are not part of
/// it.
pub fn header_name_fingerprint(headers: &HeaderMap) -> (print: u64)
    ensures
        print == fingerprint(name_sequence(header_entries(*headers))),
{
    let fields = map_fields(headers);
    let ghost names = name_sequence(header_entries(*headers));
    let mut hasher = DefaultHasher::new();
    let mark: [u8; 1] = [255];
    let mut i: usize = 0;
    assert(names.take(0) =~= Seq::<Seq<char>>::empty());
    while i < fields.len()
        invariant
            i <= fields@.len(),
            fields_view(fields@) == fields_of(header_entries(*headers)),
            names == name_sequence(header_entries(*headers)),
            mark@ == seq![255u8],
            hasher@ == hashed_names(names.take(i as int)),
        decreases fields@.len() - i,
    {
        assert(fields_view(fields@)[i as int].0 == names[i as int]);
        hasher.write(fields[i].0.as_str().as_bytes());
        hasher.write(mark.as_slice());
        assert(names.take(i + 1).drop_last() == names.take(i as int));
        i += 1;
    }
    assert(names.take(i as int) =~= names);
    hasher.finish()
}

/// An edit of values alone leaves the name sequence and its fingerprint alone: the
/// same names in the same order, each with as many values as before.
pub proof fn law_value_edits_keep_the_fingerprint(before: Entries, after: Entries)
    requires
        name_counts(before) == name_counts(after),
    ensures
        name_sequence(before) == name_sequence(after),
        fingerprint(name_sequence(before)) == fingerprint(name_sequence(after)),
    decreases before.len(),
{
    assert(name_counts(before).len() == before.len());
    assert(name_counts(after).len() == after.len());
    if before.len() > 0 {
        let last = before.len() - 1;
        assert(name_counts(before)[last] == name_counts(after)[last]);
        assert forall|i: int| 0 <= i < last implies #[trigger] name_counts(
            before.drop_last(),
        )[i] == name_counts(after.drop_last())[i] by {
            assert(name_counts(before)[i] == name_counts(after)[i]);
        }
        assert(name_counts(before.drop_last()) =~= name_counts(after.drop_last()));
        law_value_edits_keep_the_fingerprint(before.drop_last(), after.drop_last());
        let shorter = (fields_of(before.drop_last()), fields_of(after.drop_last()));
        assert(name_sequence(before.drop_last()).len() == name_sequence(after.drop_last()).len());
        assert forall|i: int| 0 <= i < fields_of(before).len() implies #[trigger] name_sequence(
            before,
        )[i] == name_sequence(after)[i] by {
            if i < shorter.0.len() {
                assert(name_sequence(before.drop_last())[i] == name_sequence(
                    after.drop_last(),
                )[i]);
                assert(fields_of(before)[i] == shorter.0[i]);
                assert(fields_of(after)[i] == shorter.1[i]);
            }
        }
    }
    assert(name_sequence(before) =~= name_sequence(after));
}

// ----- Start -----

/// What the filter run starts from.
pub struct ResponseStart {
    /// The response as filters see it.
    pub response: Response,
    /// Fingerprint of its names; none when no filter can change them.
    pub fingerprint: Option<u64>,
}

/// The fields that the response filters are shown.
pub open spec fn shown_entries(
    entries: Entries,
    hop_by_hop: Seq<Seq<char>>,
) -> Entries {
    without_reserved(removed(entries, hop_by_hop))
}

/// Stripping what must not pass adds no entry.
pub proof fn lemma_shown_shrinks(
    entries: Entries,
    hop_by_hop: Seq<Seq<char>>,
)
    ensures
        shown_entries(entries, hop_by_hop).len() <= entries.len(),
{
    let stripped = removed(entries, hop_by_hop);
    lemma_removed_shrinks(entries, hop_by_hop);
    lemma_removed_shrinks(stripped, reserved_names(fields_of(stripped)));
}

/// Starts the response phase: strips what must not pass, moves the fields out of
/// the transport header and records what the upstream answered.
pub fn start_response_phase<V>(
    ctx: &mut RequestCtx<V>,
    upstream: &mut ResponseHeader,
    hop_by_hop: &Vec<HeaderName>,
    upgraded: bool,
    pipeline_is_empty: bool,
) -> (start: ResponseStart)
    requires
        in_step(*old(upstream)),
    ensures
        start.response.status == response_status(*old(upstream)),
        header_entries(start.response.headers) == shown_entries(
            response_entries(*old(upstream)),
            names_view(hop_by_hop@),
        ),
        start.fingerprint == (if pipeline_is_empty {
            None
        } else {
            Some(fingerprint(name_sequence(header_entries(start.response.headers))))
        }),
        response_entries(*final(upstream)) == Entries::empty(),
        response_status(*final(upstream)) == response_status(*old(upstream)),
        custom_reason(*final(upstream)) == custom_reason(*old(upstream)),
        response_version(*final(upstream)) == response_version(*old(upstream)),
        spelled_names(*final(upstream)) == also_without(
            also_without(spelled_names(*old(upstream)), names_view(hop_by_hop@)),
            reserved_names(
                fields_of(removed(response_entries(*old(upstream)), names_view(hop_by_hop@))),
            ),
        ),
        lines_up(spelled_names(*final(upstream)), header_entries(start.response.headers)),
        *final(ctx) == (RequestCtx {
            connection_upgraded: upgraded,
            upstream_response_status: Some(response_status(*old(upstream))),
            ..*old(ctx)
        }),
{
    strip_hop_by_hop_response(upstream, hop_by_hop);
    strip_reserved_internal(upstream);
    let response = response_header_from_pingora(upstream);
    let fingerprint = if pipeline_is_empty {
        None
    } else {
        Some(header_name_fingerprint(&response.headers))
    };
    ctx.connection_upgraded = upgraded;
    ctx.upstream_response_status = Some(response.status);
    ResponseStart { response, fingerprint }
}

/// Commits the response phase. The filters run only for a request that was
/// captured.
pub fn enter_response_filters<V>(ctx: &mut RequestCtx<V>) -> (entered: Result<(), Fault>)
    ensures
        *final(ctx) == (RequestCtx { response_phase_done: true, ..*old(ctx) }),
        match entered {
            Ok(()) => old(ctx).request_snapshot is Some,
            Err(fault) => old(ctx).request_snapshot is None && fault.kind == FaultKind::Internal
                && fault.message@ == "request snapshot not set during response phase"@,
        },
{
    ctx.response_phase_done = true;
    if ctx.request_snapshot.is_some() {
        Ok(())
    } else {
        Err(
            Fault::explain(
                FaultKind::Internal,
                "request snapshot not set during response phase",
            ),
        )
    }
}

// ----- Filter run -----

/// The context after the response filters ran.
pub open spec fn response_written<V>(before: RequestCtx<V>, fctx: FilterContext<V>) -> RequestCtx<
    V,
> {
    RequestCtx {
        cluster: fctx.cluster,
        cluster_retry_state_released: fctx.cluster_retry_state_released,
        response_body_mode: clamped_mode(fctx.response_body_mode, before.response_body_mode),
        extensions: fctx.extensions,
        filter_metadata: fctx.filter_metadata,
        filter_state: fctx.filter_state,
        cached_executed_filter_indices: fctx.executed_filter_indices,
        cached_body_done_indices: fctx.body_done_indices,
        attempted_endpoints: fctx.attempted_endpoints,
        ..before
    }
}

/// Writes back what the response filters left. Returns whether a filter
/// reported that it changed the headers.
pub fn run_response_pipeline<V>(ctx: &mut RequestCtx<V>, fctx: FilterContext<V>) -> (flagged: bool)
    ensures
        *final(ctx) == response_written(*old(ctx), fctx),
        flagged == fctx.response_headers_modified,
{
    let baseline_response_body_mode = ctx.response_body_mode;
    ctx.cluster = fctx.cluster;
    ctx.cluster_retry_state_released = fctx.cluster_retry_state_released;
    ctx.response_body_mode =
    clamp_body_mode_to_ceiling(fctx.response_body_mode, baseline_response_body_mode);
    ctx.extensions = fctx.extensions;
    ctx.filter_metadata = fctx.filter_metadata;
    ctx.filter_state = fctx.filter_state;
    ctx.cached_executed_filter_indices = fctx.executed_filter_indices;
    ctx.cached_body_done_indices = fctx.body_done_indices;
    ctx.attempted_endpoints = fctx.attempted_endpoints;
    fctx.response_headers_modified
}

// ----- Write-back -----

/// A status code that a response can have.
pub open spec fn is_status(status: u16) -> bool {
    100 <= status <= 999
}

/// A response can be written back to a transport header: its status can be sent,
/// and where the header is rebuilt there is room for its names.
pub open spec fn fits_header(response: Response, headers_modified: bool) -> bool {
    is_status(response.status) && (headers_modified ==> header_entries(response.headers).len()
        < MAX_HEADER_NAMES)
}

/// Rebuilds a transport header from a map, so that the kept spellings line up
/// with the fields. The reason phrase is carried over.
fn write_headers_to_pingora(src: &HeaderMap, status: u16, dst: &mut ResponseHeader)
    requires
        is_status(status),
        header_entries(*src).len() < MAX_HEADER_NAMES,
    ensures
        response_status(*final(dst)) == status,
        response_entries(*final(dst)) == rebuilt_entries(header_entries(*src)),
        spelled_names(*final(dst)) == Some(rebuilt_spellings(header_entries(*src))),
        in_step(*final(dst)),
        response_version(*final(dst)) == HttpVersion::Http11,
        reason_phrase(*final(dst)) == (match reason_phrase(*old(dst)) {
            Some(reason) => Some(reason),
            None => canonical_reason(status),
        }),
{
    let fields = map_fields(src);
    let ghost entries = header_entries(*src);
    let ghost views = fields_of(entries);
    let ghost none = Entries::empty();
    let ghost blank = Spellings::empty();
    assert(fields_view(fields@).len() == fields@.len());
    let mut rebuilt = response_build(status, fields.len()).unwrap();
    assert(name_counts(response_entries(rebuilt)) =~= name_counts(blank));
    let mut i: usize = 0;
    assert(views.take(0) =~= Fields::empty());
    while i < fields.len()
        invariant
            i <= fields@.len(),
            fields_view(fields@) == views,
            views == fields_of(entries),
            entries.len() < MAX_HEADER_NAMES,
            none == Entries::empty(),
            response_entries(rebuilt) == appended(
                none,
                accepted_fields(views.take(i as int), Intake::Named),
            ),
            spelled_names(rebuilt) == Some(
                appended(blank, accepted_spellings(views.take(i as int), Intake::Named)),
            ),
            in_step(rebuilt),
            response_status(rebuilt) == status,
            plain_status_line(rebuilt),
        decreases fields@.len() - i,
    {
        proof {
            let done = views.take(i as int);
            let field = views[i as int];
            assert(field == fields_view(fields@)[i as int]);
            assert(views.take(i + 1) =~= done.push(field));
            lemma_accepted_push(done, field, Intake::Named);
            lemma_appended_push(none, accepted_fields(done, Intake::Named), field);
            lemma_appended_push(
                blank,
                accepted_spellings(done, Intake::Named),
                (field.0, spelling(field.0, Intake::Named)),
            );
            lemma_fields_among(entries, i as int);
            lemma_copied_few(done, entries, Seq::empty());
        }
        let _appended = response_append_field(&mut rebuilt, &fields[i].0, &fields[i].1);
        i += 1;
    }
    assert(views.take(i as int) =~= views);
    match response_get_reason(dst) {
        Some(reason) => response_set_reason(&mut rebuilt, reason.as_str()),
        None => {},
    }
    *dst = rebuilt;
}

/// The fields of a header that is rebuilt from entries.
pub open spec fn rebuilt_entries(entries: Entries) -> Entries {
    appended(Seq::empty(), accepted_fields(fields_of(entries), Intake::Named))
}

/// The spellings of a header that is rebuilt from entries.
pub open spec fn rebuilt_spellings(entries: Entries) -> Spellings {
    appended(Seq::empty(), accepted_spellings(fields_of(entries), Intake::Named))
}

/// What writing a response back does to the transport header. With changed names
/// the header is rebuilt; else the fields are put back as they are. The status
/// is written either way.
pub open spec fn writes_back(
    before: ResponseHeader,
    status: u16,
    entries: Entries,
    headers_modified: bool,
    after: ResponseHeader,
) -> bool {
    &&& response_status(after) == status
    &&& if headers_modified {
        &&& response_entries(after) == rebuilt_entries(entries)
        &&& spelled_names(after) == Some(rebuilt_spellings(entries))
        &&& in_step(after)
        &&& response_version(after) == HttpVersion::Http11
        &&& reason_phrase(after) == (match reason_phrase(before) {
            Some(reason) => Some(reason),
            None => canonical_reason(status),
        })
    } else {
        &&& response_entries(after) == entries
        &&& spelled_names(after) == spelled_names(before)
        &&& custom_reason(after) == custom_reason(before)
        &&& response_version(after) == response_version(before)
    }
}

/// Restores the filtered fields and status onto the transport header.
fn write_back_response(
    upstream: &mut ResponseHeader,
    response: Response,
    headers_modified: bool,
)
    requires
        fits_header(response, headers_modified),
    ensures
        writes_back(
            *old(upstream),
            response.status,
            header_entries(response.headers),
            headers_modified,
            *final(upstream),
        ),
{
    if headers_modified {
        write_headers_to_pingora(&response.headers, response.status, upstream);
    } else {
        response_put_map(upstream, response.headers);
        let _set = response_set_code(upstream, response.status);
    }
}

/// The filters let a response pass.
pub open spec fn response_passes<S>(result: Result<FilterAction<S>, FilterError>) -> bool {
    result is Ok && !(result->Ok_0 is Reject)
}

/// Maps the outcome of the response filters: a response that passes is written
/// back to the transport header, and one without a body is thereby delivered. A
/// rejection is kept for the error path.
pub fn handle_response_result<V, S>(
    result: Result<FilterAction<S>, FilterError>,
    upstream: &mut ResponseHeader,
    response: Response,
    headers_modified: bool,
    is_bodyless: bool,
    ctx: &mut RequestCtx<V>,
) -> (handled: Result<(), Fault>)
    requires
        response_passes(result) ==> fits_header(response, headers_modified),
    ensures
        handled is Ok == response_passes(result),
        response_passes(result) ==> writes_back(
            *old(upstream),
            response.status,
            header_entries(response.headers),
            headers_modified,
            *final(upstream),
        ),
        !response_passes(result) ==> *final(upstream) == *old(upstream),
        match result {
            Ok(FilterAction::Reject(rejection)) => {
                &&& handled matches Err(fault) && fault.kind == FaultKind::HttpStatus(
                    rejection.status,
                ) && fault.message@ == "response rejected by filter pipeline"@
                &&& *final(ctx) == (RequestCtx { pending_rejection: Some(rejection), ..*old(ctx) })
            },
            Err(e) => {
                &&& handled matches Err(fault) && fault.kind == FaultKind::Internal
                    && fault.message@ == "response filter error: "@ + e.message@
                &&& *final(ctx) == *old(ctx)
            },
            Ok(_) => *final(ctx) == (RequestCtx {
                response_delivery_complete: old(ctx).response_delivery_complete || is_bodyless,
                ..*old(ctx)
            }),
        },
{
    match result {
        Ok(FilterAction::Reject(rejection)) => {
            let status = rejection.status;
            ctx.pending_rejection = Some(rejection);
            Err(
                Fault::explain(
                    FaultKind::HttpStatus(status),
                    "response rejected by filter pipeline",
                ),
            )
        },
        Err(e) => {
            let mut message = "response filter error: ".to_owned();
            message.append(e.message.as_str());
            Err(Fault { kind: FaultKind::Internal, message })
        },
        Ok(_) => {
            if is_bodyless {
                ctx.response_delivery_complete = true;
            }
            write_back_response(upstream, response, headers_modified);
            Ok(())
        },
    }
}

/// What the pipeline says of the response phase.
#[derive(Clone, Copy, Debug)]
pub struct ResponsePolicy {
    /// Whether the pipeline holds no filter.
    pub is_empty: bool,
    /// Whether any filter has a condition on the response body.
    pub any_response_body_condition: bool,
}

/// Whether the headers have to be rebuilt: a filter said so, or the name
/// sequence has another fingerprint than before.
pub open spec fn must_rebuild(
    flagged: bool,
    before: Option<u64>,
    entries: Entries,
) -> bool {
    flagged || (before matches Some(print) && fingerprint(name_sequence(entries)) != print)
}

/// The fields that are written back.
pub open spec fn final_entries(
    policy: ResponsePolicy,
    entries: Entries,
) -> Entries {
    if policy.is_empty {
        entries
    } else {
        without_reserved(entries)
    }
}

/// Ends the response phase: decides how headers are written back, strips what a
/// filter added of internal headers, keeps the header for conditions on the body
/// and maps the outcome.
pub fn finish_response_phase<V, S>(
    policy: &ResponsePolicy,
    result: Result<FilterAction<S>, FilterError>,
    upstream: &mut ResponseHeader,
    response: Response,
    fingerprint_before: Option<u64>,
    flagged: bool,
    is_bodyless: bool,
    ctx: &mut RequestCtx<V>,
) -> (handled: Result<(), Fault>)
    requires
        response_passes(result) ==> fits_header(
            response,
            must_rebuild(flagged, fingerprint_before, header_entries(response.headers)),
        ),
    ensures
        handled is Ok == response_passes(result),
        response_passes(result) ==> writes_back(
            *old(upstream),
            response.status,
            final_entries(*policy, header_entries(response.headers)),
            must_rebuild(flagged, fingerprint_before, header_entries(response.headers)),
            *final(upstream),
        ),
        !response_passes(result) ==> *final(upstream) == *old(upstream),
        response_passes(result) && policy.any_response_body_condition ==> {
            &&& final(ctx).response_header_snapshot is Some
            &&& final(ctx).response_header_snapshot->0.status == response.status
            &&& header_entries(final(ctx).response_header_snapshot->0.headers) == final_entries(
                *policy,
                header_entries(response.headers),
            )
        },
        !(response_passes(result) && policy.any_response_body_condition)
            ==> final(ctx).response_header_snapshot == old(ctx).response_header_snapshot,
        match result {
            Ok(FilterAction::Reject(rejection)) => {
                &&& handled matches Err(fault) && fault.kind == FaultKind::HttpStatus(
                    rejection.status,
                ) && fault.message@ == "response rejected by filter pipeline"@
                &&& *final(ctx) == (RequestCtx { pending_rejection: Some(rejection), ..*old(ctx) })
            },
            Err(e) => {
                &&& handled matches Err(fault) && fault.kind == FaultKind::Internal
                    && fault.message@ == "response filter error: "@ + e.message@
                &&& *final(ctx) == *old(ctx)
            },
            Ok(_) => *final(ctx) == (RequestCtx {
                response_delivery_complete: old(ctx).response_delivery_complete || is_bodyless,
                response_header_snapshot: final(ctx).response_header_snapshot,
                ..*old(ctx)
            }),
        },
{
    let mut response = response;
    let renamed = match fingerprint_before {
        Some(before) => header_name_fingerprint(&response.headers) != before,
        None => false,
    };
    let headers_modified = flagged || renamed;
    proof {
        let entries = header_entries(response.headers);
        lemma_removed_shrinks(entries, reserved_names(fields_of(entries)));
    }
    if !policy.is_empty {
        strip_reserved_internal_header_map(&mut response.headers);
    }
    let passes = match &result {
        Ok(FilterAction::Reject(_)) => false,
        Ok(_) => true,
        Err(_) => false,
    };
    if policy.any_response_body_condition && passes {
        ctx.response_header_snapshot =
        Some(Response { headers: map_clone(&response.headers), status: response.status });
    }
    handle_response_result(result, upstream, response, headers_modified, is_bodyless, ctx)
}

/// The last run of equal names in a name sequence belongs to the last entry.
proof fn lemma_last_run(entries: Entries)
    requires
        well_formed(entries),
        entries.len() > 0,
    ensures
        ({
            let names = name_sequence(entries);
            let start = fields_of(entries.drop_last()).len();
            &&& names.len() == start + entries.last().1.len()
            &&& forall|i: int| start <= i < names.len() ==> #[trigger] names[i] == entries.last().0
            &&& names.take(start as int) == name_sequence(entries.drop_last())
            &&& start > 0 ==> names[start - 1] != entries.last().0
        }),
{
    let shorter = entries.drop_last();
    let last = entries.last();
    let names = name_sequence(entries);
    let start = fields_of(shorter).len();
    assert(fields_of(entries) == fields_of(shorter) + entry_fields(last));
    assert forall|i: int| start <= i < names.len() implies #[trigger] names[i] == last.0 by {
        assert(fields_of(entries)[i] == entry_fields(last)[i - start]);
    }
    assert(names.take(start as int) =~= name_sequence(shorter));
    if start > 0 {
        assert(shorter.len() > 0);
        let at = shorter.len() - 1;
        let earlier = fields_of(shorter.drop_last());
        assert(entries[at].1.len() > 0);
        assert(fields_of(shorter) == earlier + entry_fields(shorter.last()));
        assert(fields_of(shorter)[start - 1] == entry_fields(shorter.last())[start - 1
            - earlier.len()]);
        assert(names[start - 1] == entries[at].0);
        assert(entries[at].0 != entries[entries.len() - 1].0);
    }
}

/// Entries with the same name sequence have the same names with the same number
/// of values.
proof fn lemma_names_determine_counts(
    a: Entries,
    b: Entries,
)
    requires
        well_formed(a),
        well_formed(b),
        name_sequence(a) == name_sequence(b),
    ensures
        name_counts(a) == name_counts(b),
    decreases a.len(),
{
    if a.len() == 0 || b.len() == 0 {
        if a.len() > 0 {
            lemma_last_run(a);
            assert(a[a.len() - 1].1.len() > 0);
        }
        if b.len() > 0 {
            lemma_last_run(b);
            assert(b[b.len() - 1].1.len() > 0);
        }
        assert(name_counts(a) =~= name_counts(b));
    } else {
        let names = name_sequence(a);
        lemma_last_run(a);
        lemma_last_run(b);
        assert(a[a.len() - 1].1.len() > 0);
        assert(b[b.len() - 1].1.len() > 0);
        let from_a = fields_of(a.drop_last()).len();
        let from_b = fields_of(b.drop_last()).len();
        assert(names[names.len() - 1] == a.last().0);
        assert(names[names.len() - 1] == b.last().0);
        if from_a < from_b {
            assert(names[from_b - 1] == a.last().0);
        }
        if from_b < from_a {
            assert(names[from_a - 1] == b.last().0);
        }
        lemma_shorter_is_well_formed(a);
        lemma_shorter_is_well_formed(b);
        lemma_names_determine_counts(a.drop_last(), b.drop_last());
        assert(name_counts(a) =~= name_counts(a.drop_last()).push((a.last().0, a.last().1.len())));
        assert(name_counts(b) =~= name_counts(b.drop_last()).push((b.last().0, b.last().1.len())));
    }
}

/// No field is internal to the proxy.
pub open spec fn is_clean(entries: Entries) -> bool {
    forall|i: int|
        0 <= i < fields_of(entries).len() ==> !is_reserved_name(#[trigger] fields_of(entries)[i].0)
}

/// A response header can always be written after the response phase: its kept
/// spellings line up with its fields. `shown` are the fields that the filters
/// were shown and `left` those that they left. Filters need not report what they
/// change; all that is asked is that two different name sequences do not share a
/// fingerprint.
pub proof fn law_response_header_stays_writable(
    policy: ResponsePolicy,
    shown: Entries,
    left: Entries,
    flagged: bool,
    before: ResponseHeader,
    status: u16,
    after: ResponseHeader,
)
    requires
        well_formed(shown),
        well_formed(left),
        is_clean(shown),
        lines_up(spelled_names(before), shown),
        policy.is_empty ==> left == shown,
        fingerprint(name_sequence(left)) == fingerprint(name_sequence(shown)) ==> name_sequence(
            left,
        ) == name_sequence(shown),
        writes_back(
            before,
            status,
            final_entries(policy, left),
            must_rebuild(
                flagged,
                if policy.is_empty {
                    None
                } else {
                    Some(fingerprint(name_sequence(shown)))
                },
                left,
            ),
            after,
        ),
    ensures
        in_step(after),
{
    let print = if policy.is_empty {
        None
    } else {
        Some(fingerprint(name_sequence(shown)))
    };
    if !must_rebuild(flagged, print, left) {
        assert(name_sequence(left) == name_sequence(shown));
        lemma_names_determine_counts(left, shown);
        assert forall|i: int| 0 <= i < fields_of(left).len() implies !is_reserved_name(
            #[trigger] fields_of(left)[i].0,
        ) by {
            assert(name_sequence(left)[i] == name_sequence(shown)[i]);
            assert(fields_of(left)[i].0 == fields_of(shown)[i].0);
        }
        law_strip_leaves_clean_headers_alone(left);
    }
}

/// No header that is internal to the proxy reaches the client with a response,
/// not even one that a filter added.
pub proof fn law_response_hides_reserved_headers(
    policy: ResponsePolicy,
    received: Entries,
    hop_by_hop: Seq<Seq<char>>,
    left: Entries,
    headers_modified: bool,
    before: ResponseHeader,
    status: u16,
    after: ResponseHeader,
    name: Seq<char>,
)
    requires
        policy.is_empty ==> well_formed(received) && left == shown_entries(received, hop_by_hop),
        well_formed(left),
        is_reserved_name(name),
        writes_back(before, status, final_entries(policy, left), headers_modified, after),
    ensures
        !has_entry(response_entries(after), ascii_lower(name)),
{
    if policy.is_empty {
        let passed = removed(received, hop_by_hop);
        lemma_removed_stays_well_formed(received, hop_by_hop);
        law_strip_hides_reserved_headers(passed, name);
    } else {
        law_strip_hides_reserved_headers(left, name);
    }
    let sent = final_entries(policy, left);
    let fields = fields_of(sent);
    lemma_fields_among(sent, fields.len() as int);
    assert(fields.take(fields.len() as int) =~= fields);
    lemma_copied_few(fields, sent, ascii_lower(name));
}

/// Whether or not the header is rebuilt, the fields written back are the same.
pub proof fn law_rebuilt_and_direct_fields_agree(
    entries: Entries,
    status: u16,
    before: ResponseHeader,
    rebuilt: ResponseHeader,
    direct: ResponseHeader,
)
    requires
        sendable_entries(entries),
        writes_back(before, status, entries, true, rebuilt),
        writes_back(before, status, entries, false, direct),
    ensures
        response_entries(rebuilt) == response_entries(direct),
        response_status(rebuilt) == response_status(direct),
{
    law_rebuild_keeps_fields(entries);
}

} // verus!
