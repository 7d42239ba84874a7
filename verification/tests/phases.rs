//! The request phase and the response phase around their filters.
use std::collections::VecDeque;

use bytes::{Bytes, BytesMut};
use http::{HeaderMap, HeaderName, HeaderValue};
use pingora_http::{RequestHeader, ResponseHeader};
use praxis::body::BodyMode;
use praxis::context::{
    ClientAddr, ErrorType, Fault, FaultKind, FilterAction, FilterContext, FilterError, HttpVersion,
    Rejection, Request, RequestCtx, Response, TerminalResponse, Upstream,
};
use praxis::mutations::{
    apply_pending_header_mutations, apply_session_header_mutations, HeaderMutations,
};
use praxis::request_phase::{
    after_request_filters, after_selected_upstream, capture_filtered_request,
    capture_request_facts, finish_request_phase, first_request_task, next_request_task,
    normalize_mapped_ipv4, pre_read_failed, pre_read_source, request_verdict, select_body_modes,
    AdaptationPolicy, EarlyCheck, PipelineResult, PreReadFailure, PreReadNext, RequestEvent,
    RequestTask, RequestVerdict, TlsDigest,
};
use praxis::response_phase::{
    classify_upgrade, enter_response_filters, finish_response_phase, handle_response_result,
    header_name_fingerprint, is_websocket_101, request_has_upgrade, run_response_pipeline,
    start_response_phase, ResponsePolicy,
};
use praxis::strip::{
    strip_hop_by_hop_header_map, strip_hop_by_hop_response, strip_reserved_internal,
    strip_reserved_internal_header_map,
};

type Ctx = RequestCtx<u32>;
type Fctx = FilterContext<u32>;
type Action = FilterAction<()>;
type Outcome = Result<Action, FilterError>;

const RETRY_LIMIT: u64 = 64 * 1024;

fn make_ctx() -> Ctx {
    RequestCtx::new()
}

fn make_request() -> Request {
    Request {
        method: "GET".to_owned(),
        uri: "/".to_owned(),
        headers: HeaderMap::new(),
    }
}

fn failure(message: &str) -> FilterError {
    FilterError {
        message: message.to_owned(),
    }
}

// ----- Request phase -----

/// A policy without adaptation of the body.
fn plain_policy() -> AdaptationPolicy {
    AdaptationPolicy {
        participates: false,
        writes: false,
        body_limit: 4096,
        retry_limit: RETRY_LIMIT,
    }
}

fn adapting_policy(writes: bool) -> AdaptationPolicy {
    AdaptationPolicy {
        participates: true,
        writes,
        body_limit: 4096,
        retry_limit: RETRY_LIMIT,
    }
}

/// What the filters of a request are handed.
fn filter_context(ctx: &mut Ctx) -> Fctx {
    let mut fctx: Fctx = FilterContext::new();
    fctx.cluster = ctx.cluster.take();
    fctx.upstream = ctx.upstream.take();
    fctx.request_body_mode = ctx.request_body_mode;
    fctx.response_body_mode = ctx.response_body_mode;
    fctx.structured_metadata = std::mem::take(&mut ctx.structured_metadata);
    fctx.extensions = std::mem::take(&mut ctx.extensions);
    fctx
}

/// Runs the request phase with one filter for the request and one for its body.
fn run_pipeline(
    policy: &AdaptationPolicy,
    request: Request,
    ctx: &mut Ctx,
    filter: fn(&mut Fctx) -> Outcome,
    adapt: fn(&mut Option<Bytes>) -> Outcome,
) -> Result<PipelineResult<()>, FilterError> {
    let pre_read = pre_read_source(policy, ctx);
    let mut fctx = filter_context(ctx);
    let action = filter(&mut fctx);
    let run = after_request_filters(policy, &action, &mut fctx, pre_read);
    let (action, adapted) = if run.adapt {
        let mut working = run.working;
        let selected = adapt(&mut working);
        after_selected_upstream(policy, selected, working, action)
    } else {
        (action, None)
    };
    let mutations = capture_filtered_request(ctx, request, &mut fctx);
    let route = fctx.metrics_route.take();
    finish_request_phase(policy, ctx, fctx, mutations, route, action, run.canonical, adapted)
}

fn carry_on(_fctx: &mut Fctx) -> Outcome {
    Ok(Action::Continue)
}

fn leave_alone(_body: &mut Option<Bytes>) -> Outcome {
    Ok(Action::Continue)
}

fn run_empty(request: Request, ctx: &mut Ctx) -> PipelineResult<()> {
    match run_pipeline(&plain_policy(), request, ctx, carry_on, leave_alone) {
        Ok(result) => result,
        Err(error) => panic!("{}", error.message),
    }
}

#[test]
fn empty_pipeline_continues() {
    let result = run_empty(make_request(), &mut make_ctx());

    assert!(
        matches!(result.action, FilterAction::Continue),
        "empty pipeline should continue"
    );
    assert!(
        result.mutations.extra.is_empty(),
        "empty pipeline should produce no extra headers"
    );
}

#[test]
fn snapshot_always_stored() {
    let mut ctx = make_ctx();

    run_empty(make_request(), &mut ctx);

    assert!(
        ctx.request_snapshot.is_some(),
        "request snapshot should be stored after pipeline run"
    );
}

#[test]
fn cluster_and_upstream_propagated_on_continue() {
    let mut ctx = make_ctx();

    run_empty(make_request(), &mut ctx);

    assert!(ctx.cluster.is_none(), "empty pipeline should leave cluster unset");
    assert!(ctx.upstream.is_none(), "empty pipeline should leave upstream unset");
}

#[test]
fn rejection_propagated_from_pipeline() {
    let mut ctx = make_ctx();

    let result = run_pipeline(
        &plain_policy(),
        make_request(),
        &mut ctx,
        |_| Ok(Action::Reject(Rejection::status(403))),
        leave_alone,
    )
    .ok()
    .unwrap();

    assert!(matches!(result.action, FilterAction::Reject(r) if r.status == 403));
}

#[test]
fn rejection_does_not_set_cluster() {
    let mut ctx = make_ctx();

    let _result = run_pipeline(
        &plain_policy(),
        make_request(),
        &mut ctx,
        |_| Ok(Action::Reject(Rejection::status(429))),
        leave_alone,
    );

    assert!(ctx.cluster.is_none(), "rejection should not set cluster");
    assert!(ctx.upstream.is_none(), "rejection should not set upstream");
}

#[test]
fn extra_headers_returned_from_pipeline() {
    let mut ctx = make_ctx();

    let result = run_empty(make_request(), &mut ctx);

    assert!(
        result.mutations.extra.is_empty(),
        "empty pipeline should produce no extra headers"
    );
}

#[test]
fn idempotent_methods_detected_in_request() {
    for method in ["GET", "HEAD", "OPTIONS"] {
        let mut ctx = make_ctx();
        capture_request_facts(&mut ctx, HttpVersion::Http11, None, None, method);
        assert!(ctx.request_is_idempotent, "{method} should be idempotent");
    }

    for method in ["POST", "PUT", "DELETE", "PATCH"] {
        let mut ctx = make_ctx();
        capture_request_facts(&mut ctx, HttpVersion::Http11, None, None, method);
        assert!(!ctx.request_is_idempotent, "{method} should not be idempotent");
    }
}

#[test]
fn normalize_mapped_ipv4_converts_mapped_to_v4() {
    let mapped = ClientAddr::V6([0, 0, 0, 0, 0, 0, 0, 0, 0, 0, 0xff, 0xff, 10, 0, 0, 1]);
    assert_eq!(
        normalize_mapped_ipv4(mapped),
        ClientAddr::V4([10, 0, 0, 1]),
        "::ffff:10.0.0.1 should normalize to 10.0.0.1"
    );
}

#[test]
fn normalize_mapped_ipv4_preserves_native_v4() {
    let native = ClientAddr::V4([192, 168, 1, 1]);
    assert_eq!(normalize_mapped_ipv4(native), native, "native IPv4 should be unchanged");
}

#[test]
fn normalize_mapped_ipv4_preserves_native_v6() {
    let native = ClientAddr::V6([0x20, 0x01, 0x0d, 0xb8, 0, 0, 0, 0, 0, 0, 0, 0, 0, 0, 0, 1]);
    assert_eq!(normalize_mapped_ipv4(native), native, "native IPv6 should be unchanged");
}

#[test]
fn normalize_mapped_ipv4_preserves_loopback_v6() {
    let loopback = ClientAddr::V6([0, 0, 0, 0, 0, 0, 0, 0, 0, 0, 0, 0, 0, 0, 0, 1]);
    assert_eq!(
        normalize_mapped_ipv4(loopback),
        loopback,
        "IPv6 loopback should be unchanged"
    );
}

#[test]
fn normalize_mapped_ipv4_converts_mapped_loopback() {
    let mapped = ClientAddr::V6([0, 0, 0, 0, 0, 0, 0, 0, 0, 0, 0xff, 0xff, 127, 0, 0, 1]);
    assert_eq!(
        normalize_mapped_ipv4(mapped),
        ClientAddr::V4([127, 0, 0, 1]),
        "::ffff:127.0.0.1 should normalize to 127.0.0.1"
    );
}

#[test]
fn pre_read_mutations_cleared_after_pipeline() {
    let mut ctx = make_ctx();
    ctx.pre_read_mutations = vec![7];

    run_empty(make_request(), &mut ctx);

    assert!(
        ctx.pre_read_mutations.is_empty(),
        "pre_read_mutations should be cleared after run_pipeline to prevent stale provenance reuse"
    );
}

#[test]
fn snapshot_preserves_headers_without_removals() {
    let mut ctx = make_ctx();
    let mut request = make_request();
    request
        .headers
        .insert("x-internal-debug", HeaderValue::from_static("true"));

    run_empty(request, &mut ctx);

    let snapshot = ctx.request_snapshot.as_ref().expect("snapshot should exist");
    assert!(
        snapshot.headers.contains_key("x-internal-debug"),
        "empty pipeline should not strip x-internal-debug"
    );
}

#[test]
fn header_removal_strips_from_snapshot() {
    let mut request = make_request();
    request.headers.insert("x-strip", HeaderValue::from_static("val"));
    request.headers.insert("x-keep", HeaderValue::from_static("val"));

    let mut ctx = make_ctx();
    let _result = run_pipeline(
        &plain_policy(),
        request,
        &mut ctx,
        |fctx| {
            fctx.request_headers_to_remove = vec![HeaderName::from_static("x-strip")];
            Ok(Action::Continue)
        },
        leave_alone,
    );

    let snapshot = ctx.request_snapshot.unwrap();
    assert!(!snapshot.headers.contains_key("x-strip"));
    assert!(snapshot.headers.contains_key("x-keep"));
}

#[test]
fn route_is_asked_for_once_the_request_is_captured() {
    let mut ctx = make_ctx();
    let mut fctx: Fctx = FilterContext::new();
    fctx.cluster = Some("c".to_owned());
    fctx.metrics_route = Some("/raw".to_owned());
    fctx.extensions = vec![7];
    let mutations = capture_filtered_request(&mut ctx, make_request(), &mut fctx);
    assert!(ctx.request_snapshot.is_some());
    assert_eq!(ctx.metrics_cluster.as_deref(), Some("c"));
    assert_eq!(ctx.metrics_cluster_shared.as_deref(), Some("c"));
    assert_eq!(ctx.extensions, vec![7]);
    assert!(ctx.cluster.is_none(), "the lifecycle is written later");
    assert_eq!(fctx.metrics_route.take().as_deref(), Some("/raw"));
    let route = Some("/templated".to_owned());
    let outcome = Ok(Action::Continue);
    let result = finish_request_phase(&plain_policy(), &mut ctx, fctx, mutations, route, outcome, None, None);
    assert!(result.is_ok());
    assert_eq!(ctx.metrics_route.as_deref(), Some("/templated"));
    assert_eq!(ctx.cluster.as_deref(), Some("c"));
}

#[test]
fn structured_metadata_persists_through_pipeline() {
    let mut ctx = make_ctx();
    ctx.structured_metadata = vec![95];

    run_empty(make_request(), &mut ctx);

    assert_eq!(
        ctx.structured_metadata,
        vec![95],
        "structured_metadata set before pipeline should survive after run_pipeline"
    );
}

#[test]
fn reject_after_selection_writes_back_cluster_for_release() {
    let mut ctx = make_ctx();
    ctx.cluster = Some("backend".to_owned());

    let result = run_pipeline(
        &plain_policy(),
        make_request(),
        &mut ctx,
        |_| Ok(Action::Reject(Rejection::status(503))),
        leave_alone,
    )
    .ok()
    .unwrap();

    assert!(
        matches!(result.action, FilterAction::Reject(_)),
        "the static_response pipeline must reject"
    );
    assert_eq!(
        ctx.cluster.as_deref(),
        Some("backend"),
        "a rejected request must retain its selected cluster so the response phase can release the lease"
    );
}

fn make_test_upstream() -> Upstream<u32> {
    Upstream {
        address: "127.0.0.1:8080".to_owned(),
        authority: None,
        connection: 0,
    }
}

fn uppercase(body: &mut Option<Bytes>) -> Outcome {
    if let Some(b) = body {
        let upper: Vec<u8> = b.iter().map(u8::to_ascii_uppercase).collect();
        *b = Bytes::from(upper);
    }
    Ok(Action::Continue)
}

#[test]
fn selected_upstream_phase_captures_adapted_body() {
    let mut ctx = make_ctx();
    ctx.pre_read_body = Some(VecDeque::from([Bytes::from_static(b"original")]));
    ctx.upstream = Some(make_test_upstream());

    let result = run_pipeline(&adapting_policy(true), make_request(), &mut ctx, carry_on, uppercase)
        .ok()
        .unwrap();

    assert!(matches!(result.action, FilterAction::Continue));
    assert_eq!(
        ctx.adapted_request_body,
        Some(VecDeque::from([Bytes::from_static(b"ORIGINAL")])),
        "adapted (uppercased) body is stored, not the canonical body"
    );
    assert_eq!(ctx.adapted_request_body_len, Some(8));
    assert_eq!(
        ctx.pre_read_body,
        Some(VecDeque::from([Bytes::from_static(b"original")])),
        "canonical pre-read body is left intact and untouched"
    );
}

#[test]
fn selected_upstream_phase_reject_becomes_local_response() {
    let mut ctx = make_ctx();
    ctx.cluster = Some("backend".to_owned());
    ctx.pre_read_body = Some(VecDeque::from([Bytes::from_static(b"body")]));
    ctx.upstream = Some(make_test_upstream());

    let result = run_pipeline(&adapting_policy(false), make_request(), &mut ctx, carry_on, |_| {
        Ok(Action::Reject(Rejection::status(413)))
    })
    .ok()
    .unwrap();

    assert!(
        matches!(result.action, FilterAction::Reject(_)),
        "a selected-upstream reject becomes a Reject action (local response, no transport)"
    );
    assert_eq!(
        ctx.cluster.as_deref(),
        Some("backend"),
        "the selected cluster is retained so the response phase can release the retry lease"
    );
    assert!(
        ctx.adapted_request_body.is_none(),
        "a rejected request stores no adapted body"
    );
}

#[test]
fn selected_upstream_phase_error_propagates() {
    let mut ctx = make_ctx();
    ctx.pre_read_body = Some(VecDeque::from([Bytes::from_static(b"body")]));
    ctx.upstream = Some(make_test_upstream());

    let result = run_pipeline(&adapting_policy(false), make_request(), &mut ctx, carry_on, |_| {
        Err(failure("selected-upstream body hook failed"))
    });

    assert!(
        result.is_err(),
        "an Err from the selected-upstream body hook propagates out of run_pipeline"
    );
    assert!(
        ctx.adapted_request_body.is_none(),
        "a failed selected-upstream phase stores no adapted body"
    );
}

#[test]
fn selected_upstream_phase_skipped_without_upstream() {
    let mut ctx = make_ctx();
    ctx.pre_read_body = Some(VecDeque::from([Bytes::from_static(b"original")]));

    let result = run_pipeline(&adapting_policy(true), make_request(), &mut ctx, carry_on, uppercase)
        .ok()
        .unwrap();

    assert!(matches!(result.action, FilterAction::Continue));
    assert!(
        ctx.adapted_request_body.is_none(),
        "phase is gated on a selected upstream"
    );
}

#[test]
fn bound_rewrite_replaces_the_body_that_is_forwarded() {
    let mut ctx = make_ctx();
    ctx.pre_read_body = Some(VecDeque::from([Bytes::from_static(b"original")]));

    let _result = run_pipeline(
        &plain_policy(),
        make_request(),
        &mut ctx,
        |fctx| {
            fctx.bound_request_body_rewrite = Some(Bytes::from_static(b"bound"));
            Ok(Action::Continue)
        },
        leave_alone,
    );

    assert_eq!(
        ctx.pre_read_body,
        Some(VecDeque::from([Bytes::from_static(b"bound")]))
    );
    assert_eq!(ctx.mutated_request_body_len, Some(5));
}

#[test]
fn filters_cannot_widen_the_body_modes() {
    let mut ctx = make_ctx();
    ctx.request_body_mode = BodyMode::SizeLimit { max_bytes: 10 };
    ctx.response_body_mode = BodyMode::StreamBuffer { max_bytes: Some(20) };

    let _result = run_pipeline(
        &plain_policy(),
        make_request(),
        &mut ctx,
        |fctx| {
            fctx.request_body_mode = BodyMode::StreamBuffer { max_bytes: None };
            fctx.response_body_mode = BodyMode::StreamBuffer { max_bytes: Some(30) };
            Ok(Action::Continue)
        },
        leave_alone,
    );

    assert_eq!(ctx.request_body_mode, BodyMode::StreamBuffer { max_bytes: Some(10) });
    assert_eq!(ctx.response_body_mode, BodyMode::StreamBuffer { max_bytes: Some(20) });
}

/// The tasks that are done, given how each of them went.
fn tasks_of(events: &[RequestEvent]) -> Vec<RequestTask> {
    let mut tasks = vec![first_request_task()];
    for event in events {
        match next_request_task(tasks[tasks.len() - 1], *event) {
            Some(task) => tasks.push(task),
            None => break,
        }
    }
    tasks
}

#[test]
fn early_checks_run_in_order() {
    let clear = RequestEvent::Clear;
    assert_eq!(
        tasks_of(&[clear, clear, clear, clear]),
        vec![
            RequestTask::Check(EarlyCheck::Host),
            RequestTask::Check(EarlyCheck::Normalize),
            RequestTask::Check(EarlyCheck::Reserved),
            RequestTask::Check(EarlyCheck::MaxForwards),
            RequestTask::Capture,
        ]
    );
    for passed in 0..3 {
        let mut events = vec![clear; passed];
        events.push(RequestEvent::Found);
        let tasks = tasks_of(&events);
        assert_eq!(tasks.len(), passed + 2);
        assert_eq!(tasks[passed + 1], RequestTask::RejectEarly);
        assert_eq!(next_request_task(RequestTask::RejectEarly, clear), None);
    }
}

#[test]
fn max_forwards_may_end_the_phase() {
    let check = RequestTask::Check(EarlyCheck::MaxForwards);
    for handled in [true, false] {
        let end = RequestTask::EndEarly {
            snapshot: handled,
            handled,
        };
        assert_eq!(next_request_task(check, RequestEvent::Answered(handled)), Some(end));
        assert_eq!(next_request_task(end, RequestEvent::Clear), None);
    }
    assert_eq!(next_request_task(check, RequestEvent::Found), None);
}

#[test]
fn filters_run_after_the_body_was_read_ahead() {
    let clear = RequestEvent::Clear;
    let tasks = tasks_of(&[
        clear,
        clear,
        clear,
        clear,
        RequestEvent::Captured(true),
        clear,
        RequestEvent::Ran(true),
        clear,
        clear,
    ]);
    assert_eq!(
        tasks[5..],
        [
            RequestTask::PreRead,
            RequestTask::RunFilters,
            RequestTask::AdaptBody,
            RequestTask::Finish,
        ]
    );
    let tasks = tasks_of(&[
        clear,
        clear,
        clear,
        clear,
        RequestEvent::Captured(false),
        RequestEvent::Ran(false),
    ]);
    assert_eq!(tasks[5..], [RequestTask::RunFilters, RequestTask::Finish]);
    assert_eq!(
        next_request_task(RequestTask::PreRead, RequestEvent::Failed),
        Some(RequestTask::EndPreRead)
    );
    assert_eq!(next_request_task(RequestTask::EndPreRead, clear), None);
}

#[test]
fn facts_of_a_tls_client_are_captured() {
    let mut ctx = make_ctx();
    let tls = TlsDigest {
        cert_digest: vec![1, 2],
        organization: Some("org".to_owned()),
        serial_number: None,
    };
    let addr = ClientAddr::V6([0, 0, 0, 0, 0, 0, 0, 0, 0, 0, 0xff, 0xff, 10, 0, 0, 1]);
    capture_request_facts(&mut ctx, HttpVersion::Http2, Some(addr), Some(tls), "POST");
    assert!(ctx.downstream_tls);
    assert_eq!(ctx.client_addr, Some(ClientAddr::V4([10, 0, 0, 1])));
    assert_eq!(ctx.peer_identity.unwrap().organization.as_deref(), Some("org"));

    let mut ctx = make_ctx();
    let tls = TlsDigest {
        cert_digest: Vec::new(),
        organization: Some("org".to_owned()),
        serial_number: None,
    };
    capture_request_facts(&mut ctx, HttpVersion::Http2, None, Some(tls), "POST");
    assert!(ctx.downstream_tls);
    assert!(ctx.peer_identity.is_none(), "no certificate, no identity");
}

#[test]
fn only_a_held_request_body_is_read_ahead() {
    let mut ctx = make_ctx();
    let held = BodyMode::StreamBuffer { max_bytes: None };
    assert!(select_body_modes(&mut ctx, held, BodyMode::Stream));
    assert_eq!(ctx.request_body_mode, held);
    assert!(!select_body_modes(&mut ctx, BodyMode::Stream, held));
    assert_eq!(ctx.response_body_mode, held);
}

#[test]
fn failed_read_ahead_keeps_the_request() {
    let mut ctx = make_ctx();
    match pre_read_failed(&mut ctx, make_request(), PreReadFailure::Rejected(Rejection::status(413))) {
        PreReadNext::Reject {
            error_type,
            rejection,
        } => {
            assert_eq!(error_type, ErrorType::FilterReject);
            assert_eq!(rejection.status, 413);
        },
        PreReadNext::HandleIo => panic!("a rejection is answered"),
    }
    assert!(ctx.request_snapshot.is_some());
    match pre_read_failed(&mut ctx, make_request(), PreReadFailure::Filter(failure("broken"))) {
        PreReadNext::Reject {
            error_type,
            rejection,
        } => {
            assert_eq!(error_type, ErrorType::Internal);
            assert_eq!(rejection.status, 500);
        },
        PreReadNext::HandleIo => panic!("a failure is answered"),
    }
    let next = pre_read_failed(&mut ctx, make_request(), PreReadFailure::Io);
    assert!(matches!(next, PreReadNext::HandleIo));
}

fn some_mutations() -> HeaderMutations {
    HeaderMutations {
        remove: vec![HeaderName::from_static("x-gone")],
        set: vec![(HeaderName::from_static("x-set"), HeaderValue::from_static("new"))],
        extra: vec![
            ("x-extra".to_owned(), "first".to_owned()),
            ("X-Extra".to_owned(), "second".to_owned()),
        ],
    }
}

fn request_header() -> RequestHeader {
    let mut header = RequestHeader::build("GET", b"/", None).unwrap();
    header.append_header("x-gone", "1").unwrap();
    header.append_header("x-gone", "2").unwrap();
    header.append_header("x-set", "old").unwrap();
    header.append_header("x-kept", "kept").unwrap();
    header
}

#[test]
fn session_and_snapshot_get_the_same_headers() {
    let mut header = request_header();
    let mut snapshot = header.headers.clone();
    apply_session_header_mutations(&mut header, &some_mutations());
    apply_pending_header_mutations(&mut snapshot, &some_mutations());
    assert_eq!(header.headers, snapshot);
    assert!(!snapshot.contains_key("x-gone"));
    assert_eq!(snapshot["x-set"], "new");
    assert_eq!(snapshot["x-kept"], "kept");
    assert_eq!(snapshot["x-extra"], "second");
    assert_eq!(snapshot.len(), 3);
}

#[test]
fn quoted_names_are_removed_too() {
    let quoted = HeaderName::from_static("x-\"gone");
    let mutations = || HeaderMutations {
        remove: vec![HeaderName::from_static("x-\"gone")],
        set: Vec::new(),
        extra: Vec::new(),
    };
    let mut snapshot = HeaderMap::new();
    snapshot.insert(quoted.clone(), HeaderValue::from_static("1"));
    apply_pending_header_mutations(&mut snapshot, &mutations());
    assert!(snapshot.is_empty());

    let mut header = RequestHeader::build_no_case("GET", b"/", None).unwrap();
    header.headers.insert(quoted, HeaderValue::from_static("1"));
    apply_session_header_mutations(&mut header, &mutations());
    assert!(header.headers.is_empty());
}

#[test]
fn set_values_keep_their_mark_and_spelling() {
    let mut secret = HeaderValue::from_static("s");
    secret.set_sensitive(true);
    let mutations = HeaderMutations {
        remove: Vec::new(),
        set: vec![(http::header::HOST, HeaderValue::from_static("h")), (HeaderName::from_static("x-key"), secret)],
        extra: vec![("X-Forwarded-For".to_owned(), "10.0.0.1".to_owned())],
    };
    let mut header = RequestHeader::build("GET", b"/", None).unwrap();
    let mut snapshot = HeaderMap::new();
    apply_pending_header_mutations(&mut snapshot, &mutations);
    apply_session_header_mutations(&mut header, &mutations);
    assert!(snapshot["x-key"].is_sensitive());
    assert!(header.headers["x-key"].is_sensitive());
    let mut wire = Vec::new();
    header.header_to_h1_wire(&mut wire);
    assert_eq!(wire, b"Host: h\r\nx-key: s\r\nX-Forwarded-For: 10.0.0.1\r\n");
}

#[test]
fn refused_fields_are_not_set() {
    let mutations = HeaderMutations {
        remove: Vec::new(),
        set: vec![(HeaderName::from_static("x-\"a"), HeaderValue::from_static("1"))],
        extra: vec![
            ("bad name".to_owned(), "1".to_owned()),
            ("x-bad-value".to_owned(), "a\nb".to_owned()),
            ("x-good".to_owned(), "1".to_owned()),
        ],
    };
    let mut header = RequestHeader::build("GET", b"/", None).unwrap();
    apply_session_header_mutations(&mut header, &mutations);
    assert_eq!(header.headers.len(), 1);
    assert_eq!(header.headers["x-good"], "1");
    let mut snapshot = HeaderMap::new();
    apply_pending_header_mutations(&mut snapshot, &mutations);
    assert_eq!(snapshot.len(), 2);
    assert!(snapshot.contains_key(HeaderName::from_static("x-\"a")));
}

#[test]
fn header_changes_leave_the_request_line() {
    let mut header = RequestHeader::build("POST", b"/a\xff?b=1", None).unwrap();
    header.set_version(http::Version::HTTP_2);
    header.append_header("x-gone", "1").unwrap();
    let uri = header.uri.clone();
    let verdict: RequestVerdict<()> = request_verdict(
        Ok(PipelineResult {
            action: Action::Continue,
            mutations: some_mutations(),
        }),
        &mut header,
    );
    assert!(matches!(verdict, RequestVerdict::Forward));
    assert!(!header.headers.contains_key("x-gone"));
    assert_eq!(header.method, http::Method::POST);
    assert_eq!(header.uri, uri);
    assert_eq!(header.raw_path(), b"/a\xff?b=1");
    assert_eq!(header.version, http::Version::HTTP_2);
}

#[test]
fn verdict_applies_the_header_changes() {
    let mut header = request_header();
    let verdict: RequestVerdict<()> = request_verdict(
        Ok(PipelineResult {
            action: Action::Continue,
            mutations: some_mutations(),
        }),
        &mut header,
    );
    assert!(matches!(verdict, RequestVerdict::Forward));
    assert_eq!(header.headers["x-set"], "new");
}

#[test]
fn verdict_on_a_stopped_request_leaves_the_headers() {
    let mut header = request_header();
    let rejected: RequestVerdict<()> = request_verdict(
        Ok(PipelineResult {
            action: Action::Reject(Rejection::status(403)),
            mutations: some_mutations(),
        }),
        &mut header,
    );
    match rejected {
        RequestVerdict::Reject {
            error_type,
            rejection,
        } => {
            assert_eq!(error_type, ErrorType::FilterReject);
            assert_eq!(rejection.status, 403);
        },
        _ => panic!("a rejection is answered"),
    }
    assert_eq!(header.headers["x-set"], "old");

    let failed: RequestVerdict<()> = request_verdict(Err(failure("broken")), &mut header);
    match failed {
        RequestVerdict::Reject {
            error_type,
            rejection,
        } => {
            assert_eq!(error_type, ErrorType::Internal);
            assert_eq!(rejection.status, 500);
        },
        _ => panic!("a failure is answered"),
    }

    let terminal: RequestVerdict<()> = request_verdict(
        Ok(PipelineResult {
            action: Action::TerminalResponse(TerminalResponse {
                status: 204,
                headers: HeaderMap::new(),
                body: None,
            }),
            mutations: HeaderMutations::none(),
        }),
        &mut header,
    );
    assert!(matches!(terminal, RequestVerdict::Terminal(response) if response.status == 204));
}

// ----- Response phase -----

/// A captured GET request.
fn captured_ctx() -> Ctx {
    let mut ctx = make_ctx();
    ctx.request_snapshot = Some(make_request());
    ctx
}

/// A captured request that asks for an upgrade.
fn make_upgrade_ctx() -> Ctx {
    let mut headers = HeaderMap::new();
    headers.insert(http::header::UPGRADE, "websocket".parse().unwrap());
    headers.insert(http::header::CONNECTION, "Upgrade".parse().unwrap());
    let mut ctx = make_ctx();
    ctx.request_snapshot = Some(Request {
        method: "GET".to_owned(),
        uri: "/".to_owned(),
        headers,
    });
    ctx
}

fn hop_by_hop() -> Vec<HeaderName> {
    ["connection", "keep-alive", "te", "trailer", "transfer-encoding", "upgrade"]
        .iter()
        .map(|name| HeaderName::from_static(name))
        .collect()
}

fn no_filters() -> ResponsePolicy {
    ResponsePolicy {
        is_empty: true,
        any_response_body_condition: false,
    }
}

/// Runs the response phase with one filter.
fn execute(
    policy: &ResponsePolicy,
    upstream: &mut ResponseHeader,
    ctx: &mut Ctx,
    filter: fn(&mut Response, &mut Fctx) -> Outcome,
) -> Result<(), Fault> {
    let upgraded = classify_upgrade(ctx, upstream)?;
    let kept = if upgraded { Vec::new() } else { hop_by_hop() };
    let start = start_response_phase(ctx, upstream, &kept, upgraded, policy.is_empty);
    let mut response = start.response;
    enter_response_filters(ctx)?;
    let mut fctx = filter_context(ctx);
    let result = filter(&mut response, &mut fctx);
    let flagged = run_response_pipeline(ctx, fctx);
    finish_response_phase(
        policy,
        result,
        upstream,
        response,
        start.fingerprint,
        flagged,
        false,
        ctx,
    )
}

fn see_nothing(_response: &mut Response, _fctx: &mut Fctx) -> Outcome {
    Ok(Action::Continue)
}

#[test]
fn empty_pipeline_passes_through() {
    let mut upstream_response = ResponseHeader::build(200, None).unwrap();
    let mut ctx = captured_ctx();

    let result = execute(&no_filters(), &mut upstream_response, &mut ctx, see_nothing);

    assert!(result.is_ok(), "empty pipeline should pass through without error");
}

#[test]
fn response_status_preserved() {
    let mut upstream_response = ResponseHeader::build(404, None).unwrap();
    let mut ctx = captured_ctx();

    assert!(execute(&no_filters(), &mut upstream_response, &mut ctx, see_nothing).is_ok());

    assert_eq!(upstream_response.status, 404);
}

#[test]
fn unmodified_headers_restored_after_pipeline() {
    let mut upstream_response = ResponseHeader::build(200, Some(2)).unwrap();
    drop(upstream_response.insert_header("x-original", "keep-me"));
    drop(upstream_response.insert_header("content-type", "text/plain"));
    let mut ctx = captured_ctx();

    assert!(execute(&no_filters(), &mut upstream_response, &mut ctx, see_nothing).is_ok());

    assert_eq!(upstream_response.headers.get("x-original").unwrap(), "keep-me");
    assert_eq!(upstream_response.headers.get("content-type").unwrap(), "text/plain");
    assert_eq!(upstream_response.headers.len(), 2);
}

#[test]
fn websocket_101_sets_connection_upgraded() {
    let mut resp = ResponseHeader::build(101, None).unwrap();
    drop(resp.insert_header("upgrade", "websocket"));
    drop(resp.insert_header("connection", "Upgrade"));
    drop(resp.insert_header("sec-websocket-accept", "s3pPLMBiTxaQ9kYGzzhZRbK+xOo="));
    let mut ctx = make_upgrade_ctx();

    assert!(execute(&no_filters(), &mut resp, &mut ctx, see_nothing).is_ok());

    assert!(
        ctx.connection_upgraded,
        "valid WebSocket 101 should set connection_upgraded"
    );
}

#[test]
fn bare_101_without_upgrade_header_does_not_set_flag() {
    let mut resp = ResponseHeader::build(101, None).unwrap();
    let mut ctx = make_upgrade_ctx();

    assert!(execute(&no_filters(), &mut resp, &mut ctx, see_nothing).is_ok());

    assert!(
        !ctx.connection_upgraded,
        "bare 101 without Upgrade header should not set connection_upgraded"
    );
}

#[test]
fn non_websocket_101_does_not_set_flag() {
    let mut resp = ResponseHeader::build(101, None).unwrap();
    drop(resp.insert_header("upgrade", "h2c"));
    drop(resp.insert_header("connection", "Upgrade"));
    let mut ctx = make_upgrade_ctx();

    assert!(execute(&no_filters(), &mut resp, &mut ctx, see_nothing).is_ok());

    assert!(
        !ctx.connection_upgraded,
        "non-WebSocket 101 (h2c) should not set connection_upgraded"
    );
}

#[test]
fn non_101_status_never_sets_flag() {
    let mut resp = ResponseHeader::build(200, None).unwrap();
    drop(resp.insert_header("upgrade", "websocket"));
    let mut ctx = captured_ctx();

    assert!(execute(&no_filters(), &mut resp, &mut ctx, see_nothing).is_ok());

    assert!(
        !ctx.connection_upgraded,
        "200 with Upgrade header should not set connection_upgraded"
    );
}

#[test]
fn unsolicited_101_websocket_rejected() {
    let mut resp = ResponseHeader::build(101, None).unwrap();
    drop(resp.insert_header("upgrade", "websocket"));
    drop(resp.insert_header("connection", "Upgrade"));
    drop(resp.insert_header("sec-websocket-accept", "s3pPLMBiTxaQ9kYGzzhZRbK+xOo="));
    let mut ctx = captured_ctx();

    let result = execute(&no_filters(), &mut resp, &mut ctx, see_nothing);

    assert!(result.is_err(), "unsolicited WebSocket 101 should be rejected");
    assert!(
        !ctx.connection_upgraded,
        "unsolicited 101 must not set connection_upgraded"
    );
}

#[test]
fn unsolicited_101_bare_rejected() {
    let mut resp = ResponseHeader::build(101, None).unwrap();
    let mut ctx = captured_ctx();

    let result = execute(&no_filters(), &mut resp, &mut ctx, see_nothing);

    let fault = result.err().expect("unsolicited bare 101 should be rejected");
    assert_eq!(fault.kind, FaultKind::HttpStatus(502));
    assert!(
        !ctx.connection_upgraded,
        "unsolicited 101 must not set connection_upgraded"
    );
}

#[test]
fn request_has_upgrade_true_when_present() {
    let ctx = make_upgrade_ctx();
    assert!(request_has_upgrade(&ctx), "should detect Upgrade header in request");
}

#[test]
fn request_has_upgrade_false_when_absent() {
    let ctx = captured_ctx();
    assert!(!request_has_upgrade(&ctx), "should return false when no Upgrade header");
}

#[test]
fn request_has_upgrade_false_when_no_snapshot() {
    let ctx = make_ctx();
    assert!(
        !request_has_upgrade(&ctx),
        "should return false when request_snapshot is None"
    );
}

fn upgrade_headers(value: &'static str) -> HeaderMap {
    let mut headers = HeaderMap::new();
    headers.insert(http::header::UPGRADE, value.parse().unwrap());
    headers.insert("sec-websocket-accept", "x".parse().unwrap());
    headers
}

#[test]
fn is_websocket_101_with_valid_header() {
    let headers = upgrade_headers("websocket");
    assert!(is_websocket_101(&headers), "should recognize lowercase websocket");
}

#[test]
fn is_websocket_101_case_insensitive() {
    let headers = upgrade_headers("WebSocket");
    assert!(is_websocket_101(&headers), "should recognize mixed-case WebSocket");
}

#[test]
fn is_websocket_101_missing_upgrade_header() {
    let headers = HeaderMap::new();
    assert!(
        !is_websocket_101(&headers),
        "missing Upgrade header should return false"
    );
}

#[test]
fn is_websocket_101_missing_accept_header() {
    let mut headers = HeaderMap::new();
    headers.insert(http::header::UPGRADE, "websocket".parse().unwrap());
    assert!(
        !is_websocket_101(&headers),
        "missing Sec-WebSocket-Accept header should return false"
    );
}

#[test]
fn is_websocket_101_with_whitespace() {
    let headers = upgrade_headers("  websocket  ");
    assert!(
        is_websocket_101(&headers),
        "padded websocket value should be recognized after trimming"
    );
}

#[test]
fn is_websocket_101_wrong_protocol() {
    let headers = upgrade_headers("h2c");
    assert!(!is_websocket_101(&headers), "h2c should not be treated as websocket");
}

#[test]
fn fingerprint_changes_when_a_header_name_is_swapped() {
    let mut before = HeaderMap::new();
    before.insert("x-old", "v".parse().unwrap());
    let mut after = HeaderMap::new();
    after.insert("x-new", "v".parse().unwrap());

    assert_eq!(before.len(), after.len(), "precondition: the counts match");
    assert_ne!(
        header_name_fingerprint(&before),
        header_name_fingerprint(&after),
        "a same-count name swap must change the fingerprint"
    );
}

#[test]
fn fingerprint_is_stable_when_only_a_value_changes() {
    let mut before = HeaderMap::new();
    before.insert("x-same", "old".parse().unwrap());
    let mut after = HeaderMap::new();
    after.insert("x-same", "new".parse().unwrap());

    assert_eq!(
        header_name_fingerprint(&before),
        header_name_fingerprint(&after),
        "value-only edits leave the name sequence intact and stay on the direct path"
    );
}

#[test]
fn fingerprint_is_stable_when_repeated_values_change() {
    let mut before = HeaderMap::new();
    before.append("x-multi", "a".parse().unwrap());
    before.append("x-other", "o".parse().unwrap());
    before.append("x-multi", "b".parse().unwrap());
    let mut after = HeaderMap::new();
    after.append("x-multi", "c".parse().unwrap());
    after.append("x-multi", "".parse().unwrap());
    after.append("x-other", "d".parse().unwrap());
    assert_eq!(header_name_fingerprint(&before), header_name_fingerprint(&after));
}

#[test]
fn only_a_rebuilt_response_is_of_another_version() {
    for headers_modified in [false, true] {
        let mut upstream = ResponseHeader::build(200, None).unwrap();
        upstream.set_version(http::Version::HTTP_10);
        let handled = handle_response_result(
            Ok(Action::Continue),
            &mut upstream,
            Response {
                headers: HeaderMap::new(),
                status: 200,
            },
            headers_modified,
            false,
            &mut make_ctx(),
        );
        assert!(handled.is_ok());
        let version = if headers_modified { http::Version::HTTP_11 } else { http::Version::HTTP_10 };
        assert_eq!(upstream.version, version);
    }
}

#[test]
fn fingerprint_accounts_for_repeated_names() {
    let mut single = HeaderMap::new();
    single.append("x-multi", "a".parse().unwrap());
    let mut double = HeaderMap::new();
    double.append("x-multi", "a".parse().unwrap());
    double.append("x-multi", "b".parse().unwrap());

    assert_ne!(
        header_name_fingerprint(&single),
        header_name_fingerprint(&double),
        "multi-valued headers occupy multiple slots in the zipped sequence"
    );
}

#[test]
fn status_change_is_written_back_without_header_changes() {
    let mut upstream = ResponseHeader::build(200, None).unwrap();
    let resp = Response {
        headers: HeaderMap::new(),
        status: 418,
    };

    let handled = handle_response_result(
        Ok(Action::Continue),
        &mut upstream,
        resp,
        false,
        false,
        &mut make_ctx(),
    );
    assert!(handled.is_ok());

    assert_eq!(
        upstream.status, 418,
        "a status-only edit must reach the response even on the direct write-back path"
    );
}

fn on_the_wire(header: &ResponseHeader) -> String {
    let mut buf = BytesMut::new();
    header.header_to_h1_wire(&mut buf);
    String::from_utf8_lossy(&buf).into_owned()
}

#[test]
fn rebuilt_response_serialises_after_a_name_swap() {
    let mut upstream = ResponseHeader::build(200, Some(1)).unwrap();
    drop(upstream.insert_header("x-old", "v"));

    let mut taken = std::mem::take(&mut upstream.headers);
    taken.remove("x-old");
    taken.insert("x-new", "v".parse().unwrap());
    let resp = Response {
        headers: taken,
        status: 200,
    };

    let handled = handle_response_result(
        Ok(Action::Continue),
        &mut upstream,
        resp,
        true,
        false,
        &mut make_ctx(),
    );
    assert!(handled.is_ok());

    let wire = on_the_wire(&upstream);
    assert!(wire.contains("x-new"), "swapped-in header should serialise: {wire}");
    assert!(!wire.contains("x-old"), "swapped-out header should be gone: {wire}");
}

#[test]
fn rebuild_preserves_the_upstream_reason_phrase() {
    let mut upstream = ResponseHeader::build(200, None).unwrap();
    upstream.set_reason_phrase(Some("Totally Fine")).unwrap();
    let mut headers = HeaderMap::new();
    headers.insert("x-added", "1".parse().unwrap());
    let resp = Response { headers, status: 200 };

    let handled = handle_response_result(
        Ok(Action::Continue),
        &mut upstream,
        resp,
        true,
        false,
        &mut make_ctx(),
    );
    assert!(handled.is_ok());

    assert_eq!(
        upstream.get_reason_phrase(),
        Some("Totally Fine"),
        "the rebuild must not reset a custom reason phrase"
    );
}

#[test]
fn rebuilt_and_direct_headers_agree() {
    let written: Vec<HeaderMap> = [true, false]
        .into_iter()
        .map(|rebuild| {
            let mut upstream = ResponseHeader::build(200, None).unwrap();
            upstream.append_header("Set-Cookie", "a=1").unwrap();
            upstream.append_header("X-Other", "x").unwrap();
            upstream.append_header("Set-Cookie", "b=2").unwrap();
            let headers = std::mem::take(&mut upstream.headers);
            let resp = Response { headers, status: 200 };
            let handled = handle_response_result(
                Ok(Action::Continue),
                &mut upstream,
                resp,
                rebuild,
                false,
                &mut make_ctx(),
            );
            assert!(handled.is_ok());
            upstream.headers.clone()
        })
        .collect();
    assert_eq!(written[0], written[1]);
    assert_eq!(written[0].len(), 3);
}

fn filtered() -> ResponsePolicy {
    ResponsePolicy {
        is_empty: false,
        any_response_body_condition: true,
    }
}

#[test]
fn name_swap_that_no_filter_reports_is_written_safely() {
    let mut upstream = ResponseHeader::build(200, Some(1)).unwrap();
    drop(upstream.insert_header("X-Old", "v"));
    let mut ctx = captured_ctx();
    let handled = execute(&filtered(), &mut upstream, &mut ctx, |response, _| {
        response.headers.remove("x-old");
        response.headers.insert("x-new", "v".parse().unwrap());
        Ok(Action::Continue)
    });
    assert!(handled.is_ok());
    let wire = on_the_wire(&upstream);
    assert!(wire.contains("x-new: v"), "{wire}");
    assert_eq!(ctx.response_header_snapshot.unwrap().headers.len(), 1);
}

#[test]
fn internal_header_added_by_a_filter_stays_inside() {
    let mut upstream = ResponseHeader::build(200, None).unwrap();
    drop(upstream.insert_header("x-praxis-route", "inner"));
    drop(upstream.insert_header("connection", "close"));
    drop(upstream.insert_header("x-kept", "1"));
    let mut ctx = captured_ctx();
    let handled = execute(&filtered(), &mut upstream, &mut ctx, |response, _| {
        assert_eq!(response.headers.len(), 1, "filters see only what may pass");
        response.headers.insert("x-ext-task", "t".parse().unwrap());
        Ok(Action::Continue)
    });
    assert!(handled.is_ok());
    assert_eq!(upstream.headers.len(), 1);
    assert_eq!(upstream.headers["x-kept"], "1");
    assert_eq!(ctx.upstream_response_status, Some(200));
    assert!(ctx.response_phase_done);
}

#[test]
fn rejected_response_is_kept_for_the_error_path() {
    let mut upstream = ResponseHeader::build(200, None).unwrap();
    let mut ctx = captured_ctx();
    let fault = execute(&filtered(), &mut upstream, &mut ctx, |_, _| {
        Ok(Action::Reject(Rejection::status(451)))
    })
    .err()
    .unwrap();
    assert_eq!(fault.kind, FaultKind::HttpStatus(451));
    assert_eq!(ctx.pending_rejection.unwrap().status, 451);
    assert!(ctx.response_header_snapshot.is_none());

    let mut ctx = captured_ctx();
    let fault = execute(&filtered(), &mut upstream, &mut ctx, |_, _| Err(failure("boom")))
        .err()
        .unwrap();
    assert_eq!(fault.kind, FaultKind::Internal);
    assert_eq!(fault.message, "response filter error: boom");
}

#[test]
fn response_phase_needs_a_captured_request() {
    let mut upstream = ResponseHeader::build(200, None).unwrap();
    let mut ctx = make_ctx();
    let fault = execute(&no_filters(), &mut upstream, &mut ctx, see_nothing).err().unwrap();
    assert_eq!(fault.kind, FaultKind::Internal);
    assert_eq!(fault.message, "request snapshot not set during response phase");
}

#[test]
fn bodyless_response_is_delivered_with_its_header() {
    let mut upstream = ResponseHeader::build(304, None).unwrap();
    let mut ctx = captured_ctx();
    let resp = Response {
        headers: HeaderMap::new(),
        status: 304,
    };
    let handled = handle_response_result(Ok(Action::Continue), &mut upstream, resp, false, true, &mut ctx);
    assert!(handled.is_ok());
    assert!(ctx.response_delivery_complete);
}

// ----- Stripping -----

#[test]
fn listed_and_internal_headers_are_stripped() {
    let mut headers = HeaderMap::new();
    headers.append("connection", "close".parse().unwrap());
    headers.append("x-one", "1".parse().unwrap());
    headers.append("X-Praxis-Route", "r".parse().unwrap());
    headers.append("x-one", "2".parse().unwrap());
    strip_hop_by_hop_header_map(&mut headers, &vec![http::header::CONNECTION]);
    strip_reserved_internal_header_map(&mut headers);
    assert_eq!(headers.len(), 2);
    let values: Vec<_> = headers.get_all("x-one").iter().collect();
    assert_eq!(values, ["1", "2"]);
}

#[test]
fn internal_headers_with_a_quote_are_stripped() {
    let quoted = HeaderName::from_static("x-praxis-\"a");
    let mut headers = HeaderMap::new();
    headers.insert(quoted.clone(), HeaderValue::from_static("1"));
    headers.insert("x-kept", HeaderValue::from_static("2"));
    strip_reserved_internal_header_map(&mut headers);
    assert_eq!(headers.len(), 1);
    assert!(headers.contains_key("x-kept"));

    let mut header = ResponseHeader::build_no_case(200, None).unwrap();
    header.headers.insert(quoted, HeaderValue::from_static("1"));
    header.headers.insert("x-kept", HeaderValue::from_static("2"));
    strip_reserved_internal(&mut header);
    assert_eq!(header.headers.len(), 1);
}

#[test]
fn many_repeated_fields_are_written_back() {
    for rebuild in [false, true] {
        let mut upstream = ResponseHeader::build(200, None).unwrap();
        for _ in 0..9000 {
            upstream.append_header("set-cookie", "a=1").unwrap();
        }
        let mut ctx = captured_ctx();
        let policy = ResponsePolicy {
            is_empty: false,
            any_response_body_condition: false,
        };
        let filter = if rebuild {
            |_: &mut Response, fctx: &mut Fctx| {
                fctx.response_headers_modified = true;
                Ok(Action::Continue)
            }
        } else {
            |_: &mut Response, _: &mut Fctx| Ok(Action::Continue)
        };
        assert!(execute(&policy, &mut upstream, &mut ctx, filter).is_ok());
        assert_eq!(upstream.headers.get_all("set-cookie").iter().count(), 9000);
        let spelled = if rebuild { "Set-Cookie: a=1" } else { "set-cookie: a=1" };
        assert!(on_the_wire(&upstream).contains(spelled));
    }
}

#[test]
fn clean_headers_are_left_alone() {
    let mut headers = HeaderMap::new();
    headers.append("x-one", "1".parse().unwrap());
    headers.append("x-extra", "2".parse().unwrap());
    headers.append("xx-praxis-", "3".parse().unwrap());
    let before = headers.clone();
    strip_reserved_internal_header_map(&mut headers);
    assert_eq!(headers, before);
}

#[test]
fn stripped_transport_header_can_still_be_written() {
    let mut header = ResponseHeader::build(200, None).unwrap();
    header.append_header("Connection", "close").unwrap();
    header.append_header("X-Ext-Task", "a").unwrap();
    header.append_header("X-Ext-Task", "b").unwrap();
    header.append_header("X-Kept", "c").unwrap();
    strip_hop_by_hop_response(&mut header, &hop_by_hop());
    strip_reserved_internal(&mut header);
    let wire = on_the_wire(&header);
    assert!(wire.contains("X-Kept: c"), "{wire}");
    assert!(!wire.to_ascii_lowercase().contains("x-ext-task"), "{wire}");
}
