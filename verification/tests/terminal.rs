//! Responses made by filters.
use bytes::Bytes;
use http::{HeaderMap, HeaderName, HeaderValue};
use praxis::body::BodyMode;
use praxis::context::{
    FilterAction, FilterContext, FilterError, HttpVersion, Rejection, Request, RequestCtx, Response,
};
use praxis::streaming::{
    chunk_event, commit_stream, next_stream_step, start_stream, suppressed_header, Commitment,
    StreamAction, StreamEvent, StreamPhase,
};
use praxis::terminal::{
    after_terminal_filters, begin_terminal_response, build_streaming_terminal_header,
    build_terminal_header, finish_terminal_body, finish_terminal_response, plan_terminal_response,
    prepare_streaming_headers, streaming_size_limit_exceeded, TerminalNext, TerminalPlan,
};

type Ctx = RequestCtx<u32>;
type Action = FilterAction<()>;

fn make_resp(status: u16) -> Response {
    Response {
        status,
        headers: HeaderMap::new(),
    }
}

fn make_ctx() -> Ctx {
    RequestCtx::new()
}

fn captured_ctx() -> Ctx {
    let mut ctx = make_ctx();
    ctx.request_snapshot = Some(Request {
        method: "GET".to_owned(),
        uri: "/".to_owned(),
        headers: HeaderMap::new(),
    });
    ctx
}

fn hop_by_hop() -> Vec<HeaderName> {
    [
        "connection",
        "keep-alive",
        "proxy-connection",
        "te",
        "trailer",
        "transfer-encoding",
        "upgrade",
    ]
    .iter()
    .map(|name| HeaderName::from_static(name))
    .collect()
}

/// A response with far more fields than names.
fn many_cookies(status: u16) -> Response {
    let mut resp = make_resp(status);
    for _ in 0..9000 {
        resp.headers.append("set-cookie", HeaderValue::from_static("a=1"));
    }
    resp
}

#[test]
fn repeated_fields_do_not_fill_a_terminal_header() {
    let header = build_terminal_header(&many_cookies(200), None, false, false).unwrap();
    assert_eq!(header.headers.get_all("set-cookie").iter().count(), 9000);
    assert_eq!(header.headers["content-length"], "0");
    let header = build_streaming_terminal_header(&many_cookies(200)).unwrap();
    assert_eq!(header.headers.get_all("set-cookie").iter().count(), 9000);

    let mut ctx = Ctx::new();
    match commit_stream(&ctx, many_cookies(200), &hop_by_hop(), false, HttpVersion::Http11) {
        Commitment::Ready(_, header) => assert_eq!(header.headers.len(), 9001),
        _ => panic!("the response is streamed"),
    }
    let header = suppressed_header(&mut ctx, many_cookies(304), &hop_by_hop(), false).unwrap();
    assert_eq!(header.headers.len(), 9000);
}

#[test]
fn terminal_header_keeps_marks_and_usual_spellings() {
    let mut resp = make_resp(200);
    let mut secret = HeaderValue::from_static("s");
    secret.set_sensitive(true);
    resp.headers.insert("set-cookie", secret);
    resp.headers.insert("x-custom", HeaderValue::from_static("c"));
    let header = build_terminal_header(&resp, Some(&Bytes::from_static(b"abc")), false, false).unwrap();
    assert!(header.headers["set-cookie"].is_sensitive());
    assert!(!header.headers["x-custom"].is_sensitive());
    let mut wire = Vec::new();
    header.header_to_h1_wire(&mut wire);
    assert_eq!(wire, b"Set-Cookie: s\r\nx-custom: c\r\ncontent-length: 3\r\n");
}

fn prepare(resp: &mut Response, is_head: bool, is_not_modified: bool, version: HttpVersion) {
    prepare_streaming_headers(resp, &hop_by_hop(), is_head, is_not_modified, version);
}

#[test]
fn streaming_headers_strip_hop_by_hop() {
    let mut resp = make_resp(200);
    resp.headers
        .insert(http::header::CONNECTION, "keep-alive".parse().unwrap());
    resp.headers
        .insert(http::header::TRANSFER_ENCODING, "chunked".parse().unwrap());
    resp.headers.insert("x-custom", "keep".parse().unwrap());

    prepare(&mut resp, false, false, HttpVersion::Http11);

    assert!(!resp.headers.contains_key(http::header::CONNECTION));
    assert!(resp.headers.contains_key("x-custom"));
}

#[test]
fn streaming_headers_http11_adds_chunked() {
    let mut resp = make_resp(200);

    prepare(&mut resp, false, false, HttpVersion::Http11);

    assert_eq!(resp.headers.get(http::header::TRANSFER_ENCODING).unwrap(), "chunked");
}

#[test]
fn streaming_headers_http10_no_chunked() {
    let mut resp = make_resp(200);

    prepare(&mut resp, false, false, HttpVersion::Http10);

    assert!(!resp.headers.contains_key(http::header::TRANSFER_ENCODING));
}

#[test]
fn streaming_headers_http2_no_chunked() {
    let mut resp = make_resp(200);

    prepare(&mut resp, false, false, HttpVersion::Http2);

    assert!(!resp.headers.contains_key(http::header::TRANSFER_ENCODING));
}

#[test]
fn streaming_headers_head_no_chunked() {
    let mut resp = make_resp(200);

    prepare(&mut resp, true, false, HttpVersion::Http11);

    assert!(!resp.headers.contains_key(http::header::TRANSFER_ENCODING));
}

#[test]
fn streaming_headers_304_no_chunked() {
    let mut resp = make_resp(304);

    prepare(&mut resp, false, true, HttpVersion::Http11);

    assert!(!resp.headers.contains_key(http::header::TRANSFER_ENCODING));
}

#[test]
fn streaming_headers_204_removes_content_length() {
    let mut resp = make_resp(204);
    resp.headers.insert(http::header::CONTENT_LENGTH, "0".parse().unwrap());

    prepare(&mut resp, false, false, HttpVersion::Http10);

    assert!(!resp.headers.contains_key(http::header::CONTENT_LENGTH));
}

#[test]
fn streaming_headers_head_preserves_content_length() {
    let mut resp = make_resp(200);
    resp.headers
        .insert(http::header::CONTENT_LENGTH, "1024".parse().unwrap());

    prepare(&mut resp, true, false, HttpVersion::Http11);

    assert_eq!(resp.headers.get(http::header::CONTENT_LENGTH).unwrap(), "1024");
}

#[test]
fn streaming_headers_304_preserves_content_length() {
    let mut resp = make_resp(304);
    resp.headers
        .insert(http::header::CONTENT_LENGTH, "512".parse().unwrap());

    prepare(&mut resp, false, true, HttpVersion::Http11);

    assert_eq!(resp.headers.get(http::header::CONTENT_LENGTH).unwrap(), "512");
}

#[test]
fn streaming_headers_replaces_existing_transfer_encoding() {
    let mut resp = make_resp(200);
    resp.headers
        .insert(http::header::TRANSFER_ENCODING, "gzip".parse().unwrap());

    prepare(&mut resp, false, false, HttpVersion::Http11);

    assert_eq!(resp.headers.get(http::header::TRANSFER_ENCODING).unwrap(), "chunked");
}

#[test]
fn streaming_headers_hide_internal_headers() {
    let mut resp = make_resp(200);
    resp.headers.insert("x-praxis-route", "inner".parse().unwrap());
    resp.headers.append("x-ext-note", "a".parse().unwrap());
    resp.headers.append("x-ext-note", "b".parse().unwrap());
    resp.headers.insert("x-extra", "kept".parse().unwrap());

    prepare(&mut resp, false, false, HttpVersion::Http2);

    assert_eq!(resp.headers.len(), 1);
    assert_eq!(resp.headers.get("x-extra").unwrap(), "kept");
}

#[test]
fn build_streaming_header_valid_200() {
    let resp = make_resp(200);
    let header = build_streaming_terminal_header(&resp);
    assert!(header.is_some());
    assert_eq!(header.unwrap().status, 200);
}

#[test]
fn build_streaming_header_valid_599() {
    let resp = make_resp(599);
    let header = build_streaming_terminal_header(&resp);
    assert!(header.is_some());
}

#[test]
fn build_streaming_header_invalid_100() {
    let resp = make_resp(100);
    assert!(build_streaming_terminal_header(&resp).is_none());
}

#[test]
fn build_streaming_header_preserves_custom_headers() {
    let mut resp = make_resp(200);
    resp.headers.insert("x-custom", "value".parse().unwrap());

    let header = build_streaming_terminal_header(&resp).unwrap();

    assert_eq!(header.headers.get("x-custom").unwrap(), "value");
}

#[test]
fn streaming_size_limit_not_exceeded() {
    let mut ctx = make_ctx();
    ctx.response_body_mode = BodyMode::SizeLimit { max_bytes: 1024 };
    ctx.response_body_bytes = 512;

    assert!(!streaming_size_limit_exceeded(&ctx, None));
}

#[test]
fn streaming_size_limit_exceeded_over() {
    let mut ctx = make_ctx();
    ctx.response_body_mode = BodyMode::SizeLimit { max_bytes: 100 };
    ctx.response_body_bytes = 101;

    assert!(streaming_size_limit_exceeded(&ctx, None));
}

#[test]
fn streaming_size_limit_stream_mode_never_exceeded() {
    let mut ctx = make_ctx();
    ctx.response_body_mode = BodyMode::Stream;
    ctx.response_body_bytes = 999_999;

    assert!(!streaming_size_limit_exceeded(&ctx, None));
}

#[test]
fn streaming_size_limit_follows_the_global_one() {
    let mut ctx = make_ctx();
    ctx.response_body_bytes = 100;
    assert!(!streaming_size_limit_exceeded(&ctx, Some(100)));
    assert!(streaming_size_limit_exceeded(&ctx, Some(99)));
    ctx.response_body_mode = BodyMode::SizeLimit { max_bytes: 200 };
    assert!(!streaming_size_limit_exceeded(&ctx, Some(99)));
}

#[test]
fn streaming_size_limit_exact_boundary() {
    let mut ctx = make_ctx();
    ctx.response_body_mode = BodyMode::SizeLimit { max_bytes: 100 };
    ctx.response_body_bytes = 100;

    assert!(!streaming_size_limit_exceeded(&ctx, None));
}

#[test]
fn build_terminal_header_head_preserves_content_length() {
    let mut resp = make_resp(200);
    resp.headers
        .insert(http::header::CONTENT_LENGTH, "1024".parse().unwrap());
    let body = Some(Bytes::from_static(b"body"));

    let header =
        build_terminal_header(&resp, body.as_ref(), false, true).expect("should build header for HEAD");

    assert_eq!(
        header
            .headers
            .get(http::header::CONTENT_LENGTH)
            .unwrap()
            .to_str()
            .unwrap(),
        "1024",
        "HEAD responses preserve original Content-Length"
    );
}

#[test]
fn build_terminal_header_body_prohibited_no_content() {
    let mut resp = make_resp(204);
    resp.headers
        .insert(http::header::CONTENT_LENGTH, "100".parse().unwrap());
    let body = Some(Bytes::from_static(b"should be ignored"));

    let header =
        build_terminal_header(&resp, body.as_ref(), true, false).expect("should build header for 204");

    assert!(
        !header.headers.contains_key(http::header::CONTENT_LENGTH),
        "204 responses should not have Content-Length"
    );
}

#[test]
fn build_terminal_header_body_prohibited_not_modified() {
    let resp = make_resp(304);
    let body: Option<Bytes> = None;

    let header =
        build_terminal_header(&resp, body.as_ref(), true, false).expect("should build header for 304");

    assert!(
        !header.headers.contains_key(http::header::CONTENT_LENGTH),
        "304 with body_prohibited should not add Content-Length"
    );
}

#[test]
fn build_terminal_header_empty_body() {
    let resp = make_resp(200);
    let body: Option<Bytes> = None;

    let header =
        build_terminal_header(&resp, body.as_ref(), false, false).expect("should build header for empty body");

    assert_eq!(
        header
            .headers
            .get(http::header::CONTENT_LENGTH)
            .unwrap()
            .to_str()
            .unwrap(),
        "0",
        "empty body should have Content-Length: 0"
    );
}

#[test]
fn build_terminal_header_with_body() {
    let resp = make_resp(200);
    let body = Some(Bytes::from_static(b"response body"));

    let header =
        build_terminal_header(&resp, body.as_ref(), false, false).expect("should build header with body");

    assert_eq!(
        header
            .headers
            .get(http::header::CONTENT_LENGTH)
            .unwrap()
            .to_str()
            .unwrap(),
        "13",
        "body length should match actual bytes"
    );
}

#[test]
fn build_terminal_header_removes_stale_content_length_except_head() {
    let mut resp = make_resp(200);
    resp.headers
        .insert(http::header::CONTENT_LENGTH, "9999".parse().unwrap());
    let body = Some(Bytes::from_static(b"real"));

    let header = build_terminal_header(&resp, body.as_ref(), false, false).expect("should build header");

    assert_eq!(
        header
            .headers
            .get(http::header::CONTENT_LENGTH)
            .unwrap()
            .to_str()
            .unwrap(),
        "4",
        "stale Content-Length should be replaced with actual body length"
    );
}

#[test]
fn build_terminal_header_invalid_status_out_of_range_low() {
    let resp = make_resp(199);

    let header = build_terminal_header(&resp, None, false, false);

    assert!(header.is_none(), "status 199 should be rejected");
}

#[test]
fn build_terminal_header_invalid_status_out_of_range_high() {
    let resp = make_resp(600);

    let header = build_terminal_header(&resp, None, false, false);

    assert!(header.is_none(), "status 600 should be rejected");
}

#[test]
fn build_terminal_header_boundary_status_200() {
    let resp = make_resp(200);

    let header = build_terminal_header(&resp, None, false, false);

    assert!(header.is_some(), "status 200 is valid");
}

#[test]
fn build_terminal_header_boundary_status_599() {
    let resp = make_resp(599);

    let header = build_terminal_header(&resp, None, false, false);

    assert!(header.is_some(), "status 599 is valid");
}

#[test]
fn streaming_size_limit_stream_buffer_mode_no_limit() {
    let mut ctx = make_ctx();
    ctx.response_body_mode = BodyMode::StreamBuffer { max_bytes: Some(1000) };
    ctx.response_body_bytes = 1001;

    assert!(
        !streaming_size_limit_exceeded(&ctx, None),
        "StreamBuffer mode does not enforce limit in streaming terminal context"
    );
}

#[test]
fn streaming_size_limit_size_limit_mode_enforced() {
    let mut ctx = make_ctx();
    ctx.response_body_mode = BodyMode::SizeLimit { max_bytes: 500 };
    ctx.response_body_bytes = 501;

    assert!(
        streaming_size_limit_exceeded(&ctx, None),
        "SizeLimit mode should enforce limit"
    );
}

#[test]
fn terminal_response_is_recorded_with_its_own_status() {
    let mut ctx = make_ctx();
    let (resp, run) = begin_terminal_response(&mut ctx, 42, HeaderMap::new());
    assert_eq!(resp.status, 500);
    assert!(!run, "without a captured request no filter runs");
    assert!(ctx.response_phase_done);
    assert_eq!(ctx.upstream_response_status, Some(42));

    let mut ctx = captured_ctx();
    let (resp, run) = begin_terminal_response(&mut ctx, 204, HeaderMap::new());
    assert_eq!(resp.status, 204);
    assert!(run);
}

#[test]
fn terminal_filters_may_reject_or_fail() {
    let mut ctx = captured_ctx();
    let mut fctx: FilterContext<u32> = FilterContext::new();
    fctx.cluster = Some("kept".to_owned());
    fctx.response_body_mode = BodyMode::SizeLimit { max_bytes: 10 };
    let passed =
        finish_terminal_response(&mut ctx, fctx, Ok(Action::Continue), make_resp(201)).ok().unwrap();
    assert_eq!(passed.status, 201);
    assert_eq!(ctx.cluster.as_deref(), Some("kept"));
    assert!(matches!(ctx.response_body_mode, BodyMode::SizeLimit { max_bytes: 10 }));

    let rejected = finish_terminal_response(
        &mut ctx,
        FilterContext::new(),
        Ok(Action::Reject(Rejection::status(403))),
        make_resp(200),
    );
    assert_eq!(rejected.err().unwrap().status, 403);

    let failure: Result<Action, FilterError> = Err(FilterError { message: "broken".to_owned() });
    let failed = finish_terminal_response(&mut ctx, FilterContext::new(), failure, make_resp(200));
    assert_eq!(failed.err().unwrap().status, 500);
}

#[test]
fn terminal_body_completes_the_delivery_at_its_end() {
    let mut ctx = captured_ctx();
    let mut fctx: FilterContext<u32> = FilterContext::new();
    fctx.response_body_bytes = 7;
    assert!(finish_terminal_body(&mut ctx, fctx, Ok(Action::Continue), false).is_ok());
    assert_eq!(ctx.response_body_bytes, 7);
    assert!(!ctx.response_delivery_complete);
    let refused = finish_terminal_body(
        &mut ctx,
        FilterContext::new(),
        Ok(Action::Reject(Rejection::status(502))),
        true,
    );
    assert_eq!(refused.err().unwrap().status, 502);
    assert!(!ctx.response_delivery_complete);
    assert!(finish_terminal_body(&mut ctx, FilterContext::new(), Ok(Action::Continue), true).is_ok());
    assert!(ctx.response_delivery_complete);
}

#[test]
fn bodyless_terminal_response_skips_the_body_filters() {
    let mut ctx = captured_ctx();
    assert_eq!(after_terminal_filters(&mut ctx, true), TerminalNext::Send);
    assert!(ctx.response_delivery_complete);
    let mut ctx = captured_ctx();
    assert_eq!(after_terminal_filters(&mut ctx, false), TerminalNext::RunBodyFilters);
    assert!(!ctx.response_delivery_complete);
    let mut ctx = make_ctx();
    assert_eq!(after_terminal_filters(&mut ctx, false), TerminalNext::Send);
    assert!(!ctx.response_delivery_complete);
}

#[test]
fn terminal_plan_strips_and_measures() {
    let mut resp = make_resp(200);
    resp.headers.insert("connection", "close".parse().unwrap());
    resp.headers.insert("x-praxis-route", "inner".parse().unwrap());
    resp.headers.insert("x-kept", "1".parse().unwrap());
    let body = Some(Bytes::from_static(b"hello"));
    match plan_terminal_response(resp, body, &hop_by_hop(), false) {
        TerminalPlan::Write {
            header,
            end_of_stream,
            body,
        } => {
            assert!(!end_of_stream);
            assert_eq!(body.unwrap(), Bytes::from_static(b"hello"));
            assert_eq!(header.headers.len(), 2);
            assert_eq!(header.headers["x-kept"], "1");
            assert_eq!(header.headers["content-length"], "5");
        },
        TerminalPlan::Reject(_) => panic!("a 200 can be sent"),
    }
}

#[test]
fn terminal_plan_sends_no_body_where_none_is_allowed() {
    for (status, is_head) in [(204, false), (304, false), (200, true)] {
        let body = Some(Bytes::from_static(b"dropped"));
        match plan_terminal_response(make_resp(status), body, &hop_by_hop(), is_head) {
            TerminalPlan::Write {
                end_of_stream, body, ..
            } => {
                assert!(end_of_stream);
                assert!(body.is_none());
            },
            TerminalPlan::Reject(_) => panic!("{status} can be sent"),
        }
    }
    match plan_terminal_response(make_resp(600), None, &hop_by_hop(), false) {
        TerminalPlan::Reject(rejection) => assert_eq!(rejection.status, 500),
        TerminalPlan::Write { .. } => panic!("600 cannot be sent"),
    }
}

#[test]
fn stream_is_refused_where_the_body_is_buffered() {
    let mut ctx = make_ctx();
    ctx.response_body_mode = BodyMode::StreamBuffer { max_bytes: None };
    let refused = commit_stream(&ctx, make_resp(200), &hop_by_hop(), false, HttpVersion::Http11);
    assert_eq!(refused.event(), StreamEvent::Refused);

    let ctx = make_ctx();
    let refused = commit_stream(&ctx, make_resp(199), &hop_by_hop(), false, HttpVersion::Http11);
    assert_eq!(refused.event(), StreamEvent::Refused);
}

#[test]
fn stream_commits_to_a_chunked_header() {
    let ctx = make_ctx();
    let mut resp = make_resp(200);
    resp.headers.insert("content-length", "3".parse().unwrap());
    match commit_stream(&ctx, resp, &hop_by_hop(), false, HttpVersion::Http11) {
        Commitment::Ready(prepared, header) => {
            assert_eq!(header.headers["transfer-encoding"], "chunked");
            assert_eq!(header.headers.len(), 1);
            assert_eq!(prepared.headers.len(), 1);
        },
        _ => panic!("a 200 can be streamed"),
    }
}

#[test]
fn bodyless_stream_is_suppressed() {
    let mut ctx = make_ctx();
    let mut resp = make_resp(304);
    resp.headers.insert("content-length", "3".parse().unwrap());
    let resp = match commit_stream(&ctx, resp, &hop_by_hop(), false, HttpVersion::Http11) {
        Commitment::Bodyless(resp) => resp,
        _ => panic!("a 304 has no body"),
    };
    let header = suppressed_header(&mut ctx, resp, &hop_by_hop(), false).unwrap();
    assert_eq!(header.status.as_u16(), 304);
    assert_eq!(header.headers["content-length"], "3");
    assert!(ctx.response_delivery_complete);
}

#[test]
fn chunk_over_the_limit_stops_the_stream() {
    let mut ctx = make_ctx();
    ctx.response_body_mode = BodyMode::SizeLimit { max_bytes: 4 };
    ctx.response_body_bytes = 4;
    assert_eq!(chunk_event(&ctx, Ok(()), None), StreamEvent::Passed);
    assert_eq!(
        chunk_event(&ctx, Err(Rejection::status(500)), None),
        StreamEvent::Stopped
    );
    ctx.response_body_bytes = 5;
    assert_eq!(chunk_event(&ctx, Ok(()), None), StreamEvent::Stopped);
}

/// Runs a delivery and returns where it ended and all it did.
fn run_stream(events: &[StreamEvent]) -> (StreamPhase, Vec<StreamAction>) {
    let (mut phase, mut actions) = start_stream();
    for event in events {
        let (next, more) = next_stream_step(phase, *event);
        phase = next;
        actions.extend(more);
    }
    (phase, actions)
}

#[test]
fn stream_delivers_its_chunks_and_its_end() {
    let (phase, actions) = run_stream(&[
        StreamEvent::Ready,
        StreamEvent::Written,
        StreamEvent::Chunk,
        StreamEvent::Passed,
        StreamEvent::Written,
        StreamEvent::End,
        StreamEvent::Passed,
        StreamEvent::Written,
    ]);
    assert_eq!(phase, StreamPhase::Closed);
    assert_eq!(
        actions,
        vec![
            StreamAction::SwapExtensions,
            StreamAction::RunResponseFilters,
            StreamAction::SwapExtensions,
            StreamAction::WriteHeader,
            StreamAction::AbortOnClose(false),
            StreamAction::Poll,
            StreamAction::SwapExtensions,
            StreamAction::FilterChunk,
            StreamAction::SwapExtensions,
            StreamAction::WriteChunk,
            StreamAction::Poll,
            StreamAction::AbortOnClose(true),
            StreamAction::SwapExtensions,
            StreamAction::FilterEnd,
            StreamAction::WriteEnd,
        ]
    );
}

#[test]
fn failing_stream_is_cancelled_and_closed() {
    for failure in [StreamEvent::Disconnected, StreamEvent::SourceFailed] {
        let (phase, actions) = run_stream(&[StreamEvent::Ready, StreamEvent::Written, failure]);
        assert_eq!(phase, StreamPhase::Closed);
        assert!(actions.ends_with(&[
            StreamAction::SwapExtensions,
            StreamAction::Cancel,
            StreamAction::Shutdown,
        ]));
        assert!(!actions.contains(&StreamAction::SendInternalError));
    }
    let (_, actions) = run_stream(&[
        StreamEvent::Ready,
        StreamEvent::Written,
        StreamEvent::Chunk,
        StreamEvent::Stopped,
    ]);
    assert!(actions.ends_with(&[StreamAction::Cancel, StreamAction::Shutdown]));
    let (_, actions) = run_stream(&[StreamEvent::Ready, StreamEvent::WriteFailed]);
    assert!(actions.ends_with(&[StreamAction::Cancel, StreamAction::Shutdown]));
}

#[test]
fn stream_that_never_starts_is_answered() {
    let (phase, actions) = run_stream(&[StreamEvent::Rejected]);
    assert_eq!(phase, StreamPhase::Closed);
    assert!(actions.ends_with(&[StreamAction::Cancel, StreamAction::SendRejection]));
    let (_, actions) = run_stream(&[StreamEvent::Refused]);
    assert!(actions.ends_with(&[StreamAction::Cancel, StreamAction::SendInternalError]));
    let (_, actions) = run_stream(&[StreamEvent::Bodyless, StreamEvent::SuppressFailed]);
    assert!(actions.ends_with(&[StreamAction::Cancel, StreamAction::SendInternalError]));
}

#[test]
fn failed_last_write_only_closes() {
    let (phase, actions) = run_stream(&[
        StreamEvent::Ready,
        StreamEvent::Written,
        StreamEvent::End,
        StreamEvent::Passed,
        StreamEvent::WriteFailed,
    ]);
    assert_eq!(phase, StreamPhase::Closed);
    assert!(!actions.contains(&StreamAction::Cancel));
    assert_eq!(actions.last(), Some(&StreamAction::Shutdown));
}

#[test]
fn event_out_of_place_changes_nothing() {
    let (phase, actions) = next_stream_step(StreamPhase::Polling, StreamEvent::Written);
    assert_eq!(phase, StreamPhase::Polling);
    assert!(actions.is_empty());
    let (phase, actions) = next_stream_step(StreamPhase::Closed, StreamEvent::Chunk);
    assert_eq!(phase, StreamPhase::Closed);
    assert!(actions.is_empty());
}

#[test]
fn terminal_headers_have_the_standard_status_line() {
    let resp = make_resp(404);
    let mut built = vec![
        build_terminal_header(&resp, None, false, false).unwrap(),
        build_streaming_terminal_header(&resp).unwrap(),
        suppressed_header(&mut make_ctx(), make_resp(404), &hop_by_hop(), false).unwrap(),
    ];
    match plan_terminal_response(make_resp(404), None, &hop_by_hop(), false) {
        TerminalPlan::Write { header, .. } => built.push(header),
        TerminalPlan::Reject(_) => panic!("the response can be sent"),
    }
    match commit_stream(&make_ctx(), make_resp(404), &hop_by_hop(), false, HttpVersion::Http11) {
        Commitment::Ready(_, header) => built.push(header),
        _ => panic!("the response can be streamed"),
    }
    assert_eq!(built.len(), 5);
    for header in built {
        assert_eq!(header.get_reason_phrase(), Some("Not Found"));
        assert_eq!(header.version, http::Version::HTTP_11);
    }
}
