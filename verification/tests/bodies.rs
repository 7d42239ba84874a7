//! Request and response bodies: limits, holding back, replay and delivery.
use std::collections::{HashMap, VecDeque};

use bytes::Bytes;
use http::HeaderMap;
use praxis::body::{
    accumulate_stream_buffer, check_body_size_limit, clamp_body_mode_to_ceiling,
    exceeds_body_ceiling, release_stream_buffer, suppress_stream_buffer_chunk, BodyBuffer,
    BodyFilterOutput, BodyMode,
};
use praxis::body_handling::{
    drain_pre_read_body, retry_copy, store_adapted_request_body, store_canonical_request_body,
};
use praxis::context::{
    ErrorType, Fault, FaultKind, FilterAction, FilterContext, FilterError, Rejection, Request,
    RequestCtx, Upstream,
};
use praxis::request_body::{
    request_body_finish, request_body_gate, request_body_refusal, request_chunk_is_measurable,
    BodyDecision, BodyLimit, BodyOutcome, BodyPolicy,
};
use praxis::response_body::{
    mark_delivered_at_eos, response_body_finish, response_body_gate, response_body_refusal,
    response_chunk_is_measurable,
};

type Ctx = RequestCtx<u32>;
type Action = FilterAction<()>;

const ABSOLUTE_MAX: usize = 64 * 1024 * 1024;
const RETRY_LIMIT: u64 = 64 * 1024;

fn make_ctx() -> Ctx {
    RequestCtx::new()
}

fn captured_ctx() -> Ctx {
    let mut ctx = make_ctx();
    ctx.request_snapshot = Some(Request {
        method: "GET".to_owned(),
        uri: "/".to_owned(),
        headers: HeaderMap::new(),
    });
    ctx
}

fn replay_cap() -> usize {
    usize::try_from(RETRY_LIMIT).expect("the replay cap fits in usize")
}

/// The policy of a pipeline without body filters.
fn no_capabilities() -> BodyPolicy {
    BodyPolicy {
        needs_body: false,
        ceiling: None,
        absolute_max: ABSOLUTE_MAX,
    }
}

/// The policy of a pipeline with a body filter.
fn body_capable() -> BodyPolicy {
    BodyPolicy {
        needs_body: true,
        ceiling: None,
        absolute_max: ABSOLUTE_MAX,
    }
}

/// Runs a response chunk through filters that change nothing.
fn execute(
    policy: &BodyPolicy,
    body: &mut Option<Bytes>,
    end_of_stream: bool,
    ctx: &mut Ctx,
) -> Result<(), Fault> {
    match response_body_gate(policy, ctx, body, end_of_stream) {
        BodyDecision::RunFilters => {
            let mut fctx: FilterContext<u32> = FilterContext::new();
            fctx.response_body_bytes = ctx.response_body_bytes;
            fctx.response_body_mode = ctx.response_body_mode;
            response_body_finish(Ok(Action::Continue), fctx, ctx, body, end_of_stream)
        },
        decision => response_body_refusal(decision),
    }
}

// ----- Clamping -----

#[test]
fn clamp_body_mode_to_ceiling_caps_stream_buffer_limit() {
    let clamped = clamp_body_mode_to_ceiling(
        BodyMode::StreamBuffer { max_bytes: Some(4096) },
        BodyMode::StreamBuffer { max_bytes: Some(1024) },
    );
    assert_eq!(
        clamped,
        BodyMode::StreamBuffer { max_bytes: Some(1024) },
        "runtime StreamBuffer widening should be clamped to baseline ceiling"
    );
}

#[test]
fn clamp_body_mode_to_ceiling_caps_unbounded_stream_buffer() {
    let clamped = clamp_body_mode_to_ceiling(
        BodyMode::StreamBuffer { max_bytes: None },
        BodyMode::SizeLimit { max_bytes: 512 },
    );
    assert_eq!(
        clamped,
        BodyMode::StreamBuffer { max_bytes: Some(512) },
        "runtime unbounded StreamBuffer should be clamped to baseline ceiling"
    );
}

#[test]
fn clamp_body_mode_to_ceiling_stream_passes_through_with_ceiling() {
    let clamped =
        clamp_body_mode_to_ceiling(BodyMode::Stream, BodyMode::StreamBuffer { max_bytes: Some(1024) });
    assert_eq!(
        clamped,
        BodyMode::Stream,
        "Stream has no buffer to clamp and should pass through unchanged"
    );
}

#[test]
fn clamp_body_mode_to_ceiling_stream_passes_through_without_ceiling() {
    let clamped = clamp_body_mode_to_ceiling(BodyMode::Stream, BodyMode::Stream);
    assert_eq!(
        clamped,
        BodyMode::Stream,
        "Stream baseline imposes no ceiling; Stream mode passes through"
    );
}

#[test]
fn clamp_body_mode_to_ceiling_size_limit_clamped_to_baseline() {
    let clamped = clamp_body_mode_to_ceiling(
        BodyMode::SizeLimit { max_bytes: 8192 },
        BodyMode::SizeLimit { max_bytes: 2048 },
    );
    assert_eq!(
        clamped,
        BodyMode::SizeLimit { max_bytes: 2048 },
        "runtime SizeLimit should be clamped to baseline ceiling"
    );
}

#[test]
fn clamp_body_mode_to_ceiling_no_ceiling_passes_through() {
    let clamped = clamp_body_mode_to_ceiling(
        BodyMode::StreamBuffer { max_bytes: Some(4096) },
        BodyMode::StreamBuffer { max_bytes: None },
    );
    assert_eq!(
        clamped,
        BodyMode::StreamBuffer { max_bytes: Some(4096) },
        "unbounded baseline imposes no ceiling; runtime mode passes through"
    );
}

#[test]
fn clamp_body_mode_to_ceiling_within_limit_unchanged() {
    let clamped = clamp_body_mode_to_ceiling(
        BodyMode::StreamBuffer { max_bytes: Some(512) },
        BodyMode::StreamBuffer { max_bytes: Some(1024) },
    );
    assert_eq!(
        clamped,
        BodyMode::StreamBuffer { max_bytes: Some(512) },
        "runtime limit within baseline ceiling should be unchanged"
    );
}

#[test]
fn clamping_twice_is_clamping_once() {
    let baseline = BodyMode::SizeLimit { max_bytes: 512 };
    for mode in [
        BodyMode::Stream,
        BodyMode::SizeLimit { max_bytes: 4096 },
        BodyMode::StreamBuffer { max_bytes: None },
        BodyMode::StreamBuffer { max_bytes: Some(4096) },
    ] {
        let once = clamp_body_mode_to_ceiling(mode, baseline);
        assert_eq!(clamp_body_mode_to_ceiling(once, baseline), once);
    }
}

// ----- Size limits -----

#[test]
fn size_limit_none_body_returns_false() {
    let mut bytes = 0_u64;
    assert!(!check_body_size_limit(None, &mut bytes, 100));
    assert_eq!(bytes, 0, "accumulated bytes unchanged for None body");
}

#[test]
fn size_limit_within_limit() {
    let mut bytes = 0_u64;
    let body = Some(Bytes::from_static(b"hello"));
    assert!(!check_body_size_limit(body.as_ref(), &mut bytes, 10));
    assert_eq!(bytes, 5);
}

#[test]
fn size_limit_at_exact_limit() {
    let mut bytes = 0_u64;
    let body = Some(Bytes::from_static(b"exact"));
    assert!(!check_body_size_limit(body.as_ref(), &mut bytes, 5));
    assert_eq!(bytes, 5);
}

#[test]
fn size_limit_exceeds_limit() {
    let mut bytes = 0_u64;
    let body = Some(Bytes::from_static(b"toolong"));
    assert!(check_body_size_limit(body.as_ref(), &mut bytes, 3));
}

#[test]
fn size_limit_cumulative_overflow() {
    let mut bytes = 0_u64;
    let first = Some(Bytes::from_static(b"aaa"));
    assert!(!check_body_size_limit(first.as_ref(), &mut bytes, 5));

    let second = Some(Bytes::from_static(b"bbb"));
    assert!(check_body_size_limit(second.as_ref(), &mut bytes, 5));
    assert_eq!(bytes, 6);
}

#[test]
fn global_limit_counts_the_chunk_at_hand() {
    let chunk = Bytes::from_static(b"abc");
    assert!(!exceeds_body_ceiling(None, u64::MAX, Some(&chunk)));
    assert!(!exceeds_body_ceiling(Some(5), 2, Some(&chunk)));
    assert!(exceeds_body_ceiling(Some(4), 2, Some(&chunk)));
    assert!(exceeds_body_ceiling(Some(4), u64::MAX, Some(&chunk)));
    assert!(!exceeds_body_ceiling(Some(4), 4, None));
}

// ----- Holding back -----

#[test]
fn stream_buffer_accumulates_chunks() {
    let mut body = Some(Bytes::from_static(b"hello "));
    let mut buf: Option<BodyBuffer> = None;
    assert!(!accumulate_stream_buffer(&mut body, &mut buf, false, Some(100), ABSOLUTE_MAX));
    assert!(buf.is_some());

    body = Some(Bytes::from_static(b"world"));
    assert!(!accumulate_stream_buffer(&mut body, &mut buf, false, Some(100), ABSOLUTE_MAX));

    let frozen = buf.take().unwrap().freeze();
    assert_eq!(frozen, Bytes::from_static(b"hello world"));
}

#[test]
fn stream_buffer_freezes_at_eos() {
    let mut body = Some(Bytes::from_static(b"data"));
    let mut buf: Option<BodyBuffer> = None;
    assert!(!accumulate_stream_buffer(&mut body, &mut buf, false, Some(100), ABSOLUTE_MAX));

    body = Some(Bytes::from_static(b" end"));
    assert!(!accumulate_stream_buffer(&mut body, &mut buf, true, Some(100), ABSOLUTE_MAX));
    assert!(buf.is_none(), "buffer should be taken at EOS");
    assert_eq!(body.unwrap(), Bytes::from_static(b"data end"));
}

#[test]
fn stream_buffer_overflow() {
    let mut body = Some(Bytes::from_static(b"too long"));
    let mut buf: Option<BodyBuffer> = None;
    assert!(accumulate_stream_buffer(&mut body, &mut buf, false, Some(5), ABSOLUTE_MAX));
}

#[test]
fn stream_buffer_none_body() {
    let mut body: Option<Bytes> = None;
    let mut buf: Option<BodyBuffer> = None;
    assert!(!accumulate_stream_buffer(&mut body, &mut buf, false, Some(100), ABSOLUTE_MAX));
    assert!(buf.is_none());
}

#[test]
fn stream_buffer_uses_absolute_max_when_none() {
    let mut body = Some(Bytes::from_static(b"data"));
    let mut buf: Option<BodyBuffer> = None;
    assert!(!accumulate_stream_buffer(&mut body, &mut buf, false, None, ABSOLUTE_MAX));
    assert!(buf.is_some(), "should create buffer with absolute max");

    let mut body = Some(Bytes::from_static(b"data"));
    let mut buf: Option<BodyBuffer> = None;
    assert!(accumulate_stream_buffer(&mut body, &mut buf, false, None, 3));
}

#[test]
fn every_held_chunk_comes_out_in_order() {
    let mut buf: Option<BodyBuffer> = None;
    for chunk in [&b"one "[..], b"", b"two "] {
        let mut body = Some(Bytes::from_static(chunk));
        assert!(!accumulate_stream_buffer(&mut body, &mut buf, false, Some(100), ABSOLUTE_MAX));
        assert_eq!(body, Some(Bytes::from_static(chunk)), "filters see the chunk itself");
    }
    let mut body = Some(Bytes::from_static(b"three"));
    assert!(!accumulate_stream_buffer(&mut body, &mut buf, true, Some(100), ABSOLUTE_MAX));
    assert_eq!(body, Some(Bytes::from_static(b"one two three")));
    assert!(buf.is_none());
}

#[test]
fn full_buffer_takes_no_more() {
    let mut buffer = BodyBuffer::new(4);
    assert!(buffer.push(&Bytes::from_static(b"abc")).is_ok());
    assert!(buffer.push(&Bytes::from_static(b"de")).is_err());
    assert!(buffer.push(&Bytes::from_static(b"d")).is_ok());
    assert_eq!(buffer.freeze(), Bytes::from_static(b"abcd"));
}

#[test]
fn suppress_clears_body_when_buffering() {
    let mut body = Some(Bytes::from_static(b"data"));
    suppress_stream_buffer_chunk(&mut body, true, false, false);
    assert!(body.is_none());
}

#[test]
fn suppress_noop_when_not_stream_buffer() {
    let mut body = Some(Bytes::from_static(b"data"));
    suppress_stream_buffer_chunk(&mut body, false, false, false);
    assert!(body.is_some());
}

#[test]
fn suppress_noop_when_released() {
    let mut body = Some(Bytes::from_static(b"data"));
    suppress_stream_buffer_chunk(&mut body, true, true, false);
    assert!(body.is_some());
}

#[test]
fn suppress_noop_at_eos() {
    let mut body = Some(Bytes::from_static(b"data"));
    suppress_stream_buffer_chunk(&mut body, true, false, true);
    assert!(body.is_some());
}

#[test]
fn release_sets_flag_and_flushes_buffer() {
    let mut body: Option<Bytes> = None;
    let mut released = false;
    let mut buf = Some(BodyBuffer::new(100));
    assert!(buf.as_mut().unwrap().push(&Bytes::from_static(b"buffered")).is_ok());

    release_stream_buffer(&mut body, true, &mut released, &mut buf, false);
    assert!(released);
    assert_eq!(body.unwrap(), Bytes::from_static(b"buffered"));
    assert!(buf.is_none());
}

#[test]
fn release_noop_when_already_released() {
    let mut body: Option<Bytes> = None;
    let mut released = true;
    let mut buf: Option<BodyBuffer> = None;

    release_stream_buffer(&mut body, true, &mut released, &mut buf, false);
    assert!(body.is_none(), "body should be unchanged when already released");
}

#[test]
fn release_noop_when_not_stream_buffer() {
    let mut body: Option<Bytes> = None;
    let mut released = false;
    let mut buf: Option<BodyBuffer> = None;

    release_stream_buffer(&mut body, false, &mut released, &mut buf, false);
    assert!(!released, "released flag should be unchanged for non-stream-buffer");
}

#[test]
fn release_at_eos_sets_flag_but_no_flush() {
    let mut body: Option<Bytes> = None;
    let mut released = false;
    let mut buf = Some(BodyBuffer::new(100));
    assert!(buf.as_mut().unwrap().push(&Bytes::from_static(b"data")).is_ok());

    release_stream_buffer(&mut body, true, &mut released, &mut buf, true);
    assert!(released);
    assert!(body.is_none(), "body should not be overwritten at EOS");
    assert!(buf.is_some(), "buffer should not be taken at EOS");
}

#[test]
fn write_back_transfers_fields() {
    let mut ctx = make_ctx();

    let output = BodyFilterOutput {
        cluster: Some("test-cluster".to_owned()),
        upstream: Some(Upstream {
            address: "10.0.0.1:80".to_owned(),
            authority: None,
            connection: 7_u32,
        }),
        extensions: vec![42_u32],
        attempted_endpoints: Vec::new(),
        filter_metadata: HashMap::from([("key".to_owned(), "val".to_owned())]),
        filter_state: HashMap::from([(0_usize, 99_u32)]),
        executed_branch_filters: vec![false, true, true],
        executed_filter_indices: vec![true, false],
        body_done_indices: vec![false, true],
    };
    output.write_back(&mut ctx);

    assert_eq!(ctx.cluster.as_deref(), Some("test-cluster"));
    assert!(ctx.upstream.is_some(), "upstream should transfer");
    assert_eq!(ctx.upstream.as_ref().unwrap().address, "10.0.0.1:80");
    assert_eq!(ctx.extensions.first(), Some(&42));
    assert_eq!(ctx.filter_metadata.get("key").map(String::as_str), Some("val"));
    assert_eq!(ctx.filter_state.len(), 1, "filter_state should transfer");
    assert_eq!(ctx.filter_state.get(&0), Some(&99));
    assert_eq!(ctx.cached_executed_branch_filters, vec![false, true, true]);
    assert_eq!(ctx.cached_executed_filter_indices, vec![true, false]);
    assert_eq!(ctx.cached_body_done_indices, vec![false, true]);
}

// ----- Replay -----

#[test]
fn store_adapted_request_body_stores_frozen_chunk_and_retained_copy() {
    let mut ctx = make_ctx();
    store_adapted_request_body(&mut ctx, Some(Bytes::from_static(b"ADAPTED")), RETRY_LIMIT);

    assert_eq!(
        ctx.adapted_request_body,
        Some(VecDeque::from([Bytes::from_static(b"ADAPTED")])),
        "adapted body is a single frozen chunk"
    );
    assert_eq!(
        ctx.retained_adapted_request_body,
        Some(VecDeque::from([Bytes::from_static(b"ADAPTED")])),
        "retained copy mirrors the adapted body for retry replay"
    );
    assert_eq!(ctx.adapted_request_body_len, Some(7), "length is authoritative");
}

#[test]
fn an_unreplayable_adapted_body_keeps_only_the_marker() {
    let mut ctx = make_ctx();
    let oversized = Bytes::from(vec![b'a'; replay_cap() + 1]);
    store_adapted_request_body(&mut ctx, Some(oversized), RETRY_LIMIT);

    assert_eq!(
        ctx.retained_adapted_request_body,
        Some(VecDeque::new()),
        "a body no retry can replay keeps the adaptation marker but not the bytes"
    );
    assert_eq!(
        ctx.adapted_request_body_len,
        Some(replay_cap() + 1),
        "the length stays authoritative so should_retry refuses the replay"
    );
}

#[test]
fn an_unreplayable_canonical_body_is_not_retained() {
    let mut ctx = make_ctx();
    store_canonical_request_body(&mut ctx, Bytes::from(vec![b'a'; replay_cap() + 1]), RETRY_LIMIT);

    assert_eq!(
        ctx.retained_pre_read_body, None,
        "a body no retry can replay must not be pinned for the request"
    );
}

#[test]
fn a_body_at_the_replay_cap_is_retained() {
    let chunks = VecDeque::from([Bytes::from(vec![b'a'; replay_cap()])]);
    assert_eq!(
        retry_copy(&chunks, replay_cap(), RETRY_LIMIT).as_ref(),
        Some(&chunks),
        "a body a retry may replay must be kept"
    );
}

#[test]
fn store_adapted_request_body_empty_body_yields_empty_deques() {
    let mut ctx = make_ctx();
    store_adapted_request_body(&mut ctx, Some(Bytes::new()), RETRY_LIMIT);

    assert_eq!(
        ctx.adapted_request_body,
        Some(VecDeque::new()),
        "empty body yields an empty deque so the drain forwards nothing"
    );
    assert_eq!(
        ctx.retained_adapted_request_body,
        Some(VecDeque::new()),
        "retained marker is still Some for an empty adapted body"
    );
    assert_eq!(ctx.adapted_request_body_len, Some(0), "empty body length is 0");
}

#[test]
fn store_canonical_request_body_updates_direct_and_retry_representations() {
    let mut ctx = make_ctx();
    store_canonical_request_body(&mut ctx, Bytes::from_static(b"BOUND"), RETRY_LIMIT);

    let expected = Some(VecDeque::from([Bytes::from_static(b"BOUND")]));
    assert_eq!(
        ctx.pre_read_body, expected,
        "the direct body should hold the canonical bytes"
    );
    assert_eq!(
        ctx.retained_pre_read_body, expected,
        "the retry body should hold the canonical bytes"
    );
    assert_eq!(
        ctx.mutated_request_body_len,
        Some(5),
        "the mutated length should match the canonical body"
    );
}

#[test]
fn store_canonical_request_body_preserves_empty_replay_marker() {
    let mut ctx = make_ctx();
    store_canonical_request_body(&mut ctx, Bytes::new(), RETRY_LIMIT);

    assert_eq!(
        ctx.pre_read_body,
        Some(VecDeque::new()),
        "an absent canonical body still leaves an empty direct body"
    );
    assert_eq!(
        ctx.retained_pre_read_body,
        Some(VecDeque::new()),
        "an absent canonical body keeps the empty replay marker"
    );
    assert_eq!(
        ctx.mutated_request_body_len,
        Some(0),
        "an absent canonical body has length 0"
    );
}

#[test]
fn store_adapted_request_body_none_body_yields_empty_deques() {
    let mut ctx = make_ctx();
    store_adapted_request_body(&mut ctx, None, RETRY_LIMIT);

    assert_eq!(ctx.adapted_request_body, Some(VecDeque::new()));
    assert_eq!(ctx.retained_adapted_request_body, Some(VecDeque::new()));
    assert_eq!(ctx.adapted_request_body_len, Some(0));
}

#[test]
fn store_adapted_request_body_with_content() {
    let mut ctx = make_ctx();
    let body = Some(Bytes::from_static(b"adapted content"));

    store_adapted_request_body(&mut ctx, body, RETRY_LIMIT);

    assert_eq!(
        ctx.adapted_request_body.as_ref().unwrap().len(),
        1,
        "should store single chunk"
    );
    assert_eq!(
        ctx.adapted_request_body.as_ref().unwrap().front().unwrap(),
        &Bytes::from_static(b"adapted content")
    );
    assert_eq!(ctx.adapted_request_body_len, Some(15));
    assert_eq!(
        ctx.retained_adapted_request_body, ctx.adapted_request_body,
        "retained copy should match adapted body"
    );
}

#[test]
fn store_adapted_request_body_large_content() {
    let mut ctx = make_ctx();
    let large_body = Bytes::from(vec![b'X'; 10_000]);
    let body = Some(large_body.clone());

    store_adapted_request_body(&mut ctx, body, RETRY_LIMIT);

    assert_eq!(ctx.adapted_request_body_len, Some(10_000));
    assert_eq!(ctx.adapted_request_body.as_ref().unwrap().front().unwrap(), &large_body);
}

#[test]
fn pre_read_body_drains_chunks_in_order() {
    let mut ctx = make_ctx();
    ctx.pre_read_body = Some(VecDeque::from([
        Bytes::from_static(b"first"),
        Bytes::from_static(b"second"),
        Bytes::from_static(b"third"),
    ]));

    let mut body = None;
    assert!(drain_pre_read_body(&mut ctx, &mut body));
    assert_eq!(
        body.unwrap(),
        Bytes::from_static(b"first"),
        "first chunk should drain first"
    );
    let mut body = None;
    assert!(drain_pre_read_body(&mut ctx, &mut body));
    assert_eq!(
        body.unwrap(),
        Bytes::from_static(b"second"),
        "second chunk should drain second"
    );
    let mut body = None;
    assert!(drain_pre_read_body(&mut ctx, &mut body));
    assert_eq!(
        body.unwrap(),
        Bytes::from_static(b"third"),
        "third chunk should drain third"
    );
    assert!(
        ctx.pre_read_body.is_none(),
        "deque should be empty after draining all chunks"
    );
}

#[test]
fn pre_read_body_empty_deque_yields_none() {
    let mut ctx = make_ctx();
    ctx.pre_read_body = Some(VecDeque::new());

    let chunks = ctx.pre_read_body.as_ref().unwrap();
    assert!(chunks.is_empty(), "empty deque should report is_empty");

    let mut body = Some(Bytes::from_static(b"stale"));
    assert!(drain_pre_read_body(&mut ctx, &mut body));
    assert!(body.is_none());
}

#[test]
fn pre_read_body_cleared_after_last_pop() {
    let mut ctx = make_ctx();
    ctx.pre_read_body = Some(VecDeque::from([Bytes::from_static(b"only")]));

    let mut body = None;
    assert!(drain_pre_read_body(&mut ctx, &mut body));
    assert_eq!(
        body.unwrap(),
        Bytes::from_static(b"only"),
        "single chunk should drain"
    );
    assert!(
        ctx.pre_read_body.is_none(),
        "pre_read_body should be None after draining all chunks"
    );
}

#[test]
fn drain_prefers_adapted_body_when_adaptation_ran() {
    let mut ctx = make_ctx();
    ctx.pre_read_body = Some(VecDeque::from([Bytes::from_static(b"canonical")]));
    ctx.adapted_request_body = Some(VecDeque::from([Bytes::from_static(b"ADAPTED")]));
    ctx.retained_adapted_request_body = Some(VecDeque::from([Bytes::from_static(b"ADAPTED")]));

    let mut body = None;
    assert!(drain_pre_read_body(&mut ctx, &mut body), "drain is active");
    assert_eq!(body, Some(Bytes::from_static(b"ADAPTED")), "adapted body forwarded");

    let mut next = None;
    assert!(
        drain_pre_read_body(&mut ctx, &mut next),
        "drain stays active after exhaustion"
    );
    assert_eq!(next, None, "no fallback to canonical bytes once adapted is drained");
    assert!(
        ctx.pre_read_body.is_some(),
        "canonical pre-read body is left intact but bypassed"
    );
}

#[test]
fn drain_uses_canonical_body_when_no_adaptation() {
    let mut ctx = make_ctx();
    ctx.pre_read_body = Some(VecDeque::from([Bytes::from_static(b"canonical")]));

    let mut body = None;
    assert!(drain_pre_read_body(&mut ctx, &mut body), "drain is active");
    assert_eq!(body, Some(Bytes::from_static(b"canonical")), "canonical body forwarded");
    assert!(ctx.pre_read_body.is_none(), "canonical body cleared after draining");
}

#[test]
fn drain_inactive_when_no_pre_read() {
    let mut ctx = make_ctx();
    let mut body = Some(Bytes::from_static(b"streamed"));
    assert!(!drain_pre_read_body(&mut ctx, &mut body), "no drain, normal processing");
    assert_eq!(body, Some(Bytes::from_static(b"streamed")), "body untouched");
}

#[test]
fn drain_empty_adapted_body_forwards_nothing() {
    let mut ctx = make_ctx();
    ctx.adapted_request_body = Some(VecDeque::new());
    ctx.retained_adapted_request_body = Some(VecDeque::new());

    let mut body = Some(Bytes::from_static(b"stale"));
    assert!(
        drain_pre_read_body(&mut ctx, &mut body),
        "drain is active for empty adapted body"
    );
    assert_eq!(body, None, "empty adapted body forwards nothing (Content-Length: 0)");
}

#[test]
fn stored_adapted_body_is_what_goes_out() {
    let mut ctx = make_ctx();
    ctx.pre_read_body = Some(VecDeque::from([Bytes::from_static(b"canonical")]));
    store_adapted_request_body(&mut ctx, Some(Bytes::from_static(b"ADAPTED")), RETRY_LIMIT);
    let mut body = Some(Bytes::from_static(b"streamed"));
    assert!(drain_pre_read_body(&mut ctx, &mut body));
    assert_eq!(body, Some(Bytes::from_static(b"ADAPTED")));
}

#[test]
fn stored_canonical_body_is_what_goes_out() {
    let mut ctx = make_ctx();
    store_canonical_request_body(&mut ctx, Bytes::from_static(b"BOUND"), RETRY_LIMIT);
    let mut body = Some(Bytes::from_static(b"streamed"));
    assert!(drain_pre_read_body(&mut ctx, &mut body));
    assert_eq!(body, Some(Bytes::from_static(b"BOUND")));
}

// ----- Request body -----

#[test]
fn request_chunk_over_the_size_limit_is_refused() {
    let mut ctx = captured_ctx();
    ctx.request_body_mode = BodyMode::SizeLimit { max_bytes: 4 };
    let mut body = Some(Bytes::from_static(b"hello"));
    let decision = request_body_gate(&body_capable(), &mut ctx, &mut body, false);
    assert!(matches!(decision, BodyDecision::TooLarge(BodyLimit::Size)));
    assert_eq!(ctx.request_body_bytes, 5);
    match request_body_refusal(decision) {
        BodyOutcome::Reject {
            error_type,
            rejection,
            fault,
        } => {
            assert_eq!(error_type, ErrorType::FilterReject);
            assert_eq!(rejection.status, 413);
            assert_eq!(fault.kind, FaultKind::HttpStatus(413));
        },
        _ => panic!("a body that is too large is rejected"),
    }
}

#[test]
fn request_chunk_is_held_back_until_released() {
    let mut ctx = captured_ctx();
    ctx.request_body_mode = BodyMode::StreamBuffer { max_bytes: Some(100) };
    let mut body = Some(Bytes::from_static(b"held"));
    let decision = request_body_gate(&body_capable(), &mut ctx, &mut body, false);
    assert!(matches!(decision, BodyDecision::RunFilters));
    let fctx: FilterContext<u32> = FilterContext::new();
    let outcome = request_body_finish(Ok(Action::Continue), fctx, &mut ctx, &mut body, false);
    assert!(matches!(outcome, BodyOutcome::Forward));
    assert!(body.is_none());

    let mut body = Some(Bytes::from_static(b" back"));
    let decision = request_body_gate(&body_capable(), &mut ctx, &mut body, false);
    assert!(matches!(decision, BodyDecision::RunFilters));
    let fctx: FilterContext<u32> = FilterContext::new();
    let outcome = request_body_finish(Ok(Action::Release), fctx, &mut ctx, &mut body, false);
    assert!(matches!(outcome, BodyOutcome::Forward));
    assert_eq!(body, Some(Bytes::from_static(b"held back")));
    assert!(ctx.request_body_released);
}

#[test]
fn counted_bytes_stay_within_the_size_limit() {
    let policy = body_capable();
    let mut ctx = captured_ctx();
    ctx.request_body_mode = BodyMode::SizeLimit { max_bytes: 5 };
    for (chunk, total) in [(&b"abc"[..], 3), (b"de", 5)] {
        let mut body = Some(Bytes::from_static(chunk));
        let decision = request_body_gate(&policy, &mut ctx, &mut body, false);
        assert_eq!(decision, BodyDecision::Forward);
        assert_eq!(ctx.request_body_bytes, total);
    }
    let mut body = Some(Bytes::from_static(b"f"));
    assert_eq!(
        request_body_gate(&policy, &mut ctx, &mut body, true),
        BodyDecision::TooLarge(BodyLimit::Size)
    );
}

#[test]
fn held_request_body_may_be_too_large() {
    let mut ctx = captured_ctx();
    ctx.request_body_mode = BodyMode::StreamBuffer { max_bytes: Some(3) };
    let mut body = Some(Bytes::from_static(b"held"));
    let decision = request_body_gate(&body_capable(), &mut ctx, &mut body, false);
    assert!(matches!(decision, BodyDecision::TooLarge(BodyLimit::Buffer)));
}

#[test]
fn request_filters_need_a_captured_request() {
    let mut ctx = make_ctx();
    let mut body = Some(Bytes::from_static(b"data"));
    let decision = request_body_gate(&body_capable(), &mut ctx, &mut body, false);
    assert!(matches!(decision, BodyDecision::SnapshotMissing));
    assert!(matches!(request_body_refusal(decision), BodyOutcome::Fail(_)));
}

#[test]
fn request_without_body_filters_is_forwarded() {
    let mut ctx = make_ctx();
    let mut body = Some(Bytes::from_static(b"data"));
    let decision = request_body_gate(&no_capabilities(), &mut ctx, &mut body, false);
    assert!(matches!(decision, BodyDecision::Forward));
    assert!(matches!(request_body_refusal(decision), BodyOutcome::Forward));
    assert_eq!(body, Some(Bytes::from_static(b"data")));
}

#[test]
fn request_body_filter_may_reject_or_fail() {
    let mut ctx = captured_ctx();
    let mut body = Some(Bytes::from_static(b"data"));
    let fctx: FilterContext<u32> = FilterContext::new();
    let outcome = request_body_finish(
        Ok(Action::Reject(Rejection::status(422))),
        fctx,
        &mut ctx,
        &mut body,
        true,
    );
    match outcome {
        BodyOutcome::Reject { rejection, .. } => assert_eq!(rejection.status, 422),
        _ => panic!("the rejection is passed on"),
    }
    let fctx: FilterContext<u32> = FilterContext::new();
    let failure: Result<Action, FilterError> = Err(FilterError { message: "broken".to_owned() });
    let outcome = request_body_finish(failure, fctx, &mut ctx, &mut body, true);
    assert!(!matches!(outcome, BodyOutcome::Forward));
}

// ----- Response body -----

#[test]
fn no_body_capabilities_returns_none() {
    let mut body: Option<Bytes> = None;
    let mut ctx = make_ctx();

    let result = execute(&no_capabilities(), &mut body, true, &mut ctx);

    assert!(result.is_ok(), "should return None when no body capabilities");
}

#[test]
fn body_untouched_when_no_capabilities() {
    let mut body = Some(Bytes::from_static(b"response data"));
    let mut ctx = make_ctx();

    assert!(execute(&no_capabilities(), &mut body, false, &mut ctx).is_ok());

    assert_eq!(
        body,
        Some(Bytes::from_static(b"response data")),
        "body should be unchanged without capabilities"
    );
}

#[test]
fn empty_body_none_passes_through() {
    let mut body: Option<Bytes> = None;
    let mut ctx = make_ctx();

    let result = execute(&no_capabilities(), &mut body, false, &mut ctx);
    assert!(result.is_ok(), "execute should succeed with None body");
    assert!(body.is_none(), "body should remain None");
}

#[test]
fn empty_body_at_end_of_stream() {
    let mut body: Option<Bytes> = None;
    let mut ctx = make_ctx();

    let result = execute(&no_capabilities(), &mut body, true, &mut ctx);
    assert!(result.is_ok(), "execute should succeed at end of stream");
    assert!(body.is_none(), "body should remain None at end of stream");
}

#[test]
fn connection_upgraded_returns_early() {
    let mut body = Some(Bytes::from_static(b"should be ignored"));
    let mut ctx = make_ctx();
    ctx.connection_upgraded = true;

    let result = execute(&no_capabilities(), &mut body, false, &mut ctx);

    assert!(result.is_ok(), "should return None when connection upgraded");
    assert_eq!(
        body,
        Some(Bytes::from_static(b"should be ignored")),
        "body should be untouched when connection upgraded"
    );
}

#[test]
fn delivery_complete_marked_at_eos() {
    let mut body: Option<Bytes> = None;
    let mut ctx = make_ctx();
    assert!(!ctx.response_delivery_complete, "should start as false");

    assert!(execute(&no_capabilities(), &mut body, true, &mut ctx).is_ok());

    assert!(ctx.response_delivery_complete, "should mark complete at end of stream");
}

#[test]
fn delivery_complete_not_marked_mid_stream() {
    let mut body = Some(Bytes::from_static(b"chunk"));
    let mut ctx = make_ctx();

    assert!(execute(&no_capabilities(), &mut body, false, &mut ctx).is_ok());

    assert!(!ctx.response_delivery_complete, "should not mark complete mid-stream");
}

#[test]
fn size_limit_mode_returns_early_when_no_capabilities() {
    let mut body = Some(Bytes::from_static(b"data"));
    let mut ctx = make_ctx();
    ctx.response_body_mode = BodyMode::SizeLimit { max_bytes: 1024 };

    let result = execute(&no_capabilities(), &mut body, false, &mut ctx);

    assert!(result.is_ok(), "should succeed without body capabilities");
    assert_eq!(body, Some(Bytes::from_static(b"data")), "body should be unchanged");
}

#[test]
fn stream_mode_with_none_body() {
    let mut body: Option<Bytes> = None;
    let mut ctx = make_ctx();
    ctx.response_body_mode = BodyMode::Stream;

    let result = execute(&no_capabilities(), &mut body, false, &mut ctx);

    assert!(result.is_ok(), "should succeed with None body in Stream mode");
}

#[test]
fn stream_buffer_mode_accumulates_chunks() {
    let mut body = Some(Bytes::from_static(b"chunk1"));
    let mut ctx = make_ctx();
    ctx.response_body_mode = BodyMode::StreamBuffer { max_bytes: Some(1024) };
    ctx.response_body_released = false;

    let result = execute(&no_capabilities(), &mut body, false, &mut ctx);

    assert!(result.is_ok(), "should succeed accumulating chunk");
}

#[test]
fn stream_buffer_mode_after_release() {
    let mut body = Some(Bytes::from_static(b"data"));
    let mut ctx = make_ctx();
    ctx.response_body_mode = BodyMode::StreamBuffer { max_bytes: Some(1024) };
    ctx.response_body_released = true;

    let result = execute(&no_capabilities(), &mut body, false, &mut ctx);

    assert!(result.is_ok(), "should succeed after release");
}

#[test]
fn unhandled_body_mode_logs_error() {
    let mut body = Some(Bytes::from_static(b"data"));
    let mut ctx = make_ctx();

    let result = execute(&no_capabilities(), &mut body, false, &mut ctx);

    assert!(result.is_ok(), "should not fail on unhandled mode (logs only)");
}

#[test]
fn marks_delivered_only_at_eos() {
    let mut ctx = make_ctx();

    let mut body1 = Some(Bytes::from_static(b"chunk1"));
    assert!(execute(&no_capabilities(), &mut body1, false, &mut ctx).is_ok());
    assert!(!ctx.response_delivery_complete, "not complete mid-stream");

    let mut body2 = Some(Bytes::from_static(b"chunk2"));
    assert!(execute(&no_capabilities(), &mut body2, false, &mut ctx).is_ok());
    assert!(!ctx.response_delivery_complete, "still not complete");

    let mut body3: Option<Bytes> = None;
    assert!(execute(&no_capabilities(), &mut body3, true, &mut ctx).is_ok());
    assert!(ctx.response_delivery_complete, "complete at EOS");
}

#[test]
fn aborted_response_body_at_eos_is_not_marked_delivered() {
    let mut ctx = captured_ctx();
    ctx.response_body_mode = BodyMode::SizeLimit { max_bytes: 4 };
    let mut body = Some(Bytes::from_static(b"exceeds the limit"));

    let result = execute(&body_capable(), &mut body, true, &mut ctx);
    assert!(result.is_err(), "over-limit body must abort");
    assert!(
        !ctx.response_delivery_complete,
        "a response aborted at end-of-stream was not delivered; the fallback record must fire"
    );
}

#[test]
fn response_body_eos_marks_delivery_complete() {
    let mut ctx = make_ctx();
    let mut body: Option<Bytes> = None;

    assert!(execute(&no_capabilities(), &mut body, false, &mut ctx).is_ok());
    assert!(
        !ctx.response_delivery_complete,
        "mid-stream chunks must not mark delivery complete"
    );

    assert!(execute(&no_capabilities(), &mut body, true, &mut ctx).is_ok());
    assert!(ctx.response_delivery_complete, "end-of-stream marks delivery complete");
}

#[test]
fn response_over_its_limit_is_reported() {
    let mut ctx = captured_ctx();
    ctx.response_body_mode = BodyMode::SizeLimit { max_bytes: 5 };
    let mut body = Some(Bytes::from_static(b"too much data"));
    let fault = execute(&body_capable(), &mut body, false, &mut ctx).err().unwrap();
    assert!(
        fault.message.contains("exceeds maximum size"),
        "error should mention size limit"
    );
    assert_eq!(ctx.response_body_bytes, 13);
}

#[test]
fn response_limit_counts_earlier_chunks() {
    let mut ctx = captured_ctx();
    ctx.response_body_mode = BodyMode::SizeLimit { max_bytes: 10 };
    ctx.response_body_bytes = 8;
    let mut body = Some(Bytes::from_static(b"more"));
    assert!(execute(&body_capable(), &mut body, false, &mut ctx).is_err());
}

#[test]
fn held_response_over_its_limit_is_reported() {
    let mut ctx = captured_ctx();
    ctx.response_body_mode = BodyMode::StreamBuffer { max_bytes: Some(5) };
    let mut body = Some(Bytes::from_static(b"way too much data"));
    let fault = execute(&body_capable(), &mut body, false, &mut ctx).err().unwrap();
    assert!(
        fault.message.contains("stream_buffer size limit"),
        "error should mention stream_buffer limit"
    );
}

#[test]
fn held_response_comes_out_whole_at_its_end() {
    let mut ctx = captured_ctx();
    ctx.response_body_mode = BodyMode::StreamBuffer { max_bytes: Some(1024) };
    let mut body = Some(Bytes::from_static(b"chunk1"));
    assert!(execute(&body_capable(), &mut body, false, &mut ctx).is_ok());
    assert!(body.is_none());
    let mut body = Some(Bytes::from_static(b"chunk2"));
    assert!(execute(&body_capable(), &mut body, true, &mut ctx).is_ok());
    assert_eq!(body, Some(Bytes::from_static(b"chunk1chunk2")));
    assert!(ctx.response_delivery_complete);
}

#[test]
fn rejected_response_body_names_its_status() {
    let mut ctx = captured_ctx();
    let mut body = Some(Bytes::from_static(b"data"));
    let fctx: FilterContext<u32> = FilterContext::new();
    let fault = response_body_finish(
        Ok(Action::Reject(Rejection::status(403))),
        fctx,
        &mut ctx,
        &mut body,
        true,
    )
    .err()
    .unwrap();
    assert!(fault.message.contains("403"));
    assert!(!ctx.response_delivery_complete);
}

#[test]
fn delivery_is_marked_at_the_end_only() {
    let mut ctx = make_ctx();
    mark_delivered_at_eos(&mut ctx, false);
    assert!(!ctx.response_delivery_complete);
    mark_delivered_at_eos(&mut ctx, true);
    assert!(ctx.response_delivery_complete);
}

#[test]
fn only_what_no_counter_holds_cannot_be_measured() {
    let body = Some(Bytes::from_static(b"abc"));
    let mut ctx = captured_ctx();
    ctx.request_body_mode = BodyMode::StreamBuffer {
        max_bytes: Some(usize::MAX),
    };
    ctx.response_body_mode = ctx.request_body_mode;
    assert!(request_chunk_is_measurable(&body_capable(), &ctx, &body));
    assert!(response_chunk_is_measurable(&body_capable(), &ctx, &body));

    ctx.request_body_mode = BodyMode::SizeLimit { max_bytes: 10 };
    ctx.response_body_mode = ctx.request_body_mode;
    ctx.request_body_bytes = u64::MAX - 3;
    ctx.response_body_bytes = u64::MAX - 3;
    assert!(request_chunk_is_measurable(&body_capable(), &ctx, &body));
    assert!(response_chunk_is_measurable(&body_capable(), &ctx, &body));
    ctx.request_body_bytes = u64::MAX - 2;
    ctx.response_body_bytes = u64::MAX - 2;
    assert!(!request_chunk_is_measurable(&body_capable(), &ctx, &body));
    assert!(!response_chunk_is_measurable(&body_capable(), &ctx, &body));
    assert!(request_chunk_is_measurable(&no_capabilities(), &ctx, &body));
    assert!(response_chunk_is_measurable(&no_capabilities(), &ctx, &body));
}
