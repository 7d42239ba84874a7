//! Correlation identifiers and their headers.
use http::{HeaderMap, HeaderValue};
use praxis::trace::context::{
    ensure_trace_context, FrameworkHeaders, HeaderEdit, SubRequestError, TraceContext,
    REQUEST_ID_HEADER, TRACEPARENT_HEADER,
};
use praxis::trace::parent::{
    generate_span_id, generate_trace_id, is_all_zero, is_lower_hex, parse_traceparent,
    sanitize_trace_id, span_id_from, SPAN_ID_LEN, TRACE_ID_LEN,
};
use praxis::trace::state::{parse_tracestate, MAX_TRACESTATE_LEN, MAX_TRACESTATE_MEMBERS};

const TRACE_ID: &str = "4bf92f3577b34da6a3ce929d0e0e4736";
const DRAWN: &str = "0190b5c3a1b27d5e9c4f00112233aabb";

/// As many identifiers as a request with these headers takes.
fn drawn_for(headers: &HeaderMap) -> Vec<String> {
    vec![DRAWN.to_owned(); TraceContext::generated_ids_needed(headers)]
}

fn context_of(headers: &HeaderMap) -> TraceContext {
    TraceContext::from_request_headers(headers, &drawn_for(headers))
}

fn insertions(fw: &FrameworkHeaders) -> Vec<(String, String)> {
    fw.edits
        .iter()
        .filter_map(|edit| match edit {
            HeaderEdit::Insert(name, value) => Some((name.clone(), value.clone())),
            HeaderEdit::Remove(_) => None,
        })
        .collect()
}

fn removals(fw: &FrameworkHeaders) -> Vec<String> {
    fw.edits
        .iter()
        .filter_map(|edit| match edit {
            HeaderEdit::Remove(name) => Some(name.clone()),
            HeaderEdit::Insert(_, _) => None,
        })
        .collect()
}

#[test]
fn parse_valid_traceparent() {
    let tp = parse_traceparent("00-4bf92f3577b34da6a3ce929d0e0e4736-00f067aa0ba902b7-01").unwrap();
    assert_eq!(tp.trace_id, "4bf92f3577b34da6a3ce929d0e0e4736");
    assert_eq!(tp.flags, "01");
}

#[test]
fn parse_traceparent_accepts_unsampled_flags() {
    let parsed = parse_traceparent("00-4bf92f3577b34da6a3ce929d0e0e4736-00f067aa0ba902b7-00")
        .expect("unsampled but well-formed traceparent should parse");
    assert_eq!(parsed.flags, "00");
}

#[test]
fn parse_masks_reserved_flags_to_sampled_bit() {
    for (inbound, expected) in [("ff", "01"), ("fe", "00"), ("03", "01"), ("02", "00")] {
        let value = format!("00-4bf92f3577b34da6a3ce929d0e0e4736-00f067aa0ba902b7-{inbound}");
        let parsed = parse_traceparent(&value).expect("well-formed flags should parse");
        assert_eq!(parsed.flags, expected);
    }
}

#[test]
fn parse_accepts_future_version_with_extra_fields() {
    let tp = parse_traceparent("02-4bf92f3577b34da6a3ce929d0e0e4736-00f067aa0ba902b7-01-extra-data")
        .expect("future version with extra fields should be accepted");
    assert_eq!(tp.trace_id, "4bf92f3577b34da6a3ce929d0e0e4736");
    let ctx = TraceContext::from_inbound("req".into(), &tp);
    let [_, (_, traceparent)] = ctx.headers_for_hop(DRAWN);
    assert!(traceparent.starts_with("00-"));
}

#[test]
fn parse_rejects_all_zero_ids_and_malformed() {
    assert!(parse_traceparent("00-00000000000000000000000000000000-00f067aa0ba902b7-01").is_none());
    assert!(parse_traceparent("00-4bf92f3577b34da6a3ce929d0e0e4736-0000000000000000-01").is_none());
    assert!(parse_traceparent("garbage-value").is_none());
    assert!(parse_traceparent("ff-4bf92f3577b34da6a3ce929d0e0e4736-00f067aa0ba902b7-01").is_none());
}

#[test]
fn current_version_takes_no_extra_fields() {
    assert!(
        parse_traceparent("00-4bf92f3577b34da6a3ce929d0e0e4736-00f067aa0ba902b7-01-extra").is_none()
    );
    assert!(parse_traceparent("00-4BF92f3577b34da6a3ce929d0e0e4736-00f067aa0ba902b7-01").is_none());
    assert!(parse_traceparent("00-4bf92f3577b34da6a3ce929d0e0e4736-00f067aa0ba902b7").is_none());
    assert!(parse_traceparent("").is_none());
}

#[test]
fn headers_for_hop_sets_correlation_headers() {
    let ctx = TraceContext::new("abc123".into(), "4bf92f3577b34da6a3ce929d0e0e4736".into(), "01".into());
    let headers = ctx.headers_for_hop(DRAWN);
    assert_eq!(headers[0].0, REQUEST_ID_HEADER);
    assert_eq!(headers[0].1, "abc123");
    assert_eq!(headers[1].0, TRACEPARENT_HEADER);
    assert!(headers[1].1.starts_with("00-4bf92f3577b34da6a3ce929d0e0e4736-"));
    assert!(headers[1].1.ends_with("-01"));
    assert_eq!(
        headers[1].1,
        "00-4bf92f3577b34da6a3ce929d0e0e4736-9c4f00112233aabb-01"
    );
}

#[test]
fn inject_into_sets_framework_correlation_headers() {
    let ctx = TraceContext::new("abc123".into(), "4bf92f3577b34da6a3ce929d0e0e4736".into(), "01".into());
    let mut fw = FrameworkHeaders::new();
    assert!(ctx.inject_into(&mut fw, DRAWN).is_ok());
    let entries = insertions(&fw);
    assert!(entries.iter().any(|(n, v)| n == "x-request-id" && v == "abc123"));
    assert!(entries
        .iter()
        .any(|(n, v)| n == "traceparent" && v.contains("4bf92f3577b34da6a3ce929d0e0e4736")));
    let removals = removals(&fw);
    assert!(removals.iter().any(|n| n == "x-request-id"));
    assert!(removals.iter().any(|n| n == "traceparent"));
    assert!(removals.iter().any(|n| n == "tracestate"));
}

#[test]
fn inject_into_forwards_validated_tracestate() {
    let ctx = TraceContext::new("abc123".into(), "4bf92f3577b34da6a3ce929d0e0e4736".into(), "01".into())
        .with_tracestate(Some("congo=t61rcWkgMzE".into()));
    let mut fw = FrameworkHeaders::new();
    assert!(ctx.inject_into(&mut fw, DRAWN).is_ok());
    let entries = insertions(&fw);
    assert!(entries
        .iter()
        .any(|(n, v)| n == "tracestate" && v == "congo=t61rcWkgMzE"));
}

#[test]
fn injected_headers_replace_earlier_ones() {
    let ctx = TraceContext::new("abc123".into(), TRACE_ID.into(), "01".into());
    let mut fw = FrameworkHeaders::new();
    assert!(ctx.inject_into(&mut fw, DRAWN).is_ok());

    let mut headers = HeaderMap::new();
    headers.append("x-request-id", "stale".parse().unwrap());
    headers.append("x-request-id", "staler".parse().unwrap());
    headers.append("tracestate", "old=1".parse().unwrap());
    headers.append("accept", "*/*".parse().unwrap());
    for edit in &fw.edits {
        match edit {
            HeaderEdit::Remove(name) => {
                headers.remove(name.as_str());
            },
            HeaderEdit::Insert(name, value) => {
                let name = http::HeaderName::from_bytes(name.as_bytes()).unwrap();
                headers.insert(name, value.parse().unwrap());
            },
        }
    }
    let ids: Vec<_> = headers.get_all("x-request-id").iter().collect();
    assert_eq!(ids, ["abc123"]);
    assert_eq!(headers["traceparent"], ctx.traceparent_for_hop(DRAWN).as_str());
    assert!(headers.get("tracestate").is_none());
    assert_eq!(headers["accept"], "*/*");
}

#[test]
fn inject_into_refuses_a_request_id_that_cannot_be_sent() {
    let ctx = TraceContext::new("line\nbreak".into(), TRACE_ID.into(), "01".into());
    let mut fw = FrameworkHeaders::new();
    let refused = ctx.inject_into(&mut fw, DRAWN);
    assert!(matches!(refused, Err(SubRequestError::InvalidRequest(_))));
    assert!(insertions(&fw).is_empty());
    assert_eq!(removals(&fw).len(), 3);
}

#[test]
fn from_request_headers_drops_tracestate_when_traceparent_invalid() {
    let mut headers = HeaderMap::new();
    headers.insert("traceparent", "garbage".parse().unwrap());
    headers.insert("tracestate", "congo=t61rcWkgMzE".parse().unwrap());
    let ctx = context_of(&headers);
    assert!(ctx.tracestate().is_none());
    assert_ne!(ctx.trace_id(), "00000000000000000000000000000000");
}

#[test]
fn from_request_headers_keeps_tracestate_when_traceparent_valid() {
    let mut headers = HeaderMap::new();
    headers.insert(
        "traceparent",
        "00-4bf92f3577b34da6a3ce929d0e0e4736-00f067aa0ba902b7-01"
            .parse()
            .unwrap(),
    );
    headers.insert("tracestate", "congo=t61rcWkgMzE".parse().unwrap());
    let ctx = context_of(&headers);
    assert_eq!(ctx.trace_id(), "4bf92f3577b34da6a3ce929d0e0e4736");
    assert_eq!(ctx.tracestate(), Some("congo=t61rcWkgMzE"));
}

#[test]
fn combined_tracestate_rejects_mixed_valid_and_non_utf8_fields() {
    let mut headers = HeaderMap::new();
    headers.insert(
        "traceparent",
        "00-4bf92f3577b34da6a3ce929d0e0e4736-00f067aa0ba902b7-01"
            .parse()
            .unwrap(),
    );
    headers.append("tracestate", "congo=t61rcWkgMzE".parse().unwrap());
    headers.append("tracestate", HeaderValue::from_bytes(b"rojo=\xffinvalid").unwrap());
    let ctx = context_of(&headers);
    assert_eq!(ctx.trace_id(), "4bf92f3577b34da6a3ce929d0e0e4736");
    assert!(ctx.tracestate().is_none());
}

#[test]
fn tracestate_fields_are_combined_in_order() {
    let mut headers = HeaderMap::new();
    headers.insert(
        "traceparent",
        "00-4bf92f3577b34da6a3ce929d0e0e4736-00f067aa0ba902b7-01"
            .parse()
            .unwrap(),
    );
    headers.append("tracestate", "congo=t61rcWkgMzE".parse().unwrap());
    headers.append("tracestate", " rojo=00f067aa0ba902b7".parse().unwrap());
    let ctx = context_of(&headers);
    assert_eq!(ctx.tracestate(), Some("congo=t61rcWkgMzE,rojo=00f067aa0ba902b7"));
}

#[test]
fn sanitized_ids_are_never_all_zero() {
    for id in ["", "0", "00000000000000000000000000000000", "----", "zzzz"] {
        let trace_id = sanitize_trace_id(id);
        assert_eq!(trace_id.len(), TRACE_ID_LEN);
        assert!(is_lower_hex(&trace_id));
        assert!(!is_all_zero(&trace_id));

        let span_id = span_id_from(&trace_id);
        assert_eq!(span_id.len(), SPAN_ID_LEN);
        assert!(!is_all_zero(&span_id));
    }
}

#[test]
fn sanitized_ids_are_padded_cut_and_lowered() {
    assert_eq!(
        sanitize_trace_id("0190b5c3-a1b2-7d5e-9c4f-00112233aabb"),
        "0190b5c30a1b207d5e09c4f000112233"
    );
    assert_eq!(sanitize_trace_id("ABC"), "00000000000000000000000000000abc");
    assert_eq!(sanitize_trace_id(TRACE_ID), TRACE_ID);
}

#[test]
fn generate_ids_have_expected_lengths() {
    assert_eq!(generate_trace_id(DRAWN).len(), 32);
    assert_eq!(generate_span_id(DRAWN).len(), 16);
    assert_eq!(generate_trace_id(DRAWN), "0190b5c3a1b27d5e9c4f00112233aabb");
    assert_eq!(generate_span_id(DRAWN), "9c4f00112233aabb");
}

#[test]
fn from_request_headers_uses_inbound_request_id() {
    let mut headers = HeaderMap::new();
    headers.insert("x-request-id", "client-supplied".parse().unwrap());
    let ctx = context_of(&headers);
    assert_eq!(ctx.request_id(), "client-supplied");
}

#[test]
fn from_request_headers_rejects_multiple_traceparent_values() {
    let mut headers = HeaderMap::new();
    headers.append(
        "traceparent",
        "00-4bf92f3577b34da6a3ce929d0e0e4736-00f067aa0ba902b7-01"
            .parse()
            .unwrap(),
    );
    headers.append(
        "traceparent",
        "00-aaaaaaaaaaaaaaaaaaaaaaaaaaaaaaaa-00f067aa0ba902b7-01"
            .parse()
            .unwrap(),
    );
    headers.insert("tracestate", "congo=t61rcWkgMzE".parse().unwrap());
    let ctx = context_of(&headers);
    assert_ne!(ctx.trace_id(), "4bf92f3577b34da6a3ce929d0e0e4736");
    assert_ne!(ctx.trace_id(), "aaaaaaaaaaaaaaaaaaaaaaaaaaaaaaaa");
    assert!(ctx.tracestate().is_none());
}

#[test]
fn new_request_starts_a_sampled_trace() {
    let headers = HeaderMap::new();
    assert_eq!(TraceContext::generated_ids_needed(&headers), 2);
    let ctx = TraceContext::from_request_headers(
        &headers,
        &vec!["first".to_owned(), DRAWN.to_owned()],
    );
    assert_eq!(ctx.request_id(), "first");
    assert_eq!(ctx.trace_id(), "0190b5c3a1b27d5e9c4f00112233aabb");
    assert_eq!(ctx.flags(), "01");
    assert!(ctx.sampled());
    assert!(ctx.tracestate().is_none());
}

#[test]
fn sampled_follows_the_flags() {
    let mut ctx = TraceContext::new("a".into(), TRACE_ID.into(), "00".into());
    assert!(!ctx.sampled());
    ctx.set_request_id("b".into());
    assert_eq!(ctx.request_id(), "b");
    assert_eq!(ctx.trace_id(), TRACE_ID);
    assert!(TraceContext::new_sampled("a".into(), DRAWN).sampled());
}

#[test]
fn hop_traceparent_is_read_back() {
    let ctx = TraceContext::new("a".into(), TRACE_ID.into(), "01".into());
    let parsed = parse_traceparent(&ctx.traceparent_for_hop(DRAWN)).unwrap();
    assert_eq!(parsed.trace_id, ctx.trace_id());
    assert_eq!(parsed.flags, ctx.flags());
}

#[test]
fn context_is_made_once() {
    let headers = HeaderMap::new();
    let mut slot: Option<TraceContext> = None;
    ensure_trace_context(&mut slot, &headers, &drawn_for(&headers));
    slot.as_mut().unwrap().set_request_id("kept".into());
    ensure_trace_context(&mut slot, &headers, &Vec::new());
    assert_eq!(slot.unwrap().request_id(), "kept");
}

#[test]
fn parse_tracestate_rejects_malformed_and_duplicate_keys() {
    assert!(parse_tracestate("congo=t61rcWkgMzE").is_some());
    assert!(parse_tracestate("congo=t61rcWkgMzE,rojo=00f067aa0ba902b7").is_some());
    assert!(parse_tracestate("congo=t61rcWkgMzE, congo=other").is_none());
    assert!(parse_tracestate("NOT VALID").is_none());
    assert!(parse_tracestate("Congo=value").is_none());
    assert!(parse_tracestate("congo=").is_none());
    assert!(parse_tracestate("").is_none());
}

#[test]
fn parse_tracestate_rejects_empty_list_members() {
    assert!(parse_tracestate(",congo=t61rcWkgMzE").is_none());
    assert!(parse_tracestate("congo=t61rcWkgMzE,").is_none());
    assert!(parse_tracestate("congo=t61rcWkgMzE,,rojo=00f067aa0ba902b7").is_none());
    assert!(parse_tracestate("congo=t61rcWkgMzE, ,rojo=00f067aa0ba902b7").is_none());
}

#[test]
fn parse_tracestate_key_grammar() {
    assert!(parse_tracestate("congo=t61rcWkgMzE").is_some());
    assert!(parse_tracestate("t@vendor=value").is_some());
    assert!(parse_tracestate("1tenant@vendor=value").is_some());
    assert!(parse_tracestate("1vendor=value").is_none(), "digit-leading simple key");
    assert!(parse_tracestate("a@b@c=value").is_none(), "multiple @");
    assert!(
        parse_tracestate("tenant@1sys=value").is_none(),
        "system-id must start with lcalpha"
    );
    assert!(parse_tracestate("vendor@=value").is_none());
    assert!(parse_tracestate("@vendor=value").is_none());
}

#[test]
fn parse_tracestate_allows_ows_around_equals() {
    assert_eq!(
        parse_tracestate("congo = t61rcWkgMzE").as_deref(),
        Some("congo=t61rcWkgMzE")
    );
    assert_eq!(
        parse_tracestate("congo\t=\tt61rcWkgMzE").as_deref(),
        Some("congo=t61rcWkgMzE")
    );
    assert_eq!(
        parse_tracestate("congo \t= \t t61rcWkgMzE").as_deref(),
        Some("congo=t61rcWkgMzE")
    );
    assert!(parse_tracestate("con go=value").is_none());
    assert!(parse_tracestate("congo\n=t61rcWkgMzE").is_none());
    assert!(parse_tracestate("congo\r=t61rcWkgMzE").is_none());
    assert!(parse_tracestate("congo\u{000b}=t61rcWkgMzE").is_none());
    assert!(parse_tracestate("congo\u{000c}=t61rcWkgMzE").is_none());
    assert!(parse_tracestate("congo\u{00a0}=t61rcWkgMzE").is_none());
}

#[test]
fn parse_tracestate_tenant_id_max_is_241() {
    let tenant_241 = format!("a{}", "b".repeat(240));
    assert_eq!(tenant_241.len(), 241);
    let system_14 = format!("c{}", "d".repeat(13));
    assert_eq!(system_14.len(), 14);
    let max_key = format!("{tenant_241}@{system_14}");
    assert_eq!(max_key.len(), 256);
    assert!(parse_tracestate(&format!("{max_key}=v")).is_some());
    let tenant_242 = format!("a{}", "b".repeat(241));
    assert_eq!(tenant_242.len(), 242);
    assert!(parse_tracestate(&format!("{tenant_242}@c=v")).is_none());
}

#[test]
fn parse_tracestate_member_and_size_limits() {
    let thirty_two: String = (0..MAX_TRACESTATE_MEMBERS)
        .map(|i| format!("k{i:02}=v"))
        .collect::<Vec<_>>()
        .join(",");
    assert!(parse_tracestate(&thirty_two).is_some());
    let thirty_three: String = (0..=MAX_TRACESTATE_MEMBERS)
        .map(|i| format!("k{i:02}=v"))
        .collect::<Vec<_>>()
        .join(",");
    assert!(parse_tracestate(&thirty_three).is_none());

    let first = format!("a={}", "x".repeat(254));
    let second = format!("b={}", "x".repeat(253));
    let exact = format!("{first},{second}");
    assert_eq!(exact.len(), MAX_TRACESTATE_LEN);
    assert_eq!(parse_tracestate(&exact).as_deref(), Some(exact.as_str()));

    let overflow = format!("{exact},c=d");
    assert_eq!(parse_tracestate(&overflow).as_deref(), Some(exact.as_str()));
}

#[test]
fn kept_tracestate_parses_to_itself() {
    let parsed = parse_tracestate("congo = t61rcWkgMzE ,\trojo=00f067aa0ba902b7").unwrap();
    assert_eq!(parsed, "congo=t61rcWkgMzE,rojo=00f067aa0ba902b7");
    assert_eq!(parse_tracestate(&parsed).as_deref(), Some(parsed.as_str()));
}
