//! Rejections and the upstream's response header.
use bytes::Bytes;
use http::{HeaderMap, HeaderValue};
use pingora_http::ResponseHeader;
use praxis::context::{HttpVersion, Rejection};
use praxis::grpc::{build_grpc_rejection, build_header, GrpcErrorMapping};
use praxis::rejection::{build_rejection_header, plan_rejection, response_header_from_pingora};

fn with(rejection: Rejection, name: &str, value: &str) -> Rejection {
    rejection.with_header(name.to_owned(), value.to_owned())
}

fn text(header: &ResponseHeader, name: &str) -> Option<String> {
    header
        .headers
        .get(name)
        .map(|value| value.to_str().unwrap().to_owned())
}

#[test]
fn response_header_preserves_status() {
    let mut upstream = ResponseHeader::build(200, None).unwrap();
    let resp = response_header_from_pingora(&mut upstream);
    assert_eq!(resp.status, 200, "status should be 200 OK");
}

#[test]
fn response_header_preserves_headers() {
    let mut upstream = ResponseHeader::build(200, Some(2)).unwrap();
    let _insert1 = upstream.insert_header("x-custom", "value");
    let _insert2 = upstream.insert_header("content-type", "text/plain");

    let resp = response_header_from_pingora(&mut upstream);
    assert_eq!(
        resp.headers.get("x-custom").unwrap(),
        "value",
        "x-custom header should be preserved"
    );
    assert_eq!(
        resp.headers.get("content-type").unwrap(),
        "text/plain",
        "content-type header should be preserved"
    );
}

#[test]
fn response_header_takes_headers_from_upstream() {
    let mut upstream = ResponseHeader::build(200, Some(1)).unwrap();
    let _insert = upstream.insert_header("x-test", "taken");

    let resp = response_header_from_pingora(&mut upstream);
    assert_eq!(
        resp.headers.get("x-test").unwrap(),
        "taken",
        "header should be in response"
    );
    assert!(
        upstream.headers.is_empty(),
        "upstream headers should be empty after take"
    );
}

#[test]
fn response_header_empty_headers() {
    let mut upstream = ResponseHeader::build(404, None).unwrap();
    let resp = response_header_from_pingora(&mut upstream);
    assert_eq!(resp.status, 404, "status should be 404 Not Found");
    assert!(
        resp.headers.is_empty(),
        "headers should be empty when upstream has none"
    );
}

#[test]
fn rejection_header_strips_reserved_internal_headers() {
    let mut header_map = HeaderMap::new();
    header_map.insert("x-ext-protocol-task", HeaderValue::from_static("meta"));
    header_map.insert("x-request-id", HeaderValue::from_static("abc-123"));
    let mut rejection = with(
        with(Rejection::status(403), "x-praxis-route", "internal-cluster"),
        "content-type",
        "text/plain",
    );
    rejection.header_map = Some(header_map);

    let header = build_rejection_header(&rejection);
    assert!(
        header.headers.get("x-praxis-route").is_none(),
        "reserved x-praxis-* header must never reach the client via a rejection"
    );
    assert!(
        header.headers.get("x-ext-protocol-task").is_none(),
        "reserved x-ext-* header must never reach the client via a rejection header_map"
    );
    assert_eq!(
        header.headers.get("content-type").map(HeaderValue::as_bytes),
        Some(b"text/plain".as_slice()),
        "non-reserved rejection headers must be preserved"
    );
    assert_eq!(
        header.headers.get("x-request-id").map(HeaderValue::as_bytes),
        Some(b"abc-123".as_slice()),
        "non-reserved header_map entries must be preserved"
    );
}

#[test]
fn rejection_header_strips_mixed_case_reserved_from_string_list() {
    let rejection = with(
        with(
            with(Rejection::status(403), "X-Praxis-Route", "internal-cluster"),
            "X-Ext-Agent-Task",
            "meta",
        ),
        "X-Custom",
        "keep",
    );

    let header = build_rejection_header(&rejection);
    assert!(
        header.headers.get("x-praxis-route").is_none(),
        "a mixed-case reserved x-praxis-* header must be dropped from a rejection"
    );
    assert!(
        header.headers.get("x-ext-agent-task").is_none(),
        "a mixed-case reserved x-ext-agent-* header must be dropped from a rejection"
    );
    assert_eq!(
        header.headers.get("x-custom").map(HeaderValue::as_bytes),
        Some(b"keep".as_slice()),
        "non-reserved rejection headers must still be preserved"
    );
}

#[test]
fn rejection_header_preserves_duplicate_values() {
    let rejection = with(
        with(Rejection::status(200), "set-cookie", "first=1"),
        "set-cookie",
        "second=2",
    );

    let header = build_rejection_header(&rejection);
    let values: Vec<_> = header
        .headers
        .get_all("set-cookie")
        .iter()
        .map(|value| value.to_str().unwrap())
        .collect();

    assert_eq!(values, ["first=1", "second=2"]);
}

#[test]
fn rejection_header_preserves_opaque_values() {
    let mut rejection = Rejection::status(200);
    rejection
        .header_map
        .get_or_insert_with(Default::default)
        .append("x-opaque", HeaderValue::from_bytes(&[b'a', 0x80, b'z']).unwrap());

    let header = build_rejection_header(&rejection);

    assert_eq!(header.headers["x-opaque"].as_bytes(), &[b'a', 0x80, b'z']);
}

#[test]
fn invalid_rejection_status_falls_back_to_500() {
    let rejection = Rejection {
        body: None,
        headers: Vec::new(),
        header_map: None,
        preserve_keepalive: false,
        status: 99,
    };
    let header = build_rejection_header(&rejection);
    assert_eq!(header.status.as_u16(), 500, "invalid status codes must map to 500");
}

#[test]
fn rejection_header_drops_what_cannot_be_sent() {
    let rejection = with(
        with(Rejection::status(400), "bad name", "value"),
        "x-split",
        "one\r\ntwo",
    );
    let header = build_rejection_header(&rejection);
    assert!(header.headers.is_empty());
    assert_eq!(header.status.as_u16(), 400);
}

#[test]
fn rejection_plan_measures_the_body() {
    let mut rejection = with(Rejection::status(413), "content-length", "9999");
    rejection.body = Some(Bytes::from_static(b"too large"));
    let plan = plan_rejection(rejection);
    assert!(plan.close);
    assert!(!plan.end_of_stream);
    assert_eq!(plan.body.unwrap(), Bytes::from_static(b"too large"));
    assert_eq!(text(&plan.header, "content-length").unwrap(), "9");
    assert_eq!(plan.header.headers.get_all("content-length").iter().count(), 1);
}

#[test]
fn rejection_plan_without_a_body_ends_the_stream() {
    let mut rejection = Rejection::status(404);
    rejection.preserve_keepalive = true;
    let plan = plan_rejection(rejection);
    assert!(!plan.close);
    assert!(plan.end_of_stream);
    assert!(plan.body.is_none());
    assert!(text(&plan.header, "content-length").is_none());
}

fn mapping(include_message: bool) -> GrpcErrorMapping {
    GrpcErrorMapping {
        content_type: HeaderValue::from_static("application/grpc"),
        include_message,
    }
}

#[test]
fn grpc_error_on_http2_names_no_length() {
    let header = build_header(HttpVersion::Http2, &mapping(true), 14, "no route", "no%20route");
    assert_eq!(header.status.as_u16(), 200);
    assert_eq!(text(&header, "content-type").unwrap(), "application/grpc");
    assert_eq!(text(&header, "grpc-status").unwrap(), "14");
    assert_eq!(text(&header, "grpc-message").unwrap(), "no%20route");
    assert!(text(&header, "content-length").is_none());
}

#[test]
fn grpc_error_on_http11_says_that_no_body_follows() {
    let header = build_header(HttpVersion::Http11, &mapping(false), 13, "hidden", "hidden");
    assert_eq!(text(&header, "content-length").unwrap(), "0");
    assert!(text(&header, "grpc-message").is_none());
    assert_eq!(text(&header, "grpc-status").unwrap(), "13");
}

#[test]
fn grpc_error_leaves_out_a_message_that_cannot_be_sent() {
    let header = build_header(HttpVersion::Http2, &mapping(true), 2, "a\nb", "a\nb");
    assert!(text(&header, "grpc-message").is_none());
    let header = build_header(HttpVersion::Http2, &mapping(true), 2, "", "x");
    assert!(text(&header, "grpc-message").is_none());
}

#[test]
fn grpc_rejection_drops_the_length_on_http2_only() {
    let rejection = with(
        with(Rejection::status(200), "Content-Length", "0"),
        "grpc-status",
        "4",
    );
    let header = build_grpc_rejection(&rejection, HttpVersion::Http2).unwrap();
    assert!(text(&header, "content-length").is_none());
    assert_eq!(text(&header, "grpc-status").unwrap(), "4");
    let header = build_grpc_rejection(&rejection, HttpVersion::Http11).unwrap();
    assert_eq!(text(&header, "content-length").unwrap(), "0");
}

#[test]
fn grpc_rejection_needs_a_status_that_can_be_sent() {
    assert!(build_grpc_rejection(&Rejection::status(99), HttpVersion::Http2).is_none());
    assert!(build_grpc_rejection(&Rejection::status(1000), HttpVersion::Http2).is_none());
}

#[test]
fn repeated_fields_do_not_fill_a_rejection() {
    let mut rejection = Rejection::status(403);
    let mut map = HeaderMap::new();
    for _ in 0..9000 {
        rejection = with(rejection, "Set-Cookie", "a=1");
        map.append("set-cookie", HeaderValue::from_static("b=2"));
    }
    rejection.header_map = Some(map);
    let header = build_rejection_header(&rejection);
    assert_eq!(header.headers.get_all("set-cookie").iter().count(), 18000);
}

#[test]
fn rejection_spells_names_as_they_were_given() {
    let mut rejection = with(Rejection::status(403), "X-Reason", "r");
    let mut map = HeaderMap::new();
    map.insert("server", HeaderValue::from_static("s"));
    let mut secret = HeaderValue::from_static("t");
    secret.set_sensitive(true);
    map.insert("x-token", secret);
    rejection.header_map = Some(map);
    rejection.body = Some(Bytes::from_static(b"no"));
    let header = plan_rejection(rejection).header;
    assert!(header.headers["x-token"].is_sensitive());
    let mut wire = Vec::new();
    header.header_to_h1_wire(&mut wire);
    assert_eq!(wire, b"X-Reason: r\r\nServer: s\r\nx-token: t\r\ncontent-length: 2\r\n");
}

#[test]
fn grpc_error_spells_the_usual_names() {
    let header = build_header(HttpVersion::Http11, &mapping(false), 13, "", "");
    let mut wire = Vec::new();
    header.header_to_h1_wire(&mut wire);
    assert_eq!(
        wire,
        b"Content-Type: application/grpc\r\ngrpc-status: 13\r\nContent-Length: 0\r\n"
    );
}

#[test]
fn rejections_have_the_standard_status_line() {
    let rejected = [
        plan_rejection(Rejection::status(403)).header,
        build_rejection_header(&Rejection::status(403)),
        build_grpc_rejection(&Rejection::status(403), HttpVersion::Http2).unwrap(),
    ];
    for header in rejected {
        assert_eq!(header.get_reason_phrase(), Some("Forbidden"));
        assert_eq!(header.version, http::Version::HTTP_11);
    }
    let header = build_header(HttpVersion::Http2, &mapping(true), 14, "no route", "no%20route");
    assert_eq!(header.get_reason_phrase(), Some("OK"));
    assert_eq!(header.version, http::Version::HTTP_11);
}
