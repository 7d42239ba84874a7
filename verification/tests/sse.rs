//! Server-Sent Events.
use bytes::{Bytes, BytesMut};
use praxis::sse::decoder::decode;
use praxis::sse::encoder::{encode, encode_into};
use praxis::sse::record::{SseBuildError, SseField, SseRecord, SseRecordBuilder};

fn text(value: &'static str) -> Bytes {
    Bytes::from_static(value.as_bytes())
}

/// Name and value of a field.
fn parts(field: &SseField) -> (Bytes, Bytes) {
    match field {
        SseField::Event(value) => (text("event"), value.clone()),
        SseField::Data(value) => (text("data"), value.clone()),
        SseField::Id(value) => (text("id"), value.clone()),
        SseField::Retry(value) => (text("retry"), value.clone()),
        SseField::Comment(value) => (Bytes::new(), value.clone()),
        SseField::Unknown { name, value } => (name.clone(), value.clone()),
    }
}

fn all_parts(fields: &[SseField]) -> Vec<(Bytes, Bytes)> {
    fields.iter().map(parts).collect()
}

fn built(builder: SseRecordBuilder) -> SseRecord {
    match builder.build() {
        Ok(record) => record,
        Err(error) => panic!("{error:?}"),
    }
}

#[test]
fn encodes_canonical_fields_in_order() {
    let record = built(
        SseRecord::builder()
            .event(text("message"))
            .data(text("hello"))
            .data(text("world"))
            .comment(text("hb")),
    );
    assert_eq!(
        encode(&record),
        Bytes::from_static(b"event: message\ndata: hello\ndata: world\n: hb\n\n"),
        "canonical encoding in wire order with a trailing blank line"
    );
}

#[test]
fn encodes_empty_value_with_single_space() {
    let record = built(SseRecord::builder().data(text("")));
    assert_eq!(
        encode(&record),
        Bytes::from_static(b"data: \n\n"),
        "empty value still emits one space after the colon"
    );
}

#[test]
fn encodes_unknown_field() {
    let record = built(SseRecord::builder().field(SseField::Unknown {
        name: Bytes::from_static(b"x-foo"),
        value: Bytes::from_static(b"bar"),
    }));
    assert_eq!(
        encode(&record),
        Bytes::from_static(b"x-foo: bar\n\n"),
        "unknown field uses its name"
    );
}

#[test]
fn encode_into_appends_multiple_records() {
    let a = built(SseRecord::builder().data(text("a")));
    let b = built(SseRecord::builder().data(text("b")));
    let mut out = BytesMut::new();
    encode_into(&a, &mut out);
    encode_into(&b, &mut out);
    assert_eq!(
        out.freeze(),
        Bytes::from_static(b"data: a\n\ndata: b\n\n"),
        "encode_into appends without a separator"
    );
}

#[test]
fn round_trip_is_field_stable() {
    let record = built(
        SseRecord::builder()
            .event(text("msg"))
            .data(text("l1"))
            .data(text("l2"))
            .id(text("id1"))
            .retry(4200)
            .comment(text("keepalive"))
            .field(SseField::Unknown {
                name: Bytes::from_static(b"x-trace"),
                value: Bytes::from_static(b"t"),
            }),
    );
    let bytes = encode(&record);
    let (fields, len) = decode(&bytes).expect("round-trip decodes cleanly");
    assert_eq!(len, bytes.len(), "one record round-trips");
    assert_eq!(
        all_parts(&fields),
        all_parts(record.fields()),
        "fields are byte-stable across round-trip"
    );
}

#[test]
fn round_trip_preserves_non_utf8_and_nul_in_id() {
    let record = built(
        SseRecord::builder()
            .data(Bytes::copy_from_slice(&[0xFF, 0xFE, b'x']))
            .id(Bytes::copy_from_slice(b"a\0b")),
    );
    let bytes = encode(&record);
    let (fields, _) = decode(&bytes).expect("a complete record");
    assert_eq!(
        all_parts(&fields),
        all_parts(record.fields()),
        "non-UTF-8 data and NUL-in-id survive a round-trip"
    );
}

#[test]
fn documented_record_has_its_documented_bytes() {
    let record = built(SseRecord::builder().event(text("message")).data(text("hello")));
    assert_eq!(encode(&record).as_ref(), b"event: message\ndata: hello\n\n");
    let record = built(SseRecord::builder().event(text("done")).data(text("bye")));
    assert_eq!(encode(&record).as_ref(), b"event: done\ndata: bye\n\n");
}

#[test]
fn retry_is_written_in_decimal() {
    let record = built(SseRecord::builder().retry(0).retry(u64::MAX));
    assert_eq!(
        encode(&record).as_ref(),
        b"retry: 0\nretry: 18446744073709551615\n\n"
    );
}

#[test]
fn line_break_in_a_value_is_refused() {
    for value in [text("a\nb"), text("a\rb")] {
        let refused = SseRecord::builder().data(value).build();
        assert!(matches!(refused, Err(SseBuildError::LineBreak)));
    }
}

#[test]
fn ambiguous_name_is_refused() {
    for name in [text(""), text("a:b"), text("a\nb"), text("event"), text("data"), text("id"), text("retry")] {
        let refused = SseRecord::builder()
            .field(SseField::Unknown {
                name,
                value: text("v"),
            })
            .build();
        assert!(matches!(refused, Err(SseBuildError::InvalidName)));
    }
}

#[test]
fn incomplete_record_is_not_read() {
    assert!(decode(b"data: {\"n\":1}\n").is_none());
    assert!(decode(b"").is_none());
    let (fields, len) = decode(b"data: {\"n\":1}\n\ndata: {").expect("the first record is complete");
    assert_eq!(len, 15);
    assert_eq!(all_parts(&fields), vec![(text("data"), text("{\"n\":1}"))]);
}

#[test]
fn every_kind_of_line_break_ends_a_line() {
    let (fields, len) = decode(b"event:a\r\ndata\r: c\nx:  y\n\r\nrest").expect("complete");
    assert_eq!(len, 26);
    assert_eq!(
        all_parts(&fields),
        vec![
            (text("event"), text("a")),
            (text("data"), text("")),
            (text(""), text("c")),
            (text("x"), text(" y")),
        ]
    );
}

#[test]
fn encode_into_keeps_what_the_buffer_holds() {
    let mut out = BytesMut::from(&b"cut of"[..]);
    encode_into(&built(SseRecord::builder().data(text("")).comment(text("c"))), &mut out);
    assert_eq!(out.freeze(), Bytes::from_static(b"cut ofdata: \n: c\n\n"));
}
