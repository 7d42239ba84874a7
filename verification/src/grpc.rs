//! Trailers-only responses for errors of gRPC calls.
//!
//! gRPC reports a failed call as one header block with a status of its own. On
//! HTTP/2 that block ends the stream; on HTTP/1.1 it says that no body follows.
use crate::context::{HttpVersion, Rejection};
use crate::headers::{
    accepted_fields, accepted_spellings, appended, ascii_lower, entries_insert, entry_values,
    has_entry, is_named, lemma_accepted_push, lemma_appended_grows,
    lemma_appended_push, lemma_insert, parse_value, plain, spelling, stored_name, text_fields,
    valid_name, valid_value, value_view, Entries, Fields, Intake, Spellings, MAX_HEADER_NAMES,
};
use crate::rejection::{length_value, lemma_length_is_sendable, CONTENT_LENGTH};
use crate::text::{ascii_bytes, decimal, decimal_text, lemma_decimal_bytes};
use crate::transport::{
    in_step, name_counts, plain_status_line, response_append, response_build, response_entries,
    response_insert, response_status, spelled_names,
};
use http::HeaderValue;
use pingora_http::ResponseHeader;
use vstd::prelude::*;
use vstd::string::*;
use vstd::utf8::*;

verus! {

/// The header name of the content type, as it is spelled.
pub const CONTENT_TYPE_NAME: &'static str = "Content-Type";

/// The header name of the body length, as it is spelled.
pub const CONTENT_LENGTH_NAME: &'static str = "Content-Length";

/// The header name of the gRPC status.
pub const GRPC_STATUS: &'static str = "grpc-status";

/// The header name of the gRPC message.
pub const GRPC_MESSAGE: &'static str = "grpc-message";

/// How errors are reported to a gRPC client.
pub struct GrpcErrorMapping {
    /// Content type of the call.
    pub content_type: HeaderValue,
    /// Whether the message is passed on.
    pub include_message: bool,
}

/// Whether the message is passed on: it is wanted, there is one, and it can be sent.
pub open spec fn explains(
    mapping: GrpcErrorMapping,
    message: Seq<char>,
    encoded_message: Seq<char>,
) -> bool {
    mapping.include_message && message.len() > 0 && valid_value(encode_utf8(encoded_message))
}

/// The entries of the header block that reports an error.
pub open spec fn trailers_entries(
    mapping: GrpcErrorMapping,
    grpc_status: nat,
    message: Seq<char>,
    encoded_message: Seq<char>,
    version: HttpVersion,
) -> Entries {
    let typed = entries_insert(
        Seq::empty(),
        ascii_lower(CONTENT_TYPE_NAME@),
        value_view(mapping.content_type),
    );
    let coded = entries_insert(typed, GRPC_STATUS@, plain(ascii_bytes(decimal(grpc_status))));
    let explained = if explains(mapping, message, encoded_message) {
        entries_insert(coded, GRPC_MESSAGE@, plain(encode_utf8(encoded_message)))
    } else {
        coded
    };
    if version == HttpVersion::Http2 {
        explained
    } else {
        entries_insert(explained, CONTENT_LENGTH@, length_value(0))
    }
}

/// The spellings of the header block that reports an error.
pub open spec fn trailers_spellings(
    mapping: GrpcErrorMapping,
    message: Seq<char>,
    encoded_message: Seq<char>,
    version: HttpVersion,
) -> Spellings {
    let typed = entries_insert(
        Seq::empty(),
        ascii_lower(CONTENT_TYPE_NAME@),
        CONTENT_TYPE_NAME@,
    );
    let coded = entries_insert(typed, GRPC_STATUS@, GRPC_STATUS@);
    let explained = if explains(mapping, message, encoded_message) {
        entries_insert(coded, GRPC_MESSAGE@, GRPC_MESSAGE@)
    } else {
        coded
    };
    if version == HttpVersion::Http2 {
        explained
    } else {
        entries_insert(explained, CONTENT_LENGTH@, CONTENT_LENGTH_NAME@)
    }
}

/// The names of the block are valid, and differ from each other.
pub proof fn lemma_grpc_names()
    ensures
        valid_name(CONTENT_TYPE_NAME@),
        valid_name(CONTENT_LENGTH_NAME@),
        ascii_lower(CONTENT_LENGTH_NAME@) == CONTENT_LENGTH@,
        valid_name(GRPC_STATUS@),
        ascii_lower(GRPC_STATUS@) == GRPC_STATUS@,
        valid_name(GRPC_MESSAGE@),
        ascii_lower(GRPC_MESSAGE@) == GRPC_MESSAGE@,
        GRPC_STATUS@ != GRPC_MESSAGE@,
        GRPC_STATUS@ != CONTENT_LENGTH@,
        GRPC_MESSAGE@ != CONTENT_LENGTH@,
        ascii_lower(CONTENT_TYPE_NAME@) != CONTENT_LENGTH@,
{
    reveal_strlit("Content-Type");
    reveal_strlit("Content-Length");
    reveal_strlit("content-length");
    reveal_strlit("grpc-status");
    reveal_strlit("grpc-message");
    assert(ascii_lower(CONTENT_LENGTH_NAME@) =~= CONTENT_LENGTH@);
    assert(ascii_lower(GRPC_STATUS@) =~= GRPC_STATUS@);
    assert(ascii_lower(GRPC_MESSAGE@) =~= GRPC_MESSAGE@);
    assert(GRPC_STATUS@.len() != GRPC_MESSAGE@.len());
    assert(GRPC_STATUS@.len() != CONTENT_LENGTH@.len());
    assert(GRPC_MESSAGE@.len() != CONTENT_LENGTH@.len());
    assert(ascii_lower(CONTENT_TYPE_NAME@).len() != CONTENT_LENGTH@.len());
}

/// Builds the header block that reports an error of a gRPC call. The status is
/// that of gRPC, and the message is given as the client gets it.
pub fn build_header(
    version: HttpVersion,
    mapping: &GrpcErrorMapping,
    grpc_status: usize,
    message: &str,
    encoded_message: &str,
) -> (header: ResponseHeader)
    ensures
        response_status(header) == 200,
        plain_status_line(header),
        in_step(header),
        response_entries(header) == trailers_entries(
            *mapping,
            grpc_status as nat,
            message@,
            encoded_message@,
            version,
        ),
        spelled_names(header) == Some(
            trailers_spellings(*mapping, message@, encoded_message@, version),
        ),
{
    proof {
        lemma_grpc_names();
        lemma_decimal_bytes(grpc_status as nat);
        lemma_decimal_bytes(0);
        lemma_length_is_sendable(grpc_status as nat);
        lemma_length_is_sendable(0);
    }
    let mut header = response_build(200, 4).unwrap();
    assert(name_counts(response_entries(header)) =~= name_counts(Spellings::empty()));
    let _inserted = response_insert(&mut header, CONTENT_TYPE_NAME, &mapping.content_type);
    let code = parse_value(decimal_text(grpc_status as u64).as_str().as_bytes()).unwrap();
    proof {
        lemma_insert(
            Entries::empty(),
            ascii_lower(CONTENT_TYPE_NAME@),
            value_view(mapping.content_type),
            GRPC_STATUS@,
        );
        lemma_insert(response_entries(header), GRPC_STATUS@, value_view(code), GRPC_STATUS@);
    }
    let _inserted = response_insert(&mut header, GRPC_STATUS, &code);
    proof {
        lemma_insert(
            response_entries(header),
            GRPC_MESSAGE@,
            plain(encode_utf8(encoded_message@)),
            GRPC_MESSAGE@,
        );
    }
    if mapping.include_message && !message.is_empty() {
        match parse_value(encoded_message.as_bytes()) {
            Some(value) => {
                let _inserted = response_insert(&mut header, GRPC_MESSAGE, &value);
            },
            None => {},
        }
    }
    if version != HttpVersion::Http2 {
        let zero = parse_value(decimal_text(0).as_str().as_bytes()).unwrap();
        let _inserted = response_insert(&mut header, CONTENT_LENGTH_NAME, &zero);
    }
    header
}

/// The fields without the body length, whatever its case.
pub open spec fn without_any_length(fields: Fields) -> Fields
    decreases fields.len(),
{
    if fields.len() == 0 {
        Seq::empty()
    } else if ascii_lower(fields.last().0) == CONTENT_LENGTH@ {
        without_any_length(fields.drop_last())
    } else {
        without_any_length(fields.drop_last()).push(fields.last())
    }
}

/// The fields that a gRPC client is sent: on HTTP/2 without a body length, since
/// the block itself ends the stream.
pub open spec fn kept_of(fields: Fields, version: HttpVersion) -> Fields {
    if version == HttpVersion::Http2 {
        without_any_length(fields)
    } else {
        fields
    }
}

/// The fields of a rejection that a gRPC client is sent.
pub open spec fn grpc_fields(headers: Seq<(String, String)>, version: HttpVersion) -> Fields {
    kept_of(text_fields(headers), version)
}

proof fn lemma_grpc_step(fields: Fields, i: int)
    requires
        0 <= i < fields.len(),
    ensures
        without_any_length(fields.take(i + 1)) == (if ascii_lower(fields[i].0) == CONTENT_LENGTH@ {
            without_any_length(fields.take(i))
        } else {
            without_any_length(fields.take(i)).push(fields[i])
        }),
{
    assert(fields.take(i + 1).drop_last() =~= fields.take(i));
}

/// What is sent of the first fields makes no more entries than what is sent of all.
proof fn lemma_sent_so_far(fields: Fields, version: HttpVersion, i: int)
    requires
        0 <= i <= fields.len(),
    ensures
        appended(
            Entries::empty(),
            accepted_fields(kept_of(fields.take(i), version), Intake::Text),
        ).len() <= appended(
            Entries::empty(),
            accepted_fields(kept_of(fields, version), Intake::Text),
        ).len(),
    decreases fields.len() - i,
{
    if i == fields.len() {
        assert(fields.take(i) =~= fields);
    } else {
        lemma_sent_so_far(fields, version, i + 1);
        let kept = kept_of(fields.take(i), version);
        let sent = accepted_fields(kept, Intake::Text);
        let item = (stored_name(fields[i].0, Intake::Text), fields[i].1);
        assert(fields.take(i + 1) =~= fields.take(i).push(fields[i]));
        lemma_grpc_step(fields, i);
        lemma_accepted_push(kept, fields[i], Intake::Text);
        assert(sent.push(item) =~= sent + seq![item]);
        lemma_appended_grows(Entries::empty(), sent, seq![item]);
    }
}

/// Builds the header block of a rejection that carries its own gRPC headers.
/// `None` for a status that cannot be sent; a field that cannot be sent is left
/// out.
pub fn build_grpc_rejection(
    rejection: &Rejection,
    version: HttpVersion,
) -> (built: Option<ResponseHeader>)
    requires
        appended(
            Entries::empty(),
            accepted_fields(grpc_fields(rejection.headers@, version), Intake::Text),
        ).len() < MAX_HEADER_NAMES,
    ensures
        built is Some <==> 100 <= rejection.status <= 999,
        built matches Some(header) ==> {
            &&& response_status(header) == rejection.status
            &&& plain_status_line(header)
            &&& in_step(header)
            &&& response_entries(header) == appended(
                Entries::empty(),
                accepted_fields(grpc_fields(rejection.headers@, version), Intake::Text),
            )
            &&& spelled_names(header) == Some(
                appended(
                    Spellings::empty(),
                    accepted_spellings(grpc_fields(rejection.headers@, version), Intake::Text),
                ),
            )
        },
{
    let mut header = match response_build(rejection.status, rejection.headers.len()) {
        Some(header) => header,
        None => return None,
    };
    let ghost none = Entries::empty();
    let ghost blank = Spellings::empty();
    let ghost fields = text_fields(rejection.headers@);
    assert(name_counts(response_entries(header)) =~= name_counts(blank));
    assert(fields.take(0) =~= Fields::empty());
    let mut i: usize = 0;
    while i < rejection.headers.len()
        invariant
            i <= rejection.headers@.len(),
            fields == text_fields(rejection.headers@),
            none == Entries::empty(),
            appended(none, accepted_fields(kept_of(fields, version), Intake::Text)).len()
                < MAX_HEADER_NAMES,
            response_entries(header) == appended(
                none,
                accepted_fields(kept_of(fields.take(i as int), version), Intake::Text),
            ),
            spelled_names(header) == Some(
                appended(
                    blank,
                    accepted_spellings(kept_of(fields.take(i as int), version), Intake::Text),
                ),
            ),
            response_status(header) == rejection.status,
            plain_status_line(header),
            in_step(header),
        decreases rejection.headers@.len() - i,
    {
        let name = rejection.headers[i].0.as_str();
        let value = rejection.headers[i].1.as_str();
        let ghost field = fields[i as int];
        let ghost kept = kept_of(fields.take(i as int), version);
        proof {
            assert(fields.take(i + 1) =~= fields.take(i as int).push(field));
            lemma_grpc_step(fields, i as int);
            lemma_accepted_push(kept, field, Intake::Text);
            lemma_appended_push(
                none,
                accepted_fields(kept, Intake::Text),
                (stored_name(field.0, Intake::Text), field.1),
            );
            lemma_appended_push(
                blank,
                accepted_spellings(kept, Intake::Text),
                (stored_name(field.0, Intake::Text), spelling(field.0, Intake::Text)),
            );
            lemma_sent_so_far(fields, version, i as int);
        }
        if !(version == HttpVersion::Http2 && is_named(name, CONTENT_LENGTH)) {
            match parse_value(value.as_bytes()) {
                Some(value) => {
                    let _appended = response_append(&mut header, name, &value);
                },
                None => {},
            }
        }
        i += 1;
    }
    assert(fields.take(i as int) =~= fields);
    Some(header)
}

/// A client is told that no body follows in exactly one way: on HTTP/2 the block
/// ends the stream and names no length, on any other version it names the length
/// zero. The status of the call is always there.
pub proof fn law_trailers_say_that_no_body_follows(
    mapping: GrpcErrorMapping,
    grpc_status: nat,
    message: Seq<char>,
    encoded_message: Seq<char>,
    version: HttpVersion,
)
    ensures
        ({
            let entries = trailers_entries(mapping, grpc_status, message, encoded_message, version);
            &&& version == HttpVersion::Http2 ==> !has_entry(entries, CONTENT_LENGTH@)
            &&& version != HttpVersion::Http2 ==> entry_values(entries, CONTENT_LENGTH@) == seq![
                length_value(0),
            ]
            &&& entry_values(entries, GRPC_STATUS@) == seq![
                plain(ascii_bytes(decimal(grpc_status))),
            ]
        }),
{
    lemma_grpc_names();
    let none = Entries::empty();
    let kind = ascii_lower(CONTENT_TYPE_NAME@);
    let code = plain(ascii_bytes(decimal(grpc_status)));
    let typed = entries_insert(none, kind, value_view(mapping.content_type));
    lemma_insert(none, kind, value_view(mapping.content_type), CONTENT_LENGTH@);
    let coded = entries_insert(typed, GRPC_STATUS@, code);
    lemma_insert(typed, GRPC_STATUS@, code, CONTENT_LENGTH@);
    lemma_insert(typed, GRPC_STATUS@, code, GRPC_STATUS@);
    let text = plain(encode_utf8(encoded_message));
    lemma_insert(coded, GRPC_MESSAGE@, text, CONTENT_LENGTH@);
    lemma_insert(coded, GRPC_MESSAGE@, text, GRPC_STATUS@);
    let explained = if explains(mapping, message, encoded_message) {
        entries_insert(coded, GRPC_MESSAGE@, text)
    } else {
        coded
    };
    lemma_insert(explained, CONTENT_LENGTH@, length_value(0), CONTENT_LENGTH@);
    lemma_insert(explained, CONTENT_LENGTH@, length_value(0), GRPC_STATUS@);
}

} // verus!
