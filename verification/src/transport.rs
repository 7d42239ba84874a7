//! The transport's request and response headers: what they hold, and the calls
//! into `pingora-http` that build and change them.
//!
//! Besides the fields, such a header keeps the spelling of every name for
//! HTTP/1.1. Both are walked side by side when the header is written, so they
//! have to list the same names the same number of times.
use crate::context::HttpVersion;
use crate::headers::{
    ascii_lower, entries_append, entries_insert, entries_remove, header_entries, name_text,
    spelling, valid_name, value_view, Entries, Intake, Spellings, MAX_HEADER_NAMES,
};
use http::{HeaderMap, HeaderName, HeaderValue};
use pingora_http::{RequestHeader, ResponseHeader};
use vstd::prelude::*;

verus! {

/// `pingora_http::ResponseHeader`, kept opaque.
#[verifier::external_type_specification]
#[verifier::external_body]
pub struct ExResponseHeader(pingora_http::ResponseHeader);

/// `pingora_http::RequestHeader`, kept opaque.
#[verifier::external_type_specification]
#[verifier::external_body]
pub struct ExRequestHeader(pingora_http::RequestHeader);

/// The fields that a response header holds, as entries in iteration order.
pub uninterp spec fn response_entries(header: ResponseHeader) -> Seq<(
    Seq<char>,
    Seq<(Seq<u8>, bool)>,
)>;

/// The status code of a response header.
pub uninterp spec fn response_status(header: ResponseHeader) -> u16;

/// The spellings that a response header keeps of its names, in the order in which
/// they are written; `None` when it keeps none.
pub uninterp spec fn spelled_names(header: ResponseHeader) -> Option<
    Seq<(Seq<char>, Seq<Seq<char>>)>,
>;

/// The reason phrase that was set on a response header, if it differs from the
/// standard one.
pub uninterp spec fn custom_reason(header: ResponseHeader) -> Option<Seq<char>>;

/// The version of a response header.
pub uninterp spec fn response_version(header: ResponseHeader) -> HttpVersion;

/// What `http::StatusCode::canonical_reason` returns for a status code.
pub uninterp spec fn canonical_reason(status: u16) -> Option<Seq<char>>;

/// The fields that a request header holds, as entries in iteration order.
pub uninterp spec fn request_entries(header: RequestHeader) -> Seq<(
    Seq<char>,
    Seq<(Seq<u8>, bool)>,
)>;

/// The spellings that a request header keeps of its names, in the order in which
/// they are written; `None` when it keeps none.
pub uninterp spec fn request_spelled_names(header: RequestHeader) -> Option<
    Seq<(Seq<char>, Seq<Seq<char>>)>,
>;

/// The method of a request header.
pub uninterp spec fn request_method(header: RequestHeader) -> Seq<char>;

/// The URI of a request header, as text.
pub uninterp spec fn request_uri(header: RequestHeader) -> Seq<char>;

/// The bytes that a request header keeps of a path that is not readable text; none
/// for one that is.
pub uninterp spec fn request_opaque_path(header: RequestHeader) -> Seq<u8>;

/// The version of a request header.
pub uninterp spec fn request_version(header: RequestHeader) -> HttpVersion;

/// The names of `entries`, each with the number of values under it.
pub open spec fn name_counts<V>(entries: Seq<(Seq<char>, Seq<V>)>) -> Seq<(Seq<char>, nat)> {
    Seq::new(entries.len(), |i: int| (entries[i].0, entries[i].1.len()))
}

/// Kept spellings line up with fields.
pub open spec fn lines_up(spelled: Option<Spellings>, entries: Entries) -> bool {
    match spelled {
        Some(names) => name_counts(names) == name_counts(entries),
        None => true,
    }
}

/// The kept spellings of a response header line up with its fields, so that it can
/// be written.
pub open spec fn in_step(header: ResponseHeader) -> bool {
    lines_up(spelled_names(header), response_entries(header))
}

/// The kept spellings of a request header line up with its fields, so that it can
/// be written.
pub open spec fn request_in_step(header: RequestHeader) -> bool {
    lines_up(request_spelled_names(header), request_entries(header))
}

/// Kept spellings with one more, if any are kept.
pub open spec fn also_appended(
    spelled: Option<Spellings>,
    name: Seq<char>,
    written: Seq<char>,
) -> Option<Spellings> {
    match spelled {
        Some(names) => Some(entries_append(names, name, written)),
        None => None,
    }
}

/// Kept spellings with one that replaces those of its name, if any are kept.
pub open spec fn also_inserted(
    spelled: Option<Spellings>,
    name: Seq<char>,
    written: Seq<char>,
) -> Option<Spellings> {
    match spelled {
        Some(names) => Some(entries_insert(names, name, written)),
        None => None,
    }
}

/// Kept spellings without those of a name.
pub open spec fn also_removed(spelled: Option<Spellings>, name: Seq<char>) -> Option<Spellings> {
    match spelled {
        Some(names) => Some(entries_remove(names, name)),
        None => None,
    }
}

/// The reason phrase that is written for a response header.
pub open spec fn reason_phrase(header: ResponseHeader) -> Option<Seq<char>> {
    match custom_reason(header) {
        Some(reason) => Some(reason),
        None => canonical_reason(response_status(header)),
    }
}

/// Everything on the status line of a response header but the code is as on a new
/// header: the standard reason phrase, and HTTP/1.1.
pub open spec fn plain_status_line(header: ResponseHeader) -> bool {
    custom_reason(header) is None && response_version(header) == HttpVersion::Http11
}

/// Two request headers have the same request line.
pub open spec fn same_request_line(one: RequestHeader, other: RequestHeader) -> bool {
    &&& request_method(one) == request_method(other)
    &&& request_uri(one) == request_uri(other)
    &&& request_opaque_path(one) == request_opaque_path(other)
    &&& request_version(one) == request_version(other)
}

/// `pingora_http::ResponseHeader::build` accepts the codes 100 to 999 and makes
/// a header of HTTP/1.1 without fields, ready to keep spellings.
#[verifier::external_body]
pub(crate) fn response_build(status: u16, size_hint: usize) -> (built: Option<ResponseHeader>)
    ensures
        built is Some <==> 100 <= status <= 999,
        built matches Some(header) ==> {
            &&& response_status(header) == status
            &&& response_entries(header) == Entries::empty()
            &&& spelled_names(header) == Some(Spellings::empty())
            &&& custom_reason(header) is None
            &&& response_version(header) == HttpVersion::Http11
        },
{
    ResponseHeader::build(status, Some(size_hint)).ok()
}

/// `pingora_http::ResponseHeader::append_header` with a name as text adds a value
/// under the name and keeps the name as it was written. A name that is not
/// accepted changes nothing.
#[verifier::external_body]
pub(crate) fn response_append(
    header: &mut ResponseHeader,
    name: &str,
    value: &HeaderValue,
) -> (accepted: bool)
    requires
        response_entries(*old(header)).len() < MAX_HEADER_NAMES,
        in_step(*old(header)),
    ensures
        accepted == valid_name(name@),
        response_entries(*final(header)) == (if accepted {
            entries_append(response_entries(*old(header)), ascii_lower(name@), value_view(*value))
        } else {
            response_entries(*old(header))
        }),
        spelled_names(*final(header)) == (if accepted {
            also_appended(
                spelled_names(*old(header)),
                ascii_lower(name@),
                spelling(name@, Intake::Text),
            )
        } else {
            spelled_names(*old(header))
        }),
        in_step(*final(header)),
        response_status(*final(header)) == response_status(*old(header)),
        custom_reason(*final(header)) == custom_reason(*old(header)),
        response_version(*final(header)) == response_version(*old(header)),
{
    header.append_header(name.to_owned(), value.clone()).is_ok()
}

/// `pingora_http::ResponseHeader::append_header` with a parsed `http::HeaderName`
/// adds a value under the name and keeps the usual spelling of that name. A name
/// that is not accepted changes nothing.
#[verifier::external_body]
pub(crate) fn response_append_field(
    header: &mut ResponseHeader,
    name: &HeaderName,
    value: &HeaderValue,
) -> (accepted: bool)
    requires
        response_entries(*old(header)).len() < MAX_HEADER_NAMES,
        in_step(*old(header)),
    ensures
        accepted == valid_name(name_text(*name)),
        response_entries(*final(header)) == (if accepted {
            entries_append(response_entries(*old(header)), name_text(*name), value_view(*value))
        } else {
            response_entries(*old(header))
        }),
        spelled_names(*final(header)) == (if accepted {
            also_appended(
                spelled_names(*old(header)),
                name_text(*name),
                spelling(name_text(*name), Intake::Named),
            )
        } else {
            spelled_names(*old(header))
        }),
        in_step(*final(header)),
        response_status(*final(header)) == response_status(*old(header)),
        custom_reason(*final(header)) == custom_reason(*old(header)),
        response_version(*final(header)) == response_version(*old(header)),
{
    header.append_header(name, value.clone()).is_ok()
}

/// `pingora_http::ResponseHeader::insert_header` with a name as text makes the value
/// the only one under the name and keeps the name as it was written. A name that is
/// not accepted changes nothing.
#[verifier::external_body]
pub(crate) fn response_insert(
    header: &mut ResponseHeader,
    name: &str,
    value: &HeaderValue,
) -> (accepted: bool)
    requires
        response_entries(*old(header)).len() < MAX_HEADER_NAMES,
        in_step(*old(header)),
    ensures
        accepted == valid_name(name@),
        response_entries(*final(header)) == (if accepted {
            entries_insert(response_entries(*old(header)), ascii_lower(name@), value_view(*value))
        } else {
            response_entries(*old(header))
        }),
        spelled_names(*final(header)) == (if accepted {
            also_inserted(
                spelled_names(*old(header)),
                ascii_lower(name@),
                spelling(name@, Intake::Text),
            )
        } else {
            spelled_names(*old(header))
        }),
        in_step(*final(header)),
        response_status(*final(header)) == response_status(*old(header)),
        custom_reason(*final(header)) == custom_reason(*old(header)),
        response_version(*final(header)) == response_version(*old(header)),
{
    header.insert_header(name.to_owned(), value.clone()).is_ok()
}

/// Reads the status code of a `pingora_http::ResponseHeader`.
#[verifier::external_body]
pub(crate) fn response_code(header: &ResponseHeader) -> (status: u16)
    ensures
        status == response_status(*header),
{
    header.status.as_u16()
}

/// Borrows the field map of a `pingora_http::ResponseHeader`.
#[verifier::external_body]
pub(crate) fn response_map(header: &ResponseHeader) -> (map: &HeaderMap)
    ensures
        header_entries(*map) == response_entries(*header),
{
    &header.headers
}

/// `pingora_http::ResponseHeader::remove_header` drops every value under the name
/// together with the kept spellings; the last entry moves into the gap.
#[verifier::external_body]
pub(crate) fn response_remove(header: &mut ResponseHeader, name: &HeaderName)
    requires
        in_step(*old(header)),
    ensures
        response_entries(*final(header)) == entries_remove(
            response_entries(*old(header)),
            name_text(*name),
        ),
        spelled_names(*final(header)) == also_removed(
            spelled_names(*old(header)),
            name_text(*name),
        ),
        in_step(*final(header)),
        response_status(*final(header)) == response_status(*old(header)),
        custom_reason(*final(header)) == custom_reason(*old(header)),
        response_version(*final(header)) == response_version(*old(header)),
{
    let _removed = header.remove_header(name);
}

/// Moves the field map out of a `pingora_http::ResponseHeader` with
/// `std::mem::take`; the kept spellings stay behind.
#[verifier::external_body]
pub(crate) fn response_take_map(header: &mut ResponseHeader) -> (map: HeaderMap)
    ensures
        header_entries(map) == response_entries(*old(header)),
        response_entries(*final(header)) == Entries::empty(),
        spelled_names(*final(header)) == spelled_names(*old(header)),
        response_status(*final(header)) == response_status(*old(header)),
        custom_reason(*final(header)) == custom_reason(*old(header)),
        response_version(*final(header)) == response_version(*old(header)),
{
    std::mem::take(&mut header.headers)
}

/// Assigns the field map of a `pingora_http::ResponseHeader`; the kept
/// spellings are not touched.
#[verifier::external_body]
pub(crate) fn response_put_map(header: &mut ResponseHeader, map: HeaderMap)
    ensures
        response_entries(*final(header)) == header_entries(map),
        spelled_names(*final(header)) == spelled_names(*old(header)),
        response_status(*final(header)) == response_status(*old(header)),
        custom_reason(*final(header)) == custom_reason(*old(header)),
        response_version(*final(header)) == response_version(*old(header)),
{
    header.headers = map;
}

/// `pingora_http::ResponseHeader::set_status` accepts the codes 100 to 999 and
/// leaves the rest of the header alone.
#[verifier::external_body]
pub(crate) fn response_set_code(header: &mut ResponseHeader, status: u16) -> (accepted: bool)
    ensures
        accepted == (100 <= status <= 999),
        response_status(*final(header)) == (if accepted {
            status
        } else {
            response_status(*old(header))
        }),
        response_entries(*final(header)) == response_entries(*old(header)),
        spelled_names(*final(header)) == spelled_names(*old(header)),
        custom_reason(*final(header)) == custom_reason(*old(header)),
        response_version(*final(header)) == response_version(*old(header)),
{
    header.set_status(status).is_ok()
}

/// `pingora_http::ResponseHeader::get_reason_phrase` returns the phrase that
/// was set, or else the standard one of the status code.
#[verifier::external_body]
pub(crate) fn response_get_reason(header: &ResponseHeader) -> (reason: Option<String>)
    ensures
        match reason {
            Some(text) => reason_phrase(*header) == Some(text@),
            None => reason_phrase(*header) is None,
        },
{
    header.get_reason_phrase().map(str::to_owned)
}

/// `pingora_http::ResponseHeader::set_reason_phrase` with a phrase stores it,
/// or stores none when it is the standard one of the status code.
#[verifier::external_body]
pub(crate) fn response_set_reason(header: &mut ResponseHeader, reason: &str)
    ensures
        custom_reason(*final(header)) == (if canonical_reason(response_status(*old(header)))
            == Some(reason@) {
            None
        } else {
            Some(reason@)
        }),
        response_entries(*final(header)) == response_entries(*old(header)),
        spelled_names(*final(header)) == spelled_names(*old(header)),
        response_status(*final(header)) == response_status(*old(header)),
        response_version(*final(header)) == response_version(*old(header)),
{
    let _set = header.set_reason_phrase(Some(reason));
}

/// `pingora_http::RequestHeader::remove_header` drops every value under the name
/// together with the kept spellings; the last entry moves into the gap. The request
/// line stays.
#[verifier::external_body]
pub(crate) fn request_remove(header: &mut RequestHeader, name: &HeaderName)
    requires
        request_in_step(*old(header)),
    ensures
        request_entries(*final(header)) == entries_remove(
            request_entries(*old(header)),
            name_text(*name),
        ),
        request_spelled_names(*final(header)) == also_removed(
            request_spelled_names(*old(header)),
            name_text(*name),
        ),
        request_in_step(*final(header)),
        request_method(*final(header)) == request_method(*old(header)),
        request_uri(*final(header)) == request_uri(*old(header)),
        request_opaque_path(*final(header)) == request_opaque_path(*old(header)),
        request_version(*final(header)) == request_version(*old(header)),
{
    let _removed = header.remove_header(name);
}

/// `pingora_http::RequestHeader::insert_header` with a parsed `http::HeaderName`
/// makes the value the only one under the name and keeps the usual spelling of that
/// name. A name that is not accepted changes nothing. The request line stays.
#[verifier::external_body]
pub(crate) fn request_insert_field(
    header: &mut RequestHeader,
    name: &HeaderName,
    value: &HeaderValue,
) -> (accepted: bool)
    requires
        request_entries(*old(header)).len() < MAX_HEADER_NAMES,
        request_in_step(*old(header)),
    ensures
        accepted == valid_name(name_text(*name)),
        request_entries(*final(header)) == (if accepted {
            entries_insert(request_entries(*old(header)), name_text(*name), value_view(*value))
        } else {
            request_entries(*old(header))
        }),
        request_spelled_names(*final(header)) == (if accepted {
            also_inserted(
                request_spelled_names(*old(header)),
                name_text(*name),
                spelling(name_text(*name), Intake::Named),
            )
        } else {
            request_spelled_names(*old(header))
        }),
        request_in_step(*final(header)),
        request_method(*final(header)) == request_method(*old(header)),
        request_uri(*final(header)) == request_uri(*old(header)),
        request_opaque_path(*final(header)) == request_opaque_path(*old(header)),
        request_version(*final(header)) == request_version(*old(header)),
{
    header.insert_header(name, value.clone()).is_ok()
}

/// `pingora_http::RequestHeader::insert_header` with a name as text makes the value
/// the only one under the name and keeps the name as it was written. A name that is
/// not accepted changes nothing. The request line stays.
#[verifier::external_body]
pub(crate) fn request_insert(
    header: &mut RequestHeader,
    name: &str,
    value: &HeaderValue,
) -> (accepted: bool)
    requires
        request_entries(*old(header)).len() < MAX_HEADER_NAMES,
        request_in_step(*old(header)),
    ensures
        accepted == valid_name(name@),
        request_entries(*final(header)) == (if accepted {
            entries_insert(request_entries(*old(header)), ascii_lower(name@), value_view(*value))
        } else {
            request_entries(*old(header))
        }),
        request_spelled_names(*final(header)) == (if accepted {
            also_inserted(
                request_spelled_names(*old(header)),
                ascii_lower(name@),
                spelling(name@, Intake::Text),
            )
        } else {
            request_spelled_names(*old(header))
        }),
        request_in_step(*final(header)),
        request_method(*final(header)) == request_method(*old(header)),
        request_uri(*final(header)) == request_uri(*old(header)),
        request_opaque_path(*final(header)) == request_opaque_path(*old(header)),
        request_version(*final(header)) == request_version(*old(header)),
{
    header.insert_header(name.to_owned(), value.clone()).is_ok()
}

} // verus!
