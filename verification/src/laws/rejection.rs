//! Rejections, and the errors of gRPC calls.
use super::headers::is_internal;
use super::terminal::is_standard;
use crate::chunk::{body_data, bytes_data};
use crate::context::{HttpVersion, Rejection};
use crate::grpc::{
    build_grpc_rejection, build_header, explains, kept_of, law_trailers_say_that_no_body_follows,
    lemma_grpc_names, trailers_entries, trailers_spellings, GrpcErrorMapping,
};
use crate::headers::{
    accepted_fields, accepted_spellings, ascii_lower, entries_insert, entry_values, fields_of,
    has_entry, header_entries, lemma_accepted_push, lemma_appended, lemma_field_names, lemma_insert,
    lemma_lower_idempotent, lemma_values_under_concat, plain, text_fields, titled, valid_name,
    valid_value, value_view, values_under, Entries, FieldValue, Fields, Intake, Spellings,
};
use crate::rejection::{
    build_rejection_header, insert_length, law_rejection_hides_reserved_headers, lemma_sent_push,
    length_value, map_fields_of, plan_rejection, rejection_fields, unreserved, RejectionPlan,
};
use crate::strip::{lemma_fields_give_entries, well_formed};
use crate::text::{ascii_bytes, decimal};
use crate::transport::{
    custom_reason, in_step, response_entries, response_status, response_version, spelled_names,
};
use http::HeaderMap;
use pingora_http::ResponseHeader;
use vstd::prelude::*;
use vstd::string::*;
use vstd::utf8::*;

verus! {

// ----- Rejections as they are made -----

/// A rejection starts with a status alone, and each header that is added comes last and
/// changes nothing else.
pub proof fn law_rejections_collect_their_headers(
    status: u16,
    bare: Rejection,
    name: String,
    value: String,
    more: Rejection,
)
    requires
        call_ensures(Rejection::status, (status,), bare),
        call_ensures(Rejection::with_header, (bare, name, value), more),
    ensures
        bare.status == status,
        bare.body is None,
        bare.headers@.len() == 0,
        bare.header_map is None,
        !bare.preserve_keepalive,
        more.headers@ == seq![(name, value)],
        more == (Rejection { headers: more.headers, ..bare }),
{
}

/// Adding a header to any rejection keeps the headers that it has, in order.
pub proof fn law_added_headers_come_last(
    rejection: Rejection,
    name: String,
    value: String,
    more: Rejection,
)
    requires
        call_ensures(Rejection::with_header, (rejection, name, value), more),
    ensures
        more.headers@.drop_last() == rejection.headers@,
        more.headers@.len() == rejection.headers@.len() + 1,
        more.headers@.last() == (name, value),
        more == (Rejection { headers: more.headers, ..rejection }),
{
}

// ----- What is sent -----

/// A header given as text stands under a name, and can be sent.
pub open spec fn stands_under(header: (String, String), name: Seq<char>) -> bool {
    &&& ascii_lower(header.0@) == name
    &&& valid_name(header.0@)
    &&& valid_value(encode_utf8(header.1@))
}

/// The headers given as text that are sent under a name, in order.
pub open spec fn sent_under(headers: Seq<(String, String)>, name: Seq<char>) -> Seq<
    (String, String),
> {
    headers.filter(|header: (String, String)| stands_under(header, name))
}

/// Their values.
pub open spec fn text_values(headers: Seq<(String, String)>, name: Seq<char>) -> Seq<FieldValue> {
    sent_under(headers, name).map_values(
        |header: (String, String)| plain(encode_utf8(header.1@)),
    )
}

/// Their names, as they are written.
pub open spec fn text_spellings(headers: Seq<(String, String)>, name: Seq<char>) -> Seq<
    Seq<char>,
> {
    sent_under(headers, name).map_values(|header: (String, String)| header.0@)
}

/// The values that a map has under a name that can be sent.
pub open spec fn carried_values(map: Option<HeaderMap>, name: Seq<char>) -> Seq<FieldValue> {
    match map {
        Some(held) if valid_name(name) => entry_values(header_entries(held), name),
        _ => Seq::empty(),
    }
}

/// One more header given as text.
proof fn lemma_sent_under_push(
    headers: Seq<(String, String)>,
    header: (String, String),
    name: Seq<char>,
)
    ensures
        text_values(headers.push(header), name) == if stands_under(header, name) {
            text_values(headers, name).push(plain(encode_utf8(header.1@)))
        } else {
            text_values(headers, name)
        },
        text_spellings(headers.push(header), name) == if stands_under(header, name) {
            text_spellings(headers, name).push(header.0@)
        } else {
            text_spellings(headers, name)
        },
{
    reveal(Seq::filter);
    let all = headers.push(header);
    assert(all.drop_last() =~= headers);
    let before = sent_under(headers, name);
    if stands_under(header, name) {
        assert(sent_under(all, name) == before.push(header));
        assert(text_values(all, name) =~= text_values(headers, name).push(
            plain(encode_utf8(header.1@)),
        ));
        assert(text_spellings(all, name) =~= text_spellings(headers, name).push(header.0@));
    }
}

/// What is sent of the headers given as text, seen from one name.
proof fn lemma_texts(headers: Seq<(String, String)>, name: Seq<char>)
    requires
        !is_internal(name),
        ascii_lower(name) == name,
    ensures
        values_under(accepted_fields(unreserved(text_fields(headers)), Intake::Text), name)
            == text_values(headers, name),
        values_under(accepted_spellings(unreserved(text_fields(headers)), Intake::Text), name)
            == text_spellings(headers, name),
    decreases headers.len(),
{
    if headers.len() == 0 {
        reveal(Seq::filter);
        assert(text_values(headers, name) =~= Seq::empty());
        assert(text_spellings(headers, name) =~= Seq::empty());
    } else {
        let shorter = headers.drop_last();
        let last = headers.last();
        let field = (last.0@, plain(encode_utf8(last.1@)));
        lemma_texts(shorter, name);
        assert(headers =~= shorter.push(last));
        lemma_sent_under_push(shorter, last, name);
        assert(text_fields(headers) =~= text_fields(shorter).push(field));
        lemma_sent_push(text_fields(shorter), field, Intake::Text);
        lemma_lower_idempotent(last.0@);
        let item = (ascii_lower(last.0@), field.1);
        let shown = (ascii_lower(last.0@), last.0@);
        let sent = accepted_fields(unreserved(text_fields(shorter)), Intake::Text);
        let spelled = accepted_spellings(unreserved(text_fields(shorter)), Intake::Text);
        assert(sent.push(item).drop_last() =~= sent);
        assert(spelled.push(shown).drop_last() =~= spelled);
    }
}

/// What is sent of the fields of a map, seen from one name.
proof fn lemma_mapped(fields: Fields, name: Seq<char>)
    requires
        !is_internal(name),
        ascii_lower(name) == name,
        forall|i: int| 0 <= i < fields.len() ==> ascii_lower(#[trigger] fields[i].0) == fields[i].0,
    ensures
        values_under(accepted_fields(unreserved(fields), Intake::Named), name) == if valid_name(
            name,
        ) {
            values_under(fields, name)
        } else {
            Seq::empty()
        },
        values_under(accepted_spellings(unreserved(fields), Intake::Named), name) == Seq::new(
            values_under(accepted_fields(unreserved(fields), Intake::Named), name).len(),
            |i: int| titled(name),
        ),
    decreases fields.len(),
{
    let sent = accepted_fields(unreserved(fields), Intake::Named);
    let spelled = accepted_spellings(unreserved(fields), Intake::Named);
    if fields.len() > 0 {
        let shorter = fields.drop_last();
        let last = fields.last();
        lemma_mapped(shorter, name);
        assert(fields =~= shorter.push(last));
        lemma_sent_push(shorter, last, Intake::Named);
        assert(last == fields[fields.len() - 1]);
        let sent_before = accepted_fields(unreserved(shorter), Intake::Named);
        let spelled_before = accepted_spellings(unreserved(shorter), Intake::Named);
        assert(sent_before.push((last.0, last.1)).drop_last() =~= sent_before);
        assert(spelled_before.push((last.0, titled(last.0))).drop_last() =~= spelled_before);
        let count = values_under(sent, name).len();
        assert(values_under(spelled, name) =~= Seq::new(count, |i: int| titled(name)));
    } else {
        assert(values_under(spelled, name) =~= Seq::new(0, |i: int| titled(name)));
    }
}

/// The names of a map's fields are lower-case, and the fields have its values.
proof fn lemma_map_fields(map: Option<HeaderMap>, name: Seq<char>)
    requires
        map matches Some(held) ==> well_formed(header_entries(held)),
    ensures
        forall|i: int|
            0 <= i < map_fields_of(map).len() ==> ascii_lower(#[trigger] map_fields_of(map)[i].0)
                == map_fields_of(map)[i].0,
        values_under(map_fields_of(map), name) == match map {
            Some(held) => entry_values(header_entries(held), name),
            None => Seq::empty(),
        },
{
    if let Some(held) = map {
        let entries = header_entries(held);
        let fields = fields_of(entries);
        lemma_fields_give_entries(entries);
        lemma_appended(Entries::empty(), fields, name);
        assert(Seq::<FieldValue>::empty() + values_under(fields, name) =~= values_under(
            fields,
            name,
        ));
        assert forall|i: int| 0 <= i < fields.len() implies ascii_lower(#[trigger] fields[i].0)
            == fields[i].0 by {
            lemma_field_names(entries, i);
            let k = choose|k: int|
                0 <= k < entries.len() && (#[trigger] entries[k]).0 == fields[i].0;
            assert(entries[k].1.len() > 0);
        }
    }
}

/// A rejection is sent under its status, or 500 where that cannot be sent. Its headers go
/// out under their names: those given as text, then those of its map, each in order; only
/// what is internal or cannot be sent is left out. Text is spelled as it was written.
pub proof fn law_rejections_are_sent_with_their_headers(
    rejection: &Rejection,
    header: ResponseHeader,
    name: Seq<char>,
)
    requires
        call_ensures(build_rejection_header, (rejection,), header),
        rejection.header_map matches Some(map) ==> well_formed(header_entries(map)),
    ensures
        100 <= rejection.status <= 999 ==> is_standard(header, rejection.status),
        !(100 <= rejection.status <= 999) ==> is_standard(header, 500),
        in_step(header),
        is_internal(name) ==> !has_entry(response_entries(header), ascii_lower(name)),
        !is_internal(name) ==> entry_values(response_entries(header), ascii_lower(name))
            == text_values(rejection.headers@, ascii_lower(name)) + carried_values(
            rejection.header_map,
            ascii_lower(name),
        ),
        spelled_names(header) is Some,
        !is_internal(name) ==> entry_values(spelled_names(header)->0, ascii_lower(name))
            == text_spellings(rejection.headers@, ascii_lower(name)) + Seq::new(
            carried_values(rejection.header_map, ascii_lower(name)).len(),
            |i: int| titled(ascii_lower(name)),
        ),
{
    let lower = ascii_lower(name);
    lemma_lower_idempotent(name);
    if is_internal(name) {
        law_rejection_hides_reserved_headers(*rejection, name);
    } else {
        let texts = text_fields(rejection.headers@);
        let maps = map_fields_of(rejection.header_map);
        lemma_map_fields(rejection.header_map, lower);
        lemma_texts(rejection.headers@, lower);
        lemma_mapped(maps, lower);
        let sent_texts = accepted_fields(unreserved(texts), Intake::Text);
        let sent_maps = accepted_fields(unreserved(maps), Intake::Named);
        let spelled_texts = accepted_spellings(unreserved(texts), Intake::Text);
        let spelled_maps = accepted_spellings(unreserved(maps), Intake::Named);
        lemma_values_under_concat(sent_texts, sent_maps, lower);
        lemma_values_under_concat(spelled_texts, spelled_maps, lower);
        lemma_appended(Entries::empty(), rejection_fields(*rejection), lower);
        lemma_appended(Spellings::empty(), spelled_texts + spelled_maps, lower);
        let values = values_under(rejection_fields(*rejection), lower);
        let spellings = values_under(spelled_texts + spelled_maps, lower);
        assert(Seq::<FieldValue>::empty() + values =~= values);
        assert(Seq::<Seq<char>>::empty() + spellings =~= spellings);
        assert(carried_values(rejection.header_map, lower) =~= values_under(sent_maps, lower));
    }
}

/// What is written for a rejection: its header with the length of its body and then the
/// body, or the header alone. The connection is kept only where the rejection asks for it.
pub proof fn law_rejections_are_written_whole(
    rejection: Rejection,
    plan: RejectionPlan,
    header: ResponseHeader,
    name: Seq<char>,
)
    requires
        call_ensures(plan_rejection, (rejection,), plan),
        call_ensures(build_rejection_header, (&rejection,), header),
    ensures
        plan.close <==> !rejection.preserve_keepalive,
        plan.body == rejection.body,
        plan.end_of_stream <==> rejection.body is None,
        response_status(plan.header) == response_status(header),
        custom_reason(plan.header) == custom_reason(header),
        response_version(plan.header) == response_version(header),
        in_step(plan.header),
        rejection.body is None ==> response_entries(plan.header) == response_entries(header)
            && spelled_names(plan.header) == spelled_names(header),
        rejection.body is Some ==> entry_values(response_entries(plan.header), "content-length"@)
            == seq![plain(ascii_bytes(decimal(body_data(rejection.body).len())))],
        name != "content-length"@ ==> entry_values(response_entries(plan.header), name)
            == entry_values(response_entries(header), name),
        name != "content-length"@ ==> entry_values(spelled_names(plan.header)->0, name)
            == entry_values(spelled_names(header)->0, name),
{
    let entries = response_entries(header);
    if let Some(body) = rejection.body {
        let length = length_value(bytes_data(body).len());
        lemma_insert(entries, "content-length"@, length, name);
        lemma_insert(entries, "content-length"@, length, "content-length"@);
        lemma_insert(spelled_names(header)->0, "content-length"@, "content-length"@, name);
    }
}

/// Setting the length of a body replaces any that was there, and leaves every other field,
/// its spelling and the status line.
pub proof fn law_lengths_are_set(header: &mut ResponseHeader, len: usize, name: Seq<char>)
    requires
        call_ensures(insert_length, (header, len), ()),
    ensures
        entry_values(response_entries(*final(header)), "content-length"@) == seq![
            plain(ascii_bytes(decimal(len as nat))),
        ],
        name != "content-length"@ ==> entry_values(response_entries(*final(header)), name)
            == entry_values(response_entries(*old(header)), name),
        spelled_names(*old(header)) is Some <==> spelled_names(*final(header)) is Some,
        name != "content-length"@ && spelled_names(*old(header)) is Some ==> entry_values(
            spelled_names(*final(header))->0,
            name,
        ) == entry_values(spelled_names(*old(header))->0, name),
        in_step(*final(header)),
        response_status(*final(header)) == response_status(*old(header)),
        custom_reason(*final(header)) == custom_reason(*old(header)),
        response_version(*final(header)) == response_version(*old(header)),
{
    let entries = response_entries(*old(header));
    let length = length_value(len as nat);
    lemma_insert(entries, "content-length"@, length, name);
    lemma_insert(entries, "content-length"@, length, "content-length"@);
    if let Some(spelled) = spelled_names(*old(header)) {
        lemma_insert(spelled, "content-length"@, "content-length"@, name);
    }
}

// ----- Errors of gRPC calls -----

/// An error of a gRPC call is reported with status 200, the type of the call and its gRPC
/// status. The message goes with it exactly where it is wanted, not empty and can be sent,
/// as it was encoded. On HTTP/2 no length is named; on any other version it is zero. There
/// is no other field.
pub proof fn law_grpc_errors_are_reported(
    version: HttpVersion,
    mapping: &GrpcErrorMapping,
    grpc_status: usize,
    message: &str,
    encoded_message: &str,
    header: ResponseHeader,
    name: Seq<char>,
)
    requires
        call_ensures(
            build_header,
            (version, mapping, grpc_status, message, encoded_message),
            header,
        ),
    ensures
        is_standard(header, 200),
        in_step(header),
        ({
            let sent = response_entries(header);
            let explained = mapping.include_message && message@.len() > 0 && valid_value(
                encode_utf8(encoded_message@),
            );
            &&& entry_values(sent, "content-type"@) == seq![value_view(mapping.content_type)]
            &&& entry_values(sent, "grpc-status"@) == seq![
                plain(ascii_bytes(decimal(grpc_status as nat))),
            ]
            &&& explained ==> entry_values(sent, "grpc-message"@) == seq![
                plain(encode_utf8(encoded_message@)),
            ]
            &&& !explained ==> !has_entry(sent, "grpc-message"@)
            &&& version == HttpVersion::Http2 ==> !has_entry(sent, "content-length"@)
            &&& version != HttpVersion::Http2 ==> entry_values(sent, "content-length"@) == seq![
                plain(ascii_bytes(decimal(0))),
            ]
            &&& name != "content-type"@ && name != "grpc-status"@ && name != "grpc-message"@
                && name != "content-length"@ ==> !has_entry(sent, name)
        }),
        spelled_names(header) is Some,
        ({
            let spelled = spelled_names(header)->0;
            &&& entry_values(spelled, "content-type"@) == seq!["Content-Type"@]
            &&& entry_values(spelled, "grpc-status"@) == seq!["grpc-status"@]
            &&& has_entry(spelled, "grpc-message"@) ==> entry_values(spelled, "grpc-message"@)
                == seq!["grpc-message"@]
            &&& has_entry(spelled, "content-length"@) ==> entry_values(spelled, "content-length"@)
                == seq!["Content-Length"@]
        }),
{
    lemma_trailer_spellings(*mapping, message@, encoded_message@, version);
    lemma_grpc_names();
    reveal_strlit("content-type");
    reveal_strlit("Content-Type");
    reveal_strlit("grpc-status");
    reveal_strlit("grpc-message");
    reveal_strlit("content-length");
    assert(ascii_lower("Content-Type"@) =~= "content-type"@);
    assert("content-type"@.len() == "grpc-message"@.len());
    assert("content-type"@[0] != "grpc-message"@[0]);
    assert("content-type"@.len() != "grpc-status"@.len());
    lemma_trailers(*mapping, grpc_status as nat, message@, encoded_message@, version, name);
    lemma_trailers(
        *mapping,
        grpc_status as nat,
        message@,
        encoded_message@,
        version,
        "content-type"@,
    );
    lemma_trailers(
        *mapping,
        grpc_status as nat,
        message@,
        encoded_message@,
        version,
        "grpc-message"@,
    );
    law_trailers_say_that_no_body_follows(
        *mapping,
        grpc_status as nat,
        message@,
        encoded_message@,
        version,
    );
}

/// The spellings of the header block of an error.
proof fn lemma_trailer_spellings(
    mapping: GrpcErrorMapping,
    message: Seq<char>,
    encoded_message: Seq<char>,
    version: HttpVersion,
)
    ensures
        ({
            let spelled = trailers_spellings(mapping, message, encoded_message, version);
            &&& entry_values(spelled, "content-type"@) == seq!["Content-Type"@]
            &&& entry_values(spelled, "grpc-status"@) == seq!["grpc-status"@]
            &&& has_entry(spelled, "grpc-message"@) ==> entry_values(spelled, "grpc-message"@)
                == seq!["grpc-message"@]
            &&& has_entry(spelled, "content-length"@) ==> entry_values(spelled, "content-length"@)
                == seq!["Content-Length"@]
        }),
{
    lemma_grpc_names();
    reveal_strlit("content-type");
    reveal_strlit("Content-Type");
    reveal_strlit("grpc-status");
    reveal_strlit("grpc-message");
    reveal_strlit("content-length");
    let kind = "content-type"@;
    assert(ascii_lower("Content-Type"@) =~= kind);
    assert(kind[0] != "grpc-message"@[0]);
    assert(kind.len() != "grpc-status"@.len());
    let none = Spellings::empty();
    let typed = entries_insert(none, kind, "Content-Type"@);
    let coded = entries_insert(typed, "grpc-status"@, "grpc-status"@);
    let explained = if explains(mapping, message, encoded_message) {
        entries_insert(coded, "grpc-message"@, "grpc-message"@)
    } else {
        coded
    };
    lemma_spelling_steps(none, typed, coded, explained, kind);
    lemma_spelling_steps(none, typed, coded, explained, "grpc-status"@);
    lemma_spelling_steps(none, typed, coded, explained, "grpc-message"@);
    lemma_spelling_steps(none, typed, coded, explained, "content-length"@);
}

/// Each step of building the spellings, seen from one name.
proof fn lemma_spelling_steps(
    none: Spellings,
    typed: Spellings,
    coded: Spellings,
    explained: Spellings,
    name: Seq<char>,
)
    ensures
        ({
            let after = entries_insert(none, "content-type"@, "Content-Type"@);
            &&& name == "content-type"@ ==> entry_values(after, name) == seq!["Content-Type"@]
            &&& name != "content-type"@ ==> has_entry(after, name) == has_entry(none, name)
        }),
        ({
            let after = entries_insert(typed, "grpc-status"@, "grpc-status"@);
            &&& name == "grpc-status"@ ==> entry_values(after, name) == seq!["grpc-status"@]
            &&& name != "grpc-status"@ ==> entry_values(after, name) == entry_values(typed, name)
                && has_entry(after, name) == has_entry(typed, name)
        }),
        ({
            let after = entries_insert(coded, "grpc-message"@, "grpc-message"@);
            &&& name == "grpc-message"@ ==> entry_values(after, name) == seq!["grpc-message"@]
            &&& name != "grpc-message"@ ==> entry_values(after, name) == entry_values(coded, name)
                && has_entry(after, name) == has_entry(coded, name)
        }),
        ({
            let after = entries_insert(explained, "content-length"@, "Content-Length"@);
            &&& name == "content-length"@ ==> entry_values(after, name) == seq!["Content-Length"@]
            &&& name != "content-length"@ ==> entry_values(after, name) == entry_values(
                explained,
                name,
            ) && has_entry(after, name) == has_entry(explained, name)
        }),
{
    lemma_insert(none, "content-type"@, "Content-Type"@, name);
    lemma_insert(typed, "grpc-status"@, "grpc-status"@, name);
    lemma_insert(coded, "grpc-message"@, "grpc-message"@, name);
    lemma_insert(explained, "content-length"@, "Content-Length"@, name);
}

/// The header block of an error, seen from one name.
proof fn lemma_trailers(
    mapping: GrpcErrorMapping,
    grpc_status: nat,
    message: Seq<char>,
    encoded_message: Seq<char>,
    version: HttpVersion,
    name: Seq<char>,
)
    ensures
        ({
            let kind = ascii_lower("Content-Type"@);
            let sent = trailers_entries(
                mapping,
                grpc_status,
                message,
                encoded_message,
                version,
            );
            let explained = explains(mapping, message, encoded_message);
            &&& name == kind && name != "grpc-status"@ && name != "grpc-message"@ && name
                != "content-length"@ ==> entry_values(sent, name) == seq![
                value_view(mapping.content_type),
            ]
            &&& name == "grpc-message"@ && name != "content-length"@ && explained ==> entry_values(
                sent,
                name,
            ) == seq![plain(encode_utf8(encoded_message))]
            &&& name == "grpc-message"@ && name != kind && name != "grpc-status"@ && name
                != "content-length"@ && !explained ==> !has_entry(sent, name)
            &&& name != kind && name != "grpc-status"@ && name != "grpc-message"@ && name
                != "content-length"@ ==> !has_entry(sent, name)
        }),
{
    let none = Entries::empty();
    let kind = ascii_lower("Content-Type"@);
    let held = value_view(mapping.content_type);
    let code = plain(ascii_bytes(decimal(grpc_status)));
    let text = plain(encode_utf8(encoded_message));
    let typed = entries_insert(none, kind, held);
    lemma_insert(none, kind, held, name);
    let coded = entries_insert(typed, "grpc-status"@, code);
    lemma_insert(typed, "grpc-status"@, code, name);
    lemma_insert(coded, "grpc-message"@, text, name);
    let explained = if explains(mapping, message, encoded_message) {
        entries_insert(coded, "grpc-message"@, text)
    } else {
        coded
    };
    lemma_insert(explained, "content-length"@, length_value(0), name);
}

/// The fields of a rejection that a gRPC client gets, seen from one name.
proof fn lemma_grpc_texts(headers: Seq<(String, String)>, version: HttpVersion, name: Seq<char>)
    ensures
        version == HttpVersion::Http2 && name == "content-length"@ ==> values_under(
            accepted_fields(kept_of(text_fields(headers), version), Intake::Text),
            name,
        ).len() == 0,
        !(version == HttpVersion::Http2 && name == "content-length"@) ==> values_under(
            accepted_fields(kept_of(text_fields(headers), version), Intake::Text),
            name,
        ) == text_values(headers, name) && values_under(
            accepted_spellings(kept_of(text_fields(headers), version), Intake::Text),
            name,
        ) == text_spellings(headers, name),
    decreases headers.len(),
{
    if headers.len() == 0 {
        reveal(Seq::filter);
        assert(text_values(headers, name) =~= Seq::empty());
        assert(text_spellings(headers, name) =~= Seq::empty());
        assert(text_fields(headers) =~= Seq::empty());
    } else {
        let shorter = headers.drop_last();
        let last = headers.last();
        let field = (last.0@, plain(encode_utf8(last.1@)));
        lemma_grpc_texts(shorter, version, name);
        assert(headers =~= shorter.push(last));
        lemma_sent_under_push(shorter, last, name);
        let before = text_fields(shorter);
        assert(text_fields(headers) =~= before.push(field));
        assert(before.push(field).drop_last() =~= before);
        let kept = kept_of(before, version);
        lemma_accepted_push(kept, field, Intake::Text);
        let item = (ascii_lower(last.0@), field.1);
        let shown = (ascii_lower(last.0@), last.0@);
        let sent = accepted_fields(kept, Intake::Text);
        let spelled = accepted_spellings(kept, Intake::Text);
        assert(sent.push(item).drop_last() =~= sent);
        assert(spelled.push(shown).drop_last() =~= spelled);
    }
}

/// A rejection with gRPC headers of its own is sent as it is, under its status and as it
/// was written: every header that can be sent, in order, but no body length on HTTP/2. A
/// status that cannot be sent is refused.
pub proof fn law_grpc_rejections_are_sent_as_they_are(
    rejection: &Rejection,
    version: HttpVersion,
    built: Option<ResponseHeader>,
    name: Seq<char>,
)
    requires
        call_ensures(build_grpc_rejection, (rejection, version), built),
    ensures
        built is Some <==> 100 <= rejection.status <= 999,
        built matches Some(header) ==> {
            let measured = version == HttpVersion::Http2 && name == "content-length"@;
            &&& is_standard(header, rejection.status)
            &&& in_step(header)
            &&& spelled_names(header) is Some
            &&& measured ==> !has_entry(response_entries(header), name)
            &&& !measured ==> entry_values(response_entries(header), name) == text_values(
                rejection.headers@,
                name,
            )
            &&& !measured ==> entry_values(spelled_names(header)->0, name) == text_spellings(
                rejection.headers@,
                name,
            )
        },
{
    let fields = kept_of(text_fields(rejection.headers@), version);
    let sent = accepted_fields(fields, Intake::Text);
    let spelled = accepted_spellings(fields, Intake::Text);
    lemma_grpc_texts(rejection.headers@, version, name);
    lemma_appended(Entries::empty(), sent, name);
    lemma_appended(Spellings::empty(), spelled, name);
    assert(Seq::<FieldValue>::empty() + values_under(sent, name) =~= values_under(sent, name));
    assert(Seq::<Seq<char>>::empty() + values_under(spelled, name) =~= values_under(
        spelled,
        name,
    ));
}

} // verus!
