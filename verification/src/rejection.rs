//! Responses that the proxy makes itself: the header that a rejection becomes,
//! and how it is written.
use crate::chunk::bytes_data;
use crate::context::{Rejection, Response};
use crate::headers::{
    accepted_fields, accepted_spellings, appended, ascii_lower, entries_insert, entry_values,
    fields_of, fields_view, has_entry, header_entries, is_accepted, is_reserved, is_reserved_name,
    lemma_accepted_push, lemma_appended, lemma_appended_grows, lemma_appended_push,
    lemma_lower_idempotent, lemma_values_under_concat, map_fields, parse_value, plain, spelling,
    stored_name, text_fields, valid_name, valid_value, values_under, Entries, FieldValue, Fields,
    Intake, Spellings, MAX_HEADER_NAMES,
};
use crate::text::{ascii_bytes, decimal, decimal_text, lemma_decimal_bytes};
use crate::transport::{
    also_inserted, custom_reason, in_step, name_counts, plain_status_line, response_append,
    response_append_field, response_build, response_code, response_entries, response_insert,
    response_status, response_take_map, response_version, spelled_names,
};
use bytes::Bytes;
use http::HeaderMap;
use pingora_http::ResponseHeader;
use vstd::prelude::*;
use vstd::string::*;
use vstd::utf8::*;

verus! {

/// The header name of the body length.
pub const CONTENT_LENGTH: &'static str = "content-length";

/// Builds a [`Response`] by moving the fields out of a transport header. The
/// caller puts fields back before the transport sends the response.
pub fn response_header_from_pingora(upstream: &mut ResponseHeader) -> (response: Response)
    ensures
        response.status == response_status(*old(upstream)),
        header_entries(response.headers) == response_entries(*old(upstream)),
        response_entries(*final(upstream)) == Entries::empty(),
        response_status(*final(upstream)) == response_status(*old(upstream)),
        spelled_names(*final(upstream)) == spelled_names(*old(upstream)),
        custom_reason(*final(upstream)) == custom_reason(*old(upstream)),
        response_version(*final(upstream)) == response_version(*old(upstream)),
{
    Response { status: response_code(upstream), headers: response_take_map(upstream) }
}

/// The fields of an optional map.
pub open spec fn map_fields_of(map: Option<HeaderMap>) -> Fields {
    match map {
        Some(m) => fields_of(header_entries(m)),
        None => Seq::empty(),
    }
}

/// The fields whose names are not internal to the proxy.
pub open spec fn unreserved(fields: Fields) -> Fields
    decreases fields.len(),
{
    if fields.len() == 0 {
        Seq::empty()
    } else if is_reserved_name(fields.last().0) {
        unreserved(fields.drop_last())
    } else {
        unreserved(fields.drop_last()).push(fields.last())
    }
}

/// The fields that a rejection is sent with: its text fields first, then those of
/// its map. Internal ones are left out.
pub open spec fn rejection_fields(rejection: Rejection) -> Fields {
    accepted_fields(unreserved(text_fields(rejection.headers@)), Intake::Text) + accepted_fields(
        unreserved(map_fields_of(rejection.header_map)),
        Intake::Named,
    )
}

/// The entries of the header that a rejection becomes.
pub open spec fn rejection_entries(rejection: Rejection) -> Entries {
    appended(Seq::empty(), rejection_fields(rejection))
}

/// The spellings of the header that a rejection becomes.
pub open spec fn rejection_spellings(rejection: Rejection) -> Spellings {
    appended(
        Seq::empty(),
        accepted_spellings(unreserved(text_fields(rejection.headers@)), Intake::Text)
            + accepted_spellings(
            unreserved(map_fields_of(rejection.header_map)),
            Intake::Named,
        ),
    )
}

/// A status code that can be sent; 500 stands for one that cannot.
pub open spec fn sent_status(status: u16) -> u16 {
    if 100 <= status <= 999 {
        status
    } else {
        500
    }
}

/// One more field, seen from the fields and the spellings that are sent.
pub proof fn lemma_sent_push(fields: Fields, field: (Seq<char>, FieldValue), intake: Intake)
    ensures
        accepted_fields(unreserved(fields.push(field)), intake) == (if is_reserved_name(field.0)
            || !is_accepted(field, intake) {
            accepted_fields(unreserved(fields), intake)
        } else {
            accepted_fields(unreserved(fields), intake).push(
                (stored_name(field.0, intake), field.1),
            )
        }),
        accepted_spellings(unreserved(fields.push(field)), intake) == (if is_reserved_name(
            field.0,
        ) || !is_accepted(field, intake) {
            accepted_spellings(unreserved(fields), intake)
        } else {
            accepted_spellings(unreserved(fields), intake).push(
                (stored_name(field.0, intake), spelling(field.0, intake)),
            )
        }),
{
    assert(fields.push(field).drop_last() =~= fields);
    lemma_accepted_push(unreserved(fields), field, intake);
}

/// What is sent of the first fields is the beginning of what is sent of all.
proof fn lemma_sent_prefix(fields: Fields, intake: Intake, i: int)
    requires
        0 <= i <= fields.len(),
    ensures
        accepted_fields(unreserved(fields.take(i)), intake).is_prefix_of(
            accepted_fields(unreserved(fields), intake),
        ),
    decreases fields.len() - i,
{
    if i == fields.len() {
        assert(fields.take(i) =~= fields);
    } else {
        lemma_sent_prefix(fields, intake, i + 1);
        assert(fields.take(i + 1) =~= fields.take(i).push(fields[i]));
        lemma_sent_push(fields.take(i), fields[i], intake);
        let all = accepted_fields(unreserved(fields), intake);
        let some = accepted_fields(unreserved(fields.take(i)), intake);
        let more = accepted_fields(unreserved(fields.take(i + 1)), intake);
        assert(some =~= more.subrange(0, some.len() as int));
        assert(some =~= all.subrange(0, some.len() as int));
    }
}

/// What was appended so far makes no more entries than all together.
proof fn lemma_room_for_prefix(items: Fields, all: Fields)
    requires
        items.is_prefix_of(all),
    ensures
        appended(Entries::empty(), items).len() <= appended(Entries::empty(), all).len(),
{
    let rest = all.skip(items.len() as int);
    assert(items + rest =~= all);
    lemma_appended_grows(Entries::empty(), items, rest);
}

/// Appends the fields of a rejection, leaving out internal ones.
fn append_rejection_headers(header: &mut ResponseHeader, rejection: &Rejection)
    requires
        rejection_entries(*rejection).len() < MAX_HEADER_NAMES,
        response_entries(*old(header)) == Entries::empty(),
        spelled_names(*old(header)) == Some(Spellings::empty()),
        in_step(*old(header)),
    ensures
        response_entries(*final(header)) == rejection_entries(*rejection),
        spelled_names(*final(header)) == Some(rejection_spellings(*rejection)),
        in_step(*final(header)),
        response_status(*final(header)) == response_status(*old(header)),
        custom_reason(*final(header)) == custom_reason(*old(header)),
        response_version(*final(header)) == response_version(*old(header)),
{
    let ghost none = Entries::empty();
    let ghost blank = Spellings::empty();
    let ghost texts = text_fields(rejection.headers@);
    let ghost maps = map_fields_of(rejection.header_map);
    let ghost all = rejection_fields(*rejection);
    let ghost start = *header;
    let mut i: usize = 0;
    assert(texts.take(0) =~= Fields::empty());
    while i < rejection.headers.len()
        invariant
            i <= rejection.headers@.len(),
            texts == text_fields(rejection.headers@),
            all == rejection_fields(*rejection),
            appended(none, all).len() < MAX_HEADER_NAMES,
            none == Entries::empty(),
            response_entries(*header) == appended(
                none,
                accepted_fields(unreserved(texts.take(i as int)), Intake::Text),
            ),
            spelled_names(*header) == Some(
                appended(
                    blank,
                    accepted_spellings(unreserved(texts.take(i as int)), Intake::Text),
                ),
            ),
            in_step(*header),
            response_status(*header) == response_status(start),
            custom_reason(*header) == custom_reason(start),
            response_version(*header) == response_version(start),
        decreases rejection.headers@.len() - i,
    {
        let name = rejection.headers[i].0.as_str();
        let value = rejection.headers[i].1.as_str();
        let ghost done = texts.take(i as int);
        let ghost field = texts[i as int];
        let ghost sent = accepted_fields(unreserved(done), Intake::Text);
        proof {
            assert(texts.take(i + 1) =~= done.push(field));
            lemma_sent_push(done, field, Intake::Text);
            lemma_appended_push(none, sent, (stored_name(field.0, Intake::Text), field.1));
            lemma_appended_push(
                blank,
                accepted_spellings(unreserved(done), Intake::Text),
                (stored_name(field.0, Intake::Text), spelling(field.0, Intake::Text)),
            );
            lemma_sent_prefix(texts, Intake::Text, i as int);
            let sent_texts = accepted_fields(unreserved(texts), Intake::Text);
            assert(sent =~= all.subrange(0, sent.len() as int)) by {
                assert(sent =~= sent_texts.subrange(0, sent.len() as int));
            }
            lemma_room_for_prefix(sent, all);
        }
        if !is_reserved(name) {
            match parse_value(value.as_bytes()) {
                Some(value) => {
                    let _appended = response_append(header, name, &value);
                },
                None => {},
            }
        }
        i += 1;
    }
    assert(texts.take(i as int) =~= texts);
    let ghost sent_texts = accepted_fields(unreserved(texts), Intake::Text);
    let ghost spelled_texts = accepted_spellings(unreserved(texts), Intake::Text);
    assert(sent_texts + Fields::empty() =~= sent_texts);
    assert(spelled_texts + Seq::<(Seq<char>, Seq<char>)>::empty() =~= spelled_texts);
    match &rejection.header_map {
        Some(map) => {
            let fields = map_fields(map);
            assert(fields_view(fields@) == maps);
            let mut j: usize = 0;
            assert(maps.take(0) =~= Fields::empty());
            while j < fields.len()
                invariant
                    j <= fields@.len(),
                    fields_view(fields@) == maps,
                    all == sent_texts + accepted_fields(unreserved(maps), Intake::Named),
                    appended(none, all).len() < MAX_HEADER_NAMES,
                    none == Entries::empty(),
                    response_entries(*header) == appended(
                        none,
                        sent_texts + accepted_fields(
                            unreserved(maps.take(j as int)),
                            Intake::Named,
                        ),
                    ),
                    spelled_names(*header) == Some(
                        appended(
                            blank,
                            spelled_texts + accepted_spellings(
                                unreserved(maps.take(j as int)),
                                Intake::Named,
                            ),
                        ),
                    ),
                    in_step(*header),
                    response_status(*header) == response_status(start),
                    custom_reason(*header) == custom_reason(start),
                    response_version(*header) == response_version(start),
                decreases fields@.len() - j,
            {
                let name = &fields[j].0;
                let ghost done = maps.take(j as int);
                let ghost field = maps[j as int];
                let ghost sent = accepted_fields(unreserved(done), Intake::Named);
                let ghost spelled = accepted_spellings(unreserved(done), Intake::Named);
                proof {
                    assert(field == fields_view(fields@)[j as int]);
                    assert(maps.take(j + 1) =~= done.push(field));
                    lemma_sent_push(done, field, Intake::Named);
                    let item = (field.0, field.1);
                    let shown = (field.0, spelling(field.0, Intake::Named));
                    assert((sent_texts + sent).push(item) =~= sent_texts + sent.push(item));
                    assert((spelled_texts + spelled).push(shown) =~= spelled_texts + spelled.push(
                        shown,
                    ));
                    lemma_appended_push(none, sent_texts + sent, item);
                    lemma_appended_push(blank, spelled_texts + spelled, shown);
                    lemma_sent_prefix(maps, Intake::Named, j as int);
                    let sent_maps = accepted_fields(unreserved(maps), Intake::Named);
                    assert(sent =~= sent_maps.subrange(0, sent.len() as int));
                    assert(sent_texts + sent =~= all.subrange(
                        0,
                        (sent_texts + sent).len() as int,
                    ));
                    lemma_room_for_prefix(sent_texts + sent, all);
                }
                if !is_reserved(name.as_str()) {
                    let _appended = response_append_field(header, name, &fields[j].1);
                }
                j += 1;
            }
            assert(maps.take(j as int) =~= maps);
        },
        None => {},
    }
}

/// Builds the transport header of a rejection, with status 500 in place of one
/// that cannot be sent.
pub fn build_rejection_header(rejection: &Rejection) -> (header: ResponseHeader)
    requires
        rejection_entries(*rejection).len() < MAX_HEADER_NAMES,
    ensures
        response_status(header) == sent_status(rejection.status),
        response_entries(header) == rejection_entries(*rejection),
        spelled_names(header) == Some(rejection_spellings(*rejection)),
        in_step(header),
        plain_status_line(header),
{
    let mut header = match response_build(rejection.status, rejection.headers.len()) {
        Some(header) => header,
        None => response_build(500, rejection.headers.len()).unwrap(),
    };
    assert(name_counts(response_entries(header)) =~= name_counts(Spellings::empty()));
    append_rejection_headers(&mut header, rejection);
    header
}

/// How a rejection is written.
pub struct RejectionPlan {
    /// Whether the downstream connection closes afterwards.
    pub close: bool,
    /// Header to write.
    pub header: ResponseHeader,
    /// Whether the header ends the stream.
    pub end_of_stream: bool,
    /// Body to write after the header.
    pub body: Option<Bytes>,
}

/// The value of a length header.
pub open spec fn length_value(len: nat) -> FieldValue {
    plain(ascii_bytes(decimal(len)))
}

/// Plans how to send a rejection: its header with the length of its body, then
/// the body. The connection closes unless the rejection says otherwise.
pub fn plan_rejection(rejection: Rejection) -> (plan: RejectionPlan)
    requires
        rejection_entries(rejection).len() < MAX_HEADER_NAMES,
    ensures
        plan.close == !rejection.preserve_keepalive,
        plan.body == rejection.body,
        plan.end_of_stream == rejection.body is None,
        in_step(plan.header),
        plain_status_line(plan.header),
        response_status(plan.header) == sent_status(rejection.status),
        response_entries(plan.header) == (match rejection.body {
            Some(body) => entries_insert(
                rejection_entries(rejection),
                CONTENT_LENGTH@,
                length_value(bytes_data(body).len()),
            ),
            None => rejection_entries(rejection),
        }),
        spelled_names(plan.header) == Some(
            match rejection.body {
                Some(_) => entries_insert(
                    rejection_spellings(rejection),
                    CONTENT_LENGTH@,
                    CONTENT_LENGTH@,
                ),
                None => rejection_spellings(rejection),
            },
        ),
{
    let mut header = build_rejection_header(&rejection);
    match &rejection.body {
        Some(body) => insert_length(&mut header, body.len()),
        None => {},
    }
    RejectionPlan {
        close: !rejection.preserve_keepalive,
        header,
        end_of_stream: rejection.body.is_none(),
        body: rejection.body,
    }
}

/// Sets the body length of a header.
pub fn insert_length(header: &mut ResponseHeader, len: usize)
    requires
        response_entries(*old(header)).len() < MAX_HEADER_NAMES,
        in_step(*old(header)),
    ensures
        response_entries(*final(header)) == entries_insert(
            response_entries(*old(header)),
            CONTENT_LENGTH@,
            length_value(len as nat),
        ),
        spelled_names(*final(header)) == also_inserted(
            spelled_names(*old(header)),
            CONTENT_LENGTH@,
            CONTENT_LENGTH@,
        ),
        in_step(*final(header)),
        response_status(*final(header)) == response_status(*old(header)),
        custom_reason(*final(header)) == custom_reason(*old(header)),
        response_version(*final(header)) == response_version(*old(header)),
{
    let text = decimal_text(len as u64);
    proof {
        lemma_length_is_sendable(len as nat);
    }
    let value = parse_value(text.as_str().as_bytes()).unwrap();
    let _inserted = response_insert(header, CONTENT_LENGTH, &value);
}

/// A length header is accepted as it is.
pub proof fn lemma_length_is_sendable(len: nat)
    ensures
        valid_name(CONTENT_LENGTH@),
        ascii_lower(CONTENT_LENGTH@) == CONTENT_LENGTH@,
        valid_value(length_value(len).0),
        encode_utf8(decimal(len)) == length_value(len).0,
{
    reveal_strlit("content-length");
    assert(ascii_lower(CONTENT_LENGTH@) =~= CONTENT_LENGTH@);
    lemma_decimal_bytes(len);
}

/// No header that is internal to the proxy reaches the client by way of a
/// rejection.
pub proof fn law_rejection_hides_reserved_headers(rejection: Rejection, name: Seq<char>)
    requires
        is_reserved_name(name),
    ensures
        !has_entry(rejection_entries(rejection), ascii_lower(name)),
{
    let texts = text_fields(rejection.headers@);
    let maps = map_fields_of(rejection.header_map);
    lemma_unreserved_has_no_reserved(texts, Intake::Text, name);
    lemma_unreserved_has_no_reserved(maps, Intake::Named, name);
    lemma_values_under_concat(
        accepted_fields(unreserved(texts), Intake::Text),
        accepted_fields(unreserved(maps), Intake::Named),
        ascii_lower(name),
    );
    lemma_appended(Entries::empty(), rejection_fields(rejection), ascii_lower(name));
}

proof fn lemma_unreserved_has_no_reserved(fields: Fields, intake: Intake, name: Seq<char>)
    requires
        is_reserved_name(name),
    ensures
        values_under(accepted_fields(unreserved(fields), intake), ascii_lower(name)).len() == 0,
    decreases fields.len(),
{
    if fields.len() > 0 {
        let shorter = fields.drop_last();
        let last = fields.last();
        lemma_unreserved_has_no_reserved(shorter, intake, name);
        lemma_lower_idempotent(name);
        assert(fields =~= shorter.push(last));
        lemma_sent_push(shorter, last, intake);
        let before = accepted_fields(unreserved(shorter), intake);
        let item = (stored_name(last.0, intake), last.1);
        assert(before.push(item).drop_last() =~= before);
        if !is_reserved_name(last.0) {
            assert(ascii_lower(last.0) != ascii_lower(name));
        }
    }
}

/// Every other header of a rejection reaches the client: the values that its
/// fields give a name, duplicates included and in order.
pub proof fn law_rejection_keeps_other_headers(rejection: Rejection, name: Seq<char>)
    requires
        !is_reserved_name(name),
    ensures
        entry_values(rejection_entries(rejection), ascii_lower(name)) == values_under(
            accepted_fields(text_fields(rejection.headers@), Intake::Text),
            ascii_lower(name),
        ) + values_under(
            accepted_fields(map_fields_of(rejection.header_map), Intake::Named),
            ascii_lower(name),
        ),
{
    let texts = text_fields(rejection.headers@);
    let maps = map_fields_of(rejection.header_map);
    lemma_unreserved_keeps_values(texts, Intake::Text, name);
    lemma_unreserved_keeps_values(maps, Intake::Named, name);
    lemma_values_under_concat(
        accepted_fields(unreserved(texts), Intake::Text),
        accepted_fields(unreserved(maps), Intake::Named),
        ascii_lower(name),
    );
    let none = Entries::empty();
    let lower = ascii_lower(name);
    lemma_appended(none, rejection_fields(rejection), lower);
    assert(entry_values(none, lower) =~= Seq::<FieldValue>::empty());
    assert(Seq::<FieldValue>::empty() + values_under(rejection_fields(rejection), lower)
        =~= values_under(rejection_fields(rejection), lower));
}

proof fn lemma_unreserved_keeps_values(fields: Fields, intake: Intake, name: Seq<char>)
    requires
        !is_reserved_name(name),
    ensures
        values_under(accepted_fields(unreserved(fields), intake), ascii_lower(name))
            == values_under(accepted_fields(fields, intake), ascii_lower(name)),
    decreases fields.len(),
{
    if fields.len() > 0 {
        let shorter = fields.drop_last();
        let last = fields.last();
        lemma_unreserved_keeps_values(shorter, intake, name);
        lemma_lower_idempotent(name);
        assert(fields =~= shorter.push(last));
        lemma_sent_push(shorter, last, intake);
        lemma_accepted_push(shorter, last, intake);
        let item = (stored_name(last.0, intake), last.1);
        let kept = accepted_fields(unreserved(shorter), intake);
        let all = accepted_fields(shorter, intake);
        assert(kept.push(item).drop_last() =~= kept);
        assert(all.push(item).drop_last() =~= all);
        if is_reserved_name(last.0) {
            assert(ascii_lower(last.0) != ascii_lower(name));
        }
    }
}

} // verus!
