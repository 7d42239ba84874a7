//! Header fields: what changes to a request's headers leave, and what is stripped.
use crate::context::Response;
use crate::headers::{
    accepted_fields, accepted_spellings, appended, ascii_lower, distinct_names, entry_values,
    fields_of, has_entry, header_entries, is_named, is_reserved, lemma_accepted_push,
    lemma_appended, lemma_insert, lemma_lower_idempotent, lemma_remove, name_text, names_view,
    spelling, stored_name, titled, valid_name, valid_value, values_under, Entries, FieldValue,
    Fields, Intake, Spellings,
};
use crate::mutations::{
    apply_pending_header_mutations, apply_session_header_mutations, inserted, removed,
    HeaderMutations,
};
use crate::rejection::response_header_from_pingora;
use crate::strip::{
    law_strip_hides_reserved_headers, lemma_listed_is_reserved, lists_name, reserved_names,
    strip_hop_by_hop_header_map, strip_hop_by_hop_response, strip_reserved_internal,
    strip_reserved_internal_header_map, well_formed,
};
use crate::transport::{
    custom_reason, in_step, lines_up, name_counts, request_entries, request_in_step, request_method,
    request_opaque_path, request_spelled_names, request_uri, request_version, response_entries,
    response_status, response_version, spelled_names,
};
use http::{HeaderMap, HeaderName};
use pingora_http::{RequestHeader, ResponseHeader};
use vstd::prelude::*;
use vstd::string::*;
use vstd::utf8::*;

verus! {

// ----- Changes, seen from one name -----

/// Removing a list of names drops those and leaves the others alone.
pub proof fn lemma_removed_names<V>(
    entries: Seq<(Seq<char>, Seq<V>)>,
    names: Seq<Seq<char>>,
    name: Seq<char>,
)
    requires
        distinct_names(entries),
    ensures
        distinct_names(removed(entries, names)),
        lists_name(names, name) ==> !has_entry(removed(entries, names), name),
        !lists_name(names, name) ==> entry_values(removed(entries, names), name) == entry_values(
            entries,
            name,
        ) && has_entry(removed(entries, names), name) == has_entry(entries, name),
    decreases names.len(),
{
    if names.len() > 0 {
        let shorter = names.drop_last();
        lemma_removed_names(entries, shorter, name);
        lemma_remove(removed(entries, shorter), names.last(), name);
        if lists_name(names, name) {
            let i = choose|i: int| 0 <= i < names.len() && #[trigger] names[i] == name;
            if i < shorter.len() {
                assert(shorter[i] == name);
            }
        } else {
            if lists_name(shorter, name) {
                let i = choose|i: int| 0 <= i < shorter.len() && #[trigger] shorter[i] == name;
                assert(names[i] == name);
            }
            assert(names[names.len() - 1] != name);
        }
    }
}

/// A field is taken in under a name.
pub open spec fn takes_in(
    field: (Seq<char>, (Seq<u8>, bool)),
    intake: Intake,
    name: Seq<char>,
) -> bool {
    match intake {
        Intake::Stored => field.0 == name,
        Intake::Named => valid_name(field.0) && field.0 == name,
        Intake::Text => valid_name(field.0) && valid_value(field.1.0) && ascii_lower(field.0)
            == name,
    }
}

/// The last of the fields that are taken in under a name decides its value.
proof fn lemma_last_field_decides(entries: Entries, fields: Fields, intake: Intake, name: Seq<char>)
    ensures
        (forall|j: int|
            0 <= j < fields.len() ==> !#[trigger] takes_in(fields[j], intake, name))
            ==> entry_values(inserted(entries, accepted_fields(fields, intake)), name)
            == entry_values(entries, name) && has_entry(
            inserted(entries, accepted_fields(fields, intake)),
            name,
        ) == has_entry(entries, name),
        forall|i: int|
            #![trigger fields[i]]
            0 <= i < fields.len() && takes_in(fields[i], intake, name) && (forall|j: int|
                i < j < fields.len() ==> !#[trigger] takes_in(fields[j], intake, name))
                ==> entry_values(inserted(entries, accepted_fields(fields, intake)), name) == seq![
                fields[i].1,
            ],
    decreases fields.len(),
{
    if fields.len() > 0 {
        let shorter = fields.drop_last();
        let last = fields.last();
        let at = fields.len() - 1;
        lemma_last_field_decides(entries, shorter, intake, name);
        assert(fields =~= shorter.push(last));
        lemma_accepted_push(shorter, last, intake);
        let before = inserted(entries, accepted_fields(shorter, intake));
        let item = (stored_name(last.0, intake), last.1);
        assert(accepted_fields(shorter, intake).push(item).drop_last() =~= accepted_fields(
            shorter,
            intake,
        ));
        lemma_insert(before, item.0, item.1, name);
        assert(fields[at] == last);
        assert forall|j: int| 0 <= j < shorter.len() implies shorter[j] == fields[j] by {
        }
        if forall|j: int| 0 <= j < fields.len() ==> !#[trigger] takes_in(fields[j], intake, name) {
            assert(!takes_in(fields[at], intake, name));
            assert forall|j: int| 0 <= j < shorter.len() implies !#[trigger] takes_in(
                shorter[j],
                intake,
                name,
            ) by {
                assert(!takes_in(fields[j], intake, name));
            }
        }
        assert forall|i: int|
            #![trigger fields[i]]
            0 <= i < fields.len() && takes_in(fields[i], intake, name) && (forall|j: int|
                i < j < fields.len() ==> !#[trigger] takes_in(
                    fields[j],
                    intake,
                    name,
                )) implies entry_values(
            inserted(entries, accepted_fields(fields, intake)),
            name,
        ) == seq![fields[i].1] by {
            if i < at {
                assert(!takes_in(fields[at], intake, name));
                assert(shorter[i] == fields[i]);
                assert forall|j: int| i < j < shorter.len() implies !#[trigger] takes_in(
                    shorter[j],
                    intake,
                    name,
                ) by {
                    assert(!takes_in(fields[j], intake, name));
                }
            }
        }
    }
}

/// The same for the spellings.
proof fn lemma_last_spelling_decides(
    spelled: Spellings,
    fields: Fields,
    intake: Intake,
    name: Seq<char>,
)
    ensures
        (forall|j: int|
            0 <= j < fields.len() ==> !#[trigger] takes_in(fields[j], intake, name))
            ==> entry_values(inserted(spelled, accepted_spellings(fields, intake)), name)
            == entry_values(spelled, name),
        forall|i: int|
            #![trigger fields[i]]
            0 <= i < fields.len() && takes_in(fields[i], intake, name) && (forall|j: int|
                i < j < fields.len() ==> !#[trigger] takes_in(fields[j], intake, name))
                ==> entry_values(inserted(spelled, accepted_spellings(fields, intake)), name)
                == seq![spelling(fields[i].0, intake)],
    decreases fields.len(),
{
    if fields.len() > 0 {
        let shorter = fields.drop_last();
        let last = fields.last();
        let at = fields.len() - 1;
        lemma_last_spelling_decides(spelled, shorter, intake, name);
        assert(fields =~= shorter.push(last));
        lemma_accepted_push(shorter, last, intake);
        let before = inserted(spelled, accepted_spellings(shorter, intake));
        let item = (stored_name(last.0, intake), spelling(last.0, intake));
        assert(accepted_spellings(shorter, intake).push(item).drop_last()
            =~= accepted_spellings(shorter, intake));
        lemma_insert(before, item.0, item.1, name);
        assert(fields[at] == last);
        if forall|j: int| 0 <= j < fields.len() ==> !#[trigger] takes_in(fields[j], intake, name) {
            assert(!takes_in(fields[at], intake, name));
            assert forall|j: int| 0 <= j < shorter.len() implies !#[trigger] takes_in(
                shorter[j],
                intake,
                name,
            ) by {
                assert(!takes_in(fields[j], intake, name));
            }
        }
        assert forall|i: int|
            #![trigger fields[i]]
            0 <= i < fields.len() && takes_in(fields[i], intake, name) && (forall|j: int|
                i < j < fields.len() ==> !#[trigger] takes_in(
                    fields[j],
                    intake,
                    name,
                )) implies entry_values(
            inserted(spelled, accepted_spellings(fields, intake)),
            name,
        ) == seq![spelling(fields[i].0, intake)] by {
            if i < at {
                assert(!takes_in(fields[at], intake, name));
                assert(shorter[i] == fields[i]);
                assert forall|j: int| i < j < shorter.len() implies !#[trigger] takes_in(
                    shorter[j],
                    intake,
                    name,
                ) by {
                    assert(!takes_in(fields[j], intake, name));
                }
            }
        }
    }
}

/// None of the fields is taken in under a name.
pub open spec fn takes_none(fields: Fields, intake: Intake, name: Seq<char>) -> bool {
    forall|j: int| 0 <= j < fields.len() ==> !#[trigger] takes_in(fields[j], intake, name)
}

/// A field is the last one that is taken in under a name.
pub open spec fn takes_last(fields: Fields, intake: Intake, name: Seq<char>, i: int) -> bool {
    &&& 0 <= i < fields.len()
    &&& takes_in(fields[i], intake, name)
    &&& forall|j: int| i < j < fields.len() ==> !#[trigger] takes_in(fields[j], intake, name)
}

// ----- Pending changes -----

/// The changes that filters ask for are what the snapshot ends up with, name by name: a
/// header that is added has the value that was added last; else one that is set has the
/// value that was set last; else one that is removed is gone; and any other keeps its
/// values.
pub proof fn law_snapshot_gets_the_header_changes(
    headers: &mut HeaderMap,
    mutations: &HeaderMutations,
    name: Seq<char>,
    i: int,
)
    requires
        call_ensures(apply_pending_header_mutations, (headers, mutations), ()),
        distinct_names(header_entries(*old(headers))),
    ensures
        takes_last(mutations@.extra, Intake::Text, name, i) ==> entry_values(
            header_entries(*final(headers)),
            name,
        ) == seq![mutations@.extra[i].1],
        takes_none(mutations@.extra, Intake::Text, name) && takes_last(
            mutations@.set,
            Intake::Stored,
            name,
            i,
        ) ==> entry_values(header_entries(*final(headers)), name) == seq![mutations@.set[i].1],
        takes_none(mutations@.extra, Intake::Text, name) && takes_none(
            mutations@.set,
            Intake::Stored,
            name,
        ) && lists_name(mutations@.remove, name) ==> !has_entry(
            header_entries(*final(headers)),
            name,
        ),
        takes_none(mutations@.extra, Intake::Text, name) && takes_none(
            mutations@.set,
            Intake::Stored,
            name,
        ) && !lists_name(mutations@.remove, name) ==> entry_values(
            header_entries(*final(headers)),
            name,
        ) == entry_values(header_entries(*old(headers)), name),
{
    let start = header_entries(*old(headers));
    let cleared = removed(start, mutations@.remove);
    let set = inserted(cleared, accepted_fields(mutations@.set, Intake::Stored));
    lemma_removed_names(start, mutations@.remove, name);
    lemma_last_field_decides(cleared, mutations@.set, Intake::Stored, name);
    lemma_last_field_decides(set, mutations@.extra, Intake::Text, name);
}

/// The same changes are what the upstream receives, name by name; a name to set that
/// HTTP/1.1 does not allow is left out. Of a header that is added, the spelling is kept as
/// it was written, and one that is set has the usual spelling.
pub proof fn law_upstream_gets_the_header_changes(
    header: &mut RequestHeader,
    mutations: &HeaderMutations,
    name: Seq<char>,
    i: int,
)
    requires
        call_ensures(apply_session_header_mutations, (header, mutations), ()),
        distinct_names(request_entries(*old(header))),
        request_in_step(*old(header)),
    ensures
        takes_last(mutations@.extra, Intake::Text, name, i) ==> {
            &&& entry_values(request_entries(*final(header)), name) == seq![
                mutations@.extra[i].1,
            ]
            &&& request_spelled_names(*final(header)) matches Some(spelled) ==> entry_values(
                spelled,
                name,
            ) == seq![mutations@.extra[i].0]
        },
        takes_none(mutations@.extra, Intake::Text, name) && takes_last(
            mutations@.set,
            Intake::Named,
            name,
            i,
        ) ==> {
            &&& entry_values(request_entries(*final(header)), name) == seq![mutations@.set[i].1]
            &&& request_spelled_names(*final(header)) matches Some(spelled) ==> entry_values(
                spelled,
                name,
            ) == seq![titled(name)]
        },
        takes_none(mutations@.extra, Intake::Text, name) && takes_none(
            mutations@.set,
            Intake::Named,
            name,
        ) && lists_name(mutations@.remove, name) ==> !has_entry(
            request_entries(*final(header)),
            name,
        ),
        takes_none(mutations@.extra, Intake::Text, name) && takes_none(
            mutations@.set,
            Intake::Named,
            name,
        ) && !lists_name(mutations@.remove, name) ==> entry_values(
            request_entries(*final(header)),
            name,
        ) == entry_values(request_entries(*old(header)), name),
        request_spelled_names(*final(header)) is Some <==> request_spelled_names(
            *old(header),
        ) is Some,
        takes_none(mutations@.extra, Intake::Text, name) && takes_none(
            mutations@.set,
            Intake::Named,
            name,
        ) && !lists_name(mutations@.remove, name) && request_spelled_names(*old(header)) is Some
            ==> entry_values(request_spelled_names(*final(header))->0, name) == entry_values(
            request_spelled_names(*old(header))->0,
            name,
        ),
        request_in_step(*final(header)),
        request_method(*final(header)) == request_method(*old(header)),
        request_uri(*final(header)) == request_uri(*old(header)),
        request_opaque_path(*final(header)) == request_opaque_path(*old(header)),
        request_version(*final(header)) == request_version(*old(header)),
{
    let start = request_entries(*old(header));
    let cleared = removed(start, mutations@.remove);
    let set = inserted(cleared, accepted_fields(mutations@.set, Intake::Named));
    lemma_removed_names(start, mutations@.remove, name);
    lemma_last_field_decides(cleared, mutations@.set, Intake::Named, name);
    lemma_last_field_decides(set, mutations@.extra, Intake::Text, name);
    match request_spelled_names(*old(header)) {
        Some(spelled) => {
            let bare = removed(spelled, mutations@.remove);
            lemma_lined_up_names_are_distinct(spelled, start);
            lemma_removed_names(spelled, mutations@.remove, name);
            let named = inserted(bare, accepted_spellings(mutations@.set, Intake::Named));
            lemma_last_spelling_decides(bare, mutations@.set, Intake::Named, name);
            lemma_last_spelling_decides(named, mutations@.extra, Intake::Text, name);
        },
        None => {},
    }
}

// ----- Spellings -----

/// Spellings that line up with fields name no name twice either.
pub proof fn lemma_lined_up_names_are_distinct(spelled: Spellings, entries: Entries)
    requires
        lines_up(Some(spelled), entries),
        distinct_names(entries),
    ensures
        distinct_names(spelled),
{
    assert(name_counts(spelled).len() == spelled.len());
    assert(name_counts(entries).len() == entries.len());
    assert forall|i: int, j: int| 0 <= i < j < spelled.len() implies #[trigger] spelled[i].0
        != #[trigger] spelled[j].0 by {
        assert(name_counts(spelled)[i] == name_counts(entries)[i]);
        assert(name_counts(spelled)[j] == name_counts(entries)[j]);
        assert(entries[i].0 != entries[j].0);
    }
}

/// A header still spells a name as another did, where it spells names at all.
pub open spec fn is_spelled_as_before(
    before: ResponseHeader,
    after: ResponseHeader,
    name: Seq<char>,
) -> bool {
    match (spelled_names(before), spelled_names(after)) {
        (Some(was), Some(now)) => entry_values(now, name) == entry_values(was, name),
        (None, None) => true,
        _ => false,
    }
}

/// A header spells a name in the usual way, once for each of its values.
pub open spec fn is_spelled_as_usual(header: ResponseHeader, name: Seq<char>) -> bool {
    spelled_names(header) matches Some(spelled) && entry_values(spelled, name) == Seq::new(
        entry_values(response_entries(header), name).len(),
        |i: int| titled(name),
    )
}

/// Fields that are appended with parsed names are spelled in the usual way.
pub proof fn lemma_appended_are_spelled_as_usual(fields: Fields, name: Seq<char>)
    ensures
        entry_values(
            appended(Spellings::empty(), accepted_spellings(fields, Intake::Named)),
            name,
        ) == Seq::new(
            entry_values(
                appended(Entries::empty(), accepted_fields(fields, Intake::Named)),
                name,
            ).len(),
            |i: int| titled(name),
        ),
{
    let sent = accepted_fields(fields, Intake::Named);
    let spelled = accepted_spellings(fields, Intake::Named);
    lemma_spelled_under(fields, name);
    lemma_appended(Entries::empty(), sent, name);
    lemma_appended(Spellings::empty(), spelled, name);
    assert(Seq::<FieldValue>::empty() + values_under(sent, name) =~= values_under(sent, name));
    assert(Seq::<Seq<char>>::empty() + values_under(spelled, name) =~= values_under(
        spelled,
        name,
    ));
}

proof fn lemma_spelled_under(fields: Fields, name: Seq<char>)
    ensures
        values_under(accepted_spellings(fields, Intake::Named), name) == Seq::new(
            values_under(accepted_fields(fields, Intake::Named), name).len(),
            |i: int| titled(name),
        ),
    decreases fields.len(),
{
    let usual = |i: int| titled(name);
    if fields.len() > 0 {
        let shorter = fields.drop_last();
        let last = fields.last();
        lemma_spelled_under(shorter, name);
        assert(fields =~= shorter.push(last));
        lemma_accepted_push(shorter, last, Intake::Named);
        let sent = accepted_fields(shorter, Intake::Named);
        let spelled = accepted_spellings(shorter, Intake::Named);
        assert(sent.push((last.0, last.1)).drop_last() =~= sent);
        assert(spelled.push((last.0, titled(last.0))).drop_last() =~= spelled);
    }
    assert(values_under(accepted_spellings(fields, Intake::Named), name) =~= Seq::new(
        values_under(accepted_fields(fields, Intake::Named), name).len(),
        usual,
    ));
}

// ----- Stripping -----

/// A name is internal to the proxy.
pub open spec fn is_internal(name: Seq<char>) -> bool {
    "x-praxis-"@.is_prefix_of(ascii_lower(name)) || "x-ext-"@.is_prefix_of(ascii_lower(name))
}

/// The names that count as internal are those that start with one of the two prefixes, in
/// any case; a name is another exactly where they differ in case alone.
pub proof fn law_internal_names_have_a_prefix(
    name: &str,
    reserved: bool,
    lower: &str,
    named: bool,
)
    requires
        call_ensures(is_reserved, (name,), reserved),
        call_ensures(is_named, (name, lower), named),
    ensures
        reserved <==> is_internal(name@),
        named <==> ascii_lower(name@) == lower@,
{
}

/// Stripping takes every internal field out of a map and leaves every other one as it was.
pub proof fn law_maps_are_stripped_of_internal_fields(headers: &mut HeaderMap, name: Seq<char>)
    requires
        call_ensures(strip_reserved_internal_header_map, (headers,), ()),
        well_formed(header_entries(*old(headers))),
    ensures
        is_internal(name) ==> !has_entry(header_entries(*final(headers)), ascii_lower(name)),
        !is_internal(name) ==> entry_values(header_entries(*final(headers)), ascii_lower(name))
            == entry_values(header_entries(*old(headers)), ascii_lower(name)),
{
    law_strip_hides_reserved_headers(header_entries(*old(headers)), name);
}

/// The same of a response header, whose status line stays.
pub proof fn law_responses_are_stripped_of_internal_fields(
    header: &mut ResponseHeader,
    name: Seq<char>,
)
    requires
        call_ensures(strip_reserved_internal, (header,), ()),
        well_formed(response_entries(*old(header))),
        in_step(*old(header)),
    ensures
        in_step(*final(header)),
        !is_internal(name) ==> is_spelled_as_before(
            *old(header),
            *final(header),
            ascii_lower(name),
        ),
        is_internal(name) ==> !has_entry(response_entries(*final(header)), ascii_lower(name)),
        !is_internal(name) ==> entry_values(response_entries(*final(header)), ascii_lower(name))
            == entry_values(response_entries(*old(header)), ascii_lower(name)),
        response_status(*final(header)) == response_status(*old(header)),
        custom_reason(*final(header)) == custom_reason(*old(header)),
        response_version(*final(header)) == response_version(*old(header)),
{
    let entries = response_entries(*old(header));
    let lower = ascii_lower(name);
    law_strip_hides_reserved_headers(entries, name);
    if let Some(spelled) = spelled_names(*old(header)) {
        let names = reserved_names(fields_of(entries));
        lemma_lined_up_names_are_distinct(spelled, entries);
        lemma_removed_names(spelled, names, lower);
        if !is_internal(name) && lists_name(names, lower) {
            lemma_listed_is_reserved(fields_of(entries), lower);
            lemma_lower_idempotent(name);
        }
    }
}

/// Stripping hop-by-hop fields takes those that are named and no others, from a map and
/// from a response header.
pub proof fn law_hop_by_hop_fields_are_stripped(
    headers: &mut HeaderMap,
    header: &mut ResponseHeader,
    hop_by_hop: &Vec<HeaderName>,
    name: Seq<char>,
    i: int,
)
    requires
        call_ensures(strip_hop_by_hop_header_map, (headers, hop_by_hop), ()),
        call_ensures(strip_hop_by_hop_response, (header, hop_by_hop), ()),
        distinct_names(header_entries(*old(headers))),
        distinct_names(response_entries(*old(header))),
        in_step(*old(header)),
    ensures
        in_step(*final(header)),
        0 <= i < hop_by_hop@.len() && name_text(hop_by_hop@[i]) == name ==> !has_entry(
            header_entries(*final(headers)),
            name,
        ) && !has_entry(response_entries(*final(header)), name),
        (forall|j: int|
            0 <= j < hop_by_hop@.len() ==> name_text(#[trigger] hop_by_hop@[j]) != name) ==> {
            &&& entry_values(header_entries(*final(headers)), name) == entry_values(
                header_entries(*old(headers)),
                name,
            )
            &&& entry_values(response_entries(*final(header)), name) == entry_values(
                response_entries(*old(header)),
                name,
            )
            &&& is_spelled_as_before(*old(header), *final(header), name)
        },
        response_status(*final(header)) == response_status(*old(header)),
        custom_reason(*final(header)) == custom_reason(*old(header)),
        response_version(*final(header)) == response_version(*old(header)),
{
    let names = names_view(hop_by_hop@);
    if let Some(spelled) = spelled_names(*old(header)) {
        lemma_lined_up_names_are_distinct(spelled, response_entries(*old(header)));
        lemma_removed_names(spelled, names, name);
    }
    lemma_removed_names(header_entries(*old(headers)), names, name);
    lemma_removed_names(response_entries(*old(header)), names, name);
    if 0 <= i < hop_by_hop@.len() {
        assert(names[i] == name_text(hop_by_hop@[i]));
    }
    if lists_name(names, name) {
        let j = choose|j: int| 0 <= j < names.len() && #[trigger] names[j] == name;
        assert(names[j] == name_text(hop_by_hop@[j]));
    }
}

/// No changes are none of any kind.
pub proof fn law_no_changes_are_none(mutations: HeaderMutations)
    requires
        call_ensures(HeaderMutations::none, (), mutations),
    ensures
        mutations@.remove.len() == 0,
        mutations@.set.len() == 0,
        mutations@.extra.len() == 0,
{
}

/// Taking the fields out of a response header gives all of them and its status, and leaves
/// the header without fields, as it is otherwise.
pub proof fn law_fields_move_out_of_a_response(upstream: &mut ResponseHeader, response: Response)
    requires
        call_ensures(response_header_from_pingora, (upstream,), response),
    ensures
        response.status == response_status(*old(upstream)),
        header_entries(response.headers) == response_entries(*old(upstream)),
        response_entries(*final(upstream)).len() == 0,
        response_status(*final(upstream)) == response_status(*old(upstream)),
        spelled_names(*final(upstream)) == spelled_names(*old(upstream)),
        custom_reason(*final(upstream)) == custom_reason(*old(upstream)),
        response_version(*final(upstream)) == response_version(*old(upstream)),
{
}

} // verus!
