//! Header changes that request filters ask for, applied to the request snapshot
//! and to the transport's request header alike.
use crate::headers::{
    accepted_fields, accepted_spellings, ascii_lower, entries_insert, entries_remove, entry_values,
    fields_view, header_entries, is_accepted, lemma_accepted_push, lemma_entry_index, lemma_insert,
    map_insert, map_remove, names_view, parse_name, parse_value, spelling, stored_name, text_fields,
    valid_name, Entries, Fields, Intake, Spellings, MAX_HEADER_NAMES,
};
use crate::transport::{
    request_entries, request_in_step, request_insert, request_insert_field, request_remove,
    request_spelled_names, same_request_line,
};
use http::{HeaderMap, HeaderName, HeaderValue};
use pingora_http::RequestHeader;
use vstd::prelude::*;
use vstd::string::*;

verus! {

/// Pending header changes, in the order in which they apply: names to remove,
/// fields to set, fields to add.
pub struct HeaderMutations {
    /// Names whose fields leave.
    pub remove: Vec<HeaderName>,
    /// Fields that replace those of their name.
    pub set: Vec<(HeaderName, HeaderValue)>,
    /// Text fields that replace those of their name, after the others.
    pub extra: Vec<(String, String)>,
}

/// What [`HeaderMutations`] ask for.
pub struct HeaderMutationsView {
    /// Names whose fields leave.
    pub remove: Seq<Seq<char>>,
    /// Fields that replace those of their name.
    pub set: Fields,
    /// Text fields that replace those of their name, after the others.
    pub extra: Fields,
}

impl View for HeaderMutations {
    type V = HeaderMutationsView;

    open spec fn view(&self) -> HeaderMutationsView {
        HeaderMutationsView {
            remove: names_view(self.remove@),
            set: fields_view(self.set@),
            extra: text_fields(self.extra@),
        }
    }
}

impl HeaderMutations {
    /// No changes.
    pub fn none() -> (mutations: Self)
        ensures
            mutations.remove@.len() == 0,
            mutations.set@.len() == 0,
            mutations.extra@.len() == 0,
    {
        HeaderMutations { remove: Vec::new(), set: Vec::new(), extra: Vec::new() }
    }
}

/// The entries after each name was removed in turn.
pub open spec fn removed<V>(
    entries: Seq<(Seq<char>, Seq<V>)>,
    names: Seq<Seq<char>>,
) -> Seq<(Seq<char>, Seq<V>)>
    decreases names.len(),
{
    if names.len() == 0 {
        entries
    } else {
        entries_remove(removed(entries, names.drop_last()), names.last())
    }
}

/// The entries after each item was inserted in turn.
pub open spec fn inserted<V>(
    entries: Seq<(Seq<char>, Seq<V>)>,
    items: Seq<(Seq<char>, V)>,
) -> Seq<(Seq<char>, Seq<V>)>
    decreases items.len(),
{
    if items.len() == 0 {
        entries
    } else {
        entries_insert(inserted(entries, items.drop_last()), items.last().0, items.last().1)
    }
}

/// The entries after the pending changes were applied. `intake` tells how the fields
/// to set are taken in.
pub open spec fn mutated(
    entries: Entries,
    mutations: HeaderMutationsView,
    intake: Intake,
) -> Entries {
    inserted(
        inserted(removed(entries, mutations.remove), accepted_fields(mutations.set, intake)),
        accepted_fields(mutations.extra, Intake::Text),
    )
}

/// The kept spellings after the pending changes were applied.
pub open spec fn respelled(
    spelled: Option<Spellings>,
    mutations: HeaderMutationsView,
) -> Option<Spellings> {
    match spelled {
        Some(names) => Some(
            inserted(
                inserted(
                    removed(names, mutations.remove),
                    accepted_spellings(mutations.set, Intake::Named),
                ),
                accepted_spellings(mutations.extra, Intake::Text),
            ),
        ),
        None => None,
    }
}

/// The header table has room for every name that the changes add.
pub open spec fn has_room(
    entries: Entries,
    mutations: HeaderMutationsView,
    intake: Intake,
) -> bool {
    mutations.set.len() + mutations.extra.len() > 0 ==> mutated(entries, mutations, intake).len()
        < MAX_HEADER_NAMES
}

/// One more name.
pub proof fn lemma_removed_push<V>(
    entries: Seq<(Seq<char>, Seq<V>)>,
    names: Seq<Seq<char>>,
    name: Seq<char>,
)
    ensures
        removed(entries, names.push(name)) == entries_remove(removed(entries, names), name),
{
    assert(names.push(name).drop_last() =~= names);
}

proof fn lemma_inserted_push<V>(
    entries: Seq<(Seq<char>, Seq<V>)>,
    items: Seq<(Seq<char>, V)>,
    item: (Seq<char>, V),
)
    ensures
        inserted(entries, items.push(item)) == entries_insert(
            inserted(entries, items),
            item.0,
            item.1,
        ),
{
    assert(items.push(item).drop_last() =~= items);
}

/// Inserting never takes an entry away.
proof fn lemma_inserted_grows<V>(
    entries: Seq<(Seq<char>, Seq<V>)>,
    items: Seq<(Seq<char>, V)>,
)
    ensures
        entries.len() <= inserted(entries, items).len(),
    decreases items.len(),
{
    if items.len() > 0 {
        lemma_inserted_grows(entries, items.drop_last());
        lemma_entry_index(inserted(entries, items.drop_last()), items.last().0);
    }
}

/// What was inserted so far makes no more entries than all together.
proof fn lemma_inserted_so_far(entries: Entries, fields: Fields, intake: Intake, i: int)
    requires
        0 <= i <= fields.len(),
    ensures
        inserted(entries, accepted_fields(fields.take(i), intake)).len() <= inserted(
            entries,
            accepted_fields(fields, intake),
        ).len(),
    decreases fields.len() - i,
{
    if i == fields.len() {
        assert(fields.take(i) =~= fields);
    } else {
        lemma_inserted_so_far(entries, fields, intake, i + 1);
        lemma_step(entries, fields, intake, i);
        let before = inserted(entries, accepted_fields(fields.take(i), intake));
        lemma_entry_index(before, stored_name(fields[i].0, intake));
    }
}

/// One more field, seen from the entries.
proof fn lemma_step(entries: Entries, fields: Fields, intake: Intake, i: int)
    requires
        0 <= i < fields.len(),
    ensures
        inserted(entries, accepted_fields(fields.take(i + 1), intake)) == (if is_accepted(
            fields[i],
            intake,
        ) {
            entries_insert(
                inserted(entries, accepted_fields(fields.take(i), intake)),
                stored_name(fields[i].0, intake),
                fields[i].1,
            )
        } else {
            inserted(entries, accepted_fields(fields.take(i), intake))
        }),
{
    assert(fields.take(i + 1) =~= fields.take(i).push(fields[i]));
    lemma_accepted_push(fields.take(i), fields[i], intake);
    lemma_inserted_push(
        entries,
        accepted_fields(fields.take(i), intake),
        (stored_name(fields[i].0, intake), fields[i].1),
    );
}

/// One more field, seen from the kept spellings.
proof fn lemma_spelled_step(spelled: Spellings, fields: Fields, intake: Intake, i: int)
    requires
        0 <= i < fields.len(),
    ensures
        inserted(spelled, accepted_spellings(fields.take(i + 1), intake)) == (if is_accepted(
            fields[i],
            intake,
        ) {
            entries_insert(
                inserted(spelled, accepted_spellings(fields.take(i), intake)),
                stored_name(fields[i].0, intake),
                spelling(fields[i].0, intake),
            )
        } else {
            inserted(spelled, accepted_spellings(fields.take(i), intake))
        }),
{
    assert(fields.take(i + 1) =~= fields.take(i).push(fields[i]));
    lemma_accepted_push(fields.take(i), fields[i], intake);
    lemma_inserted_push(
        spelled,
        accepted_spellings(fields.take(i), intake),
        (stored_name(fields[i].0, intake), spelling(fields[i].0, intake)),
    );
}

/// Mirrors the pending header changes into the request snapshot, so that later
/// phases read the same headers that the upstream receives.
pub fn apply_pending_header_mutations(headers: &mut HeaderMap, mutations: &HeaderMutations)
    requires
        has_room(header_entries(*old(headers)), mutations@, Intake::Stored),
    ensures
        header_entries(*final(headers)) == mutated(
            header_entries(*old(headers)),
            mutations@,
            Intake::Stored,
        ),
{
    let ghost start = header_entries(*headers);
    let ghost names = mutations@.remove;
    let ghost set = mutations@.set;
    let ghost extra = mutations@.extra;
    let ghost last = mutated(start, mutations@, Intake::Stored);
    let mut i: usize = 0;
    assert(names.take(0) =~= Seq::<Seq<char>>::empty());
    while i < mutations.remove.len()
        invariant
            i <= mutations.remove@.len(),
            names == names_view(mutations.remove@),
            header_entries(*headers) == removed(start, names.take(i as int)),
        decreases mutations.remove@.len() - i,
    {
        proof {
            assert(names.take(i + 1) =~= names.take(i as int).push(names[i as int]));
            lemma_removed_push(start, names.take(i as int), names[i as int]);
        }
        map_remove(headers, &mutations.remove[i]);
        i += 1;
    }
    assert(names.take(i as int) =~= names);
    let ghost cleared = removed(start, names);
    let ghost replaced = inserted(cleared, accepted_fields(set, Intake::Stored));
    proof {
        lemma_inserted_grows(replaced, accepted_fields(extra, Intake::Text));
    }
    i = 0;
    assert(set.take(0) =~= Fields::empty());
    while i < mutations.set.len()
        invariant
            i <= mutations.set@.len(),
            set == fields_view(mutations.set@),
            replaced == inserted(cleared, accepted_fields(set, Intake::Stored)),
            set.len() > 0 ==> replaced.len() < MAX_HEADER_NAMES,
            header_entries(*headers) == inserted(
                cleared,
                accepted_fields(set.take(i as int), Intake::Stored),
            ),
        decreases mutations.set@.len() - i,
    {
        proof {
            lemma_step(cleared, set, Intake::Stored, i as int);
            lemma_inserted_so_far(cleared, set, Intake::Stored, i as int);
        }
        map_insert(headers, &mutations.set[i].0, &mutations.set[i].1);
        i += 1;
    }
    assert(set.take(i as int) =~= set);
    i = 0;
    assert(extra.take(0) =~= Fields::empty());
    while i < mutations.extra.len()
        invariant
            i <= mutations.extra@.len(),
            extra == text_fields(mutations.extra@),
            last == inserted(replaced, accepted_fields(extra, Intake::Text)),
            extra.len() > 0 ==> last.len() < MAX_HEADER_NAMES,
            header_entries(*headers) == inserted(
                replaced,
                accepted_fields(extra.take(i as int), Intake::Text),
            ),
        decreases mutations.extra@.len() - i,
    {
        proof {
            lemma_step(replaced, extra, Intake::Text, i as int);
            lemma_inserted_so_far(replaced, extra, Intake::Text, i as int);
        }
        let name = parse_name(mutations.extra[i].0.as_str());
        let value = parse_value(mutations.extra[i].1.as_str().as_bytes());
        match (name, value) {
            (Some(name), Some(value)) => map_insert(headers, &name, &value),
            _ => {},
        }
        i += 1;
    }
    assert(extra.take(i as int) =~= extra);
}

/// Applies the pending header changes to the transport's request header, in the
/// same order as to the snapshot.
pub fn apply_session_header_mutations(header: &mut RequestHeader, mutations: &HeaderMutations)
    requires
        has_room(request_entries(*old(header)), mutations@, Intake::Named),
        request_in_step(*old(header)),
    ensures
        request_entries(*final(header)) == mutated(
            request_entries(*old(header)),
            mutations@,
            Intake::Named,
        ),
        request_spelled_names(*final(header)) == respelled(
            request_spelled_names(*old(header)),
            mutations@,
        ),
        request_in_step(*final(header)),
        same_request_line(*final(header), *old(header)),
{
    let ghost first = *header;
    let ghost start = request_entries(*header);
    let ghost spelled = request_spelled_names(*header);
    let ghost names = mutations@.remove;
    let ghost set = mutations@.set;
    let ghost extra = mutations@.extra;
    let ghost last = mutated(start, mutations@, Intake::Named);
    let mut i: usize = 0;
    assert(names.take(0) =~= Seq::<Seq<char>>::empty());
    while i < mutations.remove.len()
        invariant
            i <= mutations.remove@.len(),
            names == names_view(mutations.remove@),
            request_entries(*header) == removed(start, names.take(i as int)),
            match spelled {
                Some(kept) => request_spelled_names(*header) == Some(
                    removed(kept, names.take(i as int)),
                ),
                None => request_spelled_names(*header) is None,
            },
            request_in_step(*header),
            same_request_line(*header, first),
        decreases mutations.remove@.len() - i,
    {
        proof {
            assert(names.take(i + 1) =~= names.take(i as int).push(names[i as int]));
            lemma_removed_push(start, names.take(i as int), names[i as int]);
            if spelled is Some {
                lemma_removed_push(spelled->0, names.take(i as int), names[i as int]);
            }
        }
        request_remove(header, &mutations.remove[i]);
        i += 1;
    }
    assert(names.take(i as int) =~= names);
    let ghost cleared = removed(start, names);
    let ghost cleared_spelled = match spelled {
        Some(kept) => removed(kept, names),
        None => Seq::empty(),
    };
    let ghost replaced = inserted(cleared, accepted_fields(set, Intake::Named));
    proof {
        lemma_inserted_grows(replaced, accepted_fields(extra, Intake::Text));
    }
    i = 0;
    assert(set.take(0) =~= Fields::empty());
    while i < mutations.set.len()
        invariant
            i <= mutations.set@.len(),
            set == fields_view(mutations.set@),
            replaced == inserted(cleared, accepted_fields(set, Intake::Named)),
            set.len() > 0 ==> replaced.len() < MAX_HEADER_NAMES,
            request_entries(*header) == inserted(
                cleared,
                accepted_fields(set.take(i as int), Intake::Named),
            ),
            request_spelled_names(*header) == (match spelled {
                Some(_) => Some(
                    inserted(
                        cleared_spelled,
                        accepted_spellings(set.take(i as int), Intake::Named),
                    ),
                ),
                None => None,
            }),
            request_in_step(*header),
            same_request_line(*header, first),
        decreases mutations.set@.len() - i,
    {
        proof {
            lemma_step(cleared, set, Intake::Named, i as int);
            lemma_spelled_step(cleared_spelled, set, Intake::Named, i as int);
            lemma_inserted_so_far(cleared, set, Intake::Named, i as int);
        }
        let _inserted = request_insert_field(
            header,
            &mutations.set[i].0,
            &mutations.set[i].1,
        );
        i += 1;
    }
    assert(set.take(i as int) =~= set);
    let ghost replaced_spelled = inserted(
        cleared_spelled,
        accepted_spellings(set, Intake::Named),
    );
    i = 0;
    assert(extra.take(0) =~= Fields::empty());
    while i < mutations.extra.len()
        invariant
            i <= mutations.extra@.len(),
            extra == text_fields(mutations.extra@),
            last == inserted(replaced, accepted_fields(extra, Intake::Text)),
            extra.len() > 0 ==> last.len() < MAX_HEADER_NAMES,
            request_entries(*header) == inserted(
                replaced,
                accepted_fields(extra.take(i as int), Intake::Text),
            ),
            request_spelled_names(*header) == (match spelled {
                Some(_) => Some(
                    inserted(
                        replaced_spelled,
                        accepted_spellings(extra.take(i as int), Intake::Text),
                    ),
                ),
                None => None,
            }),
            request_in_step(*header),
            same_request_line(*header, first),
        decreases mutations.extra@.len() - i,
    {
        proof {
            lemma_step(replaced, extra, Intake::Text, i as int);
            lemma_spelled_step(replaced_spelled, extra, Intake::Text, i as int);
            lemma_inserted_so_far(replaced, extra, Intake::Text, i as int);
        }
        match parse_value(mutations.extra[i].1.as_str().as_bytes()) {
            Some(value) => {
                let _inserted = request_insert(header, mutations.extra[i].0.as_str(), &value);
            },
            None => {},
        }
        i += 1;
    }
    assert(extra.take(i as int) =~= extra);
}

/// Every name that is to be set may stand in a message of HTTP/1.1.
pub open spec fn sets_valid_names(mutations: HeaderMutationsView) -> bool {
    forall|i: int| 0 <= i < mutations.set.len() ==> valid_name((#[trigger] mutations.set[i]).0)
}

/// Where every name to set is valid, fields are set alike in a map and in a
/// transport header.
proof fn lemma_set_alike(fields: Fields)
    requires
        forall|i: int| 0 <= i < fields.len() ==> valid_name((#[trigger] fields[i]).0),
    ensures
        accepted_fields(fields, Intake::Stored) == accepted_fields(fields, Intake::Named),
    decreases fields.len(),
{
    if fields.len() > 0 {
        let shorter = fields.drop_last();
        assert forall|i: int| 0 <= i < shorter.len() implies valid_name(
            (#[trigger] shorter[i]).0,
        ) by {
            assert(shorter[i] == fields[i]);
        }
        lemma_set_alike(shorter);
        assert(valid_name(fields[fields.len() - 1].0));
    }
}

/// The snapshot and the transport's request header do not diverge: from equal
/// fields, the same changes lead to equal fields. A name to set that only HTTP/2
/// allows is left out: the snapshot takes it and the transport does not.
pub proof fn law_snapshot_matches_session(
    snapshot: HeaderMap,
    session: RequestHeader,
    changed_snapshot: HeaderMap,
    changed_session: RequestHeader,
    mutations: HeaderMutationsView,
)
    requires
        sets_valid_names(mutations),
        header_entries(snapshot) == request_entries(session),
        header_entries(changed_snapshot) == mutated(
            header_entries(snapshot),
            mutations,
            Intake::Stored,
        ),
        request_entries(changed_session) == mutated(
            request_entries(session),
            mutations,
            Intake::Named,
        ),
    ensures
        header_entries(changed_snapshot) == request_entries(changed_session),
{
    lemma_set_alike(mutations.set);
}

/// Additions apply last: the value of the last addition, if it is accepted, is the
/// only one that its name is left with, whatever was removed or set.
pub proof fn law_last_addition_wins(
    entries: Entries,
    mutations: HeaderMutationsView,
    intake: Intake,
)
    requires
        mutations.extra.len() > 0,
        is_accepted(mutations.extra.last(), Intake::Text),
    ensures
        entry_values(
            mutated(entries, mutations, intake),
            ascii_lower(mutations.extra.last().0),
        ) == seq![mutations.extra.last().1],
{
    let last = mutations.extra.last();
    let shorter = mutations.extra.drop_last();
    let replaced = inserted(
        removed(entries, mutations.remove),
        accepted_fields(mutations.set, intake),
    );
    let before = inserted(replaced, accepted_fields(shorter, Intake::Text));
    assert(mutations.extra =~= shorter.push(last));
    lemma_accepted_push(shorter, last, Intake::Text);
    lemma_inserted_push(
        replaced,
        accepted_fields(shorter, Intake::Text),
        (ascii_lower(last.0), last.1),
    );
    lemma_insert(before, ascii_lower(last.0), last.1, ascii_lower(last.0));
}

} // verus!
