//! Headers that must not leave the proxy: hop-by-hop ones and those that are
//! internal to it.
use crate::headers::{
    accepted_fields, appended, ascii_lower, distinct_names, entries_append, entries_remove,
    entry_fields, entry_index, entry_values, fields_of, fields_view, has_entry, header_entries,
    is_reserved, is_reserved_name, lemma_all_accepted, lemma_appended_concat, lemma_appended_push,
    lemma_entry_index, lemma_entry_index_unique, lemma_field_names, lemma_lower_idempotent,
    lemma_remove, map_fields, map_remove, names_view, valid_name, Entries, Fields, Intake,
    Spellings,
};
use crate::mutations::{lemma_removed_push, removed};
use crate::transport::{
    custom_reason, in_step, response_entries, response_map, response_remove, response_status,
    response_version,
    spelled_names,
};
use http::{HeaderMap, HeaderName};
use pingora_http::ResponseHeader;
use vstd::prelude::*;

verus! {

/// The names among the fields that are internal to the proxy.
pub open spec fn reserved_names(fields: Fields) -> Seq<Seq<char>>
    decreases fields.len(),
{
    if fields.len() == 0 {
        Seq::empty()
    } else if is_reserved_name(fields.last().0) {
        reserved_names(fields.drop_last()).push(fields.last().0)
    } else {
        reserved_names(fields.drop_last())
    }
}

/// The entries without those that are internal to the proxy.
pub open spec fn without_reserved(entries: Entries) -> Entries {
    removed(entries, reserved_names(fields_of(entries)))
}

/// Kept spellings without those of the given names, if any are kept.
pub open spec fn also_without(
    spelled: Option<Spellings>,
    names: Seq<Seq<char>>,
) -> Option<Spellings> {
    match spelled {
        Some(kept) => Some(removed(kept, names)),
        None => None,
    }
}

proof fn lemma_reserved_step(fields: Fields, i: int)
    requires
        0 <= i < fields.len(),
    ensures
        reserved_names(fields.take(i + 1)) == (if is_reserved_name(fields[i].0) {
            reserved_names(fields.take(i)).push(fields[i].0)
        } else {
            reserved_names(fields.take(i))
        }),
{
    assert(fields.take(i + 1).drop_last() == fields.take(i));
}

/// One more name, seen from the kept spellings.
proof fn lemma_also_without_push(
    spelled: Option<Spellings>,
    names: Seq<Seq<char>>,
    name: Seq<char>,
)
    ensures
        also_without(spelled, names.push(name)) == (match also_without(spelled, names) {
            Some(kept) => Some(entries_remove(kept, name)),
            None => None,
        }),
{
    match spelled {
        Some(kept) => lemma_removed_push(kept, names, name),
        None => {},
    }
}

/// Drops headers that are internal to the proxy from a field map.
pub fn strip_reserved_internal_header_map(headers: &mut HeaderMap)
    ensures
        header_entries(*final(headers)) == without_reserved(header_entries(*old(headers))),
{
    let ghost start = header_entries(*headers);
    let fields = map_fields(headers);
    let ghost views = fields_of(start);
    let mut i: usize = 0;
    assert(views.take(0) =~= Fields::empty());
    while i < fields.len()
        invariant
            i <= fields@.len(),
            fields_view(fields@) == views,
            header_entries(*headers) == removed(start, reserved_names(views.take(i as int))),
        decreases fields@.len() - i,
    {
        let name = &fields[i].0;
        proof {
            assert(views[i as int] == fields_view(fields@)[i as int]);
            lemma_reserved_step(views, i as int);
            lemma_removed_push(
                start,
                reserved_names(views.take(i as int)),
                views[i as int].0,
            );
        }
        if is_reserved(name.as_str()) {
            map_remove(headers, name);
        }
        i += 1;
    }
    assert(views.take(i as int) =~= views);
}

/// Drops headers that are internal to the proxy from a transport header.
pub fn strip_reserved_internal(header: &mut ResponseHeader)
    requires
        in_step(*old(header)),
    ensures
        response_entries(*final(header)) == without_reserved(response_entries(*old(header))),
        spelled_names(*final(header)) == also_without(
            spelled_names(*old(header)),
            reserved_names(fields_of(response_entries(*old(header)))),
        ),
        in_step(*final(header)),
        response_status(*final(header)) == response_status(*old(header)),
        custom_reason(*final(header)) == custom_reason(*old(header)),
        response_version(*final(header)) == response_version(*old(header)),
{
    let ghost first = *header;
    let ghost start = response_entries(*header);
    let ghost spelled = spelled_names(*header);
    let fields = map_fields(response_map(header));
    let ghost views = fields_of(start);
    let mut i: usize = 0;
    assert(views.take(0) =~= Fields::empty());
    while i < fields.len()
        invariant
            i <= fields@.len(),
            fields_view(fields@) == views,
            response_entries(*header) == removed(start, reserved_names(views.take(i as int))),
            spelled_names(*header) == also_without(
                spelled,
                reserved_names(views.take(i as int)),
            ),
            in_step(*header),
            response_status(*header) == response_status(first),
            custom_reason(*header) == custom_reason(first),
            response_version(*header) == response_version(first),
        decreases fields@.len() - i,
    {
        let name = &fields[i].0;
        proof {
            let done = reserved_names(views.take(i as int));
            assert(views[i as int] == fields_view(fields@)[i as int]);
            lemma_reserved_step(views, i as int);
            lemma_removed_push(start, done, views[i as int].0);
            lemma_also_without_push(spelled, done, views[i as int].0);
        }
        if is_reserved(name.as_str()) {
            response_remove(header, name);
        }
        i += 1;
    }
    assert(views.take(i as int) =~= views);
}

/// Drops the given headers from a field map.
pub fn strip_hop_by_hop_header_map(headers: &mut HeaderMap, hop_by_hop: &Vec<HeaderName>)
    ensures
        header_entries(*final(headers)) == removed(
            header_entries(*old(headers)),
            names_view(hop_by_hop@),
        ),
{
    let ghost start = header_entries(*headers);
    let ghost names = names_view(hop_by_hop@);
    let mut i: usize = 0;
    assert(names.take(0) =~= Seq::<Seq<char>>::empty());
    while i < hop_by_hop.len()
        invariant
            i <= hop_by_hop@.len(),
            names == names_view(hop_by_hop@),
            header_entries(*headers) == removed(start, names.take(i as int)),
        decreases hop_by_hop@.len() - i,
    {
        proof {
            assert(names.take(i + 1) == names.take(i as int).push(names[i as int]));
            lemma_removed_push(start, names.take(i as int), names[i as int]);
        }
        map_remove(headers, &hop_by_hop[i]);
        i += 1;
    }
    assert(names.take(i as int) =~= names);
}

/// Drops the given headers from a transport header.
pub fn strip_hop_by_hop_response(header: &mut ResponseHeader, hop_by_hop: &Vec<HeaderName>)
    requires
        in_step(*old(header)),
    ensures
        response_entries(*final(header)) == removed(
            response_entries(*old(header)),
            names_view(hop_by_hop@),
        ),
        spelled_names(*final(header)) == also_without(
            spelled_names(*old(header)),
            names_view(hop_by_hop@),
        ),
        in_step(*final(header)),
        response_status(*final(header)) == response_status(*old(header)),
        custom_reason(*final(header)) == custom_reason(*old(header)),
        response_version(*final(header)) == response_version(*old(header)),
{
    let ghost first = *header;
    let ghost start = response_entries(*header);
    let ghost spelled = spelled_names(*header);
    let ghost names = names_view(hop_by_hop@);
    let mut i: usize = 0;
    assert(names.take(0) =~= Seq::<Seq<char>>::empty());
    while i < hop_by_hop.len()
        invariant
            i <= hop_by_hop@.len(),
            names == names_view(hop_by_hop@),
            response_entries(*header) == removed(start, names.take(i as int)),
            spelled_names(*header) == also_without(spelled, names.take(i as int)),
            in_step(*header),
            response_status(*header) == response_status(first),
            custom_reason(*header) == custom_reason(first),
            response_version(*header) == response_version(first),
        decreases hop_by_hop@.len() - i,
    {
        proof {
            assert(names.take(i + 1) == names.take(i as int).push(names[i as int]));
            lemma_removed_push(start, names.take(i as int), names[i as int]);
            lemma_also_without_push(spelled, names.take(i as int), names[i as int]);
        }
        response_remove(header, &hop_by_hop[i]);
        i += 1;
    }
    assert(names.take(i as int) =~= names);
}

/// Some name of the list is `name`.
pub open spec fn lists_name(names: Seq<Seq<char>>, name: Seq<char>) -> bool {
    exists|i: int| 0 <= i < names.len() && #[trigger] names[i] == name
}

/// Removing a list of names drops those and leaves the others alone.
pub proof fn lemma_removed(
    entries: Entries,
    names: Seq<Seq<char>>,
    name: Seq<char>,
)
    requires
        distinct_names(entries),
    ensures
        distinct_names(removed(entries, names)),
        has_entry(removed(entries, names), name) <==> has_entry(entries, name) && !lists_name(
            names,
            name,
        ),
        !lists_name(names, name) ==> entry_values(removed(entries, names), name) == entry_values(
            entries,
            name,
        ),
    decreases names.len(),
{
    if names.len() > 0 {
        let shorter = names.drop_last();
        lemma_removed(entries, shorter, name);
        lemma_remove(removed(entries, shorter), names.last(), name);
        assert(lists_name(names, name) <==> lists_name(shorter, name) || names.last() == name) by {
            if lists_name(names, name) {
                let i = choose|i: int| 0 <= i < names.len() && #[trigger] names[i] == name;
                if i < shorter.len() {
                    assert(shorter[i] == name);
                }
            }
            if lists_name(shorter, name) {
                let i = choose|i: int| 0 <= i < shorter.len() && #[trigger] shorter[i] == name;
                assert(names[i] == name);
            }
            if names.last() == name {
                assert(names[names.len() - 1] == name);
            }
        }
    }
}

/// Entries as a header map holds them: lower-case names, no name twice, and at
/// least one value under each.
pub open spec fn well_formed(entries: Entries) -> bool {
    &&& distinct_names(entries)
    &&& forall|i: int|
        0 <= i < entries.len() ==> #[trigger] entries[i].1.len() > 0 && ascii_lower(entries[i].0)
            == entries[i].0
}

/// Every entry with a value shows among the fields.
proof fn lemma_entry_is_a_field(entries: Entries, at: int)
    requires
        0 <= at < entries.len(),
        entries[at].1.len() > 0,
    ensures
        exists|j: int|
            0 <= j < fields_of(entries).len() && #[trigger] fields_of(entries)[j].0
                == entries[at].0,
    decreases entries.len(),
{
    let shorter = entries.drop_last();
    let fields = fields_of(entries);
    if at == entries.len() - 1 {
        let j = fields_of(shorter).len() as int;
        assert(fields[j] == entry_fields(entries.last())[0]);
        assert(fields[j].0 == entries[at].0);
    } else {
        lemma_entry_is_a_field(shorter, at);
        let j = choose|j: int|
            0 <= j < fields_of(shorter).len() && #[trigger] fields_of(shorter)[j].0
                == shorter[at].0;
        assert(fields[j] == fields_of(shorter)[j]);
    }
}

/// A field that is internal to the proxy is on the list of such names.
proof fn lemma_reserved_is_listed(fields: Fields, j: int)
    requires
        0 <= j < fields.len(),
        is_reserved_name(fields[j].0),
    ensures
        lists_name(reserved_names(fields), fields[j].0),
    decreases fields.len(),
{
    let shorter = fields.drop_last();
    let names = reserved_names(fields);
    if j == fields.len() - 1 {
        assert(names[names.len() - 1] == fields[j].0);
    } else {
        lemma_reserved_is_listed(shorter, j);
        let before = reserved_names(shorter);
        let i = choose|i: int| 0 <= i < before.len() && #[trigger] before[i] == shorter[j].0;
        assert(names[i] == before[i]);
    }
}

/// Only names that are internal to the proxy are on the list of such names.
pub proof fn lemma_listed_is_reserved(fields: Fields, name: Seq<char>)
    requires
        lists_name(reserved_names(fields), name),
    ensures
        is_reserved_name(name),
    decreases fields.len(),
{
    let names = reserved_names(fields);
    let i = choose|i: int| 0 <= i < names.len() && #[trigger] names[i] == name;
    if fields.len() > 0 {
        let before = reserved_names(fields.drop_last());
        if i < before.len() {
            assert(names[i] == before[i]);
            lemma_listed_is_reserved(fields.drop_last(), name);
        }
    }
}

/// Stripping leaves no header that is internal to the proxy, and leaves every
/// other header as it was.
pub proof fn law_strip_hides_reserved_headers(
    entries: Entries,
    name: Seq<char>,
)
    requires
        well_formed(entries),
    ensures
        is_reserved_name(name) ==> !has_entry(without_reserved(entries), ascii_lower(name)),
        !is_reserved_name(name) ==> entry_values(without_reserved(entries), ascii_lower(name))
            == entry_values(entries, ascii_lower(name)),
{
    let lower = ascii_lower(name);
    let fields = fields_of(entries);
    lemma_removed(entries, reserved_names(fields), lower);
    lemma_lower_idempotent(name);
    if is_reserved_name(name) && has_entry(entries, lower) {
        lemma_entry_index(entries, lower);
        let at = entry_index(entries, lower);
        lemma_entry_is_a_field(entries, at);
        let j = choose|j: int|
            0 <= j < fields.len() && #[trigger] fields[j].0 == entries[at].0;
        lemma_reserved_is_listed(fields, j);
    }
    if lists_name(reserved_names(fields), lower) {
        lemma_listed_is_reserved(fields, lower);
    }
}

/// Entries without internal headers stay exactly as they are.
pub proof fn law_strip_leaves_clean_headers_alone(entries: Entries)
    requires
        forall|i: int|
            0 <= i < fields_of(entries).len() ==> !is_reserved_name(
                #[trigger] fields_of(entries)[i].0,
            ),
    ensures
        without_reserved(entries) == entries,
{
    lemma_no_reserved_names(fields_of(entries));
}

proof fn lemma_no_reserved_names(fields: Fields)
    requires
        forall|i: int| 0 <= i < fields.len() ==> !is_reserved_name(#[trigger] fields[i].0),
    ensures
        reserved_names(fields).len() == 0,
    decreases fields.len(),
{
    if fields.len() > 0 {
        let shorter = fields.drop_last();
        assert forall|i: int| 0 <= i < shorter.len() implies !is_reserved_name(
            #[trigger] shorter[i].0,
        ) by {
            assert(!is_reserved_name(fields[i].0));
        }
        lemma_no_reserved_names(shorter);
        assert(!is_reserved_name(fields[fields.len() - 1].0));
    }
}

/// Entries that a transport header takes as they are.
pub open spec fn sendable_entries(entries: Entries) -> bool {
    &&& well_formed(entries)
    &&& forall|i: int| 0 <= i < entries.len() ==> valid_name(#[trigger] entries[i].0)
}

/// Every entry that is left after removing a name was there before.
proof fn lemma_remove_keeps_entries(
    entries: Entries,
    name: Seq<char>,
    i: int,
)
    requires
        0 <= i < entries_remove(entries, name).len(),
    ensures
        exists|k: int|
            0 <= k < entries.len() && #[trigger] entries[k] == entries_remove(entries, name)[i],
{
    lemma_entry_index(entries, name);
    let after = entries_remove(entries, name);
    if has_entry(entries, name) && i == entry_index(entries, name) {
        assert(after[i] == entries[entries.len() - 1]);
    } else {
        assert(after[i] == entries[i]);
    }
}

/// Removing names keeps entries well formed.
pub proof fn lemma_removed_stays_well_formed(entries: Entries, names: Seq<Seq<char>>)
    requires
        well_formed(entries),
    ensures
        well_formed(removed(entries, names)),
    decreases names.len(),
{
    if names.len() > 0 {
        let before = removed(entries, names.drop_last());
        let name = names.last();
        lemma_removed_stays_well_formed(entries, names.drop_last());
        let after = entries_remove(before, name);
        lemma_remove(before, name, name);
        assert forall|i: int| 0 <= i < after.len() implies #[trigger] after[i].1.len() > 0
            && ascii_lower(after[i].0) == after[i].0 by {
            lemma_remove_keeps_entries(before, name, i);
            let k = choose|k: int| 0 <= k < before.len() && #[trigger] before[k] == after[i];
            assert(before[k].1.len() > 0);
        }
    }
}

/// Removing names keeps entries sendable.
pub proof fn lemma_removed_stays_sendable(entries: Entries, names: Seq<Seq<char>>)
    requires
        sendable_entries(entries),
    ensures
        sendable_entries(removed(entries, names)),
    decreases names.len(),
{
    lemma_removed_stays_well_formed(entries, names);
    if names.len() > 0 {
        let before = removed(entries, names.drop_last());
        let name = names.last();
        lemma_removed_stays_sendable(entries, names.drop_last());
        let after = entries_remove(before, name);
        assert forall|i: int| 0 <= i < after.len() implies valid_name(#[trigger] after[i].0) by {
            lemma_remove_keeps_entries(before, name, i);
            let k = choose|k: int| 0 <= k < before.len() && #[trigger] before[k] == after[i];
            assert(valid_name(before[k].0));
        }
    }
}

/// Appending the fields of one entry under a new name adds that entry.
proof fn lemma_append_entry(
    entries: Entries,
    entry: (Seq<char>, Seq<(Seq<u8>, bool)>),
    n: int,
)
    requires
        !has_entry(entries, entry.0),
        0 < n <= entry.1.len(),
    ensures
        appended(entries, entry_fields(entry).take(n)) == entries.push((entry.0, entry.1.take(n))),
    decreases n,
{
    let fields = entry_fields(entry).take(n);
    let shorter = entry_fields(entry).take(n - 1);
    assert(fields =~= shorter.push((entry.0, entry.1[n - 1])));
    lemma_appended_push(entries, shorter, (entry.0, entry.1[n - 1]));
    if n == 1 {
        assert(shorter =~= Fields::empty());
        assert(seq![entry.1[0]] =~= entry.1.take(1));
    } else {
        lemma_append_entry(entries, entry, n - 1);
        let before = entries.push((entry.0, entry.1.take(n - 1)));
        lemma_entry_index(entries, entry.0);
        assert forall|i: int| 0 <= i < entries.len() implies #[trigger] before[i].0 != entry.0 by {
            assert(before[i] == entries[i]);
        }
        lemma_entry_index_unique(before, entry.0, entries.len() as int);
        assert(entry.1.take(n - 1).push(entry.1[n - 1]) =~= entry.1.take(n));
        assert(entries_append(before, entry.0, entry.1[n - 1]) =~= entries.push(
            (entry.0, entry.1.take(n)),
        ));
    }
}

/// Appending the fields of a map one by one gives its entries again.
pub proof fn lemma_fields_give_entries(entries: Entries)
    requires
        well_formed(entries),
    ensures
        appended(Seq::empty(), fields_of(entries)) == entries,
    decreases entries.len(),
{
    let none = Entries::empty();
    if entries.len() == 0 {
        assert(entries =~= none);
    } else {
        let shorter = entries.drop_last();
        let last = entries.last();
        lemma_shorter_is_well_formed(entries);
        lemma_fields_give_entries(shorter);
        lemma_appended_concat(none, fields_of(shorter), entry_fields(last));
        let at = entries.len() - 1;
        assert(entries[at].1.len() > 0);
        assert forall|i: int| 0 <= i < shorter.len() implies #[trigger] shorter[i].0 != last.0 by {
            assert(entries[i].0 != entries[at].0);
        }
        lemma_entry_index_unique(shorter, last.0, shorter.len() as int);
        lemma_append_entry(shorter, last, last.1.len() as int);
        assert(entry_fields(last).take(last.1.len() as int) =~= entry_fields(last));
        assert(last.1.take(last.1.len() as int) =~= last.1);
        assert(shorter.push(last) =~= entries);
    }
}

/// Well-formed entries stay so without their last one.
pub proof fn lemma_shorter_is_well_formed(entries: Entries)
    requires
        well_formed(entries),
        entries.len() > 0,
    ensures
        well_formed(entries.drop_last()),
{
    let shorter = entries.drop_last();
    assert forall|i: int, j: int| 0 <= i < j < shorter.len() implies #[trigger] shorter[i].0
        != #[trigger] shorter[j].0 by {
        assert(entries[i].0 != entries[j].0);
    }
    assert forall|i: int| 0 <= i < shorter.len() implies #[trigger] shorter[i].1.len() > 0
        && ascii_lower(shorter[i].0) == shorter[i].0 by {
        assert(entries[i].1.len() > 0);
    }
}

/// Every field of sendable entries is accepted.
pub proof fn lemma_sendable_fields(entries: Entries)
    requires
        sendable_entries(entries),
    ensures
        accepted_fields(fields_of(entries), Intake::Named) == fields_of(entries),
{
    let fields = fields_of(entries);
    assert forall|i: int| 0 <= i < fields.len() implies valid_name((#[trigger] fields[i]).0) by {
        lemma_field_names(entries, i);
        let k = choose|k: int| 0 <= k < entries.len() && (#[trigger] entries[k]).0 == fields[i].0;
        assert(valid_name(entries[k].0));
    }
    lemma_all_accepted(fields);
}

/// Rebuilding a header from its own fields changes nothing: appending them one
/// by one gives the same entries again, in the same order.
pub proof fn law_rebuild_keeps_fields(entries: Entries)
    requires
        sendable_entries(entries),
    ensures
        appended(Seq::empty(), accepted_fields(fields_of(entries), Intake::Named)) == entries,
{
    lemma_sendable_fields(entries);
    lemma_fields_give_entries(entries);
}

/// Removing names adds no entry.
pub proof fn lemma_removed_shrinks(entries: Entries, names: Seq<Seq<char>>)
    ensures
        removed(entries, names).len() <= entries.len(),
    decreases names.len(),
{
    if names.len() > 0 {
        lemma_removed_shrinks(entries, names.drop_last());
        lemma_entry_index(removed(entries, names.drop_last()), names.last());
    }
}

} // verus!
