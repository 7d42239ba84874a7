//! Header collections: the model that contracts speak of, and the calls into
//! the `http` crate that hold the actual fields.
//!
//! A header collection is modelled as a sequence of entries, one per distinct
//! name in iteration order. An entry pairs the lower-case name with what is
//! stored under it, oldest first: the values of a field map, or the spellings
//! that a transport header keeps of the name.
use crate::text::chars_of;
use http::{HeaderMap, HeaderName, HeaderValue};
use vstd::prelude::*;
use vstd::string::*;
use vstd::utf8::*;

verus! {

/// The number of distinct names below which adding a field cannot overflow the
/// hash table of a `http::HeaderMap`, whatever state its index is in.
pub const MAX_HEADER_NAMES: usize = 6554;

/// A header value: its bytes, and whether it is marked as sensitive.
pub type FieldValue = (Seq<u8>, bool);

/// Header fields grouped by name.
pub type Entries = Seq<(Seq<char>, Seq<(Seq<u8>, bool)>)>;

/// Header fields one by one.
pub type Fields = Seq<(Seq<char>, (Seq<u8>, bool))>;

/// The spellings that are kept of header names, grouped by name.
pub type Spellings = Seq<(Seq<char>, Seq<Seq<char>>)>;

/// `http::HeaderMap`, kept opaque.
#[verifier::external_type_specification]
#[verifier::external_body]
#[verifier::reject_recursive_types(T)]
pub struct ExHeaderMap<T>(http::HeaderMap<T>);

/// `http::HeaderName`, kept opaque.
#[verifier::external_type_specification]
#[verifier::external_body]
pub struct ExHeaderName(http::HeaderName);

/// `http::HeaderValue`, kept opaque.
#[verifier::external_type_specification]
#[verifier::external_body]
pub struct ExHeaderValue(http::HeaderValue);

/// What a `http::HeaderMap` holds: its entries in iteration order.
pub uninterp spec fn header_entries(map: HeaderMap<HeaderValue>) -> Seq<(
    Seq<char>,
    Seq<(Seq<u8>, bool)>,
)>;

/// The text of a `http::HeaderName`.
pub uninterp spec fn name_text(name: HeaderName) -> Seq<char>;

/// The bytes of a `http::HeaderValue`.
pub uninterp spec fn value_data(value: HeaderValue) -> Seq<u8>;

/// Whether a `http::HeaderValue` is marked as sensitive.
pub uninterp spec fn value_sensitive(value: HeaderValue) -> bool;

/// A `http::HeaderValue` as contracts speak of it.
pub open spec fn value_view(value: HeaderValue) -> FieldValue {
    (value_data(value), value_sensitive(value))
}

/// A value that is not marked as sensitive.
pub open spec fn plain(data: Seq<u8>) -> FieldValue {
    (data, false)
}

/// A name lower-cased the way header lookups do it.
pub open spec fn ascii_lower(name: Seq<char>) -> Seq<char> {
    Seq::new(name.len(), |i: int| lower_char(name[i]))
}

/// The ASCII lower-case form of `c`; other characters are unchanged.
pub open spec fn lower_char(c: char) -> char {
    if 'A' <= c && c <= 'Z' {
        (c as u32 + 32) as char
    } else {
        c
    }
}

/// Position of the entry under `name`, or the number of entries when absent.
pub open spec fn entry_index<V>(entries: Seq<(Seq<char>, Seq<V>)>, name: Seq<char>) -> int
    decreases entries.len(),
{
    if entries.len() == 0 {
        0
    } else if entries[0].0 == name {
        0
    } else {
        1 + entry_index(entries.drop_first(), name)
    }
}

/// Whether some value is stored under `name`.
pub open spec fn has_entry<V>(entries: Seq<(Seq<char>, Seq<V>)>, name: Seq<char>) -> bool {
    entry_index(entries, name) < entries.len()
}

/// The values stored under `name`, oldest first; none when the name is absent.
pub open spec fn entry_values<V>(
    entries: Seq<(Seq<char>, Seq<V>)>,
    name: Seq<char>,
) -> Seq<V> {
    if has_entry(entries, name) {
        entries[entry_index(entries, name)].1
    } else {
        Seq::empty()
    }
}

/// `value` becomes the only value under `name`, in place or as a new last entry.
pub open spec fn entries_insert<V>(
    entries: Seq<(Seq<char>, Seq<V>)>,
    name: Seq<char>,
    value: V,
) -> Seq<(Seq<char>, Seq<V>)> {
    if has_entry(entries, name) {
        entries.update(entry_index(entries, name), (name, seq![value]))
    } else {
        entries.push((name, seq![value]))
    }
}

/// `value` becomes the last value under `name`, in place or as a new last entry.
pub open spec fn entries_append<V>(
    entries: Seq<(Seq<char>, Seq<V>)>,
    name: Seq<char>,
    value: V,
) -> Seq<(Seq<char>, Seq<V>)> {
    if has_entry(entries, name) {
        let at = entry_index(entries, name);
        entries.update(at, (name, entries[at].1.push(value)))
    } else {
        entries.push((name, seq![value]))
    }
}

/// The entry under `name` leaves; the last entry takes its place.
pub open spec fn entries_remove<V>(
    entries: Seq<(Seq<char>, Seq<V>)>,
    name: Seq<char>,
) -> Seq<(Seq<char>, Seq<V>)> {
    if has_entry(entries, name) {
        entries.update(entry_index(entries, name), entries.last()).drop_last()
    } else {
        entries
    }
}

/// The fields of one entry: its name paired with each of its values.
pub open spec fn entry_fields<V>(entry: (Seq<char>, Seq<V>)) -> Seq<(Seq<char>, V)> {
    Seq::new(entry.1.len(), |i: int| (entry.0, entry.1[i]))
}

/// All fields in iteration order.
pub open spec fn fields_of<V>(entries: Seq<(Seq<char>, Seq<V>)>) -> Seq<(Seq<char>, V)>
    decreases entries.len(),
{
    if entries.len() == 0 {
        Seq::empty()
    } else {
        fields_of(entries.drop_last()) + entry_fields(entries.last())
    }
}

/// A list of fields read by its views.
pub open spec fn fields_view(fields: Seq<(HeaderName, HeaderValue)>) -> Fields {
    Seq::new(fields.len(), |i: int| (name_text(fields[i].0), value_view(fields[i].1)))
}

/// A list of text fields by their names and the bytes of their values.
pub open spec fn text_fields(fields: Seq<(String, String)>) -> Fields {
    Seq::new(fields.len(), |i: int| (fields[i].0@, plain(encode_utf8(fields[i].1@))))
}

/// A list of names read by its views.
pub open spec fn names_view(names: Seq<HeaderName>) -> Seq<Seq<char>> {
    Seq::new(names.len(), |i: int| name_text(names[i]))
}

/// A list of values read by its views.
pub open spec fn values_view(values: Seq<HeaderValue>) -> Seq<FieldValue> {
    Seq::new(values.len(), |i: int| value_view(values[i]))
}

/// A character that may stand in a header name.
pub open spec fn is_name_char(c: char) -> bool {
    ||| ('0' <= c && c <= '9')
    ||| ('a' <= c && c <= 'z')
    ||| ('A' <= c && c <= 'Z')
    ||| c == '!'
    ||| c == '#'
    ||| c == '$'
    ||| c == '%'
    ||| c == '&'
    ||| c == '\''
    ||| c == '*'
    ||| c == '+'
    ||| c == '-'
    ||| c == '.'
    ||| c == '^'
    ||| c == '_'
    ||| c == '`'
    ||| c == '|'
    ||| c == '~'
}

/// A text that is accepted as a header name.
pub open spec fn valid_name(name: Seq<char>) -> bool {
    &&& 0 < name.len() <= 65535
    &&& forall|i: int| 0 <= i < name.len() ==> is_name_char(#[trigger] name[i])
}

/// A byte that may stand in a header value.
pub open spec fn is_value_byte(b: u8) -> bool {
    (b >= 32 && b != 127) || b == 9
}

/// Bytes that are accepted as a header value.
pub open spec fn valid_value(value: Seq<u8>) -> bool {
    forall|i: int| 0 <= i < value.len() ==> is_value_byte(#[trigger] value[i])
}

/// How a field gets into a collection, which decides whether it is accepted, under
/// which name it is stored and how that name is spelled on HTTP/1.1.
pub enum Intake {
    /// With a parsed name into a field map: always accepted.
    Stored,
    /// With a parsed name into a transport header, which parses the name again: a
    /// name with a double quote, which only HTTP/2 allows, is not accepted.
    Named,
    /// As text: both the name and the value are parsed.
    Text,
}

/// Whether a field is accepted.
pub open spec fn is_accepted(field: (Seq<char>, FieldValue), intake: Intake) -> bool {
    match intake {
        Intake::Stored => true,
        Intake::Named => valid_name(field.0),
        Intake::Text => valid_name(field.0) && valid_value(field.1.0),
    }
}

/// The name under which a field is stored.
pub open spec fn stored_name(name: Seq<char>, intake: Intake) -> Seq<char> {
    match intake {
        Intake::Text => ascii_lower(name),
        _ => name,
    }
}

/// How a transport header spells a name that it was handed: as it was written, or
/// in the usual way where it was parsed before.
pub open spec fn spelling(name: Seq<char>, intake: Intake) -> Seq<char> {
    match intake {
        Intake::Text => name,
        _ => titled(name),
    }
}

/// The usual spelling of a lower-case name: a few common ones have capitals.
pub open spec fn titled(name: Seq<char>) -> Seq<char> {
    if name == "accept-ranges"@ {
        "Accept-Ranges"@
    } else if name == "age"@ {
        "Age"@
    } else if name == "cache-control"@ {
        "Cache-Control"@
    } else if name == "connection"@ {
        "Connection"@
    } else if name == "content-type"@ {
        "Content-Type"@
    } else if name == "content-encoding"@ {
        "Content-Encoding"@
    } else if name == "content-length"@ {
        "Content-Length"@
    } else if name == "date"@ {
        "Date"@
    } else if name == "transfer-encoding"@ {
        "Transfer-Encoding"@
    } else if name == "host"@ {
        "Host"@
    } else if name == "server"@ {
        "Server"@
    } else if name == "set-cookie"@ {
        "Set-Cookie"@
    } else {
        name
    }
}

/// The accepted ones among the fields, under the names that they are stored with.
pub open spec fn accepted_fields(fields: Fields, intake: Intake) -> Fields
    decreases fields.len(),
{
    if fields.len() == 0 {
        Seq::empty()
    } else {
        let before = accepted_fields(fields.drop_last(), intake);
        if is_accepted(fields.last(), intake) {
            before.push((stored_name(fields.last().0, intake), fields.last().1))
        } else {
            before
        }
    }
}

/// The spellings of the accepted ones among the fields, under the same names.
pub open spec fn accepted_spellings(fields: Fields, intake: Intake) -> Seq<(Seq<char>, Seq<char>)>
    decreases fields.len(),
{
    if fields.len() == 0 {
        Seq::empty()
    } else {
        let before = accepted_spellings(fields.drop_last(), intake);
        if is_accepted(fields.last(), intake) {
            before.push((stored_name(fields.last().0, intake), spelling(fields.last().0, intake)))
        } else {
            before
        }
    }
}

/// One more field, seen from the lists of accepted ones.
pub proof fn lemma_accepted_push(fields: Fields, field: (Seq<char>, FieldValue), intake: Intake)
    ensures
        accepted_fields(fields.push(field), intake) == (if is_accepted(field, intake) {
            accepted_fields(fields, intake).push((stored_name(field.0, intake), field.1))
        } else {
            accepted_fields(fields, intake)
        }),
        accepted_spellings(fields.push(field), intake) == (if is_accepted(field, intake) {
            accepted_spellings(fields, intake).push(
                (stored_name(field.0, intake), spelling(field.0, intake)),
            )
        } else {
            accepted_spellings(fields, intake)
        }),
{
    assert(fields.push(field).drop_last() =~= fields);
}

/// `http::HeaderName::as_str` is the text of the name.
pub assume_specification[ HeaderName::as_str ](name: &HeaderName) -> (text: &str)
    ensures
        text@ == name_text(*name),
;

/// `http::HeaderValue::as_bytes` are the bytes of the value.
pub assume_specification[ HeaderValue::as_bytes ](value: &HeaderValue) -> (data: &[u8])
    ensures
        data@ == value_data(*value),
;

/// `http::HeaderName::from_bytes` accepts the names that may stand in a message of
/// HTTP/1.1, and lower-cases them.
#[verifier::external_body]
pub(crate) fn parse_name(text: &str) -> (name: Option<HeaderName>)
    ensures
        name is Some <==> valid_name(text@),
        name matches Some(parsed) ==> name_text(parsed) == ascii_lower(text@),
{
    HeaderName::from_bytes(text.as_bytes()).ok()
}

/// `http::HeaderValue::from_bytes` accepts the bytes that may stand in a value. The
/// value is not marked as sensitive.
#[verifier::external_body]
pub(crate) fn parse_value(data: &[u8]) -> (value: Option<HeaderValue>)
    ensures
        value is Some <==> valid_value(data@),
        value matches Some(parsed) ==> value_data(parsed) == data@ && !value_sensitive(parsed),
{
    HeaderValue::from_bytes(data).ok()
}

/// `http::HeaderMap::clone` copies every entry in order.
#[verifier::external_body]
pub(crate) fn map_clone(map: &HeaderMap) -> (copy: HeaderMap)
    ensures
        header_entries(copy) == header_entries(*map),
{
    map.clone()
}

/// `http::HeaderMap::iter` visits every field, the values of one name together
/// and oldest first.
#[verifier::external_body]
pub(crate) fn map_fields(map: &HeaderMap) -> (fields: Vec<(HeaderName, HeaderValue)>)
    ensures
        fields_view(fields@) == fields_of(header_entries(*map)),
{
    map.iter().map(|(name, value)| (name.clone(), value.clone())).collect()
}

/// `http::HeaderMap::get_all` visits the values under a name, oldest first.
#[verifier::external_body]
pub(crate) fn map_values(map: &HeaderMap, name: &HeaderName) -> (values: Vec<HeaderValue>)
    ensures
        values_view(values@) == entry_values(header_entries(*map), name_text(*name)),
{
    map.get_all(name).iter().cloned().collect()
}

/// `http::HeaderMap::contains_key` tells whether a value is stored under the
/// name.
#[verifier::external_body]
pub(crate) fn map_contains(map: &HeaderMap, name: &HeaderName) -> (found: bool)
    ensures
        found == has_entry(header_entries(*map), name_text(*name)),
{
    map.contains_key(name)
}

/// `http::HeaderMap::remove` drops every value under the name; the last entry
/// moves into the gap.
#[verifier::external_body]
pub(crate) fn map_remove(map: &mut HeaderMap, name: &HeaderName)
    ensures
        header_entries(*final(map)) == entries_remove(
            header_entries(*old(map)),
            name_text(*name),
        ),
{
    map.remove(name);
}

/// `http::HeaderMap::insert` replaces what is stored under the name.
#[verifier::external_body]
pub(crate) fn map_insert(map: &mut HeaderMap, name: &HeaderName, value: &HeaderValue)
    requires
        header_entries(*old(map)).len() < MAX_HEADER_NAMES,
    ensures
        header_entries(*final(map)) == entries_insert(
            header_entries(*old(map)),
            name_text(*name),
            value_view(*value),
        ),
{
    map.insert(name.clone(), value.clone());
}

/// The parsed form of a text that is a name.
pub(crate) fn known_name(text: &str) -> (name: HeaderName)
    requires
        valid_name(text@),
    ensures
        name_text(name) == ascii_lower(text@),
{
    parse_name(text).unwrap()
}

/// No name occurs in two entries.
pub open spec fn distinct_names<V>(entries: Seq<(Seq<char>, Seq<V>)>) -> bool {
    forall|i: int, j: int|
        0 <= i < j < entries.len() ==> #[trigger] entries[i].0 != #[trigger] entries[j].0
}

/// The position of an entry is the first one with its name.
pub proof fn lemma_entry_index<V>(entries: Seq<(Seq<char>, Seq<V>)>, name: Seq<char>)
    ensures
        0 <= entry_index(entries, name) <= entries.len(),
        forall|i: int| 0 <= i < entry_index(entries, name) ==> #[trigger] entries[i].0 != name,
        has_entry(entries, name) ==> entries[entry_index(entries, name)].0 == name,
    decreases entries.len(),
{
    if entries.len() > 0 && entries[0].0 != name {
        let rest = entries.drop_first();
        lemma_entry_index(rest, name);
        assert forall|i: int| 0 <= i < entry_index(entries, name) implies #[trigger] entries[i].0
            != name by {
            if i > 0 {
                assert(entries[i] == rest[i - 1]);
            }
        }
    }
}

/// A position with the name and none before it is the position of the entry.
pub proof fn lemma_entry_index_unique<V>(
    entries: Seq<(Seq<char>, Seq<V>)>,
    name: Seq<char>,
    at: int,
)
    requires
        0 <= at <= entries.len(),
        forall|i: int| 0 <= i < at ==> #[trigger] entries[i].0 != name,
        at < entries.len() ==> entries[at].0 == name,
    ensures
        entry_index(entries, name) == at,
{
    lemma_entry_index(entries, name);
    let found = entry_index(entries, name);
    if found < at {
        assert(entries[found].0 != name);
    } else if at < found {
        assert(entries[at].0 != name);
    }
}

/// Replacing an entry by one of the same name moves no other entry.
proof fn lemma_update_entry<V>(
    entries: Seq<(Seq<char>, Seq<V>)>,
    name: Seq<char>,
    values: Seq<V>,
    other: Seq<char>,
)
    requires
        has_entry(entries, name),
    ensures
        entry_index(entries.update(entry_index(entries, name), (name, values)), other)
            == entry_index(entries, other),
{
    let at = entry_index(entries, name);
    let after = entries.update(at, (name, values));
    lemma_entry_index(entries, name);
    lemma_entry_index(entries, other);
    let found = entry_index(entries, other);
    assert forall|i: int| 0 <= i < found implies #[trigger] after[i].0 != other by {
        assert(after[i].0 == entries[i].0);
    }
    if found < entries.len() {
        assert(after[found].0 == entries[found].0);
    }
    lemma_entry_index_unique(after, other, found);
}

/// A new last entry moves no other entry.
proof fn lemma_push_entry<V>(
    entries: Seq<(Seq<char>, Seq<V>)>,
    entry: (Seq<char>, Seq<V>),
    other: Seq<char>,
)
    requires
        !has_entry(entries, entry.0),
    ensures
        other != entry.0 && !has_entry(entries, other) ==> !has_entry(entries.push(entry), other),
        other == entry.0 || has_entry(entries, other) ==> entry_index(entries.push(entry), other)
            == entry_index(entries, other),
{
    let after = entries.push(entry);
    lemma_entry_index(entries, other);
    let found = entry_index(entries, other);
    assert forall|i: int| 0 <= i < found implies #[trigger] after[i].0 != other by {
        assert(after[i] == entries[i]);
    }
    if found < entries.len() {
        assert(after[found] == entries[found]);
        lemma_entry_index_unique(after, other, found);
    } else if other == entry.0 {
        lemma_entry_index_unique(after, other, found);
    } else {
        lemma_entry_index_unique(after, other, after.len() as int);
    }
}

/// Appending adds one value under its name and leaves the other names alone.
pub proof fn lemma_append<V>(
    entries: Seq<(Seq<char>, Seq<V>)>,
    name: Seq<char>,
    value: V,
    other: Seq<char>,
)
    ensures
        has_entry(entries_append(entries, name, value), other) <==> other == name || has_entry(
            entries,
            other,
        ),
        entry_values(entries_append(entries, name, value), other) == (if other == name {
            entry_values(entries, name).push(value)
        } else {
            entry_values(entries, other)
        }),
        entries_append(entries, name, value).len() <= entries.len() + 1,
{
    lemma_entry_index(entries, name);
    lemma_entry_index(entries, other);
    if has_entry(entries, name) {
        let at = entry_index(entries, name);
        lemma_update_entry(entries, name, entries[at].1.push(value), other);
    } else {
        lemma_push_entry(entries, (name, seq![value]), other);
        assert(Seq::<V>::empty().push(value) =~= seq![value]);
    }
}

/// Inserting makes one value the only one under its name and leaves the other
/// names alone.
pub proof fn lemma_insert<V>(
    entries: Seq<(Seq<char>, Seq<V>)>,
    name: Seq<char>,
    value: V,
    other: Seq<char>,
)
    ensures
        has_entry(entries_insert(entries, name, value), other) <==> other == name || has_entry(
            entries,
            other,
        ),
        entry_values(entries_insert(entries, name, value), other) == (if other == name {
            seq![value]
        } else {
            entry_values(entries, other)
        }),
        entries_insert(entries, name, value).len() <= entries.len() + 1,
{
    lemma_entry_index(entries, name);
    lemma_entry_index(entries, other);
    if has_entry(entries, name) {
        lemma_update_entry(entries, name, seq![value], other);
    } else {
        lemma_push_entry(entries, (name, seq![value]), other);
    }
}

/// Removing drops a name and leaves the others alone.
pub proof fn lemma_remove<V>(
    entries: Seq<(Seq<char>, Seq<V>)>,
    name: Seq<char>,
    other: Seq<char>,
)
    requires
        distinct_names(entries),
    ensures
        has_entry(entries_remove(entries, name), other) <==> other != name && has_entry(
            entries,
            other,
        ),
        other != name ==> entry_values(entries_remove(entries, name), other) == entry_values(
            entries,
            other,
        ),
        distinct_names(entries_remove(entries, name)),
{
    lemma_entry_index(entries, name);
    lemma_entry_index(entries, other);
    if has_entry(entries, name) {
        let at = entry_index(entries, name);
        let found = entry_index(entries, other);
        let after = entries_remove(entries, name);
        let last = entries.len() - 1;
        assert forall|i: int| 0 <= i < after.len() implies #[trigger] after[i] == (if i == at {
            entries[last]
        } else {
            entries[i]
        }) by {
        }
        assert forall|i: int, j: int| 0 <= i < j < after.len() implies #[trigger] after[i].0
            != #[trigger] after[j].0 by {
            if i == at {
                assert(entries[j].0 != entries[last].0);
            } else if j == at {
                assert(entries[i].0 != entries[last].0);
            } else {
                assert(entries[i].0 != entries[j].0);
            }
        }
        if other == name || found == entries.len() {
            assert forall|i: int| 0 <= i < after.len() implies #[trigger] after[i].0 != other by {
                if other == name {
                    let from = if i == at {
                        last
                    } else {
                        i
                    };
                    assert(from != at);
                    if from < at {
                        assert(entries[from].0 != entries[at].0);
                    } else {
                        assert(entries[at].0 != entries[from].0);
                    }
                } else {
                    assert(entries[i].0 != other);
                    assert(entries[last].0 != other);
                }
            }
            lemma_entry_index_unique(after, other, after.len() as int);
        } else {
            let to = if found == last {
                at
            } else {
                found
            };
            assert(after[to] == entries[found]);
            assert forall|i: int| 0 <= i < to implies #[trigger] after[i].0 != other by {
                assert(after[i].0 != after[to].0);
            }
            lemma_entry_index_unique(after, other, to);
        }
    }
}

/// The entries after each item was appended in turn.
pub open spec fn appended<V>(
    entries: Seq<(Seq<char>, Seq<V>)>,
    items: Seq<(Seq<char>, V)>,
) -> Seq<(Seq<char>, Seq<V>)>
    decreases items.len(),
{
    if items.len() == 0 {
        entries
    } else {
        entries_append(appended(entries, items.drop_last()), items.last().0, items.last().1)
    }
}

/// The values of the items under a name, in order.
pub open spec fn values_under<V>(items: Seq<(Seq<char>, V)>, name: Seq<char>) -> Seq<V>
    decreases items.len(),
{
    if items.len() == 0 {
        Seq::empty()
    } else if items.last().0 == name {
        values_under(items.drop_last(), name).push(items.last().1)
    } else {
        values_under(items.drop_last(), name)
    }
}

/// One more item.
pub proof fn lemma_appended_push<V>(
    entries: Seq<(Seq<char>, Seq<V>)>,
    items: Seq<(Seq<char>, V)>,
    item: (Seq<char>, V),
)
    ensures
        appended(entries, items.push(item)) == entries_append(
            appended(entries, items),
            item.0,
            item.1,
        ),
{
    assert(items.push(item).drop_last() =~= items);
}

/// Appending items adds their values in order, name by name.
pub proof fn lemma_appended<V>(
    entries: Seq<(Seq<char>, Seq<V>)>,
    items: Seq<(Seq<char>, V)>,
    name: Seq<char>,
)
    ensures
        entry_values(appended(entries, items), name) == entry_values(entries, name) + values_under(
            items,
            name,
        ),
        has_entry(appended(entries, items), name) <==> has_entry(entries, name) || values_under(
            items,
            name,
        ).len() > 0,
    decreases items.len(),
{
    if items.len() > 0 {
        let shorter = items.drop_last();
        lemma_appended(entries, shorter, name);
        lemma_append(appended(entries, shorter), items.last().0, items.last().1, name);
        assert(entry_values(appended(entries, items), name) =~= entry_values(entries, name)
            + values_under(items, name));
    } else {
        assert(entry_values(entries, name) + Seq::<V>::empty() =~= entry_values(entries, name));
    }
}

/// Appending items one after the other never takes an entry away.
pub proof fn lemma_appended_grows<V>(
    entries: Seq<(Seq<char>, Seq<V>)>,
    first: Seq<(Seq<char>, V)>,
    more: Seq<(Seq<char>, V)>,
)
    ensures
        appended(entries, first).len() <= appended(entries, first + more).len(),
    decreases more.len(),
{
    if more.len() == 0 {
        assert(first + more =~= first);
    } else {
        lemma_appended_grows(entries, first, more.drop_last());
        assert((first + more).drop_last() =~= first + more.drop_last());
        let before = appended(entries, first + more.drop_last());
        lemma_entry_index(before, more.last().0);
    }
}

/// Items are appended in two goes as they are in one.
pub proof fn lemma_appended_concat<V>(
    entries: Seq<(Seq<char>, Seq<V>)>,
    first: Seq<(Seq<char>, V)>,
    second: Seq<(Seq<char>, V)>,
)
    ensures
        appended(entries, first + second) == appended(appended(entries, first), second),
    decreases second.len(),
{
    if second.len() == 0 {
        assert(first + second =~= first);
    } else {
        lemma_appended_concat(entries, first, second.drop_last());
        assert((first + second).drop_last() =~= first + second.drop_last());
        assert((first + second).last() == second.last());
    }
}

/// The values under a name of two lists in a row are those of the first and then
/// those of the second.
pub proof fn lemma_values_under_concat<V>(
    first: Seq<(Seq<char>, V)>,
    second: Seq<(Seq<char>, V)>,
    name: Seq<char>,
)
    ensures
        values_under(first + second, name) == values_under(first, name) + values_under(
            second,
            name,
        ),
    decreases second.len(),
{
    if second.len() == 0 {
        assert(first + second =~= first);
        assert(values_under(first, name) + Seq::<V>::empty() =~= values_under(first, name));
    } else {
        lemma_values_under_concat(first, second.drop_last(), name);
        assert((first + second).drop_last() =~= first + second.drop_last());
        assert((first + second).last() == second.last());
        assert(values_under(first + second, name) =~= values_under(first, name) + values_under(
            second,
            name,
        ));
    }
}

/// Every item has a name that is among the entries.
pub open spec fn names_among<V, W>(
    items: Seq<(Seq<char>, V)>,
    entries: Seq<(Seq<char>, Seq<W>)>,
) -> bool {
    forall|i: int| 0 <= i < items.len() ==> has_entry(entries, #[trigger] items[i].0)
}

/// Appending an item keeps the names distinct.
proof fn lemma_append_distinct<V>(
    entries: Seq<(Seq<char>, Seq<V>)>,
    name: Seq<char>,
    value: V,
)
    requires
        distinct_names(entries),
    ensures
        distinct_names(entries_append(entries, name, value)),
{
    lemma_entry_index(entries, name);
    let after = entries_append(entries, name, value);
    assert forall|i: int, j: int| 0 <= i < j < after.len() implies #[trigger] after[i].0
        != #[trigger] after[j].0 by {
        if j < entries.len() {
            assert(after[i].0 == entries[i].0);
            assert(after[j].0 == entries[j].0);
        } else {
            assert(after[i].0 == entries[i].0);
        }
    }
}

/// Items whose names are among the entries make no more entries than those.
pub proof fn lemma_appended_few<V, W>(
    items: Seq<(Seq<char>, V)>,
    entries: Seq<(Seq<char>, Seq<W>)>,
)
    requires
        names_among(items, entries),
    ensures
        appended(Seq::empty(), items).len() <= entries.len(),
{
    lemma_appended_names(items, entries);
    let made = appended(Seq::empty(), items);
    let ours = Seq::new(made.len(), |i: int| made[i].0);
    let theirs = Seq::new(entries.len(), |i: int| entries[i].0);
    assert forall|i: int, j: int| 0 <= i < ours.len() && 0 <= j < ours.len() && i != j implies
        ours[i] != ours[j] by {
        if i < j {
            assert(made[i].0 != made[j].0);
        } else {
            assert(made[j].0 != made[i].0);
        }
    }
    ours.unique_seq_to_set();
    theirs.lemma_cardinality_of_set();
    vstd::seq_lib::seq_to_set_is_finite(theirs);
    assert forall|name: Seq<char>| ours.to_set().contains(name) implies theirs.to_set().contains(
        name,
    ) by {
        let i = choose|i: int| 0 <= i < ours.len() && ours[i] == name;
        assert(has_entry(entries, made[i].0));
        lemma_entry_index(entries, made[i].0);
        assert(theirs[entry_index(entries, made[i].0)] == name);
    }
    vstd::set_lib::lemma_len_subset(ours.to_set(), theirs.to_set());
}

/// Items whose names are among the entries make entries with distinct names that are
/// among them too.
pub proof fn lemma_appended_names<V, W>(
    items: Seq<(Seq<char>, V)>,
    entries: Seq<(Seq<char>, Seq<W>)>,
)
    requires
        names_among(items, entries),
    ensures
        distinct_names(appended(Seq::empty(), items)),
        forall|i: int|
            0 <= i < appended(Seq::<(Seq<char>, Seq<V>)>::empty(), items).len() ==> has_entry(
                entries,
                #[trigger] appended(Seq::<(Seq<char>, Seq<V>)>::empty(), items)[i].0,
            ),
    decreases items.len(),
{
    if items.len() > 0 {
        let shorter = items.drop_last();
        assert forall|i: int| 0 <= i < shorter.len() implies has_entry(
            entries,
            #[trigger] shorter[i].0,
        ) by {
            assert(has_entry(entries, items[i].0));
        }
        lemma_appended_names(shorter, entries);
        let before = appended(Seq::<(Seq<char>, Seq<V>)>::empty(), shorter);
        lemma_append_distinct(before, items.last().0, items.last().1);
        lemma_entry_index(before, items.last().0);
        assert(has_entry(entries, items[items.len() - 1].0));
        let after = entries_append(before, items.last().0, items.last().1);
        assert forall|i: int| 0 <= i < after.len() implies has_entry(
            entries,
            #[trigger] after[i].0,
        ) by {
            if i < before.len() {
                assert(has_entry(entries, before[i].0));
            }
        }
    }
}

/// The fields of entries have names that are among them.
pub proof fn lemma_field_names<V>(entries: Seq<(Seq<char>, Seq<V>)>, i: int)
    requires
        0 <= i < fields_of(entries).len(),
    ensures
        has_entry(entries, fields_of(entries)[i].0),
        exists|k: int|
            0 <= k < entries.len() && (#[trigger] entries[k]).0 == fields_of(entries)[i].0,
    decreases entries.len(),
{
    let shorter = entries.drop_last();
    let start = fields_of(shorter).len();
    let name = fields_of(entries)[i].0;
    let at = if i < start {
        lemma_field_names(shorter, i);
        let k = choose|k: int|
            0 <= k < shorter.len() && (#[trigger] shorter[k]).0 == fields_of(shorter)[i].0;
        assert(entries[k] == shorter[k]);
        k
    } else {
        assert(fields_of(entries)[i] == entry_fields(entries.last())[i - start]);
        entries.len() - 1
    };
    assert(entries[at].0 == name);
    lemma_entry_index(entries, name);
    if entry_index(entries, name) == entries.len() {
        assert(entries[at].0 != name);
    }
}

/// Accepted fields with parsed names have names among the entries that the fields
/// are from.
pub proof fn lemma_accepted_among(fields: Fields, entries: Entries)
    requires
        names_among(fields, entries),
    ensures
        names_among(accepted_fields(fields, Intake::Named), entries),
    decreases fields.len(),
{
    if fields.len() > 0 {
        let shorter = fields.drop_last();
        assert forall|i: int| 0 <= i < shorter.len() implies has_entry(
            entries,
            #[trigger] shorter[i].0,
        ) by {
            assert(has_entry(entries, fields[i].0));
        }
        lemma_accepted_among(shorter, entries);
        assert(has_entry(entries, fields[fields.len() - 1].0));
        let before = accepted_fields(shorter, Intake::Named);
        let after = accepted_fields(fields, Intake::Named);
        assert forall|i: int| 0 <= i < after.len() implies has_entry(
            entries,
            #[trigger] after[i].0,
        ) by {
            if i < before.len() {
                assert(has_entry(entries, before[i].0));
            }
        }
    }
}

/// The first fields of entries have names that are among them.
pub proof fn lemma_fields_among(entries: Entries, i: int)
    requires
        0 <= i <= fields_of(entries).len(),
    ensures
        names_among(fields_of(entries).take(i), entries),
{
    assert forall|j: int| 0 <= j < i implies has_entry(
        entries,
        #[trigger] fields_of(entries).take(i)[j].0,
    ) by {
        lemma_field_names(entries, j);
    }
}

/// Copying fields whose names are among the entries makes no more entries than
/// those, and adds no name.
pub proof fn lemma_copied_few(fields: Fields, entries: Entries, name: Seq<char>)
    requires
        names_among(fields, entries),
    ensures
        appended(Entries::empty(), accepted_fields(fields, Intake::Named)).len() <= entries.len(),
        has_entry(
            appended(Entries::empty(), accepted_fields(fields, Intake::Named)),
            name,
        ) ==> has_entry(entries, name),
{
    let items = accepted_fields(fields, Intake::Named);
    lemma_accepted_among(fields, entries);
    lemma_appended_few(items, entries);
    lemma_appended_names(items, entries);
    let made = appended(Entries::empty(), items);
    lemma_entry_index(made, name);
    if has_entry(made, name) {
        assert(has_entry(entries, made[entry_index(made, name)].0));
    }
}

/// Fields whose names a transport header accepts are all accepted as they are.
pub proof fn lemma_all_accepted(fields: Fields)
    requires
        forall|i: int| 0 <= i < fields.len() ==> valid_name((#[trigger] fields[i]).0),
    ensures
        accepted_fields(fields, Intake::Named) == fields,
    decreases fields.len(),
{
    if fields.len() > 0 {
        let shorter = fields.drop_last();
        assert forall|i: int| 0 <= i < shorter.len() implies valid_name(
            (#[trigger] shorter[i]).0,
        ) by {
            assert(shorter[i] == fields[i]);
        }
        lemma_all_accepted(shorter);
        assert(valid_name(fields[fields.len() - 1].0));
    }
    assert(accepted_fields(fields, Intake::Named) =~= fields);
}

/// A text prefix of a reserved internal header name.
pub const RESERVED_PROXY_PREFIX: &'static str = "x-praxis-";

/// A text prefix of a reserved extension header name.
pub const RESERVED_EXTENSION_PREFIX: &'static str = "x-ext-";

/// A name that is internal to the proxy, whatever its case.
pub open spec fn is_reserved_name(name: Seq<char>) -> bool {
    ||| RESERVED_PROXY_PREFIX@.is_prefix_of(ascii_lower(name))
    ||| RESERVED_EXTENSION_PREFIX@.is_prefix_of(ascii_lower(name))
}

/// The ASCII lower-case form of a character.
pub fn to_lower(c: char) -> (lower: char)
    ensures
        lower == lower_char(c),
{
    if 'A' <= c && c <= 'Z' {
        (c as u8 + 32) as char
    } else {
        c
    }
}

/// Whether a text starts with a lower-case prefix, whatever the text's case.
fn starts_with_lower(text: &[char], prefix: &[char]) -> (starts: bool)
    ensures
        starts == prefix@.is_prefix_of(ascii_lower(text@)),
{
    if text.len() < prefix.len() {
        return false;
    }
    let mut i: usize = 0;
    while i < prefix.len()
        invariant
            i <= prefix@.len() <= text@.len(),
            forall|j: int| 0 <= j < i ==> prefix@[j] == lower_char(text@[j]),
        decreases prefix@.len() - i,
    {
        if to_lower(text[i]) != prefix[i] {
            let ghost start = ascii_lower(text@).subrange(0, prefix@.len() as int);
            assert(start[i as int] != prefix@[i as int]);
            return false;
        }
        i += 1;
    }
    assert(prefix@ =~= ascii_lower(text@).subrange(0, prefix@.len() as int));
    true
}

/// Whether a header name is internal to the proxy, whatever its case.
pub fn is_reserved(name: &str) -> (reserved: bool)
    ensures
        reserved == is_reserved_name(name@),
{
    let chars = chars_of(name);
    starts_with_lower(chars.as_slice(), chars_of(RESERVED_PROXY_PREFIX).as_slice())
        || starts_with_lower(chars.as_slice(), chars_of(RESERVED_EXTENSION_PREFIX).as_slice())
}

/// Whether a header name is the given lower-case one, whatever its case.
pub fn is_named(name: &str, lower: &str) -> (named: bool)
    ensures
        named == (ascii_lower(name@) == lower@),
{
    let chars = chars_of(name);
    let wanted = chars_of(lower);
    if chars.len() != wanted.len() {
        return false;
    }
    let starts = starts_with_lower(chars.as_slice(), wanted.as_slice());
    assert(ascii_lower(name@).subrange(0, lower@.len() as int) =~= ascii_lower(name@));
    starts
}

/// Lower-casing twice is lower-casing once.
pub proof fn lemma_lower_idempotent(name: Seq<char>)
    ensures
        ascii_lower(ascii_lower(name)) == ascii_lower(name),
{
    assert(ascii_lower(ascii_lower(name)) =~= ascii_lower(name));
}

} // verus!
