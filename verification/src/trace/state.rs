//! W3C `tracestate`: member grammar, parsing and canonical serialization.
use crate::text::{chars_of, same_chars, text_of};
use crate::trace::split::{
    first_index, index_of, lemma_first_index, lemma_first_index_unique, lemma_split_append,
    lemma_split_single, parts_view, slice_of, split, split_chars,
};
use vstd::prelude::*;

verus! {

/// Maximum number of list members in a `tracestate`.
pub const MAX_TRACESTATE_MEMBERS: usize = 32;

/// Size up to which a combined `tracestate` is propagated.
pub const MAX_TRACESTATE_LEN: usize = 512;

/// Optional white space: a space or a tab.
pub open spec fn is_ows(c: char) -> bool {
    c == ' ' || c == '\t'
}

/// `s` without leading white space.
pub open spec fn trim_start(s: Seq<char>) -> Seq<char>
    decreases s.len(),
{
    if s.len() > 0 && is_ows(s[0]) {
        trim_start(s.drop_first())
    } else {
        s
    }
}

/// `s` without trailing white space.
pub open spec fn trim_end(s: Seq<char>) -> Seq<char>
    decreases s.len(),
{
    if s.len() > 0 && is_ows(s.last()) {
        trim_end(s.drop_last())
    } else {
        s
    }
}

/// `s` without white space at either end.
pub open spec fn trimmed(s: Seq<char>) -> Seq<char> {
    trim_end(trim_start(s))
}

/// A lower-case ASCII letter.
pub open spec fn is_lcalpha_char(c: char) -> bool {
    'a' <= c && c <= 'z'
}

/// A decimal digit.
pub open spec fn is_digit_char(c: char) -> bool {
    '0' <= c && c <= '9'
}

/// A character that may follow the first one of an identifier in a key.
pub open spec fn is_key_char(c: char) -> bool {
    is_lcalpha_char(c) || is_digit_char(c) || c == '_' || c == '-' || c == '*' || c == '/'
}

/// An identifier of at most `max` characters that starts with a letter, or with
/// a digit where `digit_first` allows it.
pub open spec fn is_key_id(s: Seq<char>, max: nat, digit_first: bool) -> bool {
    &&& 0 < s.len() <= max
    &&& is_lcalpha_char(s[0]) || (digit_first && is_digit_char(s[0]))
    &&& forall|i: int| 0 < i < s.len() ==> is_key_char(#[trigger] s[i])
}

/// A member key: a simple key, or a tenant and a system joined by one `@`.
pub open spec fn is_member_key(key: Seq<char>) -> bool {
    let at = first_index(key, '@');
    if at == key.len() {
        is_key_id(key, 256, false)
    } else {
        &&& is_key_id(key.take(at), 241, true)
        &&& is_key_id(key.skip(at + 1), 14, false)
    }
}

/// Printable ASCII other than the comma and the equals sign.
pub open spec fn is_value_char(c: char) -> bool {
    ' ' <= c && c <= '~' && c != ',' && c != '='
}

/// A member value: up to 256 value characters, not ending in a space.
pub open spec fn is_member_value(value: Seq<char>) -> bool {
    &&& 0 < value.len() <= 256
    &&& forall|i: int| 0 <= i < value.len() ==> is_value_char(#[trigger] value[i])
    &&& value.last() != ' '
}

/// The key of a list member: what stands before its first equals sign.
pub open spec fn member_key(member: Seq<char>) -> Seq<char> {
    let m = trimmed(member);
    trimmed(m.take(first_index(m, '=')))
}

/// The value of a list member: what stands after its first equals sign.
pub open spec fn member_value(member: Seq<char>) -> Seq<char> {
    let m = trimmed(member);
    trimmed(m.skip(first_index(m, '=') + 1))
}

/// A well-formed list member.
pub open spec fn is_member(member: Seq<char>) -> bool {
    let m = trimmed(member);
    &&& first_index(m, '=') < m.len()
    &&& is_member_key(member_key(member))
    &&& is_member_value(member_value(member))
}

/// The key and value of every list member of a combined `tracestate`.
pub open spec fn members_of(combined: Seq<char>) -> Seq<(Seq<char>, Seq<char>)> {
    let parts = split(combined, ',');
    Seq::new(parts.len(), |i: int| (member_key(parts[i]), member_value(parts[i])))
}

/// A combined `tracestate` that is kept: well-formed members, no more than the
/// maximum, and no key twice.
pub open spec fn valid_tracestate(combined: Seq<char>) -> bool {
    let parts = split(combined, ',');
    &&& parts.len() <= MAX_TRACESTATE_MEMBERS
    &&& forall|i: int| 0 <= i < parts.len() ==> is_member(#[trigger] parts[i])
    &&& forall|i: int, j: int|
        0 <= i < j < parts.len() ==> #[trigger] members_of(combined)[i].0 != #[trigger] members_of(
            combined,
        )[j].0
}

/// `key=value`.
pub open spec fn member_text(member: (Seq<char>, Seq<char>)) -> Seq<char> {
    member.0.push('=') + member.1
}

/// The members in order, separated by commas.
pub open spec fn joined_members(members: Seq<(Seq<char>, Seq<char>)>) -> Seq<char>
    decreases members.len(),
{
    if members.len() == 0 {
        Seq::empty()
    } else if members.len() == 1 {
        member_text(members[0])
    } else {
        joined_members(members.drop_last()).push(',') + member_text(members.last())
    }
}

/// The number of members in the longest run from the first one on that stays
/// within the propagated size.
pub open spec fn kept_members(members: Seq<(Seq<char>, Seq<char>)>) -> nat
    decreases members.len(),
{
    if members.len() == 0 {
        0
    } else {
        let kept = kept_members(members.drop_last());
        if kept == members.len() - 1 && joined_members(members).len() <= MAX_TRACESTATE_LEN {
            members.len()
        } else {
            kept
        }
    }
}

/// The propagated form of validated members: right-most entries are dropped to
/// stay within the propagated size; nothing is left when the first does not fit.
pub open spec fn serialized_members(members: Seq<(Seq<char>, Seq<char>)>) -> Option<Seq<char>> {
    if kept_members(members) == 0 {
        None
    } else {
        Some(joined_members(members.take(kept_members(members) as int)))
    }
}

/// What a combined `tracestate` is propagated as, if at all.
pub open spec fn parsed_tracestate(combined: Seq<char>) -> Option<Seq<char>> {
    if valid_tracestate(combined) {
        serialized_members(members_of(combined))
    } else {
        None
    }
}

/// Key and value pairs read by their views.
pub open spec fn members_view(members: Seq<(Vec<char>, Vec<char>)>) -> Seq<(Seq<char>, Seq<char>)> {
    Seq::new(members.len(), |i: int| (members[i].0@, members[i].1@))
}

/// An optional text read by its view.
pub open spec fn text_view(text: Option<String>) -> Option<Seq<char>> {
    match text {
        Some(t) => Some(t@),
        None => None,
    }
}

/// Leading white space is what is trimmed at the start.
pub proof fn lemma_trim_start(s: Seq<char>, n: int)
    requires
        0 <= n <= s.len(),
        forall|i: int| 0 <= i < n ==> is_ows(s[i]),
        n < s.len() ==> !is_ows(s[n]),
    ensures
        trim_start(s) == s.skip(n),
    decreases s.len(),
{
    if n > 0 {
        assert(is_ows(s[0]));
        assert forall|i: int| 0 <= i < n - 1 implies is_ows(s.drop_first()[i]) by {
            assert(is_ows(s[i + 1]));
        }
        lemma_trim_start(s.drop_first(), n - 1);
        assert(s.drop_first().skip(n - 1) == s.skip(n));
    } else {
        assert(s.skip(0) == s);
    }
}

/// Trailing white space is what is trimmed at the end.
pub proof fn lemma_trim_end(s: Seq<char>, n: int)
    requires
        0 <= n <= s.len(),
        forall|i: int| n <= i < s.len() ==> is_ows(s[i]),
        n > 0 ==> !is_ows(s[n - 1]),
    ensures
        trim_end(s) == s.take(n),
    decreases s.len(),
{
    if n < s.len() {
        assert(is_ows(s[s.len() - 1]));
        lemma_trim_end(s.drop_last(), n);
        assert(s.drop_last().take(n) == s.take(n));
    } else {
        assert(s.take(n) == s);
    }
}

/// Strips spaces and tabs from both ends.
pub fn trim_ows(s: &[char]) -> (part: Vec<char>)
    ensures
        part@ == trimmed(s@),
{
    let mut from: usize = 0;
    while from < s.len() && (s[from] == ' ' || s[from] == '\t')
        invariant
            from <= s@.len(),
            forall|i: int| 0 <= i < from ==> is_ows(s@[i]),
        decreases s@.len() - from,
    {
        from += 1;
    }
    proof {
        lemma_trim_start(s@, from as int);
    }
    let ghost rest = s@.skip(from as int);
    let mut to: usize = s.len();
    while to > from && (s[to - 1] == ' ' || s[to - 1] == '\t')
        invariant
            from <= to <= s@.len(),
            rest == s@.skip(from as int),
            forall|i: int| to - from <= i < rest.len() ==> is_ows(rest[i]),
        decreases to,
    {
        to -= 1;
        assert(rest[to - from] == s@[to as int]);
    }
    proof {
        if to > from {
            assert(rest[to - from - 1] == s@[to - 1]);
        }
        lemma_trim_end(rest, to - from);
        assert(rest.take(to - from) == s@.subrange(from as int, to as int));
    }
    slice_of(s, from, to)
}

/// A lower-case ASCII letter.
fn is_lcalpha(c: char) -> (yes: bool)
    ensures
        yes == is_lcalpha_char(c),
{
    'a' <= c && c <= 'z'
}

/// A character that may follow the first one of an identifier in a key.
fn is_simple_keychar(c: char) -> (yes: bool)
    ensures
        yes == is_key_char(c),
{
    is_lcalpha(c) || ('0' <= c && c <= '9') || c == '_' || c == '-' || c == '*' || c == '/'
}

/// Whether `s` is an identifier of at most `max` characters.
fn is_identifier(s: &[char], max: usize, digit_first: bool) -> (yes: bool)
    ensures
        yes == is_key_id(s@, max as nat, digit_first),
{
    if s.len() == 0 || s.len() > max {
        return false;
    }
    let first: char = s[0];
    if !(is_lcalpha(first) || (digit_first && '0' <= first && first <= '9')) {
        return false;
    }
    let mut i: usize = 1;
    while i < s.len()
        invariant
            1 <= i <= s@.len(),
            forall|j: int| 0 < j < i ==> is_key_char(#[trigger] s@[j]),
        decreases s@.len() - i,
    {
        if !is_simple_keychar(s[i]) {
            return false;
        }
        i += 1;
    }
    true
}

/// `simple-key = lcalpha 0*255(lcalpha / DIGIT / "_" / "-" / "*" / "/")`.
fn is_simple_tracestate_key(key: &[char]) -> (yes: bool)
    ensures
        yes == is_key_id(key@, 256, false),
{
    is_identifier(key, 256, false)
}

/// `tenant-id = (lcalpha / DIGIT) 0*240(lcalpha / DIGIT / "_" / "-" / "*" / "/")`.
fn is_tenant_id(id: &[char]) -> (yes: bool)
    ensures
        yes == is_key_id(id@, 241, true),
{
    is_identifier(id, 241, true)
}

/// `system-id = lcalpha 0*13(lcalpha / DIGIT / "_" / "-" / "*" / "/")`.
fn is_system_id(id: &[char]) -> (yes: bool)
    ensures
        yes == is_key_id(id@, 14, false),
{
    is_identifier(id, 14, false)
}

/// Whether `key` is a simple key or a tenant key.
fn is_valid_tracestate_key(key: &[char]) -> (yes: bool)
    ensures
        yes == is_member_key(key@),
{
    let at = index_of(key, '@');
    if at == key.len() {
        return is_simple_tracestate_key(key);
    }
    let tenant = slice_of(key, 0, at);
    let system = slice_of(key, at + 1, key.len());
    assert(tenant@ == key@.take(at as int));
    assert(system@ == key@.skip(at + 1));
    is_tenant_id(tenant.as_slice()) && is_system_id(system.as_slice())
}

/// Whether `value` is a member value.
fn is_valid_tracestate_value(value: &[char]) -> (yes: bool)
    ensures
        yes == is_member_value(value@),
{
    if value.len() == 0 || value.len() > 256 {
        return false;
    }
    let mut i: usize = 0;
    while i < value.len()
        invariant
            i <= value@.len(),
            forall|j: int| 0 <= j < i ==> is_value_char(#[trigger] value@[j]),
        decreases value@.len() - i,
    {
        let c: char = value[i];
        if !(' ' <= c && c <= '~' && c != ',' && c != '=') {
            assert(!is_value_char(value@[i as int]));
            return false;
        }
        i += 1;
    }
    value[value.len() - 1] != ' '
}

/// Parses one list member into its key and value. `None` if malformed.
fn parse_member(member: &[char]) -> (parsed: Option<(Vec<char>, Vec<char>)>)
    ensures
        parsed is Some <==> is_member(member@),
        parsed matches Some((key, value)) ==> {
            &&& key@ == member_key(member@)
            &&& value@ == member_value(member@)
        },
{
    let trimmed_member = trim_ows(member);
    let m = trimmed_member.as_slice();
    let at = index_of(m, '=');
    if at == m.len() {
        return None;
    }
    let before = slice_of(m, 0, at);
    let after = slice_of(m, at + 1, m.len());
    assert(before@ == m@.take(at as int));
    assert(after@ == m@.skip(at + 1));
    let key = trim_ows(before.as_slice());
    let value = trim_ows(after.as_slice());
    if !is_valid_tracestate_key(key.as_slice()) || !is_valid_tracestate_value(value.as_slice()) {
        return None;
    }
    Some((key, value))
}

/// Whether `key` is one of the members' keys.
fn has_key(members: &Vec<(Vec<char>, Vec<char>)>, key: &[char]) -> (found: bool)
    ensures
        found == exists|i: int|
            0 <= i < members@.len() && #[trigger] members_view(members@)[i].0 == key@,
{
    let mut i: usize = 0;
    while i < members.len()
        invariant
            i <= members@.len(),
            forall|j: int| 0 <= j < i ==> #[trigger] members_view(members@)[j].0 != key@,
        decreases members@.len() - i,
    {
        if same_chars(members[i].0.as_slice(), key) {
            assert(members_view(members@)[i as int].0 == key@);
            return true;
        }
        i += 1;
    }
    false
}

/// Parses `tracestate` list members. `None` if malformed or if a key occurs
/// twice.
pub fn parse_tracestate(combined: &str) -> (parsed: Option<String>)
    ensures
        text_view(parsed) == parsed_tracestate(combined@),
{
    let chars = chars_of(combined);
    let parts = split_chars(chars.as_slice(), ',');
    let ghost views = split(combined@, ',');
    let ghost all = members_of(combined@);
    assert(parts_view(parts@) == views);
    let mut members: Vec<(Vec<char>, Vec<char>)> = Vec::new();
    let mut i: usize = 0;
    while i < parts.len()
        invariant
            i <= parts@.len(),
            parts_view(parts@) == views,
            views == split(combined@, ','),
            all == members_of(combined@),
            members_view(members@) == all.take(i as int),
            i <= MAX_TRACESTATE_MEMBERS,
            forall|j: int| 0 <= j < i ==> is_member(#[trigger] views[j]),
            forall|j: int, k: int| 0 <= j < k < i ==> #[trigger] all[j].0 != #[trigger] all[k].0,
        decreases parts@.len() - i,
    {
        assert(parts@[i as int]@ == views[i as int]);
        match parse_member(parts[i].as_slice()) {
            None => {
                assert(!is_member(views[i as int]));
                return None;
            },
            Some((key, value)) => {
                assert(key@ == all[i as int].0);
                let ghost held = members_view(members@);
                assert(held.len() == members@.len() && held.len() == i);
                if has_key(&members, key.as_slice()) {
                    proof {
                        let j = choose|j: int|
                            0 <= j < members@.len() && #[trigger] members_view(members@)[j].0
                                == key@;
                        assert(held[j] == all[j]);
                        assert(all[j].0 == all[i as int].0);
                    }
                    return None;
                }
                assert forall|j: int| 0 <= j < i implies #[trigger] all[j].0 != all[i as int].0 by {
                    assert(held[j] == all[j]);
                }
                members.push((key, value));
                assert(members_view(members@) == held.push((key@, value@)));
                assert(all.take(i + 1) == all.take(i as int).push(all[i as int]));
                if members.len() > MAX_TRACESTATE_MEMBERS {
                    return None;
                }
            },
        }
        i += 1;
    }
    assert(all.take(i as int) == all);
    serialize_tracestate(&members)
}

/// Once a member does not fit, the ones after it are not considered.
proof fn lemma_kept_stops(members: Seq<(Seq<char>, Seq<char>)>, at: int, n: int)
    requires
        0 <= at < n <= members.len(),
        kept_members(members.take(at + 1)) == at,
    ensures
        kept_members(members.take(n)) == at,
    decreases n,
{
    if n > at + 1 {
        lemma_kept_stops(members, at, n - 1);
        assert(members.take(n).drop_last() == members.take(n - 1));
    }
}

/// Serializes validated members, dropping right-most entries to stay within the
/// propagated size.
fn serialize_tracestate(members: &Vec<(Vec<char>, Vec<char>)>) -> (serialized: Option<String>)
    ensures
        text_view(serialized) == serialized_members(members_view(members@)),
{
    let ghost all = members_view(members@);
    let mut out: Vec<char> = Vec::new();
    let mut i: usize = 0;
    assert(all.take(0) == Seq::<(Seq<char>, Seq<char>)>::empty());
    while i < members.len()
        invariant
            i <= members@.len(),
            all == members_view(members@),
            kept_members(all.take(i as int)) == i,
            out@ == joined_members(all.take(i as int)),
            out@.len() <= MAX_TRACESTATE_LEN,
            i > 0 <==> out@.len() > 0,
        decreases members@.len() - i,
    {
        let key = members[i].0.as_slice();
        let value = members[i].1.as_slice();
        let ghost next = all.take(i + 1);
        assert(next.drop_last() == all.take(i as int));
        assert(next.last() == all[i as int]);
        assert(all[i as int] == (key@, value@));
        let extra: usize = if out.len() == 0 {
            0
        } else {
            1
        };
        let ghost length = joined_members(next).len();
        assert(length == out@.len() + extra + key@.len() + 1 + value@.len());
        let candidate: usize = out.len().saturating_add(extra).saturating_add(
            key.len(),
        ).saturating_add(1).saturating_add(value.len());
        if candidate > MAX_TRACESTATE_LEN {
            proof {
                assert(length > MAX_TRACESTATE_LEN);
                assert(kept_members(next) == i);
                lemma_kept_stops(all, i as int, all.len() as int);
                assert(all.take(all.len() as int) == all);
            }
            if i == 0 {
                return None;
            }
            return Some(text_of(out.as_slice()));
        }
        let ghost before = out@;
        if i > 0 {
            out.push(',');
        }
        push_all(&mut out, key);
        out.push('=');
        push_all(&mut out, value);
        assert(out@ == joined_members(next)) by {
            if i > 0 {
                assert(out@ == before.push(',') + member_text(all[i as int]));
            } else {
                assert(out@ == member_text(all[i as int]));
                assert(next[0] == all[0]);
            }
        }
        i += 1;
    }
    assert(all.take(i as int) == all);
    if i == 0 {
        None
    } else {
        Some(text_of(out.as_slice()))
    }
}

/// Appends a run of characters.
fn push_all(out: &mut Vec<char>, part: &[char])
    ensures
        final(out)@ == old(out)@ + part@,
{
    let mut i: usize = 0;
    let ghost start = out@;
    while i < part.len()
        invariant
            i <= part@.len(),
            out@ == start + part@.take(i as int),
        decreases part@.len() - i,
    {
        out.push(part[i]);
        i += 1;
        assert(part@.take(i as int) == part@.take(i - 1).push(part@[i - 1]));
    }
    assert(part@.take(i as int) == part@);
}

/// The members that are kept fit in the limit.
pub proof fn lemma_kept_fits(members: Seq<(Seq<char>, Seq<char>)>)
    ensures
        kept_members(members) <= members.len(),
        joined_members(members.take(kept_members(members) as int)).len() <= MAX_TRACESTATE_LEN,
    decreases members.len(),
{
    if members.len() == 0 {
        assert(members.take(0) == Seq::<(Seq<char>, Seq<char>)>::empty());
    } else {
        let shorter = members.drop_last();
        lemma_kept_fits(shorter);
        let kept = kept_members(shorter);
        if kept_members(members) == members.len() {
            if kept == members.len() - 1 && joined_members(members).len() <= MAX_TRACESTATE_LEN {
                assert(members.take(members.len() as int) == members);
            }
        } else {
            assert(members.take(kept as int) == shorter.take(kept as int));
        }
    }
}

/// A propagated `tracestate` is not empty and stays within the propagated size.
pub proof fn law_tracestate_size(combined: Seq<char>)
    ensures
        parsed_tracestate(combined) matches Some(text) ==> 0 < text.len() <= MAX_TRACESTATE_LEN,
{
    let members = members_of(combined);
    lemma_kept_fits(members);
    if kept_members(members) > 0 {
        let kept = members.take(kept_members(members) as int);
        assert(joined_members(kept).len() > 0);
    }
}

/// Texts with no white space at either end are left alone.
proof fn lemma_trimmed_fixed(s: Seq<char>)
    requires
        s.len() > 0 ==> !is_ows(s[0]) && !is_ows(s.last()),
    ensures
        trimmed(s) == s,
{
}

/// What is left after trimming has no white space at either end.
proof fn lemma_trimmed_ends(s: Seq<char>)
    ensures
        trimmed(s).len() > 0 ==> !is_ows(trimmed(s)[0]) && !is_ows(trimmed(s).last()),
{
    lemma_trim_start_head(s);
    lemma_trim_end_tail(trim_start(s));
}

proof fn lemma_trim_start_head(s: Seq<char>)
    ensures
        trim_start(s).len() > 0 ==> !is_ows(trim_start(s)[0]),
    decreases s.len(),
{
    if s.len() > 0 && is_ows(s[0]) {
        lemma_trim_start_head(s.drop_first());
    }
}

proof fn lemma_trim_end_tail(s: Seq<char>)
    ensures
        trim_end(s).len() <= s.len(),
        trim_end(s) == s.take(trim_end(s).len() as int),
        trim_end(s).len() > 0 ==> !is_ows(trim_end(s).last()),
    decreases s.len(),
{
    if s.len() > 0 && is_ows(s.last()) {
        lemma_trim_end_tail(s.drop_last());
        assert(s.drop_last().take(trim_end(s).len() as int) == s.take(trim_end(s).len() as int));
    } else {
        assert(s.take(s.len() as int) == s);
    }
}

/// A key holds neither a comma, an equals sign nor white space.
proof fn lemma_key_chars(key: Seq<char>)
    requires
        is_member_key(key),
    ensures
        key.len() > 0,
        forall|i: int|
            0 <= i < key.len() ==> #[trigger] key[i] != ',' && key[i] != '=' && !is_ows(key[i]),
{
    let at = first_index(key, '@');
    lemma_first_index(key, '@');
    assert forall|i: int| 0 <= i < key.len() implies #[trigger] key[i] != ',' && key[i] != '='
        && !is_ows(key[i]) by {
        if at == key.len() {
            if i > 0 {
                assert(is_key_char(key[i]));
            }
        } else if i < at {
            assert(key.take(at)[i] == key[i]);
            if i > 0 {
                assert(is_key_char(key.take(at)[i]));
            }
        } else if i > at {
            assert(key.skip(at + 1)[i - at - 1] == key[i]);
            if i > at + 1 {
                assert(is_key_char(key.skip(at + 1)[i - at - 1]));
            }
        }
    }
}

/// A canonical member reads back as the key and value it was made of.
pub proof fn lemma_member_round_trip(key: Seq<char>, value: Seq<char>)
    requires
        is_member_key(key),
        is_member_value(value),
        !is_ows(value[0]),
    ensures
        is_member(member_text((key, value))),
        member_key(member_text((key, value))) == key,
        member_value(member_text((key, value))) == value,
        !member_text((key, value)).contains(','),
{
    let text = member_text((key, value));
    lemma_key_chars(key);
    assert(text[0] == key[0]);
    assert(text.last() == value.last());
    assert(is_value_char(value[value.len() - 1]));
    lemma_trimmed_fixed(text);
    assert forall|i: int| 0 <= i < key.len() implies text[i] != '=' by {
        assert(text[i] == key[i]);
    }
    assert(text[key.len() as int] == '=');
    lemma_first_index_unique(text, '=', key.len() as int);
    assert(text.take(key.len() as int) == key);
    assert(text.skip(key.len() as int + 1) == value);
    assert(!is_ows(key[0]) && !is_ows(key[key.len() - 1]));
    lemma_trimmed_fixed(key);
    lemma_trimmed_fixed(value);
    if text.contains(',') {
        let i = choose|i: int| 0 <= i < text.len() && text[i] == ',';
        if i < key.len() {
            assert(text[i] == key[i]);
        } else if i > key.len() {
            assert(text[i] == value[i - key.len() - 1]);
            assert(is_value_char(value[i - key.len() - 1]));
        }
    }
}

/// Members that can be written and read back.
pub open spec fn writable(members: Seq<(Seq<char>, Seq<char>)>) -> bool {
    forall|i: int|
        0 <= i < members.len() ==> is_member_key(#[trigger] members[i].0) && is_member_value(
            members[i].1,
        ) && !is_ows(members[i].1[0])
}

/// Joined members are split into the same members.
pub proof fn lemma_split_joined(members: Seq<(Seq<char>, Seq<char>)>)
    requires
        writable(members),
        members.len() > 0,
    ensures
        split(joined_members(members), ',') == Seq::new(
            members.len(),
            |i: int| member_text(members[i]),
        ),
    decreases members.len(),
{
    let last = members.last();
    assert(members[members.len() - 1] == last);
    lemma_member_round_trip(last.0, last.1);
    if members.len() == 1 {
        lemma_split_single(member_text(members[0]), ',');
        assert(split(joined_members(members), ',') == Seq::new(
            members.len(),
            |i: int| member_text(members[i]),
        ));
    } else {
        let shorter = members.drop_last();
        assert forall|i: int| 0 <= i < shorter.len() implies is_member_key(#[trigger] shorter[i].0)
            && is_member_value(shorter[i].1) && !is_ows(shorter[i].1[0]) by {
            assert(is_member_key(members[i].0));
        }
        lemma_split_joined(shorter);
        lemma_split_append(joined_members(shorter), member_text(last), ',');
        assert(split(joined_members(members), ',') == Seq::new(
            members.len(),
            |i: int| member_text(members[i]),
        ));
    }
}

/// Of the first of the members that are kept, all are kept.
pub proof fn lemma_kept_of_prefix(members: Seq<(Seq<char>, Seq<char>)>, n: int)
    requires
        0 <= n <= kept_members(members),
        n <= members.len(),
    ensures
        kept_members(members.take(n)) == n,
    decreases members.len(),
{
    lemma_kept_fits(members);
    if members.len() == n {
        assert(members.take(n) == members);
    } else {
        lemma_kept_of_prefix(members.drop_last(), n);
        assert(members.drop_last().take(n) == members.take(n));
    }
}

/// A propagated `tracestate` is itself valid and is propagated unchanged by the
/// next hop that parses it.
pub proof fn law_tracestate_is_stable(combined: Seq<char>)
    ensures
        parsed_tracestate(combined) matches Some(text) ==> parsed_tracestate(text) == Some(text),
{
    let members = members_of(combined);
    if parsed_tracestate(combined) is Some {
        let parts = split(combined, ',');
        let count = kept_members(members) as int;
        lemma_kept_fits(members);
        let kept = members.take(count);
        let text = joined_members(kept);
        assert forall|i: int| 0 <= i < kept.len() implies is_member_key(#[trigger] kept[i].0)
            && is_member_value(kept[i].1) && !is_ows(kept[i].1[0]) by {
            assert(is_member(parts[i]));
            assert(kept[i] == members[i]);
            let m = trimmed(parts[i]);
            lemma_trimmed_ends(m.skip(first_index(m, '=') + 1));
        }
        lemma_split_joined(kept);
        let again = split(text, ',');
        assert forall|i: int| 0 <= i < again.len() implies is_member(#[trigger] again[i])
            && member_key(again[i]) == kept[i].0 && member_value(again[i]) == kept[i].1 by {
            assert(is_member_key(kept[i].0));
            lemma_member_round_trip(kept[i].0, kept[i].1);
        }
        assert(members_of(text) =~= kept);
        assert forall|i: int, j: int| 0 <= i < j < again.len() implies #[trigger] members_of(
            text,
        )[i].0 != #[trigger] members_of(text)[j].0 by {
            assert(members_of(combined)[i].0 != members_of(combined)[j].0);
        }
        assert(valid_tracestate(text));
        lemma_kept_of_prefix(members, count);
        assert(kept.take(count) == kept);
    }
}

} // verus!
