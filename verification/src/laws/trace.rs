//! Traces: what is continued of an inbound one, what is started, and what the next hop
//! receives.
use crate::headers::{
    ascii_lower, distinct_names, entry_values, has_entry, header_entries, lemma_insert,
    lemma_remove, plain, valid_value, Entries,
};
use crate::text::{ascii_text, is_visible};
use crate::trace::context::{
    comma_joined, continued_trace, edited, ensure_trace_context, field_values, ids_view,
    injected_edits, law_hop_traceparent_round_trip, law_injected_headers_replace_earlier_ones,
    law_request_context_is_w3c, lemma_hex_has_no_dash, FrameworkHeaders, HeaderEditView,
    SubRequestError, TraceContext, REQUEST_ID_HEADER, TRACEPARENT_HEADER, TRACESTATE_HEADER,
};
use crate::trace::parent::{
    coerced_char, coerced_id, generate_span_id, generate_trace_id, is_all_zero, is_hex, is_hex_char,
    is_lower_hex, is_w3c_id, is_zero, lemma_span_part_of_w3c_id, parse_traceparent,
    sanitize_trace_id, span_id_from, InboundTrace,
};
use crate::trace::split::{
    first_index, lemma_first_index, lemma_first_index_unique, lemma_split_append,
    lemma_split_concat, lemma_split_first, lemma_split_nonempty, lemma_split_single, split,
};
use crate::trace::state::{
    is_member, is_member_key, is_member_value, is_ows, joined_members, kept_members,
    lemma_member_round_trip, lemma_split_joined, member_key, member_text, member_value, members_of,
    parse_tracestate, text_view, trim_end, trim_start, trimmed, valid_tracestate, writable,
};
use http::HeaderMap;
use vstd::prelude::*;
use vstd::string::*;
use vstd::utf8::*;

verus! {

// ----- Identifiers -----

/// A text of lower-case hexadecimal digits.
pub open spec fn hexadecimal(s: Seq<char>) -> bool {
    forall|i: int| 0 <= i < s.len() ==> is_digit(#[trigger] s[i])
}

/// A lower-case hexadecimal digit.
pub open spec fn is_digit(c: char) -> bool {
    ('0' <= c && c <= '9') || ('a' <= c && c <= 'f')
}

/// An identifier: so many hexadecimal digits, not all of them zero.
pub open spec fn identifier(s: Seq<char>, len: int) -> bool {
    s.len() == len && hexadecimal(s) && exists|i: int| 0 <= i < s.len() && #[trigger] s[i] != '0'
}

/// A hexadecimal digit whose lowest bit is set.
pub open spec fn is_odd(c: char) -> bool {
    c == '1' || c == '3' || c == '5' || c == '7' || c == '9' || c == 'b' || c == 'd' || c == 'f'
}

/// Identifiers are those of W3C Trace Context.
pub proof fn lemma_identifier(s: Seq<char>, len: nat)
    ensures
        identifier(s, len as int) <==> is_w3c_id(s, len),
        hexadecimal(s) <==> is_hex(s),
{
    assert(hexadecimal(s) <==> is_hex(s)) by {
        if hexadecimal(s) {
            assert forall|i: int| 0 <= i < s.len() implies is_hex_char(#[trigger] s[i]) by {
            }
        }
        if is_hex(s) {
            assert forall|i: int| 0 <= i < s.len() implies is_digit(#[trigger] s[i]) by {
                assert(is_hex_char(s[i]));
            }
        }
    }
}

/// The texts that count as hexadecimal are those of digits and the letters up to `f`, in
/// lower case; those that count as zero hold nothing else.
pub proof fn law_hexadecimal_is_lower_case(value: &str, hex: bool, zero: bool)
    requires
        call_ensures(is_lower_hex, (value,), hex),
        call_ensures(is_all_zero, (value,), zero),
    ensures
        hex <==> hexadecimal(value@),
        zero <==> forall|i: int| 0 <= i < value@.len() ==> #[trigger] value@[i] == '0',
{
    lemma_identifier(value@, 0);
}

/// An identifier that is one already is minted as it is; a longer one is cut, a shorter one
/// padded with zeros in front, capitals become small, and what is no hexadecimal digit
/// becomes zero. Whatever comes in, an identifier comes out.
/// Here `i` is any place and `j` one that holds a digit other than zero.
pub proof fn law_minted_trace_ids_keep_what_they_can(
    id: &str,
    trace_id: String,
    i: int,
    j: int,
)
    requires
        call_ensures(sanitize_trace_id, (id,), trace_id),
        0 <= i < 32,
    ensures
        identifier(trace_id@, 32),
        identifier(id@, 32) ==> trace_id@ == id@,
        id@.len() >= 32 && 0 <= j < 32 && is_digit(id@[j]) && id@[j] != '0' ==> {
            &&& is_digit(id@[i]) ==> trace_id@[i] == id@[i]
            &&& 'A' <= id@[i] <= 'F' ==> trace_id@[i] as int == id@[i] as int + 32
            &&& !is_digit(id@[i]) && !('A' <= id@[i] <= 'F') ==> trace_id@[i] == '0'
        },
        id@.len() < 32 && identifier(id@, id@.len() as int) ==> trace_id@[i] == (if i < 32
            - id@.len() {
            '0'
        } else {
            id@[i - (32 - id@.len())]
        }),
{
    lemma_identifier(trace_id@, 32);
    lemma_identifier(id@, id@.len());
    let coerced = coerced_id(id@);
    if identifier(id@, 32) {
        assert forall|j: int| 0 <= j < 32 implies coerced[j] == id@[j] by {
            assert(is_hex_char(id@[j]));
        }
        assert(coerced =~= id@);
        let j = choose|j: int| 0 <= j < id@.len() && #[trigger] id@[j] != '0';
        assert(coerced[j] != '0');
    }
    if id@.len() >= 32 && 0 <= j < 32 && is_digit(id@[j]) && id@[j] != '0' {
        assert(coerced[j] == id@[j]);
        assert(!is_zero(coerced));
        assert(coerced[i] == coerced_char(id@[i]));
    }
    if id@.len() < 32 && identifier(id@, id@.len() as int) {
        let pad = 32 - id@.len();
        assert forall|j: int| 0 <= j < id@.len() implies coerced[j + pad] == id@[j] by {
            assert(is_hex_char(id@[j]));
        }
        let j = choose|j: int| 0 <= j < id@.len() && #[trigger] id@[j] != '0';
        assert(coerced[j + pad] != '0');
        if i >= pad {
            assert(coerced[i - pad + pad] == id@[i - pad]);
        }
    }
}

/// A span-id is an identifier: the last sixteen digits of the trace-id that is minted of the
/// same text, unless they are all zero.
pub proof fn law_span_ids_are_the_second_half(
    generated: &str,
    trace_id: String,
    span_id: String,
)
    requires
        call_ensures(generate_trace_id, (generated,), trace_id),
        call_ensures(generate_span_id, (generated,), span_id),
    ensures
        identifier(trace_id@, 32),
        identifier(span_id@, 16),
        identifier(trace_id@.skip(16), 16) ==> span_id@ == trace_id@.skip(16),
{
    lemma_identifier(trace_id@, 32);
    lemma_identifier(span_id@, 16);
    lemma_span_part_of_w3c_id(trace_id@);
    assert(trace_id@.subrange(16, 32) =~= trace_id@.skip(16));
    lemma_identifier(trace_id@.skip(16), 16);
}

/// The span-id of an identifier that another proxy chose: its second half where that is an
/// identifier itself, and else the least one.
pub proof fn law_span_ids_are_taken_from_trace_ids(trace_id: &str, span_id: String)
    requires
        call_ensures(span_id_from, (trace_id,), span_id),
        identifier(trace_id@, 32),
    ensures
        identifier(trace_id@.skip(16), 16) ==> span_id@ == trace_id@.skip(16),
        !identifier(trace_id@.skip(16), 16) ==> span_id@.len() == 16 && span_id@.last() == '1'
            && forall|i: int| 0 <= i < 15 ==> #[trigger] span_id@[i] == '0',
{
    lemma_identifier(trace_id@, 32);
    lemma_span_part_of_w3c_id(trace_id@);
    assert(trace_id@.subrange(16, 32) =~= trace_id@.skip(16));
    lemma_identifier(trace_id@.skip(16), 16);
}

/// A context holds the parts that it is made of: given ones, those of an inbound trace, or a
/// minted trace-id that is sampled. A tracestate is attached unless it is empty, and a
/// request identifier replaces the one before; nothing else changes.
pub proof fn law_contexts_hold_what_they_are_made_of(
    request_id: String,
    trace_id: String,
    flags: String,
    made: TraceContext,
    inbound: &InboundTrace,
    continued: TraceContext,
    generated: &str,
    minted: String,
    started: TraceContext,
    state: Option<String>,
    stated: TraceContext,
    context: &mut TraceContext,
)
    requires
        call_ensures(TraceContext::new, (request_id, trace_id, flags), made),
        call_ensures(TraceContext::from_inbound, (request_id, inbound), continued),
        call_ensures(generate_trace_id, (generated,), minted),
        call_ensures(TraceContext::new_sampled, (request_id, generated), started),
        call_ensures(TraceContext::with_tracestate, (*old(context), state), stated),
        call_ensures(TraceContext::set_request_id, (context, request_id), ()),
    ensures
        made@.request_id == request_id@ && made@.trace_id == trace_id@ && made@.flags == flags@,
        made@.tracestate is None,
        continued@.request_id == request_id@ && continued@.trace_id == inbound.trace_id@,
        continued@.flags == inbound.flags@ && continued@.tracestate is None,
        started@.request_id == request_id@ && started@.trace_id == minted@,
        started@.flags == seq!['0', '1'] && started@.tracestate is None,
        state is None || state->0@.len() == 0 ==> stated@.tracestate is None,
        state is Some && state->0@.len() > 0 ==> stated@.tracestate == Some(state->0@),
        stated@.request_id == old(context)@.request_id,
        stated@.trace_id == old(context)@.trace_id,
        stated@.flags == old(context)@.flags,
        final(context)@.request_id == request_id@,
        final(context)@.trace_id == old(context)@.trace_id,
        final(context)@.flags == old(context)@.flags,
        final(context)@.tracestate == old(context)@.tracestate,
{
    reveal_strlit("01");
    assert("01"@ =~= seq!['0', '1']);
}

/// Changes to the headers of a sub-request are collected in order.
pub proof fn law_header_changes_are_collected(
    fresh: FrameworkHeaders,
    removing: &mut FrameworkHeaders,
    inserting: &mut FrameworkHeaders,
    name: &str,
    value: String,
)
    requires
        call_ensures(FrameworkHeaders::new, (), fresh),
        call_ensures(FrameworkHeaders::remove, (removing, name), ()),
        call_ensures(FrameworkHeaders::insert, (inserting, name, value), ()),
    ensures
        fresh@.len() == 0,
        final(removing)@ == old(removing)@ + seq![HeaderEditView::Remove(name@)],
        final(inserting)@ == old(inserting)@ + seq![HeaderEditView::Insert(name@, value@)],
{
}

/// What a change does to the fields of a sub-request, seen from one name: a removal drops the
/// name, an insertion leaves one value under it, and both leave every other name alone.
pub proof fn law_header_changes_concern_one_name(
    entries: Entries,
    edits: Seq<HeaderEditView>,
    name: Seq<char>,
    value: Seq<char>,
    other: Seq<char>,
)
    requires
        distinct_names(edited(entries, edits)),
        ascii_lower(name) == name,
    ensures
        ({
            let before = edited(entries, edits);
            let removed = edited(entries, edits.push(HeaderEditView::Remove(name)));
            let inserted = edited(entries, edits.push(HeaderEditView::Insert(name, value)));
            &&& !has_entry(removed, name)
            &&& entry_values(inserted, name) == seq![plain(encode_utf8(value))]
            &&& other != name ==> entry_values(removed, other) == entry_values(before, other)
            &&& other != name ==> entry_values(inserted, other) == entry_values(before, other)
        }),
{
    let before = edited(entries, edits);
    assert(edits.push(HeaderEditView::Remove(name)).drop_last() =~= edits);
    assert(edits.push(HeaderEditView::Insert(name, value)).drop_last() =~= edits);
    lemma_remove(before, name, name);
    lemma_remove(before, name, other);
    lemma_insert(before, name, plain(encode_utf8(value)), name);
    lemma_insert(before, name, plain(encode_utf8(value)), other);
}

// ----- traceparent -----

/// `version-trace_id-span_id-flags`.
pub open spec fn dashed(
    version: Seq<char>,
    trace_id: Seq<char>,
    span_id: Seq<char>,
    flags: Seq<char>,
) -> Seq<char> {
    version + seq!['-'] + trace_id + seq!['-'] + span_id + seq!['-'] + flags
}

/// The parts of a `traceparent`, followed by more.
pub proof fn lemma_dashed(
    version: Seq<char>,
    trace_id: Seq<char>,
    span_id: Seq<char>,
    flags: Seq<char>,
    rest: Option<Seq<char>>,
)
    requires
        hexadecimal(version),
        hexadecimal(trace_id),
        hexadecimal(span_id),
        hexadecimal(flags),
    ensures
        ({
            let text = dashed(version, trace_id, span_id, flags);
            let whole = match rest {
                Some(more) => text.push('-') + more,
                None => text,
            };
            let fields = split(whole, '-');
            &&& fields.len() >= 4
            &&& fields[0] == version
            &&& fields[1] == trace_id
            &&& fields[2] == span_id
            &&& fields[3] == flags
            &&& rest is None ==> fields.len() == 4
            &&& rest is Some ==> fields.len() > 4
        }),
{
    lemma_identifier(version, 0);
    lemma_identifier(trace_id, 0);
    lemma_identifier(span_id, 0);
    lemma_identifier(flags, 0);
    lemma_hex_has_no_dash(version);
    lemma_hex_has_no_dash(trace_id);
    lemma_hex_has_no_dash(span_id);
    lemma_hex_has_no_dash(flags);
    let two = version.push('-') + trace_id;
    let three = two.push('-') + span_id;
    let four = three.push('-') + flags;
    assert(four =~= dashed(version, trace_id, span_id, flags));
    lemma_split_single(version, '-');
    lemma_split_append(version, trace_id, '-');
    lemma_split_append(two, span_id, '-');
    lemma_split_append(three, flags, '-');
    match rest {
        Some(more) => {
            lemma_split_concat(four, more, '-');
            lemma_split_nonempty(more, '-');
        },
        None => {},
    }
}

/// A well-formed `traceparent` is continued: its trace-id is taken as it is, and of its flags
/// the sampled bit, neither set nor cleared. A later version may have more behind them.
pub proof fn law_well_formed_traceparents_are_continued(
    value: &str,
    version: Seq<char>,
    trace_id: Seq<char>,
    span_id: Seq<char>,
    flags: Seq<char>,
    rest: Option<Seq<char>>,
    parsed: Option<InboundTrace>,
)
    requires
        call_ensures(parse_traceparent, (value,), parsed),
        version.len() == 2 && hexadecimal(version) && version != seq!['f', 'f'],
        identifier(trace_id, 32),
        identifier(span_id, 16),
        flags.len() == 2 && hexadecimal(flags),
        match rest {
            None => value@ == dashed(version, trace_id, span_id, flags),
            Some(more) => version != seq!['0', '0'] && value@ == dashed(
                version,
                trace_id,
                span_id,
                flags,
            ).push('-') + more,
        },
    ensures
        parsed is Some,
        parsed->0.trace_id@ == trace_id,
        is_odd(flags[1]) ==> parsed->0.flags@ == seq!['0', '1'],
        !is_odd(flags[1]) ==> parsed->0.flags@ == seq!['0', '0'],
{
    lemma_dashed(version, trace_id, span_id, flags, rest);
    lemma_identifier(version, 2);
    lemma_identifier(flags, 2);
    lemma_identifier(trace_id, 32);
    lemma_identifier(span_id, 16);
    assert(is_hex_char(flags[1]));
}

/// Nothing else is continued: what is read begins with two digits other than `ff`, a
/// trace-id, a span-id and two more digits, with dashes between them, and ends there
/// unless the version is a later one.
pub proof fn law_other_traceparents_are_not_continued(
    value: &str,
    parsed: Option<InboundTrace>,
)
    requires
        call_ensures(parse_traceparent, (value,), parsed),
        parsed is Some,
    ensures
        value@.len() >= 55,
        value@[2] == '-' && value@[35] == '-' && value@[52] == '-',
        hexadecimal(value@.subrange(0, 2)) && value@.subrange(0, 2) != seq!['f', 'f'],
        identifier(value@.subrange(3, 35), 32),
        identifier(value@.subrange(36, 52), 16),
        hexadecimal(value@.subrange(53, 55)),
        value@.len() > 55 ==> value@[55] == '-' && value@.subrange(0, 2) != seq!['0', '0'],
        parsed->0.trace_id@ == value@.subrange(3, 35),
{
    let s0 = value@;
    let fields = split(s0, '-');
    lemma_split_first(s0, '-');
    let s1 = s0.skip(3);
    lemma_split_first(s1, '-');
    assert(first_index(s0, '-') == 2);
    assert(fields =~= seq![s0.take(2)] + split(s1, '-'));
    assert(fields[1] == split(s1, '-')[0]);
    assert(first_index(s1, '-') == 32);
    let s2 = s1.skip(33);
    lemma_split_first(s2, '-');
    assert(fields[2] == split(s1, '-')[1]);
    assert(split(s1, '-')[1] == split(s2, '-')[0]);
    assert(first_index(s2, '-') == 16);
    let s3 = s2.skip(17);
    lemma_split_first(s3, '-');
    assert(fields[3] == split(s1, '-')[2]);
    assert(split(s1, '-')[2] == split(s2, '-')[1]);
    assert(split(s2, '-')[1] == split(s3, '-')[0]);
    assert(first_index(s3, '-') == 2);
    assert(s0.subrange(0, 2) =~= fields[0]);
    assert(s0.subrange(3, 35) =~= fields[1]);
    assert(s0.subrange(36, 52) =~= fields[2]);
    assert(s0.subrange(53, 55) =~= fields[3]);
    lemma_identifier(fields[0], 2);
    lemma_identifier(fields[1], 32);
    lemma_identifier(fields[2], 16);
    lemma_identifier(fields[3], 2);
    if s0.len() > 55 {
        lemma_split_nonempty(s3.skip(3), '-');
        assert(s3[2] == s0[55]);
        assert(split(s3, '-').len() > 1);
        assert(split(s2, '-').len() == 1 + split(s3, '-').len());
        assert(split(s1, '-').len() == 1 + split(s2, '-').len());
        assert(fields.len() == 1 + split(s1, '-').len());
    }
}

// ----- Requests -----

/// The single value of a header, read as text.
pub open spec fn says(entries: Entries, name: Seq<char>, text: Seq<char>) -> bool {
    let values = entry_values(entries, name);
    values.len() == 1 && is_visible(values[0].0) && ascii_text(values[0].0) == text
}

/// A request with exactly one `traceparent` that can be read continues that trace: with its
/// trace-id, with its sampled bit, neither set nor cleared, and with what is kept of its
/// `tracestate`.
pub proof fn law_continued_traces_keep_what_was_sent(
    headers: &HeaderMap,
    generated: &Vec<String>,
    context: TraceContext,
    value: &str,
    parsed: Option<InboundTrace>,
)
    requires
        call_ensures(TraceContext::from_request_headers, (headers, generated), context),
        says(header_entries(*headers), "traceparent"@, value@),
        call_ensures(parse_traceparent, (value,), parsed),
        parsed is Some,
    ensures
        context@.trace_id == parsed->0.trace_id@,
        context@.flags == parsed->0.flags@,
        entry_values(header_entries(*headers), "tracestate"@).len() == 0
            ==> context@.tracestate is None,
        forall|state: &str, kept: Option<String>|
            #![trigger call_ensures(parse_tracestate, (state,), kept)]
            says(header_entries(*headers), "tracestate"@, state@) && call_ensures(
                parse_tracestate,
                (state,),
                kept,
            ) ==> context@.tracestate == text_view(kept),
        forall|state: &str, kept: Option<String>|
            #![trigger call_ensures(parse_tracestate, (state,), kept)]
            {
                let values = entry_values(header_entries(*headers), "tracestate"@);
                &&& values.len() == 2
                &&& is_visible(values[0].0)
                &&& is_visible(values[1].0)
                &&& state@ == ascii_text(values[0].0) + seq![','] + ascii_text(values[1].0)
                &&& call_ensures(parse_tracestate, (state,), kept)
            } ==> context@.tracestate == text_view(kept),
{
    let entries = header_entries(*headers);
    let parents = field_values(entries, TRACEPARENT_HEADER);
    assert(parents.len() == 1 && parents[0] == entry_values(entries, "traceparent"@)[0].0);
    let states = field_values(entries, TRACESTATE_HEADER);
    assert(states.len() == entry_values(entries, "tracestate"@).len());
    if states.len() == 1 {
        assert(states[0] == entry_values(entries, "tracestate"@)[0].0);
    }
    if states.len() == 2 {
        let first = entry_values(entries, "tracestate"@)[0].0;
        let second = entry_values(entries, "tracestate"@)[1].0;
        assert(states[0] == first && states[1] == second);
        assert(states.drop_last()[0] == first && states.drop_last().len() == 1);
        assert(states.last() == second);
        assert(comma_joined(states.drop_last()) == ascii_text(first));
        assert(comma_joined(states) =~= ascii_text(first) + seq![','] + ascii_text(second));
    }
}

/// A request without a `traceparent`, with more than one, or with one that cannot be read
/// starts a sampled trace of its own, without `tracestate`, whose trace-id is minted of the
/// identifier that was drawn last.
pub proof fn law_other_requests_start_a_sampled_trace(
    headers: &HeaderMap,
    generated: &Vec<String>,
    context: TraceContext,
    value: &str,
    parsed: Option<InboundTrace>,
    drawn: &str,
    trace_id: String,
)
    requires
        generated@.len() > 0,
        call_ensures(TraceContext::from_request_headers, (headers, generated), context),
        ({
            let values = entry_values(header_entries(*headers), "traceparent"@);
            ||| values.len() != 1
            ||| !is_visible(values[0].0)
            ||| ascii_text(values[0].0) == value@ && parsed is None && call_ensures(
                parse_traceparent,
                (value,),
                parsed,
            )
        }),
        drawn@ == generated@[generated@.len() - 1]@,
        call_ensures(generate_trace_id, (drawn,), trace_id),
    ensures
        context@.flags == seq!['0', '1'],
        context@.trace_id == trace_id@,
        context@.tracestate is None,
{
    reveal_strlit("01");
    assert("01"@ =~= seq!['0', '1']);
    let entries = header_entries(*headers);
    let parents = field_values(entries, TRACEPARENT_HEADER);
    assert(parents.len() == entry_values(entries, "traceparent"@).len());
    if parents.len() == 1 {
        assert(parents[0] == entry_values(entries, "traceparent"@)[0].0);
    }
    assert(ids_view(generated@).last() == generated@[generated@.len() - 1]@);
}

/// A request keeps the correlation identifier that it brings, if that can be read, and
/// gets the one drawn first if not. As many identifiers are needed as it lacks: one for
/// the request and one for its trace.
pub proof fn law_requests_keep_their_identifier(
    headers: &HeaderMap,
    generated: &Vec<String>,
    context: TraceContext,
    count: usize,
)
    requires
        call_ensures(TraceContext::from_request_headers, (headers, generated), context),
        call_ensures(TraceContext::generated_ids_needed, (headers,), count),
    ensures
        ({
            let ids = entry_values(header_entries(*headers), "x-request-id"@);
            let brought = ids.len() > 0 && is_visible(ids[0].0);
            &&& brought ==> context@.request_id == ascii_text(ids[0].0)
            &&& !brought && generated@.len() > 0 ==> context@.request_id == generated@[0]@
            &&& count == (if brought {
                0int
            } else {
                1
            }) + (if continued_trace(header_entries(*headers)) is Some {
                0int
            } else {
                1
            })
        }),
{
    let entries = header_entries(*headers);
    let ids = field_values(entries, REQUEST_ID_HEADER);
    assert(ids.len() == entry_values(entries, "x-request-id"@).len());
    if ids.len() > 0 {
        assert(ids[0] == entry_values(entries, "x-request-id"@)[0].0);
    }
    if generated@.len() > 0 {
        assert(ids_view(generated@)[0] == generated@[0]@);
    }
}

/// What a hop is sent is `00`, the trace-id, a fresh span-id and the flags, and the
/// identifier of the request stands beside it.
pub proof fn law_hops_are_sent_the_trace(
    context: &TraceContext,
    generated: &str,
    traceparent: String,
    span_id: String,
    headers: [(&'static str, String); 2],
)
    requires
        call_ensures(TraceContext::traceparent_for_hop, (context, generated), traceparent),
        call_ensures(generate_span_id, (generated,), span_id),
        call_ensures(TraceContext::headers_for_hop, (context, generated), headers),
    ensures
        traceparent@ == dashed(
            seq!['0', '0'],
            context@.trace_id,
            span_id@,
            context@.flags,
        ),
        headers@[0].0@ == "x-request-id"@,
        headers@[0].1@ == context@.request_id,
        headers@[1].0@ == "traceparent"@,
        headers@[1].1@ == traceparent@,
{
    reveal_strlit("00");
    assert("00"@ =~= seq!['0', '0']);
    assert(traceparent@ =~= dashed(
        seq!['0', '0'],
        context@.trace_id,
        span_id@,
        context@.flags,
    ));
}

/// A trace goes on from hop to hop: a request that carries what a context wrote for a hop
/// has a context with the same trace-id and the same flags.
pub proof fn law_traces_survive_the_hop(
    headers: &HeaderMap,
    generated: &Vec<String>,
    context: TraceContext,
    hop: &str,
    traceparent: String,
    next_headers: &HeaderMap,
    next_generated: &Vec<String>,
    next: TraceContext,
)
    requires
        call_ensures(TraceContext::from_request_headers, (headers, generated), context),
        call_ensures(TraceContext::traceparent_for_hop, (&context, hop), traceparent),
        says(header_entries(*next_headers), "traceparent"@, traceparent@),
        call_ensures(TraceContext::from_request_headers, (next_headers, next_generated), next),
    ensures
        next@.trace_id == context@.trace_id,
        next@.flags == context@.flags,
{
    law_request_context_is_w3c(header_entries(*headers), ids_view(generated@));
    law_hop_traceparent_round_trip(context@, hop@);
    let entries = header_entries(*next_headers);
    let parents = field_values(entries, TRACEPARENT_HEADER);
    assert(parents.len() == 1 && parents[0] == entry_values(entries, "traceparent"@)[0].0);
}

/// A trace counts as sampled exactly where its flags say so, and a context hands out what
/// it holds.
pub proof fn law_contexts_hand_out_what_they_hold(
    context: &TraceContext,
    sampled: bool,
    trace_id: &str,
    flags: &str,
    request_id: &str,
    state: Option<&str>,
)
    requires
        call_ensures(TraceContext::sampled, (context,), sampled),
        call_ensures(TraceContext::trace_id, (context,), trace_id),
        call_ensures(TraceContext::flags, (context,), flags),
        call_ensures(TraceContext::request_id, (context,), request_id),
        call_ensures(TraceContext::tracestate, (context,), state),
    ensures
        sampled <==> flags@ == seq!['0', '1'],
        trace_id@ == context@.trace_id,
        flags@ == context@.flags,
        request_id@ == context@.request_id,
        state is Some <==> context@.tracestate is Some,
        state matches Some(text) ==> context@.tracestate == Some(text@),
{
    reveal_strlit("01");
    assert("01"@ =~= seq!['0', '1']);
}

/// A context is set up once: one that is there stays, whatever the headers say, and else
/// it is that of the headers.
pub proof fn law_a_trace_context_is_set_up_once(
    slot: &mut Option<TraceContext>,
    headers: &HeaderMap,
    generated: &Vec<String>,
    context: TraceContext,
)
    requires
        call_ensures(ensure_trace_context, (slot, headers, generated), ()),
        call_ensures(TraceContext::from_request_headers, (headers, generated), context),
    ensures
        *old(slot) is Some ==> *final(slot) == *old(slot),
        *old(slot) is None ==> *final(slot) is Some && (*final(slot))->0@ == context@,
{
}

/// Changes are made in two goes as they are in one.
proof fn lemma_edited_concat(
    entries: Entries,
    first: Seq<HeaderEditView>,
    second: Seq<HeaderEditView>,
)
    ensures
        edited(entries, first + second) == edited(edited(entries, first), second),
    decreases second.len(),
{
    if second.len() == 0 {
        assert(first + second =~= first);
    } else {
        lemma_edited_concat(entries, first, second.drop_last());
        assert((first + second).drop_last() =~= first + second.drop_last());
        assert((first + second).last() == second.last());
    }
}

/// An error that names the header whose value cannot be sent.
pub open spec fn tells_of(injected: Result<(), SubRequestError>, name: Seq<char>) -> bool {
    injected matches Err(SubRequestError::InvalidRequest(message)) && message@ == "invalid "@ + name
        + " value: failed to parse header value"@
}

/// Injecting succeeds exactly where every value can be sent, and a sub-request then has the
/// identifier, the hop's `traceparent` and the `tracestate` of the context under their names,
/// each once, whatever it had before; its other headers stay.
pub proof fn law_sub_requests_carry_the_trace(
    context: &TraceContext,
    fw: &mut FrameworkHeaders,
    generated: &str,
    injected: Result<(), SubRequestError>,
    traceparent: String,
    entries: Entries,
    other: Seq<char>,
)
    requires
        call_ensures(TraceContext::inject_into, (context, fw, generated), injected),
        call_ensures(TraceContext::traceparent_for_hop, (context, generated), traceparent),
        distinct_names(edited(entries, old(fw)@)),
        other != "x-request-id"@ && other != "traceparent"@ && other != "tracestate"@,
    ensures
        injected is Ok <==> {
            &&& valid_value(encode_utf8(context@.request_id))
            &&& valid_value(encode_utf8(traceparent@))
            &&& context@.tracestate matches Some(state) ==> valid_value(encode_utf8(state))
        },
        injected is Ok ==> {
            let after = edited(entries, final(fw)@);
            &&& entry_values(after, "x-request-id"@) == seq![
                plain(encode_utf8(context@.request_id)),
            ]
            &&& entry_values(after, "traceparent"@) == seq![plain(encode_utf8(traceparent@))]
            &&& entry_values(after, "tracestate"@) == (match context@.tracestate {
                Some(state) => seq![plain(encode_utf8(state))],
                None => Seq::empty(),
            })
            &&& entry_values(after, other) == entry_values(edited(entries, old(fw)@), other)
        },
        !valid_value(encode_utf8(context@.request_id)) ==> tells_of(injected, "x-request-id"@),
        valid_value(encode_utf8(context@.request_id)) && !valid_value(encode_utf8(traceparent@))
            ==> tells_of(injected, "traceparent"@),
        valid_value(encode_utf8(context@.request_id)) && valid_value(encode_utf8(traceparent@))
            && injected is Err ==> tells_of(injected, "tracestate"@),
{
    let before = edited(entries, old(fw)@);
    lemma_edited_concat(entries, old(fw)@, injected_edits(context@, generated@).0);
    if injected is Ok {
        law_injected_headers_replace_earlier_ones(before, context@, generated@, other);
    }
}

// ----- tracestate -----

/// The propagated text of members is all of them, separated by commas: the first, and then
/// each with a comma before it.
pub proof fn lemma_joined(members: Seq<(Seq<char>, Seq<char>)>)
    requires
        members.len() > 0,
    ensures
        members.len() == 1 ==> joined_members(members) == members[0].0 + seq!['='] + members[0].1,
        members.len() > 1 ==> joined_members(members) == joined_members(members.drop_last()) + seq![
            ',',
        ] + members.last().0 + seq!['='] + members.last().1,
{
    if members.len() == 1 {
        assert(joined_members(members) =~= members[0].0 + seq!['='] + members[0].1);
    } else {
        assert(joined_members(members) =~= joined_members(members.drop_last()) + seq![','] + members
            .last().0 + seq!['='] + members.last().1);
    }
}

/// A list of up to 32 well-formed members with different keys is propagated as it is, in
/// order, up to 512 characters; what does not fit is dropped from the end.
pub proof fn law_well_formed_tracestates_are_propagated(
    combined: &str,
    members: Seq<(Seq<char>, Seq<char>)>,
    parsed: Option<String>,
    kept: int,
)
    requires
        call_ensures(parse_tracestate, (combined,), parsed),
        0 < members.len() <= 32,
        writable(members),
        forall|i: int, j: int|
            0 <= i < j < members.len() ==> (#[trigger] members[i]).0 != (#[trigger] members[j]).0,
        combined@ == joined_members(members),
        0 < kept <= members.len(),
        forall|n: int|
            0 < n <= kept ==> (#[trigger] joined_members(members.take(n))).len() <= 512,
        kept < members.len() ==> joined_members(members.take(kept + 1)).len() > 512,
    ensures
        parsed is Some,
        parsed->0@ == joined_members(members.take(kept)),
        kept == members.len() ==> parsed->0@ == combined@,
{
    lemma_split_joined(members);
    let parts = split(combined@, ',');
    assert forall|i: int| 0 <= i < parts.len() implies is_member(#[trigger] parts[i])
        && member_key(parts[i]) == members[i].0 && member_value(parts[i]) == members[i].1 by {
        assert(is_member_key(members[i].0));
        lemma_member_round_trip(members[i].0, members[i].1);
    }
    assert(members_of(combined@) =~= members);
    assert(valid_tracestate(combined@));
    lemma_kept_is(members, kept);
    assert(members.take(members.len() as int) =~= members);
}

/// How many members are kept.
proof fn lemma_kept_is(members: Seq<(Seq<char>, Seq<char>)>, kept: int)
    requires
        0 <= kept <= members.len(),
        forall|n: int|
            0 < n <= kept ==> (#[trigger] joined_members(members.take(n))).len() <= 512,
        kept < members.len() ==> joined_members(members.take(kept + 1)).len() > 512,
    ensures
        kept_members(members) == kept,
    decreases members.len(),
{
    if members.len() > 0 {
        let shorter = members.drop_last();
        let most = if kept == members.len() {
            kept - 1
        } else {
            kept
        };
        assert forall|n: int| 0 < n <= most implies (#[trigger] joined_members(
            shorter.take(n),
        )).len() <= 512 by {
            assert(shorter.take(n) =~= members.take(n));
            assert(joined_members(members.take(n)).len() <= 512);
        }
        if most < shorter.len() {
            assert(shorter.take(most + 1) =~= members.take(most + 1));
        }
        lemma_kept_is(shorter, most);
        assert(members.take(members.len() as int) =~= members);
        if kept == members.len() {
            assert(joined_members(members.take(kept)).len() <= 512);
        } else if kept == members.len() - 1 {
            assert(members.take(kept + 1) =~= members);
        }
    }
}

/// A list with a member that is not well formed, with a key that occurs twice, or with more
/// than 32 members is not propagated at all.
pub proof fn law_other_tracestates_are_dropped(combined: &str, parsed: Option<String>)
    requires
        call_ensures(parse_tracestate, (combined,), parsed),
        ({
            let parts = split(combined@, ',');
            ||| parts.len() > 32
            ||| exists|i: int| 0 <= i < parts.len() && !#[trigger] is_member(parts[i])
            ||| exists|i: int, j: int|
                0 <= i < j < parts.len() && #[trigger] member_key(parts[i])
                    == #[trigger] member_key(parts[j])
        }),
    ensures
        parsed is None,
{
    let parts = split(combined@, ',');
    if exists|i: int, j: int|
        0 <= i < j < parts.len() && #[trigger] member_key(parts[i]) == #[trigger] member_key(
            parts[j],
        ) {
        let (i, j) = choose|i: int, j: int|
            0 <= i < j < parts.len() && #[trigger] member_key(parts[i]) == #[trigger] member_key(
                parts[j],
            );
        assert(members_of(combined@)[i].0 == members_of(combined@)[j].0);
    }
}

/// A character of a key.
pub open spec fn in_key(c: char) -> bool {
    ('a' <= c && c <= 'z') || ('0' <= c && c <= '9') || c == '_' || c == '-' || c == '*' || c == '/'
}

/// A part of a key: up to `max` characters, the first of them a letter, or a digit where
/// that is allowed.
pub open spec fn key_part(s: Seq<char>, max: int, digit_first: bool) -> bool {
    &&& 0 < s.len() <= max
    &&& ('a' <= s[0] && s[0] <= 'z') || (digit_first && '0' <= s[0] && s[0] <= '9')
    &&& forall|i: int| 0 <= i < s.len() ==> in_key(#[trigger] s[i])
}

/// A key: of one part, or of a tenant and a system with an `@` between them.
pub open spec fn is_key(s: Seq<char>) -> bool {
    key_part(s, 256, false) || exists|at: int|
        0 <= at < s.len() && #[trigger] s[at] == '@' && key_part(s.take(at), 241, true)
            && key_part(s.skip(at + 1), 14, false)
}

/// A value: up to 256 printable characters other than the comma and the equals sign, the
/// last of them no space.
pub open spec fn is_value(s: Seq<char>) -> bool {
    &&& 0 < s.len() <= 256
    &&& forall|i: int|
        0 <= i < s.len() ==> ' ' <= #[trigger] s[i] && s[i] <= '~' && s[i] != ',' && s[i] != '='
    &&& s.last() != ' '
}

proof fn lemma_key(s: Seq<char>)
    ensures
        is_key(s) <==> is_member_key(s),
{
    let at = first_index(s, '@');
    lemma_first_index(s, '@');
    if is_key(s) {
        if key_part(s, 256, false) {
            if at < s.len() {
                assert(in_key(s[at]));
            }
            assert forall|i: int| 0 < i < s.len() implies crate::trace::state::is_key_char(
                #[trigger] s[i],
            ) by {
                assert(in_key(s[i]));
            }
        } else {
            let k = choose|k: int|
                0 <= k < s.len() && #[trigger] s[k] == '@' && key_part(s.take(k), 241, true)
                    && key_part(s.skip(k + 1), 14, false);
            if at < k {
                assert(s.take(k)[at] == s[at]);
                assert(in_key(s.take(k)[at]));
            }
            assert(at == k);
            lemma_key_part(s.take(k), 241, true);
            lemma_key_part(s.skip(k + 1), 14, false);
        }
    }
    if is_member_key(s) {
        if at == s.len() {
            lemma_key_part(s, 256, false);
        } else {
            lemma_key_part(s.take(at), 241, true);
            lemma_key_part(s.skip(at + 1), 14, false);
            assert(s[at] == '@');
        }
    }
}

proof fn lemma_key_part(s: Seq<char>, max: nat, digit_first: bool)
    ensures
        key_part(s, max as int, digit_first) <==> crate::trace::state::is_key_id(
            s,
            max,
            digit_first,
        ),
{
    if key_part(s, max as int, digit_first) {
        assert forall|i: int| 0 < i < s.len() implies crate::trace::state::is_key_char(
            #[trigger] s[i],
        ) by {
            assert(in_key(s[i]));
        }
    }
    if crate::trace::state::is_key_id(s, max, digit_first) {
        assert forall|i: int| 0 <= i < s.len() implies in_key(#[trigger] s[i]) by {
            if i > 0 {
                assert(crate::trace::state::is_key_char(s[i]));
            }
        }
    }
}

proof fn lemma_value(s: Seq<char>)
    ensures
        is_value(s) <==> is_member_value(s),
{
    if is_value(s) {
        assert forall|i: int| 0 <= i < s.len() implies crate::trace::state::is_value_char(
            #[trigger] s[i],
        ) by {
        }
    }
    if is_member_value(s) {
        assert forall|i: int| 0 <= i < s.len() implies ' ' <= #[trigger] s[i] && s[i] <= '~'
            && s[i] != ',' && s[i] != '=' by {
            assert(crate::trace::state::is_value_char(s[i]));
        }
    }
}

/// A list of one member is propagated exactly where its key and its value are well formed
/// and it is no longer than 512 characters, and then as it is.
pub proof fn law_tracestate_members_have_a_key_and_a_value(
    combined: &str,
    key: Seq<char>,
    value: Seq<char>,
    parsed: Option<String>,
)
    requires
        call_ensures(parse_tracestate, (combined,), parsed),
        combined@ == key + seq!['='] + value,
        !combined@.contains(','),
        !key.contains('='),
        key.len() > 0 ==> !is_ows(key[0]) && !is_ows(key.last()),
        value.len() > 0 ==> !is_ows(value[0]) && !is_ows(value.last()),
    ensures
        parsed is Some <==> is_key(key) && is_value(value) && combined@.len() <= 512,
        parsed is Some ==> parsed->0@ == combined@,
{
    lemma_key(key);
    lemma_value(value);
    lemma_split_single(combined@, ',');
    let parts = split(combined@, ',');
    let text = combined@;
    let members = seq![(key, value)];
    assert(member_text((key, value)) =~= text);
    if key.len() > 0 && value.len() > 0 {
        assert(text[0] == key[0] && text.last() == value.last());
        assert(trimmed(text) == text);
        assert forall|i: int| 0 <= i < key.len() implies text[i] != '=' by {
            assert(key[i] == text[i]);
            assert(key.contains(key[i]));
        }
        assert(text[key.len() as int] == '=');
        lemma_first_index_unique(text, '=', key.len() as int);
        assert(text.take(key.len() as int) =~= key);
        assert(text.skip(key.len() as int + 1) =~= value);
        assert(member_key(text) == key && member_value(text) == value);
        assert(members_of(text) =~= members);
        assert(valid_tracestate(text) <==> is_member_key(key) && is_member_value(value)) by {
            assert(parts[0] == text);
        }
        assert(joined_members(members) =~= text);
        assert(members.drop_last() =~= Seq::empty());
        assert(kept_members(members) == (if text.len() <= 512 {
            1nat
        } else {
            0
        })) by {
            reveal_with_fuel(kept_members, 2);
        }
        assert(members.take(1) =~= members);
    } else if valid_tracestate(text) {
        assert(is_member(parts[0]));
        lemma_empty_side(text, key, value);
    }
}

/// A member without a key, or without a value, is not well formed.
proof fn lemma_empty_side(text: Seq<char>, key: Seq<char>, value: Seq<char>)
    requires
        text == key + seq!['='] + value,
        key.len() == 0 || value.len() == 0,
        !key.contains('='),
        key.len() > 0 ==> !is_ows(key[0]) && !is_ows(key.last()),
        value.len() > 0 ==> !is_ows(value[0]) && !is_ows(value.last()),
    ensures
        !is_member(text),
{
    if key.len() > 0 {
        assert(text[0] == key[0]);
    } else {
        assert(text[0] == '=');
    }
    if value.len() > 0 {
        assert(text.last() == value.last());
    } else {
        assert(text.last() == '=');
    }
    assert(trimmed(text) == text);
    assert forall|i: int| 0 <= i < key.len() implies text[i] != '=' by {
        assert(key[i] == text[i]);
        assert(key.contains(key[i]));
    }
    assert(text[key.len() as int] == '=');
    lemma_first_index_unique(text, '=', key.len() as int);
    assert(text.take(key.len() as int) =~= key);
    assert(text.skip(key.len() as int + 1) =~= value);
    if key.len() == 0 {
        assert(crate::trace::state::trimmed(key) == key);
        lemma_key(key);
    } else {
        assert(crate::trace::state::trimmed(value) == value);
    }
}

/// Trimming adds no character.
proof fn lemma_trimmed_lacks(s: Seq<char>, c: char)
    requires
        !s.contains(c),
    ensures
        !trim_start(s).contains(c),
        !trim_end(s).contains(c),
    decreases s.len(),
{
    if s.len() > 0 {
        let later = s.drop_first();
        let earlier = s.drop_last();
        assert forall|i: int| 0 <= i < later.len() implies later[i] != c by {
            assert(s.contains(s[i + 1]));
        }
        assert forall|i: int| 0 <= i < earlier.len() implies earlier[i] != c by {
            assert(s.contains(s[i]));
        }
        lemma_trimmed_lacks(later, c);
        lemma_trimmed_lacks(earlier, c);
    }
}

/// A list is dropped where one of its members has no equals sign.
pub proof fn law_members_without_a_value_are_dropped(
    combined: &str,
    parsed: Option<String>,
    i: int,
)
    requires
        call_ensures(parse_tracestate, (combined,), parsed),
        0 <= i < split(combined@, ',').len(),
        !split(combined@, ',')[i].contains('='),
    ensures
        parsed is None,
{
    let part = split(combined@, ',')[i];
    lemma_trimmed_lacks(part, '=');
    lemma_trimmed_lacks(trim_start(part), '=');
    let member = trimmed(part);
    lemma_first_index(member, '=');
    if first_index(member, '=') < member.len() {
        assert(member.contains(member[first_index(member, '=')]));
    }
    assert(!is_member(part));
}

} // verus!
