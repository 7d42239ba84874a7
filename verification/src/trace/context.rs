//! Request-scoped correlation ids for forwarded requests and sub-requests.
use crate::headers::{
    ascii_lower, distinct_names, entries_insert, entries_remove, entry_values, header_entries,
    known_name, lemma_insert, lemma_remove, map_values, parse_value, plain, valid_name,
    valid_value, value_data, values_view, Entries,
};
use crate::text::{ascii_text, is_visible, text_of, visible_text};
use crate::trace::parent::{
    generate_span_id, generate_trace_id, is_hex, is_hex_char, is_w3c_id, law_minted_ids_are_w3c,
    masked_flags, minted_span_id, minted_trace_id, parse_traceparent, valid_traceparent,
    InboundTrace, TRACE_ID_LEN,
};
use crate::trace::split::{lemma_split_append, lemma_split_single, split};
use crate::trace::state::{law_tracestate_size, parse_tracestate, parsed_tracestate, text_view};
use http::HeaderMap;
use vstd::prelude::*;
use vstd::string::*;
use vstd::utf8::*;

verus! {

/// Header name for the request correlation ID.
pub const REQUEST_ID_HEADER: &'static str = "x-request-id";

/// Header name for W3C trace context.
pub const TRACEPARENT_HEADER: &'static str = "traceparent";

/// Header name for W3C vendor trace state.
pub const TRACESTATE_HEADER: &'static str = "tracestate";

/// W3C version this proxy emits.
pub const VERSION: &'static str = "00";

/// Sampled `trace-flags` for a newly started trace.
pub const SAMPLED: &'static str = "01";

/// Request-scoped correlation ids. Outbound hops share the trace-id and mint a
/// span-id.
#[derive(Debug, PartialEq, Eq)]
pub struct TraceContext {
    flags: String,
    request_id: String,
    trace_id: String,
    tracestate: Option<String>,
}

/// What a [`TraceContext`] holds.
pub struct TraceContextView {
    /// W3C `trace-flags` propagated to outbound hops.
    pub flags: Seq<char>,
    /// Request correlation identifier propagated as `x-request-id`.
    pub request_id: Seq<char>,
    /// W3C trace-id shared by all outbound hops of the request.
    pub trace_id: Seq<char>,
    /// Validated inbound `tracestate`.
    pub tracestate: Option<Seq<char>>,
}

impl View for TraceContext {
    type V = TraceContextView;

    closed spec fn view(&self) -> TraceContextView {
        TraceContextView {
            flags: self.flags@,
            request_id: self.request_id@,
            trace_id: self.trace_id@,
            tracestate: text_view(self.tracestate),
        }
    }
}

impl Clone for TraceContext {
    fn clone(&self) -> (copy: Self)
        ensures
            copy == *self,
    {
        TraceContext {
            flags: self.flags.clone(),
            request_id: self.request_id.clone(),
            trace_id: self.trace_id.clone(),
            tracestate: match &self.tracestate {
                Some(state) => Some(state.clone()),
                None => None,
            },
        }
    }
}

/// One pending change to the headers of a sub-request.
pub enum HeaderEdit {
    /// Every field under the name leaves.
    Remove(String),
    /// The value becomes the only one under the name.
    Insert(String, String),
}

/// What a [`HeaderEdit`] asks for.
pub enum HeaderEditView {
    /// Every field under the name leaves.
    Remove(Seq<char>),
    /// The value becomes the only one under the name.
    Insert(Seq<char>, Seq<char>),
}

impl View for HeaderEdit {
    type V = HeaderEditView;

    open spec fn view(&self) -> HeaderEditView {
        match self {
            HeaderEdit::Remove(name) => HeaderEditView::Remove(name@),
            HeaderEdit::Insert(name, value) => HeaderEditView::Insert(name@, value@),
        }
    }
}

/// The framework-owned header changes of a sub-request, in the order in which
/// they apply. Every change is taken.
pub struct FrameworkHeaders {
    /// The changes so far.
    pub edits: Vec<HeaderEdit>,
}

impl View for FrameworkHeaders {
    type V = Seq<HeaderEditView>;

    open spec fn view(&self) -> Seq<HeaderEditView> {
        Seq::new(self.edits@.len(), |i: int| self.edits@[i]@)
    }
}

/// Why a sub-request could not be prepared.
#[derive(Debug)]
pub enum SubRequestError {
    /// A header value that cannot be sent.
    InvalidRequest(String),
}

/// The values under `name`, read as a header field list.
pub open spec fn field_values(entries: Entries, name: &str) -> Seq<Seq<u8>> {
    Seq::new(
        entry_values(entries, name@).len(),
        |i: int| entry_values(entries, name@)[i].0,
    )
}

/// The trace-id and masked flags of the trace that a request continues: it has
/// exactly one `traceparent`, and that one is valid.
pub open spec fn continued_trace(entries: Entries) -> Option<
    (Seq<char>, Seq<char>),
> {
    let values = field_values(entries, TRACEPARENT_HEADER);
    if values.len() == 1 && is_visible(values[0]) && valid_traceparent(ascii_text(values[0])) {
        let fields = split(ascii_text(values[0]), '-');
        Some((fields[1], masked_flags(fields[3])))
    } else {
        None
    }
}

/// The inbound request correlation identifier, when it is readable text.
pub open spec fn inbound_request_id(entries: Entries) -> Option<Seq<char>> {
    let values = field_values(entries, REQUEST_ID_HEADER);
    if values.len() > 0 && is_visible(values[0]) {
        Some(ascii_text(values[0]))
    } else {
        None
    }
}

/// Header values as one list, separated by commas.
pub open spec fn comma_joined(values: Seq<Seq<u8>>) -> Seq<char>
    decreases values.len(),
{
    if values.len() == 0 {
        Seq::empty()
    } else if values.len() == 1 {
        ascii_text(values[0])
    } else {
        comma_joined(values.drop_last()).push(',') + ascii_text(values.last())
    }
}

/// The `tracestate` that a request hands on: all its values combined, if each is
/// readable text and the whole is valid.
pub open spec fn inbound_tracestate(entries: Entries) -> Option<Seq<char>> {
    let values = field_values(entries, TRACESTATE_HEADER);
    if values.len() > 0 && (forall|i: int|
        0 <= i < values.len() ==> is_visible(#[trigger] values[i])) {
        parsed_tracestate(comma_joined(values))
    } else {
        None
    }
}

/// The number of generated identifiers that a request needs: one when it brings
/// no correlation identifier, and one when it starts a trace.
pub open spec fn ids_needed(entries: Entries) -> nat {
    (if inbound_request_id(entries) is None {
        1nat
    } else {
        0
    }) + (if continued_trace(entries) is None {
        1nat
    } else {
        0
    })
}

/// The correlation ids of a request with the given headers, where `generated`
/// holds the identifiers drawn for it: the one for the request comes first.
pub open spec fn request_context(
    entries: Entries,
    generated: Seq<Seq<char>>,
) -> TraceContextView {
    let request_id = match inbound_request_id(entries) {
        Some(id) => id,
        None => generated[0],
    };
    match continued_trace(entries) {
        Some((trace_id, flags)) => TraceContextView {
            flags,
            request_id,
            trace_id,
            tracestate: inbound_tracestate(entries),
        },
        None => TraceContextView {
            flags: SAMPLED@,
            request_id,
            trace_id: minted_trace_id(generated.last()),
            tracestate: None,
        },
    }
}

/// Generated identifiers read by their views.
pub open spec fn ids_view(ids: Seq<String>) -> Seq<Seq<char>> {
    Seq::new(ids.len(), |i: int| ids[i]@)
}

/// `version-trace_id-span_id-flags`.
pub open spec fn traceparent_text(
    context: TraceContextView,
    span_id: Seq<char>,
) -> Seq<char> {
    VERSION@.push('-') + context.trace_id.push('-') + span_id.push('-') + context.flags
}

/// The `traceparent` of one hop, given the identifier that was drawn for it.
pub open spec fn hop_traceparent(context: TraceContextView, generated: Seq<char>) -> Seq<char> {
    traceparent_text(context, minted_span_id(minted_trace_id(generated)))
}

/// A text that can be sent as a header value.
pub open spec fn sendable(value: Seq<char>) -> bool {
    valid_value(encode_utf8(value))
}

/// What is reported about a header value that cannot be sent.
pub open spec fn unsendable_message(name: Seq<char>) -> Seq<char> {
    "invalid "@ + name + " value: failed to parse header value"@
}

/// The header changes that carry correlation ids to a sub-request: what the
/// sub-request had is dropped, then each header is set. A value that cannot be
/// sent ends the list and is named in the second result.
pub open spec fn injected_edits(
    context: TraceContextView,
    generated: Seq<char>,
) -> (Seq<HeaderEditView>, Option<Seq<char>>) {
    let traceparent = hop_traceparent(context, generated);
    let dropped = seq![
        HeaderEditView::Remove(REQUEST_ID_HEADER@),
        HeaderEditView::Remove(TRACEPARENT_HEADER@),
        HeaderEditView::Remove(TRACESTATE_HEADER@),
    ];
    let with_id = dropped.push(HeaderEditView::Insert(REQUEST_ID_HEADER@, context.request_id));
    let with_parent = with_id.push(HeaderEditView::Insert(TRACEPARENT_HEADER@, traceparent));
    if !sendable(context.request_id) {
        (dropped, Some(REQUEST_ID_HEADER@))
    } else if !sendable(traceparent) {
        (with_id, Some(TRACEPARENT_HEADER@))
    } else {
        match context.tracestate {
            Some(state) => if sendable(state) {
                (with_parent.push(HeaderEditView::Insert(TRACESTATE_HEADER@, state)), None)
            } else {
                (with_parent, Some(TRACESTATE_HEADER@))
            },
            None => (with_parent, None),
        }
    }
}

impl TraceContext {
    /// Builds a context of already resolved parts.
    pub fn new(request_id: String, trace_id: String, flags: String) -> (context: Self)
        ensures
            context@ == (TraceContextView {
                flags: flags@,
                request_id: request_id@,
                trace_id: trace_id@,
                tracestate: None,
            }),
    {
        TraceContext { flags, request_id, trace_id, tracestate: None }
    }

    /// Continues a valid inbound trace.
    pub fn from_inbound(request_id: String, inbound: &InboundTrace) -> (context: Self)
        ensures
            context@ == (TraceContextView {
                flags: inbound.flags@,
                request_id: request_id@,
                trace_id: inbound.trace_id@,
                tracestate: None,
            }),
    {
        Self::new(request_id, inbound.trace_id.clone(), inbound.flags.clone())
    }

    /// Attaches inbound `tracestate`. An empty one counts as none.
    pub fn with_tracestate(self, tracestate: Option<String>) -> (context: Self)
        ensures
            context@ == (TraceContextView {
                tracestate: match text_view(tracestate) {
                    Some(state) => if state.len() > 0 {
                        Some(state)
                    } else {
                        None
                    },
                    None => None,
                },
                ..self@
            }),
    {
        let tracestate = match tracestate {
            Some(state) => if state.as_str().is_empty() {
                None
            } else {
                Some(state)
            },
            None => None,
        };
        TraceContext { tracestate, ..self }
    }

    /// Starts a sampled trace with a generated identifier.
    pub fn new_sampled(request_id: String, generated: &str) -> (context: Self)
        ensures
            context@ == (TraceContextView {
                flags: SAMPLED@,
                request_id: request_id@,
                trace_id: minted_trace_id(generated@),
                tracestate: None,
            }),
    {
        Self::new(request_id, generate_trace_id(generated), SAMPLED.to_owned())
    }

    /// The number of identifiers to generate before
    /// [`TraceContext::from_request_headers`].
    pub fn generated_ids_needed(headers: &HeaderMap) -> (count: usize)
        ensures
            count == ids_needed(header_entries(*headers)),
    {
        let mut count: usize = 0;
        if resolve_request_id(headers).is_none() {
            count += 1;
        }
        if inbound_trace(headers).is_none() {
            count += 1;
        }
        count
    }

    /// Builds from inbound headers: reuses an inbound `x-request-id` when
    /// present, and continues an inbound trace when there is exactly one valid
    /// `traceparent`.
    pub fn from_request_headers(headers: &HeaderMap, generated: &Vec<String>) -> (context: Self)
        requires
            generated@.len() == ids_needed(header_entries(*headers)),
        ensures
            context@ == request_context(header_entries(*headers), ids_view(generated@)),
    {
        let inbound = inbound_trace(headers);
        let request_id = match resolve_request_id(headers) {
            Some(id) => id,
            None => generated[0].clone(),
        };
        match inbound {
            Some(trace) => {
                let state = combined_tracestate(headers);
                proof {
                    law_tracestate_size(
                        comma_joined(
                            field_values(header_entries(*headers), TRACESTATE_HEADER),
                        ),
                    );
                }
                Self::from_inbound(request_id, &trace).with_tracestate(state)
            },
            None => Self::new_sampled(request_id, generated[generated.len() - 1].as_str()),
        }
    }

    /// Correlation headers for one outbound hop.
    pub fn headers_for_hop(&self, generated: &str) -> (headers: [(&'static str, String); 2])
        ensures
            headers@[0].0@ == REQUEST_ID_HEADER@,
            headers@[0].1@ == self@.request_id,
            headers@[1].0@ == TRACEPARENT_HEADER@,
            headers@[1].1@ == hop_traceparent(self@, generated@),
    {
        [
            (REQUEST_ID_HEADER, self.request_id.clone()),
            (TRACEPARENT_HEADER, self.traceparent_for_hop(generated)),
        ]
    }

    /// Resolved `x-request-id`.
    pub fn request_id(&self) -> (id: &str)
        ensures
            id@ == self@.request_id,
    {
        self.request_id.as_str()
    }

    /// Replaces the request correlation identifier with an accepted value.
    pub fn set_request_id(&mut self, request_id: String)
        ensures
            final(self)@ == (TraceContextView { request_id: request_id@, ..old(self)@ }),
    {
        self.request_id = request_id;
    }

    /// Trace-id shared by every outbound hop.
    pub fn trace_id(&self) -> (id: &str)
        ensures
            id@ == self@.trace_id,
    {
        self.trace_id.as_str()
    }

    /// W3C `trace-flags`.
    pub fn flags(&self) -> (flags: &str)
        ensures
            flags@ == self@.flags,
    {
        self.flags.as_str()
    }

    /// Validated inbound `tracestate`, if any.
    pub fn tracestate(&self) -> (state: Option<&str>)
        ensures
            match state {
                Some(text) => self@.tracestate == Some(text@),
                None => self@.tracestate is None,
            },
    {
        match &self.tracestate {
            Some(state) => Some(state.as_str()),
            None => None,
        }
    }

    /// Whether the sampled bit is set.
    pub fn sampled(&self) -> (sampled: bool)
        ensures
            sampled == (self@.flags == SAMPLED@),
    {
        self.flags == SAMPLED.to_owned()
    }

    /// Injects `x-request-id`, a hop `traceparent` and any `tracestate`.
    pub fn inject_into(
        &self,
        fw: &mut FrameworkHeaders,
        generated: &str,
    ) -> (injected: Result<(), SubRequestError>)
        ensures
            final(fw)@ == old(fw)@ + injected_edits(self@, generated@).0,
            match injected {
                Ok(()) => injected_edits(self@, generated@).1 is None,
                Err(SubRequestError::InvalidRequest(message)) => {
                    &&& injected_edits(self@, generated@).1 is Some
                    &&& message@ == unsendable_message(injected_edits(self@, generated@).1->0)
                },
            },
    {
        let traceparent = self.traceparent_for_hop(generated);
        fw.remove(REQUEST_ID_HEADER);
        fw.remove(TRACEPARENT_HEADER);
        fw.remove(TRACESTATE_HEADER);
        let request_id = match header_value(REQUEST_ID_HEADER, self.request_id.as_str()) {
            Ok(value) => value,
            Err(e) => return Err(e),
        };
        fw.insert(REQUEST_ID_HEADER, request_id);
        let traceparent = match header_value(TRACEPARENT_HEADER, traceparent.as_str()) {
            Ok(value) => value,
            Err(e) => return Err(e),
        };
        fw.insert(TRACEPARENT_HEADER, traceparent);
        match &self.tracestate {
            Some(state) => {
                let state = match header_value(TRACESTATE_HEADER, state.as_str()) {
                    Ok(value) => value,
                    Err(e) => return Err(e),
                };
                fw.insert(TRACESTATE_HEADER, state);
            },
            None => {},
        }
        Ok(())
    }

    /// `traceparent` for one hop, with a span-id made of a fresh identifier.
    pub fn traceparent_for_hop(&self, generated: &str) -> (traceparent: String)
        ensures
            traceparent@ == hop_traceparent(self@, generated@),
    {
        let span_id = generate_span_id(generated);
        let mut text = VERSION.to_owned();
        text.push('-');
        text.append(self.trace_id.as_str());
        text.push('-');
        text.append(span_id.as_str());
        text.push('-');
        text.append(self.flags.as_str());
        assert(text@ == hop_traceparent(self@, generated@));
        text
    }
}

impl FrameworkHeaders {
    /// No changes yet.
    pub fn new() -> (fw: Self)
        ensures
            fw@ == Seq::<HeaderEditView>::empty(),
    {
        FrameworkHeaders { edits: Vec::new() }
    }

    /// Asks for every field under `name` to leave.
    pub fn remove(&mut self, name: &str)
        ensures
            final(self)@ == old(self)@.push(HeaderEditView::Remove(name@)),
    {
        self.edits.push(HeaderEdit::Remove(name.to_owned()));
    }

    /// Asks for `value` to become the only one under `name`.
    pub fn insert(&mut self, name: &str, value: String)
        ensures
            final(self)@ == old(self)@.push(HeaderEditView::Insert(name@, value@)),
    {
        self.edits.push(HeaderEdit::Insert(name.to_owned(), value));
    }
}

/// Checks that a text can be sent as a header value.
fn header_value(name: &str, value: &str) -> (checked: Result<String, SubRequestError>)
    ensures
        match checked {
            Ok(text) => sendable(value@) && text@ == value@,
            Err(SubRequestError::InvalidRequest(message)) => !sendable(value@) && message@
                == unsendable_message(name@),
        },
{
    match parse_value(value.as_bytes()) {
        Some(_) => Ok(value.to_owned()),
        None => {
            let mut message = "invalid ".to_owned();
            message.append(name);
            message.append(" value: failed to parse header value");
            Err(SubRequestError::InvalidRequest(message))
        },
    }
}

/// The inbound `x-request-id`, when it is readable text.
fn resolve_request_id(headers: &HeaderMap) -> (id: Option<String>)
    ensures
        text_view(id) == inbound_request_id(header_entries(*headers)),
{
    proof {
        lemma_names_are_lower();
    }
    let values = map_values(headers, &known_name(REQUEST_ID_HEADER));
    assert(values_view(values@).len() == values@.len());
    if values.len() == 0 {
        return None;
    }
    assert(values_view(values@)[0].0 == value_data(values@[0]));
    match visible_text(values[0].as_bytes()) {
        Some(chars) => Some(text_of(chars.as_slice())),
        None => None,
    }
}

/// W3C `traceparent` is a singleton: a trace is continued only with exactly one
/// valid value.
fn inbound_trace(headers: &HeaderMap) -> (trace: Option<InboundTrace>)
    ensures
        match trace {
            Some(t) => continued_trace(header_entries(*headers)) == Some((t.trace_id@, t.flags@)),
            None => continued_trace(header_entries(*headers)) is None,
        },
{
    proof {
        lemma_names_are_lower();
    }
    let values = map_values(headers, &known_name(TRACEPARENT_HEADER));
    assert(values_view(values@).len() == values@.len());
    if values.len() != 1 {
        return None;
    }
    assert(values_view(values@)[0].0 == value_data(values@[0]));
    match visible_text(values[0].as_bytes()) {
        Some(chars) => parse_traceparent(text_of(chars.as_slice()).as_str()),
        None => None,
    }
}

/// Combines inbound `tracestate` values into one list, then validates members.
fn combined_tracestate(headers: &HeaderMap) -> (state: Option<String>)
    ensures
        text_view(state) == inbound_tracestate(header_entries(*headers)),
{
    proof {
        lemma_names_are_lower();
    }
    let values = map_values(headers, &known_name(TRACESTATE_HEADER));
    let ghost views = field_values(header_entries(*headers), TRACESTATE_HEADER);
    assert(values_view(values@).len() == values@.len());
    assert(views.len() == values@.len());
    let mut combined = String::new();
    let mut i: usize = 0;
    assert(views.take(0) == Seq::<Seq<u8>>::empty());
    while i < values.len()
        invariant
            i <= values@.len(),
            views.len() == values@.len(),
            views == field_values(header_entries(*headers), TRACESTATE_HEADER),
            values_view(values@) == entry_values(header_entries(*headers), TRACESTATE_HEADER@),
            combined@ == comma_joined(views.take(i as int)),
            forall|j: int| 0 <= j < i ==> is_visible(#[trigger] views[j]),
        decreases values@.len() - i,
    {
        assert(values_view(values@)[i as int].0 == value_data(values@[i as int]));
        let chars = match visible_text(values[i].as_bytes()) {
            Some(chars) => chars,
            None => {
                assert(!is_visible(views[i as int]));
                return None;
            },
        };
        let ghost next = views.take(i + 1);
        assert(next.drop_last() == views.take(i as int));
        assert(next.last() == views[i as int]);
        if i > 0 {
            combined.push(',');
        }
        let part = text_of(chars.as_slice());
        combined.append(part.as_str());
        i += 1;
        assert(combined@ == comma_joined(next)) by {
            if i == 1 {
                assert(next[0] == views[0]);
                assert(combined@ == ascii_text(views[0]));
            }
        }
    }
    assert(views.take(i as int) == views);
    if values.len() == 0 {
        return None;
    }
    parse_tracestate(combined.as_str())
}

/// Initializes request-scoped correlation unless a context is already there.
pub fn ensure_trace_context(
    slot: &mut Option<TraceContext>,
    headers: &HeaderMap,
    generated: &Vec<String>,
)
    requires
        *old(slot) is None ==> generated@.len() == ids_needed(header_entries(*headers)),
    ensures
        match *old(slot) {
            Some(context) => *final(slot) == Some(context),
            None => *final(slot) is Some && final(slot)->0@ == request_context(
                header_entries(*headers),
                ids_view(generated@),
            ),
        },
{
    if slot.is_some() {
        return;
    }
    *slot = Some(TraceContext::from_request_headers(headers, generated));
}

/// The header names are valid and written in lower case.
pub proof fn lemma_names_are_lower()
    ensures
        ascii_lower(REQUEST_ID_HEADER@) == REQUEST_ID_HEADER@,
        ascii_lower(TRACEPARENT_HEADER@) == TRACEPARENT_HEADER@,
        ascii_lower(TRACESTATE_HEADER@) == TRACESTATE_HEADER@,
        valid_name(REQUEST_ID_HEADER@),
        valid_name(TRACEPARENT_HEADER@),
        valid_name(TRACESTATE_HEADER@),
{
    reveal_strlit("x-request-id");
    reveal_strlit("traceparent");
    reveal_strlit("tracestate");
    assert(ascii_lower(REQUEST_ID_HEADER@) =~= REQUEST_ID_HEADER@);
    assert(ascii_lower(TRACEPARENT_HEADER@) =~= TRACEPARENT_HEADER@);
    assert(ascii_lower(TRACESTATE_HEADER@) =~= TRACESTATE_HEADER@);
}

/// `tracestate` travels only with a continued trace, that is with exactly one
/// valid inbound `traceparent`.
pub proof fn law_tracestate_needs_traceparent(
    entries: Entries,
    generated: Seq<Seq<char>>,
)
    ensures
        request_context(entries, generated).tracestate is Some ==> {
            let values = field_values(entries, TRACEPARENT_HEADER);
            values.len() == 1 && is_visible(values[0]) && valid_traceparent(
                ascii_text(values[0]),
            )
        },
{
}

/// Whatever the inbound headers and the generated identifiers are, the trace-id
/// of a request is in W3C form, and its flags hold at most the sampled bit.
pub proof fn law_request_context_is_w3c(
    entries: Entries,
    generated: Seq<Seq<char>>,
)
    ensures
        is_w3c_id(request_context(entries, generated).trace_id, TRACE_ID_LEN as nat),
        request_context(entries, generated).flags == seq!['0', '0'] || request_context(
            entries,
            generated,
        ).flags == seq!['0', '1'],
{
    law_minted_ids_are_w3c(generated.last());
    reveal_strlit("01");
    assert(SAMPLED@ =~= seq!['0', '1']);
}

/// A hop's `traceparent` is valid and continues the trace: parsing it gives back
/// the trace-id and the flags that were sent.
pub proof fn law_hop_traceparent_round_trip(context: TraceContextView, generated: Seq<char>)
    requires
        is_w3c_id(context.trace_id, TRACE_ID_LEN as nat),
        context.flags == seq!['0', '0'] || context.flags == seq!['0', '1'],
    ensures
        valid_traceparent(hop_traceparent(context, generated)),
        split(hop_traceparent(context, generated), '-')[1] == context.trace_id,
        masked_flags(split(hop_traceparent(context, generated), '-')[3]) == context.flags,
{
    law_minted_ids_are_w3c(generated);
    let span_id = minted_span_id(minted_trace_id(generated));
    reveal_strlit("00");
    assert(VERSION@ =~= seq!['0', '0']);
    lemma_hex_has_no_dash(VERSION@);
    lemma_hex_has_no_dash(context.trace_id);
    lemma_hex_has_no_dash(span_id);
    lemma_hex_has_no_dash(context.flags);
    let one = VERSION@;
    let two = one.push('-') + context.trace_id;
    let three = two.push('-') + span_id;
    let four = three.push('-') + context.flags;
    assert(four == hop_traceparent(context, generated));
    lemma_split_single(one, '-');
    lemma_split_append(one, context.trace_id, '-');
    lemma_split_append(two, span_id, '-');
    lemma_split_append(three, context.flags, '-');
    let fields = split(four, '-');
    assert(fields[0] == one && fields[1] == context.trace_id && fields[2] == span_id && fields[3]
        == context.flags);
    assert(fields[0] != seq!['f', 'f']) by {
        assert(seq!['f', 'f'][0] == 'f');
        assert(fields[0][0] == '0');
    }
    assert(is_hex(fields[0]) && is_hex(fields[3]));
}

/// The headers of a sub-request after the changes were made, one after the other.
pub open spec fn edited(
    entries: Entries,
    edits: Seq<HeaderEditView>,
) -> Entries
    decreases edits.len(),
{
    if edits.len() == 0 {
        entries
    } else {
        let before = edited(entries, edits.drop_last());
        match edits.last() {
            HeaderEditView::Remove(name) => entries_remove(before, ascii_lower(name)),
            HeaderEditView::Insert(name, value) => entries_insert(
                before,
                ascii_lower(name),
                plain(encode_utf8(value)),
            ),
        }
    }
}

proof fn lemma_edited_push(
    entries: Entries,
    edits: Seq<HeaderEditView>,
    edit: HeaderEditView,
)
    ensures
        edited(entries, edits.push(edit)) == (match edit {
            HeaderEditView::Remove(name) => entries_remove(
                edited(entries, edits),
                ascii_lower(name),
            ),
            HeaderEditView::Insert(name, value) => entries_insert(
                edited(entries, edits),
                ascii_lower(name),
                plain(encode_utf8(value)),
            ),
        }),
{
    assert(edits.push(edit).drop_last() =~= edits);
}

/// Whatever correlation headers a sub-request already had, injecting leaves it with
/// exactly those of the context: one `x-request-id`, one `traceparent`, and a
/// `tracestate` only if the context has one. Every other header stays as it was.
pub proof fn law_injected_headers_replace_earlier_ones(
    entries: Entries,
    context: TraceContextView,
    generated: Seq<char>,
    other: Seq<char>,
)
    requires
        distinct_names(entries),
        injected_edits(context, generated).1 is None,
        other != REQUEST_ID_HEADER@ && other != TRACEPARENT_HEADER@ && other != TRACESTATE_HEADER@,
    ensures
        ({
            let after = edited(entries, injected_edits(context, generated).0);
            &&& entry_values(after, REQUEST_ID_HEADER@) == seq![
                plain(encode_utf8(context.request_id)),
            ]
            &&& entry_values(after, TRACEPARENT_HEADER@) == seq![
                plain(encode_utf8(hop_traceparent(context, generated))),
            ]
            &&& entry_values(after, TRACESTATE_HEADER@) == (match context.tracestate {
                Some(state) => seq![plain(encode_utf8(state))],
                None => Seq::empty(),
            })
            &&& entry_values(after, other) == entry_values(entries, other)
        }),
{
    lemma_names_are_lower();
    lemma_names_differ();
    let id = REQUEST_ID_HEADER@;
    let parent = TRACEPARENT_HEADER@;
    let state = TRACESTATE_HEADER@;
    let none = Seq::<HeaderEditView>::empty();
    let first = none.push(HeaderEditView::Remove(id));
    let second = first.push(HeaderEditView::Remove(parent));
    let dropped = second.push(HeaderEditView::Remove(state));
    let with_id = dropped.push(HeaderEditView::Insert(id, context.request_id));
    let traceparent = hop_traceparent(context, generated);
    let with_parent = with_id.push(HeaderEditView::Insert(parent, traceparent));
    assert(dropped =~= seq![
        HeaderEditView::Remove(id),
        HeaderEditView::Remove(parent),
        HeaderEditView::Remove(state),
    ]);
    lemma_edited_push(entries, none, HeaderEditView::Remove(id));
    lemma_edited_push(entries, first, HeaderEditView::Remove(parent));
    lemma_edited_push(entries, second, HeaderEditView::Remove(state));
    lemma_edited_push(entries, dropped, HeaderEditView::Insert(id, context.request_id));
    lemma_edited_push(entries, with_id, HeaderEditView::Insert(parent, traceparent));
    lemma_remove(entries, id, state);
    lemma_remove(entries, id, other);
    lemma_remove(edited(entries, first), parent, state);
    lemma_remove(edited(entries, first), parent, other);
    lemma_remove(edited(entries, second), state, state);
    lemma_remove(edited(entries, second), state, other);
    let bare = edited(entries, dropped);
    lemma_insert(bare, id, plain(encode_utf8(context.request_id)), id);
    lemma_insert(bare, id, plain(encode_utf8(context.request_id)), state);
    lemma_insert(bare, id, plain(encode_utf8(context.request_id)), other);
    let named = edited(entries, with_id);
    lemma_insert(named, parent, plain(encode_utf8(traceparent)), id);
    lemma_insert(named, parent, plain(encode_utf8(traceparent)), parent);
    lemma_insert(named, parent, plain(encode_utf8(traceparent)), state);
    lemma_insert(named, parent, plain(encode_utf8(traceparent)), other);
    match context.tracestate {
        Some(text) => {
            lemma_edited_push(entries, with_parent, HeaderEditView::Insert(state, text));
            let traced = edited(entries, with_parent);
            lemma_insert(traced, state, plain(encode_utf8(text)), id);
            lemma_insert(traced, state, plain(encode_utf8(text)), parent);
            lemma_insert(traced, state, plain(encode_utf8(text)), state);
            lemma_insert(traced, state, plain(encode_utf8(text)), other);
        },
        None => {},
    }
}

/// The header names are different from each other.
pub proof fn lemma_names_differ()
    ensures
        REQUEST_ID_HEADER@ != TRACEPARENT_HEADER@,
        REQUEST_ID_HEADER@ != TRACESTATE_HEADER@,
        TRACEPARENT_HEADER@ != TRACESTATE_HEADER@,
{
    reveal_strlit("x-request-id");
    reveal_strlit("traceparent");
    reveal_strlit("tracestate");
    assert(REQUEST_ID_HEADER@.len() == 12 && TRACEPARENT_HEADER@.len() == 11
        && TRACESTATE_HEADER@.len() == 10);
}

/// Hexadecimal digits hold no dash.
pub proof fn lemma_hex_has_no_dash(s: Seq<char>)
    requires
        is_hex(s),
    ensures
        !s.contains('-'),
{
    if s.contains('-') {
        let i = choose|i: int| 0 <= i < s.len() && s[i] == '-';
        assert(is_hex_char(s[i]));
    }
}

} // verus!
