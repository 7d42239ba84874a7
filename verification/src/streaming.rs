//! Delivery of a streamed terminal response: what is done next after each event
//! of the source, the filters and the client.
use crate::body::BodyMode;
use crate::context::{HttpVersion, Rejection, RequestCtx, Response};
use crate::headers::{header_entries, names_view, MAX_HEADER_NAMES};
use crate::response_body::delivered;
use crate::response_phase::{rebuilt_entries, rebuilt_spellings};
use crate::terminal::{
    build_streaming_terminal_header, forbids_body, is_chunked, is_final_status,
    lemma_streaming_fits, prepare_streaming_headers, streaming_entries, streaming_limit,
    streaming_size_limit_exceeded,
};
use crate::transport::{
    in_step, plain_status_line, response_entries, response_status, spelled_names,
};
use http::HeaderName;
use pingora_http::ResponseHeader;
use vstd::prelude::*;

verus! {

// ----- Events and actions -----

/// Where the delivery stands: what its next event will be about.
#[derive(Clone, Copy, Debug, PartialEq, Eq, Structural)]
pub enum StreamPhase {
    /// The response filters run on the header.
    Preparing,
    /// The header is being written.
    WritingHeader,
    /// The source is asked for a chunk, and the client is watched.
    Polling,
    /// The body filters run on a chunk.
    FilteringChunk,
    /// A chunk is being written.
    WritingChunk,
    /// The body filters run on the end of the stream.
    FilteringEnd,
    /// The end of the stream is being written.
    WritingEnd,
    /// The source is told that its body is not wanted.
    Suppressing,
    /// The header of a response without a body is being written.
    WritingSuppressed,
    /// The delivery is over.
    Closed,
}

/// What happened.
#[derive(Clone, Copy, Debug, PartialEq, Eq, Structural)]
pub enum StreamEvent {
    /// The response filters rejected the response, or failed.
    Rejected,
    /// The response cannot be streamed: see `commit_stream`.
    Refused,
    /// The response has no body.
    Bodyless,
    /// The header is ready to be written.
    Ready,
    /// The source took the suppression, and the header can be sent.
    Suppressed,
    /// The source took the suppression, but the header cannot be sent.
    SuppressedUnsendable,
    /// The source failed to take the suppression.
    SuppressFailed,
    /// The client went away while the source was asked.
    Disconnected,
    /// The source gave a chunk.
    Chunk,
    /// The source ended.
    End,
    /// The source failed.
    SourceFailed,
    /// The body filters let the data through.
    Passed,
    /// The body filters stopped the data, or the response is over its limit.
    Stopped,
    /// The write succeeded.
    Written,
    /// The write failed.
    WriteFailed,
}

/// What is to be done.
#[derive(Clone, Copy, Debug, PartialEq, Eq, Structural)]
pub enum StreamAction {
    /// Exchange the extensions of the source with those of the request.
    SwapExtensions,
    /// Run the response filters on the header.
    RunResponseFilters,
    /// Write the header; the body follows.
    WriteHeader,
    /// Stop or start aborting the exchange when the client closes.
    AbortOnClose(bool),
    /// Ask the source for a chunk, and watch the client.
    Poll,
    /// Run the body filters on the chunk.
    FilterChunk,
    /// Write the chunk.
    WriteChunk,
    /// Run the body filters on the end of the stream.
    FilterEnd,
    /// Write the end of the stream.
    WriteEnd,
    /// Tell the source that its body is not wanted.
    Suppress,
    /// Write the header as the whole response.
    WriteSuppressedHeader,
    /// Cancel the source.
    Cancel,
    /// Answer with the rejection of the filters.
    SendRejection,
    /// Answer with 500.
    SendInternalError,
    /// Close the connection to the client.
    Shutdown,
}

/// What a delivery starts with.
pub open spec fn first_actions() -> Seq<StreamAction> {
    seq![StreamAction::SwapExtensions, StreamAction::RunResponseFilters]
}

/// The actions that give up a stream that the client was already promised.
pub open spec fn break_off() -> Seq<StreamAction> {
    seq![StreamAction::SwapExtensions, StreamAction::Cancel, StreamAction::Shutdown]
}

/// Next phase and actions after an event. An event that does not belong to the
/// phase changes nothing.
pub open spec fn stream_step(phase: StreamPhase, event: StreamEvent) -> (
    StreamPhase,
    Seq<StreamAction>,
) {
    match (phase, event) {
        (StreamPhase::Preparing, StreamEvent::Rejected) => (
            StreamPhase::Closed,
            seq![StreamAction::Cancel, StreamAction::SendRejection],
        ),
        (StreamPhase::Preparing, StreamEvent::Refused) => (
            StreamPhase::Closed,
            seq![
                StreamAction::SwapExtensions,
                StreamAction::SwapExtensions,
                StreamAction::Cancel,
                StreamAction::SendInternalError,
            ],
        ),
        (StreamPhase::Preparing, StreamEvent::Bodyless) => (
            StreamPhase::Suppressing,
            seq![StreamAction::SwapExtensions, StreamAction::Suppress],
        ),
        (StreamPhase::Preparing, StreamEvent::Ready) => (
            StreamPhase::WritingHeader,
            seq![StreamAction::SwapExtensions, StreamAction::WriteHeader],
        ),
        (StreamPhase::WritingHeader, StreamEvent::Written) => (
            StreamPhase::Polling,
            seq![StreamAction::AbortOnClose(false), StreamAction::Poll],
        ),
        (StreamPhase::WritingHeader, StreamEvent::WriteFailed) => (
            StreamPhase::Closed,
            break_off(),
        ),
        (StreamPhase::Polling, StreamEvent::Disconnected) => (StreamPhase::Closed, break_off()),
        (StreamPhase::Polling, StreamEvent::SourceFailed) => (StreamPhase::Closed, break_off()),
        (StreamPhase::Polling, StreamEvent::Chunk) => (
            StreamPhase::FilteringChunk,
            seq![StreamAction::SwapExtensions, StreamAction::FilterChunk],
        ),
        (StreamPhase::Polling, StreamEvent::End) => (
            StreamPhase::FilteringEnd,
            seq![
                StreamAction::AbortOnClose(true),
                StreamAction::SwapExtensions,
                StreamAction::FilterEnd,
            ],
        ),
        (StreamPhase::FilteringChunk, StreamEvent::Passed) => (
            StreamPhase::WritingChunk,
            seq![StreamAction::SwapExtensions, StreamAction::WriteChunk],
        ),
        (StreamPhase::FilteringChunk, StreamEvent::Stopped) => (
            StreamPhase::Closed,
            seq![StreamAction::Cancel, StreamAction::Shutdown],
        ),
        (StreamPhase::WritingChunk, StreamEvent::Written) => (
            StreamPhase::Polling,
            seq![StreamAction::Poll],
        ),
        (StreamPhase::WritingChunk, StreamEvent::WriteFailed) => (StreamPhase::Closed, break_off()),
        (StreamPhase::FilteringEnd, StreamEvent::Passed) => (
            StreamPhase::WritingEnd,
            seq![StreamAction::WriteEnd],
        ),
        (StreamPhase::FilteringEnd, StreamEvent::Stopped) => (
            StreamPhase::Closed,
            seq![StreamAction::Cancel, StreamAction::Shutdown],
        ),
        (StreamPhase::WritingEnd, StreamEvent::Written) => (StreamPhase::Closed, Seq::empty()),
        (StreamPhase::WritingEnd, StreamEvent::WriteFailed) => (
            StreamPhase::Closed,
            seq![StreamAction::Shutdown],
        ),
        (StreamPhase::Suppressing, StreamEvent::Suppressed) => (
            StreamPhase::WritingSuppressed,
            seq![StreamAction::WriteSuppressedHeader],
        ),
        (StreamPhase::Suppressing, StreamEvent::SuppressedUnsendable) => (
            StreamPhase::Closed,
            seq![StreamAction::Cancel, StreamAction::SendInternalError],
        ),
        (StreamPhase::Suppressing, StreamEvent::SuppressFailed) => (
            StreamPhase::Closed,
            seq![StreamAction::Cancel, StreamAction::SendInternalError],
        ),
        (StreamPhase::WritingSuppressed, StreamEvent::Written) => (
            StreamPhase::Closed,
            Seq::empty(),
        ),
        (StreamPhase::WritingSuppressed, StreamEvent::WriteFailed) => (
            StreamPhase::Closed,
            seq![StreamAction::Shutdown],
        ),
        _ => (phase, Seq::empty()),
    }
}

/// Starts the delivery of a streamed response.
pub fn start_stream() -> (started: (StreamPhase, Vec<StreamAction>))
    ensures
        started.0 == StreamPhase::Preparing,
        started.1@ == first_actions(),
{
    (
        StreamPhase::Preparing,
        vec![StreamAction::SwapExtensions, StreamAction::RunResponseFilters],
    )
}

/// Says what is done after an event. The last action of a step that does not
/// close the delivery is the one whose outcome is the next event.
pub fn next_stream_step(phase: StreamPhase, event: StreamEvent) -> (next: (
    StreamPhase,
    Vec<StreamAction>,
))
    ensures
        (next.0, next.1@) == stream_step(phase, event),
{
    match phase {
        StreamPhase::Preparing => match event {
            StreamEvent::Rejected => (
                StreamPhase::Closed,
                vec![StreamAction::Cancel, StreamAction::SendRejection],
            ),
            StreamEvent::Refused => (
                StreamPhase::Closed,
                vec![
                    StreamAction::SwapExtensions,
                    StreamAction::SwapExtensions,
                    StreamAction::Cancel,
                    StreamAction::SendInternalError,
                ],
            ),
            StreamEvent::Bodyless => (
                StreamPhase::Suppressing,
                vec![StreamAction::SwapExtensions, StreamAction::Suppress],
            ),
            StreamEvent::Ready => (
                StreamPhase::WritingHeader,
                vec![StreamAction::SwapExtensions, StreamAction::WriteHeader],
            ),
            _ => (phase, Vec::new()),
        },
        StreamPhase::WritingHeader => match event {
            StreamEvent::Written => (
                StreamPhase::Polling,
                vec![StreamAction::AbortOnClose(false), StreamAction::Poll],
            ),
            StreamEvent::WriteFailed => (StreamPhase::Closed, breaking_off()),
            _ => (phase, Vec::new()),
        },
        StreamPhase::Polling => match event {
            StreamEvent::Disconnected => (StreamPhase::Closed, breaking_off()),
            StreamEvent::SourceFailed => (StreamPhase::Closed, breaking_off()),
            StreamEvent::Chunk => (
                StreamPhase::FilteringChunk,
                vec![StreamAction::SwapExtensions, StreamAction::FilterChunk],
            ),
            StreamEvent::End => (
                StreamPhase::FilteringEnd,
                vec![
                    StreamAction::AbortOnClose(true),
                    StreamAction::SwapExtensions,
                    StreamAction::FilterEnd,
                ],
            ),
            _ => (phase, Vec::new()),
        },
        StreamPhase::FilteringChunk => match event {
            StreamEvent::Passed => (
                StreamPhase::WritingChunk,
                vec![StreamAction::SwapExtensions, StreamAction::WriteChunk],
            ),
            StreamEvent::Stopped => (
                StreamPhase::Closed,
                vec![StreamAction::Cancel, StreamAction::Shutdown],
            ),
            _ => (phase, Vec::new()),
        },
        StreamPhase::WritingChunk => match event {
            StreamEvent::Written => (StreamPhase::Polling, vec![StreamAction::Poll]),
            StreamEvent::WriteFailed => (StreamPhase::Closed, breaking_off()),
            _ => (phase, Vec::new()),
        },
        StreamPhase::FilteringEnd => match event {
            StreamEvent::Passed => (StreamPhase::WritingEnd, vec![StreamAction::WriteEnd]),
            StreamEvent::Stopped => (
                StreamPhase::Closed,
                vec![StreamAction::Cancel, StreamAction::Shutdown],
            ),
            _ => (phase, Vec::new()),
        },
        StreamPhase::WritingEnd => match event {
            StreamEvent::Written => (StreamPhase::Closed, Vec::new()),
            StreamEvent::WriteFailed => (StreamPhase::Closed, vec![StreamAction::Shutdown]),
            _ => (phase, Vec::new()),
        },
        StreamPhase::Suppressing => match event {
            StreamEvent::Suppressed => (
                StreamPhase::WritingSuppressed,
                vec![StreamAction::WriteSuppressedHeader],
            ),
            StreamEvent::SuppressedUnsendable => (
                StreamPhase::Closed,
                vec![StreamAction::Cancel, StreamAction::SendInternalError],
            ),
            StreamEvent::SuppressFailed => (
                StreamPhase::Closed,
                vec![StreamAction::Cancel, StreamAction::SendInternalError],
            ),
            _ => (phase, Vec::new()),
        },
        StreamPhase::WritingSuppressed => match event {
            StreamEvent::Written => (StreamPhase::Closed, Vec::new()),
            StreamEvent::WriteFailed => (StreamPhase::Closed, vec![StreamAction::Shutdown]),
            _ => (phase, Vec::new()),
        },
        StreamPhase::Closed => (phase, Vec::new()),
    }
}

/// The actions of `break_off`.
fn breaking_off() -> (actions: Vec<StreamAction>)
    ensures
        actions@ == break_off(),
{
    vec![StreamAction::SwapExtensions, StreamAction::Cancel, StreamAction::Shutdown]
}

// ----- From data to events -----

/// What becomes of a response that its filters let through.
pub enum Commitment {
    /// It cannot be streamed.
    Refused,
    /// It has no body.
    Bodyless(Response),
    /// Its header is ready.
    Ready(Response, ResponseHeader),
}

impl Commitment {
    /// The event that a commitment stands for.
    pub open spec fn spec_event(self) -> StreamEvent {
        match self {
            Commitment::Refused => StreamEvent::Refused,
            Commitment::Bodyless(_) => StreamEvent::Bodyless,
            Commitment::Ready(_, _) => StreamEvent::Ready,
        }
    }

    /// The event that a commitment stands for.
    pub fn event(&self) -> (event: StreamEvent)
        ensures
            event == self.spec_event(),
    {
        match self {
            Commitment::Refused => StreamEvent::Refused,
            Commitment::Bodyless(_) => StreamEvent::Bodyless,
            Commitment::Ready(_, _) => StreamEvent::Ready,
        }
    }
}

/// Prepares a response for streaming. It is refused where the response body is to
/// be buffered, and where its status cannot be sent. The answer to a HEAD request
/// and a status that forbids a body go without the stream.
pub fn commit_stream<V>(
    ctx: &RequestCtx<V>,
    response: Response,
    hop_by_hop: &Vec<HeaderName>,
    is_head: bool,
    version: HttpVersion,
) -> (commitment: Commitment)
    requires
        ctx.response_body_mode !is StreamBuffer && !is_head && !forbids_body(response.status)
            ==> header_entries(response.headers).len() + (if is_chunked(false, false, version) {
            1int
        } else {
            0
        }) < MAX_HEADER_NAMES,
    ensures
        ctx.response_body_mode is StreamBuffer ==> commitment is Refused,
        ctx.response_body_mode !is StreamBuffer && (is_head || forbids_body(response.status))
            ==> commitment == Commitment::Bodyless(response),
        ctx.response_body_mode !is StreamBuffer && !is_head && !forbids_body(response.status) ==> {
            let entries = streaming_entries(
                header_entries(response.headers),
                names_view(hop_by_hop@),
                response.status,
                false,
                false,
                version,
            );
            match commitment {
                Commitment::Ready(prepared, header) => {
                    &&& is_final_status(response.status)
                    &&& prepared.status == response.status
                    &&& header_entries(prepared.headers) == entries
                    &&& response_status(header) == response.status
                    &&& plain_status_line(header)
                    &&& in_step(header)
                    &&& response_entries(header) == rebuilt_entries(entries)
                    &&& spelled_names(header) == Some(rebuilt_spellings(entries))
                },
                Commitment::Refused => !is_final_status(response.status),
                Commitment::Bodyless(_) => false,
            }
        },
{
    match ctx.response_body_mode {
        BodyMode::StreamBuffer { .. } => return Commitment::Refused,
        _ => {},
    }
    if is_head || response.status == 204 || response.status == 304 {
        return Commitment::Bodyless(response);
    }
    proof {
        lemma_streaming_fits(
            header_entries(response.headers),
            names_view(hop_by_hop@),
            response.status,
            false,
            false,
            version,
        );
    }
    let mut response = response;
    prepare_streaming_headers(&mut response, hop_by_hop, false, false, version);
    match build_streaming_terminal_header(&response) {
        Some(header) => Commitment::Ready(response, header),
        None => Commitment::Refused,
    }
}

/// Completes a response whose body its source gave up: it counts as delivered,
/// and its header goes out as the whole response. `None` where its status cannot
/// be sent.
pub fn suppressed_header<V>(
    ctx: &mut RequestCtx<V>,
    response: Response,
    hop_by_hop: &Vec<HeaderName>,
    is_head: bool,
) -> (built: Option<ResponseHeader>)
    requires
        is_final_status(response.status) ==> header_entries(response.headers).len()
            < MAX_HEADER_NAMES,
    ensures
        *final(ctx) == delivered(*old(ctx), true),
        built is Some <==> is_final_status(response.status),
        built matches Some(header) ==> {
            let entries = streaming_entries(
                header_entries(response.headers),
                names_view(hop_by_hop@),
                response.status,
                is_head,
                response.status == 304,
                HttpVersion::Http10,
            );
            &&& response_status(header) == response.status
            &&& plain_status_line(header)
            &&& in_step(header)
            &&& response_entries(header) == rebuilt_entries(entries)
            &&& spelled_names(header) == Some(rebuilt_spellings(entries))
        },
{
    ctx.response_delivery_complete = true;
    let mut response = response;
    let is_not_modified = response.status == 304;
    proof {
        lemma_streaming_fits(
            header_entries(response.headers),
            names_view(hop_by_hop@),
            response.status,
            is_head,
            is_not_modified,
            HttpVersion::Http10,
        );
    }
    prepare_streaming_headers(
        &mut response,
        hop_by_hop,
        is_head,
        is_not_modified,
        HttpVersion::Http10,
    );
    build_streaming_terminal_header(&response)
}

/// The event after the body filters ran on a chunk: the stream stops where they
/// stop it and where it is over its limit.
pub fn chunk_event<V>(
    ctx: &RequestCtx<V>,
    passed: Result<(), Rejection>,
    ceiling: Option<usize>,
) -> (event: StreamEvent)
    ensures
        event == (if passed is Ok && (streaming_limit(ctx.response_body_mode, ceiling) is None
            || ctx.response_body_bytes <= streaming_limit(ctx.response_body_mode, ceiling)->0) {
            StreamEvent::Passed
        } else {
            StreamEvent::Stopped
        }),
{
    if passed.is_err() || streaming_size_limit_exceeded(ctx, ceiling) {
        StreamEvent::Stopped
    } else {
        StreamEvent::Passed
    }
}

// ----- Laws -----

/// Phase and all actions so far, after the given events.
pub open spec fn stream_run(events: Seq<StreamEvent>) -> (StreamPhase, Seq<StreamAction>)
    decreases events.len(),
{
    if events.len() == 0 {
        (StreamPhase::Preparing, first_actions())
    } else {
        let before = stream_run(events.drop_last());
        let next = stream_step(before.0, events.last());
        (next.0, before.1 + next.1)
    }
}

/// What an observer of the actions notes.
pub struct StreamLedger {
    /// The request holds the extensions of the source.
    pub lent: bool,
    /// A filter ran without the extensions of the source, or the source was
    /// driven while the request held them.
    pub misplaced: bool,
    /// How often the source was cancelled.
    pub cancels: nat,
    /// The source was driven, or data were filtered or written, after a cancel.
    pub used_after_cancel: bool,
    /// The source was told that its body is not wanted.
    pub suppressed: bool,
    /// The last of the response was handed to the transport.
    pub finished: bool,
    /// The source was asked for data: the header is out.
    pub committed: bool,
    /// How many answers in place of the response were sent.
    pub rejections: nat,
    /// How often the connection was closed.
    pub shutdowns: nat,
}

/// An observer before the first action.
pub open spec fn blank_ledger() -> StreamLedger {
    StreamLedger {
        lent: false,
        misplaced: false,
        cancels: 0,
        used_after_cancel: false,
        suppressed: false,
        finished: false,
        committed: false,
        rejections: 0,
        shutdowns: 0,
    }
}

/// What an observer notes at one action.
pub open spec fn noted(ledger: StreamLedger, action: StreamAction) -> StreamLedger {
    let late = ledger.used_after_cancel || ledger.cancels > 0;
    match action {
        StreamAction::SwapExtensions => StreamLedger { lent: !ledger.lent, ..ledger },
        StreamAction::RunResponseFilters
        | StreamAction::FilterChunk
        | StreamAction::FilterEnd => StreamLedger {
            misplaced: ledger.misplaced || !ledger.lent,
            used_after_cancel: late,
            ..ledger
        },
        StreamAction::Poll => StreamLedger {
            misplaced: ledger.misplaced || ledger.lent,
            used_after_cancel: late,
            committed: true,
            ..ledger
        },
        StreamAction::Suppress => StreamLedger {
            misplaced: ledger.misplaced || ledger.lent,
            used_after_cancel: late,
            suppressed: true,
            ..ledger
        },
        StreamAction::WriteHeader | StreamAction::WriteChunk => StreamLedger {
            used_after_cancel: late,
            ..ledger
        },
        StreamAction::WriteEnd | StreamAction::WriteSuppressedHeader => StreamLedger {
            used_after_cancel: late,
            finished: true,
            ..ledger
        },
        StreamAction::AbortOnClose(_) => ledger,
        StreamAction::Cancel => StreamLedger { cancels: ledger.cancels + 1, ..ledger },
        StreamAction::SendRejection | StreamAction::SendInternalError => StreamLedger {
            rejections: ledger.rejections + 1,
            ..ledger
        },
        StreamAction::Shutdown => StreamLedger { shutdowns: ledger.shutdowns + 1, ..ledger },
    }
}

/// What an observer has noted after the given actions.
pub open spec fn observed(actions: Seq<StreamAction>) -> StreamLedger
    decreases actions.len(),
{
    if actions.len() == 0 {
        blank_ledger()
    } else {
        noted(observed(actions.drop_last()), actions.last())
    }
}

/// What an observer who has noted `ledger` notes after more actions.
spec fn noted_all(ledger: StreamLedger, actions: Seq<StreamAction>) -> StreamLedger
    decreases actions.len(),
{
    if actions.len() == 0 {
        ledger
    } else {
        noted(noted_all(ledger, actions.drop_last()), actions.last())
    }
}

proof fn lemma_observed_concat(first: Seq<StreamAction>, second: Seq<StreamAction>)
    ensures
        observed(first + second) == noted_all(observed(first), second),
    decreases second.len(),
{
    if second.len() == 0 {
        assert(first + second =~= first);
    } else {
        lemma_observed_concat(first, second.drop_last());
        assert((first + second).drop_last() =~= first + second.drop_last());
    }
}

/// What holds in each phase of what an observer has noted.
spec fn ledger_fits(phase: StreamPhase, ledger: StreamLedger) -> bool {
    &&& !ledger.misplaced
    &&& !ledger.used_after_cancel
    &&& ledger.cancels <= 1
    &&& phase != StreamPhase::Closed ==> {
        &&& ledger.cancels == 0
        &&& ledger.rejections == 0
        &&& ledger.shutdowns == 0
        &&& ledger.suppressed == (phase == StreamPhase::Suppressing || phase
            == StreamPhase::WritingSuppressed)
        &&& ledger.finished == (phase == StreamPhase::WritingEnd || phase
            == StreamPhase::WritingSuppressed)
        &&& ledger.committed == (phase != StreamPhase::Preparing && phase
            != StreamPhase::WritingHeader && !ledger.suppressed)
        &&& ledger.lent == (phase == StreamPhase::Preparing || phase == StreamPhase::FilteringChunk
            || phase == StreamPhase::FilteringEnd || phase == StreamPhase::WritingEnd)
    }
    &&& phase == StreamPhase::Closed ==> {
        &&& ledger.lent == !ledger.suppressed
        &&& (ledger.cancels == 1) == !ledger.finished
        &&& ledger.rejections + ledger.shutdowns <= 1
        &&& ledger.committed ==> ledger.rejections == 0
        &&& ledger.cancels == 1 ==> ledger.rejections + ledger.shutdowns == 1
        &&& ledger.finished ==> ledger.rejections == 0
    }
}

proof fn lemma_ledger_fits(events: Seq<StreamEvent>)
    ensures
        ledger_fits(stream_run(events).0, observed(stream_run(events).1)),
    decreases events.len(),
{
    reveal_with_fuel(observed, 5);
    reveal_with_fuel(noted_all, 6);
    if events.len() > 0 {
        let before = stream_run(events.drop_last());
        lemma_ledger_fits(events.drop_last());
        let actions = stream_step(before.0, events.last()).1;
        lemma_observed_concat(before.1, actions);
        lemma_step_fits(before.0, events.last(), observed(before.1));
    } else {
        assert(first_actions().drop_last() =~= seq![StreamAction::SwapExtensions]);
        assert(seq![StreamAction::SwapExtensions].drop_last() =~= Seq::<StreamAction>::empty());
    }
}

proof fn lemma_noted_pushes(
    ledger: StreamLedger,
    a: StreamAction,
    b: StreamAction,
    c: StreamAction,
    d: StreamAction,
)
    ensures
        noted_all(ledger, Seq::empty()) == ledger,
        noted_all(ledger, seq![a]) == noted(ledger, a),
        noted_all(ledger, seq![a, b]) == noted(noted(ledger, a), b),
        noted_all(ledger, seq![a, b, c]) == noted(noted(noted(ledger, a), b), c),
        noted_all(ledger, seq![a, b, c, d]) == noted(noted(noted(noted(ledger, a), b), c), d),
{
    reveal_with_fuel(noted_all, 5);
    assert(seq![a].drop_last() =~= Seq::empty());
    assert(seq![a, b].drop_last() =~= seq![a]);
    assert(seq![a, b, c].drop_last() =~= seq![a, b]);
    assert(seq![a, b, c, d].drop_last() =~= seq![a, b, c]);
}

proof fn lemma_step_fits(phase: StreamPhase, event: StreamEvent, ledger: StreamLedger)
    requires
        ledger_fits(phase, ledger),
    ensures
        ledger_fits(
            stream_step(phase, event).0,
            noted_all(ledger, stream_step(phase, event).1),
        ),
{
    let actions = stream_step(phase, event).1;
    if actions.len() == 0 {
        assert(actions =~= Seq::empty());
    } else if actions.len() == 1 {
        assert(actions =~= seq![actions[0]]);
        lemma_noted_pushes(ledger, actions[0], actions[0], actions[0], actions[0]);
    } else if actions.len() == 2 {
        assert(actions =~= seq![actions[0], actions[1]]);
        lemma_noted_pushes(ledger, actions[0], actions[1], actions[0], actions[0]);
    } else if actions.len() == 3 {
        assert(actions =~= seq![actions[0], actions[1], actions[2]]);
        lemma_noted_pushes(ledger, actions[0], actions[1], actions[2], actions[0]);
    } else {
        assert(actions.len() == 4);
        assert(actions =~= seq![actions[0], actions[1], actions[2], actions[3]]);
        lemma_noted_pushes(ledger, actions[0], actions[1], actions[2], actions[3]);
    }
}

/// Whatever happens, filters run only while the request holds the extensions of
/// the source, and the source is driven only while it holds them itself. When the
/// delivery is over the request holds them, unless the body was suppressed.
pub proof fn law_extensions_follow_the_work(events: Seq<StreamEvent>)
    ensures
        !observed(stream_run(events).1).misplaced,
        stream_run(events).0 == StreamPhase::Closed ==> observed(stream_run(events).1).lent
            == !observed(stream_run(events).1).suppressed,
{
    lemma_ledger_fits(events);
}

/// A delivery that is over has either handed the last of the response to the
/// transport or cancelled its source, once; and nothing is done with a source that
/// was cancelled.
pub proof fn law_unfinished_source_is_cancelled_once(events: Seq<StreamEvent>)
    ensures
        observed(stream_run(events).1).cancels <= 1,
        !observed(stream_run(events).1).used_after_cancel,
        stream_run(events).0 == StreamPhase::Closed ==> (observed(stream_run(events).1).cancels == 1
            <==> !observed(stream_run(events).1).finished),
{
    lemma_ledger_fits(events);
}

/// Once the header is out the client is never answered a second time: a stream
/// that fails then closes the connection. A source that is cancelled earlier
/// leaves exactly one answer or one closed connection.
pub proof fn law_no_answer_after_commitment(events: Seq<StreamEvent>)
    ensures
        observed(stream_run(events).1).committed || observed(stream_run(events).1).finished
            ==> observed(stream_run(events).1).rejections == 0,
        observed(stream_run(events).1).cancels == 1 ==> observed(stream_run(events).1).rejections
            + observed(stream_run(events).1).shutdowns == 1,
        observed(stream_run(events).1).rejections + observed(stream_run(events).1).shutdowns <= 1,
{
    lemma_ledger_fits(events);
}

/// A delivery that is over stays over, and nothing more is done.
pub proof fn law_closed_delivery_stays_closed(event: StreamEvent)
    ensures
        stream_step(StreamPhase::Closed, event) == (
            StreamPhase::Closed,
            Seq::<StreamAction>::empty(),
        ),
{
}

} // verus!
