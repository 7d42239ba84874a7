//! Body delivery: size limits, clamping of modes, and chunks that are held back.
use crate::chunk::{body_data, buffer_data, bytes_data, fits_buffer};
use crate::context::{FilterContext, RequestCtx, Upstream};
use bytes::{Bytes, BytesMut};
use std::collections::HashMap;
use vstd::prelude::*;

verus! {

/// How a body reaches the filters.
#[derive(Clone, Copy, Debug, PartialEq, Eq, Structural)]
#[allow(inconsistent_fields)]
pub enum BodyMode {
    /// Chunk by chunk, as it arrives.
    Stream,
    /// Chunk by chunk, up to a size.
    SizeLimit {
        /// Largest total size.
        max_bytes: usize,
    },
    /// Held back until it is complete or released.
    StreamBuffer {
        /// Largest size held back.
        max_bytes: Option<usize>,
    },
}

/// The byte ceiling that a mode implies, if any.
pub open spec fn mode_ceiling(mode: BodyMode) -> Option<usize> {
    match mode {
        BodyMode::Stream => None,
        BodyMode::SizeLimit { max_bytes } => Some(max_bytes),
        BodyMode::StreamBuffer { max_bytes } => max_bytes,
    }
}

/// The smaller of two sizes.
pub open spec fn smaller(a: usize, b: usize) -> usize {
    if a <= b {
        a
    } else {
        b
    }
}

/// `mode` held to the ceiling that `baseline` implies. `Stream` buffers nothing
/// and stays as it is.
pub open spec fn clamped_mode(mode: BodyMode, baseline: BodyMode) -> BodyMode {
    match mode_ceiling(baseline) {
        None => mode,
        Some(limit) => match mode {
            BodyMode::Stream => mode,
            BodyMode::SizeLimit { max_bytes } => BodyMode::SizeLimit {
                max_bytes: smaller(max_bytes, limit),
            },
            BodyMode::StreamBuffer { max_bytes } => BodyMode::StreamBuffer {
                max_bytes: match max_bytes {
                    Some(max) => Some(smaller(max, limit)),
                    None => Some(limit),
                },
            },
        },
    }
}

/// Holds a mode selected at run time to the byte ceiling that `baseline`
/// implies.
///
/// `baseline` is the mode in force before filters ran. Filters may change the
/// kind of mode and tighten its limit, but not widen it.
pub fn clamp_body_mode_to_ceiling(mode: BodyMode, baseline: BodyMode) -> (clamped: BodyMode)
    ensures
        clamped == clamped_mode(mode, baseline),
{
    let limit: usize = match baseline {
        BodyMode::StreamBuffer { max_bytes: Some(limit) } => limit,
        BodyMode::SizeLimit { max_bytes } => max_bytes,
        _ => return mode,
    };
    match mode {
        BodyMode::StreamBuffer { max_bytes } => {
            let max: usize = match max_bytes {
                Some(max) => if max <= limit {
                    max
                } else {
                    limit
                },
                None => limit,
            };
            BodyMode::StreamBuffer { max_bytes: Some(max) }
        },
        BodyMode::SizeLimit { max_bytes } => {
            let max: usize = if max_bytes <= limit {
                max_bytes
            } else {
                limit
            };
            BodyMode::SizeLimit { max_bytes: max }
        },
        BodyMode::Stream => mode,
    }
}

/// A clamped mode is of the kind that was asked for, and where the baseline has
/// a ceiling it lets no more bytes through than that, unless it is `Stream`.
pub proof fn law_clamp_never_widens(mode: BodyMode, baseline: BodyMode)
    ensures
        clamped_mode(mode, baseline) is Stream == mode is Stream,
        clamped_mode(mode, baseline) is SizeLimit == mode is SizeLimit,
        clamped_mode(mode, baseline) is StreamBuffer == mode is StreamBuffer,
        mode_ceiling(baseline) matches Some(limit) ==> (mode is Stream || (mode_ceiling(
            clamped_mode(mode, baseline),
        ) matches Some(kept) && kept <= limit)),
        mode_ceiling(mode) matches Some(asked) ==> (mode_ceiling(
            clamped_mode(mode, baseline),
        ) matches Some(kept) && kept <= asked),
{
}

/// Clamping twice is clamping once.
pub proof fn law_clamp_is_idempotent(mode: BodyMode, baseline: BodyMode)
    ensures
        clamped_mode(clamped_mode(mode, baseline), baseline) == clamped_mode(mode, baseline),
{
}

/// Tells whether a chunk can be counted along with the bytes seen so far.
pub fn is_countable(accumulated_bytes: u64, body: Option<&Bytes>) -> (countable: bool)
    ensures
        countable == (accumulated_bytes + (match body {
            Some(chunk) => bytes_data(*chunk).len(),
            None => 0,
        }) <= u64::MAX),
{
    match body {
        Some(chunk) => chunk.len() as u64 <= u64::MAX - accumulated_bytes,
        None => true,
    }
}

/// Adds a chunk to the bytes seen so far and tells whether the total is over
/// the limit. Without a chunk nothing changes.
pub fn check_body_size_limit(
    body: Option<&Bytes>,
    accumulated_bytes: &mut u64,
    max_bytes: usize,
) -> (exceeded: bool)
    requires
        body matches Some(chunk) ==> *old(accumulated_bytes) + bytes_data(*chunk).len() <= u64::MAX,
    ensures
        match body {
            Some(chunk) => {
                &&& *final(accumulated_bytes) == *old(accumulated_bytes) + bytes_data(*chunk).len()
                &&& exceeded == (*final(accumulated_bytes) > max_bytes)
            },
            None => *final(accumulated_bytes) == *old(accumulated_bytes) && !exceeded,
        },
{
    match body {
        Some(chunk) => {
            *accumulated_bytes = *accumulated_bytes + chunk.len() as u64;
            *accumulated_bytes > max_bytes as u64
        },
        None => false,
    }
}

/// Whether a chunk takes a body already `counted` bytes long over a ceiling. The
/// largest number that a counter can hold is no ceiling.
pub open spec fn over_ceiling(ceiling: Option<usize>, counted: u64, chunk_len: nat) -> bool {
    match ceiling {
        Some(max) => counted + chunk_len > max && max < u64::MAX,
        None => false,
    }
}

/// Whether `chunk` would take a body already `counted` bytes long past the
/// global `ceiling`. Does not change the count.
pub fn exceeds_body_ceiling(
    ceiling: Option<usize>,
    counted: u64,
    chunk: Option<&Bytes>,
) -> (exceeds: bool)
    ensures
        exceeds == over_ceiling(
            ceiling,
            counted,
            match chunk {
                Some(c) => bytes_data(*c).len(),
                None => 0,
            },
        ),
{
    let chunk_len: usize = match chunk {
        Some(c) => c.len(),
        None => 0,
    };
    match ceiling {
        Some(max) => counted.saturating_add(chunk_len as u64) > max as u64,
        None => false,
    }
}

/// Whether a total of `len` bytes is over the limit, or small enough to be held in
/// one piece of memory.
pub open spec fn holdable(len: nat, limit: usize) -> bool {
    len <= limit ==> fits_buffer(len)
}

/// Chunks of a body held back, up to a size.
pub struct BodyBuffer {
    data: BytesMut,
    max_bytes: usize,
}

/// A chunk that does not fit.
#[derive(Debug)]
pub struct BodyOverflow;

impl View for BodyBuffer {
    type V = Seq<u8>;

    closed spec fn view(&self) -> Seq<u8> {
        buffer_data(self.data)
    }
}

impl BodyBuffer {
    /// The largest size held.
    pub closed spec fn limit(&self) -> usize {
        self.max_bytes
    }

    /// Holds nothing yet.
    pub fn new(max_bytes: usize) -> (buffer: Self)
        ensures
            buffer@ == Seq::<u8>::empty(),
            buffer.limit() == max_bytes,
    {
        BodyBuffer { data: BytesMut::new(), max_bytes }
    }

    /// Appends a chunk, or leaves the buffer alone when the total would be over
    /// the limit.
    pub fn push(&mut self, chunk: &Bytes) -> (pushed: Result<(), BodyOverflow>)
        requires
            holdable(old(self)@.len() + bytes_data(*chunk).len(), old(self).limit()),
        ensures
            pushed is Ok <==> old(self)@.len() + bytes_data(*chunk).len() <= old(self).limit(),
            pushed is Ok ==> final(self)@ == old(self)@ + bytes_data(*chunk),
            pushed is Err ==> final(self)@ == old(self)@,
            final(self).limit() == old(self).limit(),
    {
        let held: usize = self.data.len();
        if held > self.max_bytes || chunk.len() > self.max_bytes - held {
            return Err(BodyOverflow);
        }
        self.data.extend_from_slice(chunk);
        Ok(())
    }

    /// All chunks as one.
    pub fn freeze(self) -> (chunk: Bytes)
        ensures
            bytes_data(chunk) == self@,
    {
        self.data.freeze()
    }
}

/// The bytes held back, none without a buffer.
pub open spec fn held_data(buffer: Option<BodyBuffer>) -> Seq<u8> {
    match buffer {
        Some(b) => b@,
        None => Seq::empty(),
    }
}

/// The size up to which chunks are held back: that of the buffer once there is
/// one, else the given one, else the absolute maximum.
pub open spec fn hold_limit(
    buffer: Option<BodyBuffer>,
    max_bytes: Option<usize>,
    absolute_max: usize,
) -> usize {
    match buffer {
        Some(b) => b.limit(),
        None => match max_bytes {
            Some(max) => max,
            None => absolute_max,
        },
    }
}

/// Tells whether a chunk can be accumulated: the total is over the limit, or fits in
/// one piece of memory.
pub fn is_holdable(
    body: Option<&Bytes>,
    body_buffer: &Option<BodyBuffer>,
    max_bytes: Option<usize>,
    absolute_max: usize,
) -> (holds: bool)
    ensures
        holds == holdable(
            held_data(*body_buffer).len() + (match body {
                Some(chunk) => bytes_data(*chunk).len(),
                None => 0,
            }),
            hold_limit(*body_buffer, max_bytes, absolute_max),
        ),
{
    let len: usize = match body {
        Some(chunk) => chunk.len(),
        None => 0,
    };
    let held: usize = match body_buffer {
        Some(buffer) => buffer.data.len(),
        None => 0,
    };
    let limit: usize = match body_buffer {
        Some(buffer) => buffer.max_bytes,
        None => match max_bytes {
            Some(max) => max,
            None => absolute_max,
        },
    };
    if held > limit || len > limit - held {
        return true;
    }
    held + len <= isize::MAX as usize / 2
}

/// What accumulating a chunk does to the body and the buffer: a chunk that takes
/// the buffer over its limit overflows and changes neither; else it joins the
/// buffer, and at the end of the stream the whole buffer becomes the body.
pub open spec fn accumulates(
    before: (Option<Bytes>, Option<BodyBuffer>),
    end_of_stream: bool,
    limit: usize,
    after: (Option<Bytes>, Option<BodyBuffer>),
    overflow: bool,
) -> bool {
    let (body, buffer) = before;
    let all = held_data(buffer) + body_data(body);
    &&& overflow <==> body is Some && all.len() > limit
    &&& overflow ==> {
        &&& after.0 == body
        &&& after.1 is Some
        &&& after.1->0.limit() == limit
        &&& held_data(after.1) == held_data(buffer)
    }
    &&& !overflow && end_of_stream ==> {
        &&& after.1 is None
        &&& after.0 is Some == (body is Some || buffer is Some)
        &&& body_data(after.0) == all
    }
    &&& !overflow && !end_of_stream ==> {
        &&& after.0 == body
        &&& after.1 is Some == (body is Some || buffer is Some)
        &&& held_data(after.1) == all
        &&& after.1 is Some ==> after.1->0.limit() == limit
    }
}

/// Pushes the chunk into the buffer, creating it if absent. At the end of the
/// stream the buffer is frozen into the body. Returns `true` when the chunk does
/// not fit.
pub fn accumulate_stream_buffer(
    body: &mut Option<Bytes>,
    body_buffer: &mut Option<BodyBuffer>,
    end_of_stream: bool,
    max_bytes: Option<usize>,
    absolute_max: usize,
) -> (overflow: bool)
    requires
        holdable(
            held_data(*old(body_buffer)).len() + body_data(*old(body)).len(),
            hold_limit(*old(body_buffer), max_bytes, absolute_max),
        ),
    ensures
        accumulates(
            (*old(body), *old(body_buffer)),
            end_of_stream,
            hold_limit(*old(body_buffer), max_bytes, absolute_max),
            (*final(body), *final(body_buffer)),
            overflow,
        ),
{
    let mut buffer = match body_buffer.take() {
        Some(buffer) => Some(buffer),
        None => match body {
            Some(_) => {
                let limit: usize = match max_bytes {
                    Some(max) => max,
                    None => absolute_max,
                };
                Some(BodyBuffer::new(limit))
            },
            None => None,
        },
    };
    match body {
        Some(chunk) => match buffer {
            Some(mut held) => {
                let pushed = held.push(chunk);
                if pushed.is_err() {
                    *body_buffer = Some(held);
                    return true;
                }
                buffer = Some(held);
            },
            None => {},
        },
        None => {},
    }
    if end_of_stream {
        *body = match buffer {
            Some(held) => Some(held.freeze()),
            None => None,
        };
    } else {
        *body_buffer = buffer;
    }
    false
}

/// The bytes of all chunks, in order.
pub open spec fn joined(chunks: Seq<Option<Bytes>>) -> Seq<u8>
    decreases chunks.len(),
{
    if chunks.len() == 0 {
        Seq::empty()
    } else {
        joined(chunks.drop_last()) + body_data(chunks.last())
    }
}

/// Chunks held back one after the other come out as one at the end of the stream:
/// what was held at first, then all of them in order. `buffers` are the buffers
/// before each chunk, `passed` the bodies that the chunks left behind, and `out` is
/// what the last one left.
pub proof fn law_held_chunks_come_out_whole(
    chunks: Seq<Option<Bytes>>,
    buffers: Seq<Option<BodyBuffer>>,
    passed: Seq<Option<Bytes>>,
    limit: usize,
    out: (Option<Bytes>, Option<BodyBuffer>),
)
    requires
        chunks.len() > 0,
        buffers.len() == chunks.len(),
        passed.len() == chunks.len(),
        forall|i: int|
            0 <= i < chunks.len() - 1 ==> accumulates(
                (#[trigger] chunks[i], buffers[i]),
                false,
                limit,
                (passed[i], buffers[i + 1]),
                false,
            ),
        accumulates((chunks.last(), buffers.last()), true, limit, out, false),
    ensures
        body_data(out.0) == held_data(buffers[0]) + joined(chunks),
        out.1 is None,
{
    lemma_held_so_far(chunks, buffers, passed, limit, chunks.len() - 1);
    let before = chunks.take(chunks.len() - 1);
    assert(before =~= chunks.drop_last());
    assert(body_data(out.0) =~= held_data(buffers[0]) + joined(chunks));
}

/// What is held before a chunk is all that came before it.
proof fn lemma_held_so_far(
    chunks: Seq<Option<Bytes>>,
    buffers: Seq<Option<BodyBuffer>>,
    passed: Seq<Option<Bytes>>,
    limit: usize,
    n: int,
)
    requires
        0 <= n < chunks.len(),
        buffers.len() == chunks.len(),
        forall|i: int|
            0 <= i < chunks.len() - 1 ==> accumulates(
                (#[trigger] chunks[i], buffers[i]),
                false,
                limit,
                (passed[i], buffers[i + 1]),
                false,
            ),
    ensures
        held_data(buffers[n]) == held_data(buffers[0]) + joined(chunks.take(n)),
    decreases n,
{
    if n > 0 {
        lemma_held_so_far(chunks, buffers, passed, limit, n - 1);
        assert(chunks.take(n).drop_last() =~= chunks.take(n - 1));
        assert(chunks.take(n).last() == chunks[n - 1]);
    }
    assert(held_data(buffers[n]) =~= held_data(buffers[0]) + joined(chunks.take(n)));
}

/// Drops the chunk while the buffer is still accumulating.
pub fn suppress_stream_buffer_chunk(
    body: &mut Option<Bytes>,
    is_stream_buffer: bool,
    released: bool,
    end_of_stream: bool,
)
    ensures
        *final(body) == (if is_stream_buffer && !released && !end_of_stream {
            None
        } else {
            *old(body)
        }),
{
    if is_stream_buffer && !released && !end_of_stream {
        *body = None;
    }
}

/// What releasing does to the body and the buffer: what was held back becomes
/// the body, unless nothing is held back or the stream is at its end.
pub open spec fn releases(
    before: (Option<Bytes>, Option<BodyBuffer>),
    holding: bool,
    end_of_stream: bool,
    after: (Option<Bytes>, Option<BodyBuffer>),
) -> bool {
    if holding && !end_of_stream {
        &&& after.1 is None
        &&& after.0 is Some == before.1 is Some
        &&& body_data(after.0) == held_data(before.1)
    } else {
        after == before
    }
}

/// Hands on what was held back, once.
pub fn release_stream_buffer(
    body: &mut Option<Bytes>,
    is_stream_buffer: bool,
    released: &mut bool,
    body_buffer: &mut Option<BodyBuffer>,
    end_of_stream: bool,
)
    ensures
        *final(released) == (*old(released) || is_stream_buffer),
        releases(
            (*old(body), *old(body_buffer)),
            is_stream_buffer && !*old(released),
            end_of_stream,
            (*final(body), *final(body_buffer)),
        ),
{
    if is_stream_buffer && !*released {
        *released = true;
        if !end_of_stream {
            *body = match body_buffer.take() {
                Some(held) => Some(held.freeze()),
                None => None,
            };
        }
    }
}

/// Moves a list out, leaving an empty one.
pub(crate) fn take_list<T>(list: &mut Vec<T>) -> (taken: Vec<T>)
    ensures
        taken == *old(list),
        final(list)@ == Seq::<T>::empty(),
{
    let mut taken: Vec<T> = Vec::new();
    std::mem::swap(&mut taken, list);
    taken
}

/// Shared fields of a filter context after body filters ran.
pub struct BodyFilterOutput<V> {
    /// Cluster selected by the filters.
    pub cluster: Option<String>,
    /// Upstream endpoint selected by the load balancer.
    pub upstream: Option<Upstream<V>>,
    /// Request-scoped extension values.
    pub extensions: Vec<V>,
    /// Durable per-request metadata.
    pub filter_metadata: HashMap<String, String>,
    /// Per-filter state by filter invocation.
    pub filter_state: HashMap<usize, V>,
    /// Which filters of branches have run.
    pub executed_branch_filters: Vec<bool>,
    /// Which filters have run.
    pub executed_filter_indices: Vec<bool>,
    /// Which filters are done with the body.
    pub body_done_indices: Vec<bool>,
    /// Endpoints already attempted for this request.
    pub attempted_endpoints: Vec<String>,
}

impl<V> BodyFilterOutput<V> {
    /// The shared fields of a filter context.
    pub open spec fn of(fctx: FilterContext<V>) -> Self {
        BodyFilterOutput {
            cluster: fctx.cluster,
            upstream: fctx.upstream,
            extensions: fctx.extensions,
            filter_metadata: fctx.filter_metadata,
            filter_state: fctx.filter_state,
            executed_branch_filters: fctx.executed_branch_filters,
            executed_filter_indices: fctx.executed_filter_indices,
            body_done_indices: fctx.body_done_indices,
            attempted_endpoints: fctx.attempted_endpoints,
        }
    }

    /// A request context with the shared fields replaced.
    pub open spec fn written(self, ctx: RequestCtx<V>) -> RequestCtx<V> {
        RequestCtx {
            cluster: self.cluster,
            upstream: self.upstream,
            extensions: self.extensions,
            filter_metadata: self.filter_metadata,
            filter_state: self.filter_state,
            cached_executed_branch_filters: self.executed_branch_filters,
            cached_executed_filter_indices: self.executed_filter_indices,
            cached_body_done_indices: self.body_done_indices,
            attempted_endpoints: self.attempted_endpoints,
            ..ctx
        }
    }

    /// Moves the shared fields out of a filter context, leaving empty ones.
    pub fn take_from(fctx: &mut FilterContext<V>) -> (output: Self)
        ensures
            output == BodyFilterOutput::of(*old(fctx)),
            final(fctx).cluster is None,
            final(fctx).upstream is None,
            final(fctx).extensions@.len() == 0,
            final(fctx).filter_metadata@ == Map::<String, String>::empty(),
            final(fctx).filter_state@ == Map::<usize, V>::empty(),
            final(fctx).executed_branch_filters@.len() == 0,
            final(fctx).executed_filter_indices@.len() == 0,
            final(fctx).body_done_indices@.len() == 0,
            final(fctx).attempted_endpoints@.len() == 0,
            *final(fctx) == (FilterContext {
                cluster: final(fctx).cluster,
                upstream: final(fctx).upstream,
                extensions: final(fctx).extensions,
                filter_metadata: final(fctx).filter_metadata,
                filter_state: final(fctx).filter_state,
                executed_branch_filters: final(fctx).executed_branch_filters,
                executed_filter_indices: final(fctx).executed_filter_indices,
                body_done_indices: final(fctx).body_done_indices,
                attempted_endpoints: final(fctx).attempted_endpoints,
                ..*old(fctx)
            }),
    {
        let mut filter_metadata: HashMap<String, String> = HashMap::new();
        std::mem::swap(&mut filter_metadata, &mut fctx.filter_metadata);
        let mut filter_state: HashMap<usize, V> = HashMap::new();
        std::mem::swap(&mut filter_state, &mut fctx.filter_state);
        BodyFilterOutput {
            cluster: fctx.cluster.take(),
            upstream: fctx.upstream.take(),
            extensions: take_list(&mut fctx.extensions),
            filter_metadata,
            filter_state,
            executed_branch_filters: take_list(&mut fctx.executed_branch_filters),
            executed_filter_indices: take_list(&mut fctx.executed_filter_indices),
            body_done_indices: take_list(&mut fctx.body_done_indices),
            attempted_endpoints: take_list(&mut fctx.attempted_endpoints),
        }
    }

    /// Writes the shared fields back to the request context.
    pub fn write_back(self, ctx: &mut RequestCtx<V>)
        ensures
            *final(ctx) == self.written(*old(ctx)),
    {
        ctx.cluster = self.cluster;
        ctx.upstream = self.upstream;
        ctx.extensions = self.extensions;
        ctx.filter_metadata = self.filter_metadata;
        ctx.filter_state = self.filter_state;
        ctx.cached_executed_branch_filters = self.executed_branch_filters;
        ctx.cached_executed_filter_indices = self.executed_filter_indices;
        ctx.cached_body_done_indices = self.body_done_indices;
        ctx.attempted_endpoints = self.attempted_endpoints;
    }
}

} // verus!
