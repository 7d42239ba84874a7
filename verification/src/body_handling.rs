//! Request bodies that filters rewrote after routing: storage for forwarding and
//! for retries, and draining chunk by chunk.
use crate::chunk::{body_data, bytes_data};
use crate::context::RequestCtx;
use bytes::Bytes;
use std::collections::VecDeque;
use vstd::prelude::*;

verus! {

/// Chunks read by the bytes they hold.
pub open spec fn chunks_data(chunks: Seq<Bytes>) -> Seq<Seq<u8>> {
    Seq::new(chunks.len(), |i: int| bytes_data(chunks[i]))
}

/// A body as a list of chunks: one chunk, or none when it is empty.
pub open spec fn as_chunks(body: Seq<u8>) -> Seq<Seq<u8>> {
    if body.len() == 0 {
        Seq::empty()
    } else {
        seq![body]
    }
}

/// A copy of a rewritten body for retries, or `None` when it is too large for
/// any retry to replay.
pub fn retry_copy(chunks: &VecDeque<Bytes>, len: usize, retry_limit: u64) -> (copy: Option<
    VecDeque<Bytes>,
>)
    ensures
        copy is Some <==> len <= retry_limit,
        copy matches Some(kept) ==> chunks_data(kept@) == chunks_data(chunks@),
{
    if len as u64 <= retry_limit {
        let copy = chunks.clone();
        assert(chunks_data(copy@) =~= chunks_data(chunks@));
        Some(copy)
    } else {
        None
    }
}

/// A stored adapted body: the chunks to forward, their length, and a copy for
/// retries that is empty when no retry can replay it.
pub open spec fn holds_adapted<V>(
    ctx: RequestCtx<V>,
    body: Option<Bytes>,
    retry_limit: u64,
) -> bool {
    let data = body_data(body);
    &&& ctx.adapted_request_body is Some
    &&& chunks_data(ctx.adapted_request_body->0@) == as_chunks(data)
    &&& ctx.adapted_request_body_len is Some
    &&& ctx.adapted_request_body_len->0 == data.len()
    &&& ctx.retained_adapted_request_body is Some
    &&& chunks_data(ctx.retained_adapted_request_body->0@) == (if data.len() <= retry_limit {
        as_chunks(data)
    } else {
        Seq::empty()
    })
}

/// The request context after an adapted body was stored.
pub open spec fn stores_adapted<V>(
    before: RequestCtx<V>,
    body: Option<Bytes>,
    retry_limit: u64,
    after: RequestCtx<V>,
) -> bool {
    &&& holds_adapted(after, body, retry_limit)
    &&& after == RequestCtx {
        adapted_request_body: after.adapted_request_body,
        adapted_request_body_len: after.adapted_request_body_len,
        retained_adapted_request_body: after.retained_adapted_request_body,
        ..before
    }
}

/// Stores the body adapted for the selected upstream.
pub fn store_adapted_request_body<V>(
    ctx: &mut RequestCtx<V>,
    body: Option<Bytes>,
    retry_limit: u64,
)
    ensures
        stores_adapted(*old(ctx), body, retry_limit, *final(ctx)),
{
    let len: usize = match &body {
        Some(chunk) => chunk.len(),
        None => 0,
    };
    let mut chunks: VecDeque<Bytes> = VecDeque::new();
    match body {
        Some(chunk) => if !chunk.is_empty() {
            chunks.push_back(chunk);
        },
        None => {},
    }
    assert(chunks_data(chunks@) =~= as_chunks(body_data(body)));
    let retained = match retry_copy(&chunks, len, retry_limit) {
        Some(copy) => copy,
        None => VecDeque::new(),
    };
    assert(len > retry_limit ==> chunks_data(retained@) =~= Seq::<Seq<u8>>::empty());
    ctx.retained_adapted_request_body = Some(retained);
    ctx.adapted_request_body = Some(chunks);
    ctx.adapted_request_body_len = Some(len);
}

/// A stored canonical body: the chunks to forward, their length, and a copy for
/// retries unless no retry can replay it.
pub open spec fn holds_canonical<V>(ctx: RequestCtx<V>, body: Bytes, retry_limit: u64) -> bool {
    let data = bytes_data(body);
    &&& ctx.pre_read_body is Some
    &&& chunks_data(ctx.pre_read_body->0@) == as_chunks(data)
    &&& ctx.mutated_request_body_len is Some
    &&& ctx.mutated_request_body_len->0 == data.len()
    &&& ctx.retained_pre_read_body is Some <==> data.len() <= retry_limit
    &&& ctx.retained_pre_read_body is Some ==> chunks_data(ctx.retained_pre_read_body->0@)
        == as_chunks(data)
}

/// The request context after a canonical body was stored.
pub open spec fn stores_canonical<V>(
    before: RequestCtx<V>,
    body: Bytes,
    retry_limit: u64,
    after: RequestCtx<V>,
) -> bool {
    &&& holds_canonical(after, body, retry_limit)
    &&& after == RequestCtx {
        pre_read_body: after.pre_read_body,
        mutated_request_body_len: after.mutated_request_body_len,
        retained_pre_read_body: after.retained_pre_read_body,
        ..before
    }
}

/// Stores the canonical body that the bound-upstream phase produced.
pub fn store_canonical_request_body<V>(ctx: &mut RequestCtx<V>, body: Bytes, retry_limit: u64)
    ensures
        stores_canonical(*old(ctx), body, retry_limit, *final(ctx)),
{
    let len: usize = body.len();
    let mut chunks: VecDeque<Bytes> = VecDeque::new();
    if !body.is_empty() {
        chunks.push_back(body);
    }
    assert(chunks_data(chunks@) =~= as_chunks(bytes_data(body)));
    ctx.retained_pre_read_body = retry_copy(&chunks, len, retry_limit);
    ctx.pre_read_body = Some(chunks);
    ctx.mutated_request_body_len = Some(len);
}

/// Whether stored request-body chunks are forwarded in place of what arrives.
pub open spec fn drain_active<V>(ctx: RequestCtx<V>) -> bool {
    ctx.retained_adapted_request_body is Some || ctx.pre_read_body is Some
}

/// The stored chunks still to be forwarded. Once adaptation ran they are the
/// adapted ones and no others.
pub open spec fn forwardable<V>(ctx: RequestCtx<V>) -> Seq<Bytes> {
    let stored = if ctx.retained_adapted_request_body is Some {
        ctx.adapted_request_body
    } else {
        ctx.pre_read_body
    };
    match stored {
        Some(chunks) => chunks@,
        None => Seq::empty(),
    }
}

/// A list of chunks without its first one.
pub open spec fn rest_of(chunks: Seq<Bytes>) -> Seq<Bytes> {
    if chunks.len() == 0 {
        chunks
    } else {
        chunks.drop_first()
    }
}

/// What draining one chunk does: the first stored chunk becomes the body and
/// leaves the store, which is dropped once it is empty. Nothing else changes.
pub open spec fn drains<V>(
    before: RequestCtx<V>,
    body: Option<Bytes>,
    after: RequestCtx<V>,
    forwarded: Option<Bytes>,
) -> bool {
    if drain_active(before) {
        let stored = forwardable(before);
        &&& forwarded == (if stored.len() == 0 {
            None
        } else {
            Some(stored[0])
        })
        &&& forwardable(after) == rest_of(stored)
        &&& if before.retained_adapted_request_body is Some {
            &&& after.adapted_request_body is Some <==> rest_of(stored).len() > 0
            &&& after == RequestCtx { adapted_request_body: after.adapted_request_body, ..before }
        } else {
            &&& after.pre_read_body is Some <==> rest_of(stored).len() > 0
            &&& after == RequestCtx { pre_read_body: after.pre_read_body, ..before }
        }
    } else {
        after == before && forwarded == body
    }
}

/// Takes the first chunk of a store, dropping the store once it is empty.
fn pop_stored(stored: &mut Option<VecDeque<Bytes>>) -> (chunk: Option<Bytes>)
    ensures
        match *old(stored) {
            Some(chunks) => {
                &&& chunk == (if chunks@.len() == 0 {
                    None
                } else {
                    Some(chunks@[0])
                })
                &&& *final(stored) is Some <==> rest_of(chunks@).len() > 0
                &&& *final(stored) is Some ==> final(stored)->0@ == rest_of(chunks@)
            },
            None => chunk is None && *final(stored) is None,
        },
{
    match stored.take() {
        Some(mut chunks) => {
            let ghost before = chunks@;
            let chunk = chunks.pop_front();
            assert(chunks@ =~= rest_of(before));
            if chunks.len() > 0 {
                *stored = Some(chunks);
            }
            chunk
        },
        None => None,
    }
}

/// Forwards the next stored request-body chunk, preferring the adapted body when
/// adaptation ran.
///
/// Returns `true` when a stored body is being drained and `body` was set.
pub fn drain_pre_read_body<V>(ctx: &mut RequestCtx<V>, body: &mut Option<Bytes>) -> (active: bool)
    ensures
        active == drain_active(*old(ctx)),
        drains(*old(ctx), *old(body), *final(ctx), *final(body)),
{
    if ctx.retained_adapted_request_body.is_some() {
        *body = pop_stored(&mut ctx.adapted_request_body);
        assert(forwardable(*ctx) =~= rest_of(forwardable(*old(ctx))));
        return true;
    }
    if ctx.pre_read_body.is_some() {
        *body = pop_stored(&mut ctx.pre_read_body);
        assert(forwardable(*ctx) =~= rest_of(forwardable(*old(ctx))));
        return true;
    }
    false
}

/// Once adaptation ran, draining forwards the adapted chunks and then nothing:
/// it stays active, never touches the canonical body, and never falls back to
/// it.
pub proof fn law_adapted_body_is_drained_exclusively<V>(
    before: RequestCtx<V>,
    body: Option<Bytes>,
    after: RequestCtx<V>,
    forwarded: Option<Bytes>,
)
    requires
        before.retained_adapted_request_body is Some,
        drains(before, body, after, forwarded),
    ensures
        drain_active(after),
        after.retained_adapted_request_body == before.retained_adapted_request_body,
        after.pre_read_body == before.pre_read_body,
        forwarded matches Some(chunk) ==> before.adapted_request_body is Some
            && before.adapted_request_body->0@.contains(chunk),
        forwardable(before).len() == 0 ==> forwarded is None && forwardable(after).len() == 0,
{
    if forwarded is Some {
        assert(before.adapted_request_body->0@[0] == forwarded->0);
    }
}

/// What was stored as the adapted body is what draining forwards: its bytes
/// first, if there are any, and then nothing.
pub proof fn law_stored_adapted_body_is_forwarded<V>(
    before: RequestCtx<V>,
    body: Option<Bytes>,
    retry_limit: u64,
    stored: RequestCtx<V>,
    arrived: Option<Bytes>,
    after: RequestCtx<V>,
    forwarded: Option<Bytes>,
)
    requires
        stores_adapted(before, body, retry_limit, stored),
        drains(stored, arrived, after, forwarded),
    ensures
        body_data(forwarded) == body_data(body),
        forwarded is Some <==> body_data(body).len() > 0,
        forwardable(after).len() == 0,
{
    let chunks = stored.adapted_request_body->0@;
    assert(chunks_data(chunks).len() == chunks.len());
    if chunks.len() > 0 {
        assert(chunks_data(chunks)[0] == bytes_data(chunks[0]));
    }
}

/// What was stored as the canonical body is what draining forwards, unless an
/// adapted body took its place: its bytes first, if there are any, and then
/// nothing.
pub proof fn law_stored_canonical_body_is_forwarded<V>(
    before: RequestCtx<V>,
    body: Bytes,
    retry_limit: u64,
    stored: RequestCtx<V>,
    arrived: Option<Bytes>,
    after: RequestCtx<V>,
    forwarded: Option<Bytes>,
)
    requires
        before.retained_adapted_request_body is None,
        stores_canonical(before, body, retry_limit, stored),
        drains(stored, arrived, after, forwarded),
    ensures
        body_data(forwarded) == bytes_data(body),
        forwarded is Some <==> bytes_data(body).len() > 0,
        forwardable(after).len() == 0,
{
    let chunks = stored.pre_read_body->0@;
    assert(chunks_data(chunks).len() == chunks.len());
    if chunks.len() > 0 {
        assert(chunks_data(chunks)[0] == bytes_data(chunks[0]));
    }
}

/// Draining again and again forwards the stored chunks one by one, in the order in
/// which they were stored. `states` are the contexts before, between and after the
/// calls, `arrived` and `forwarded` the bodies that went into and came out of each.
pub proof fn law_stored_chunks_are_forwarded_in_order<V>(
    states: Seq<RequestCtx<V>>,
    arrived: Seq<Option<Bytes>>,
    forwarded: Seq<Option<Bytes>>,
    i: int,
)
    requires
        states.len() == forwarded.len() + 1,
        arrived.len() == forwarded.len(),
        forall|j: int|
            0 <= j < forwarded.len() ==> drains(
                #[trigger] states[j],
                arrived[j],
                states[j + 1],
                forwarded[j],
            ),
        0 <= i < forwarded.len(),
        i < forwardable(states[0]).len(),
    ensures
        forwarded[i] == Some(forwardable(states[0])[i]),
        forwardable(states[i + 1]) == forwardable(states[0]).skip(i + 1),
    decreases i,
{
    if i > 0 {
        law_stored_chunks_are_forwarded_in_order(states, arrived, forwarded, i - 1);
    } else {
        assert(forwardable(states[0]).skip(0) =~= forwardable(states[0]));
    }
    assert(drains(states[i], arrived[i], states[i + 1], forwarded[i]));
    assert(forwardable(states[i]) == forwardable(states[0]).skip(i));
    assert(forwardable(states[0]).skip(i).drop_first() =~= forwardable(states[0]).skip(i + 1));
}

} // verus!
