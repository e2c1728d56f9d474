//! Laws on response streams.

use vstd::prelude::*;

use crate::message::{BusError, ResponseChunk};
use crate::stream::{ChunkStep, EgressStream, Reply, ReplyStep, ReplyStream, RpcStep};

verus! {

/// A part goes on to the local caller unchanged and leaves the stream open,
/// whatever it holds. A full chunk, and no other, is decoded, and it ends the
/// stream.
pub proof fn law_only_full_chunks_are_decoded(
    s: &mut EgressStream,
    chunk: ResponseChunk,
    r: ChunkStep,
)
    requires
        call_ensures(EgressStream::on_chunk, (s, chunk), r),
    ensures
        r is Decode <==> chunk is Full,
        forall|data: Vec<u8>|
            chunk == ResponseChunk::Part(data) ==> r == ChunkStep::Pass(ResponseChunk::Part(data)),
        forall|data: Vec<u8>| chunk == ResponseChunk::Full(data) ==> r == ChunkStep::Decode(data),
        chunk is Part ==> final(s).eos == old(s).eos,
        chunk is Full ==> final(s).eos,
{
}

/// Two parts that differ reach the local caller as parts that differ, and a
/// part never as what a full chunk of the same bytes gives.
pub proof fn law_chunks_stay_apart(
    s: &mut EgressStream,
    t: &mut EgressStream,
    a: ResponseChunk,
    b: ResponseChunk,
    x: ChunkStep,
    y: ChunkStep,
)
    requires
        call_ensures(EgressStream::on_chunk, (s, a), x),
        call_ensures(EgressStream::on_chunk, (t, b), y),
        a != b,
    ensures
        x != y,
{
}

/// What a local caller gets for one chunk: a part as it is, whatever decoding
/// would give; for a full one the decoded data as a full chunk, or the error.
pub proof fn law_chunk_of_local_caller<E>(data: Vec<u8>, decoded: Result<Vec<u8>, E>)
    ensures
        crate::stream::passed(ResponseChunk::Part(data), decoded) == Ok::<ResponseChunk, E>(
            ResponseChunk::Part(data),
        ),
        forall|d: Vec<u8>|
            decoded == Ok::<Vec<u8>, E>(d) ==> #[trigger] crate::stream::passed(
                ResponseChunk::Full(data),
                decoded,
            ) == Ok::<ResponseChunk, E>(ResponseChunk::Full(d)),
        forall|e: E|
            decoded == Err::<Vec<u8>, E>(e) ==> #[trigger] crate::stream::passed(
                ResponseChunk::Full(data),
                decoded,
            ) == Err::<ResponseChunk, E>(e),
{
}

/// A whole response, as the local caller sees it: every part as it came, every
/// full chunk decoded, all in order, and one empty full chunk at the end if and
/// only if no chunk was full.
pub proof fn law_response_of_local_caller<E>(
    chunks: Seq<ResponseChunk>,
    decoded: Seq<Result<Vec<u8>, E>>,
    out: Seq<Result<ResponseChunk, E>>,
)
    requires
        decoded.len() == chunks.len(),
        EgressStream::start().is_run(chunks, decoded, out),
    ensures
        !EgressStream::start().eos,
        forall|i: int|
            0 <= i < chunks.len() && chunks[i] is Part ==> #[trigger] out[i] == Ok::<
                ResponseChunk,
                E,
            >(chunks[i]),
        forall|i: int|
            0 <= i < chunks.len() && chunks[i] is Full && decoded[i] is Ok ==> #[trigger] out[i]
                == Ok::<ResponseChunk, E>(ResponseChunk::Full(decoded[i]->Ok_0)),
        forall|i: int|
            0 <= i < chunks.len() && chunks[i] is Full && decoded[i] is Err ==> #[trigger] out[i]
                == Err::<ResponseChunk, E>(decoded[i]->Err_0),
        (exists|i: int| 0 <= i < chunks.len() && #[trigger] chunks[i] is Full) ==> out.len()
            == chunks.len(),
        (forall|i: int| 0 <= i < chunks.len() ==> #[trigger] chunks[i] is Part) ==> out.len()
            == chunks.len() + 1 && (out.last() matches Ok(ResponseChunk::Full(data)) && data@.len()
            == 0),
{
    crate::stream::law_stream_run(chunks, decoded, out);
    assert forall|i: int| 0 <= i < chunks.len() implies #[trigger] out[i]
        == crate::stream::passed(chunks[i], decoded[i]) by {}
    if exists|i: int| 0 <= i < chunks.len() && #[trigger] chunks[i] is Full {
        let i = choose|i: int| 0 <= i < chunks.len() && #[trigger] chunks[i] is Full;
        assert(crate::stream::ends(chunks[i]));
    }
}

/// A stream starts open. The service ends an open stream with one empty full
/// chunk, adds nothing to one that has ended, and has nothing to add when asked
/// again.
pub proof fn law_stream_is_ended_once(
    fresh: EgressStream,
    s: &mut EgressStream,
    t: &mut EgressStream,
    first: Option<ResponseChunk>,
    again: Option<ResponseChunk>,
)
    requires
        call_ensures(EgressStream::new, (), fresh),
        call_ensures(EgressStream::on_end, (s,), first),
        call_ensures(EgressStream::on_end, (t,), again),
        *old(t) == *final(s),
    ensures
        !fresh.eos,
        old(s).eos ==> first is None,
        !old(s).eos ==> (first matches Some(ResponseChunk::Full(data)) && data@.len() == 0),
        again is None,
{
}

/// A single call is answered by a full first chunk alone: a part is a failure,
/// and so is no chunk at all.
pub proof fn law_single_call_needs_a_full_chunk(first: Option<ResponseChunk>, r: RpcStep)
    requires
        call_ensures(crate::stream::rpc_reply, (first,), r),
    ensures
        forall|data: Vec<u8>|
            r == RpcStep::Decode(data) <==> first == Some(ResponseChunk::Full(data)),
        first matches Some(ResponseChunk::Part(_)) ==> (r matches RpcStep::Fail(
            BusError::GsbFailure(m),
        ) && m@ == "partial response"@),
        first is None ==> r == RpcStep::Fail(BusError::Cancelled),
{
}

/// A decoded reply is a full chunk with just that data, and a failure to decode
/// stays that failure.
pub proof fn law_decoded_reply_is_full<E>(
    decoded: Result<Vec<u8>, E>,
    r: Result<ResponseChunk, E>,
)
    requires
        call_ensures(crate::stream::decoded_chunk::<E>, (decoded,), r),
    ensures
        forall|data: Vec<u8>|
            decoded == Ok::<Vec<u8>, E>(data) <==> r == Ok::<ResponseChunk, E>(
                ResponseChunk::Full(data),
            ),
        forall|e: E| decoded == Err::<Vec<u8>, E>(e) <==> r == Err::<ResponseChunk, E>(e),
{
}

/// A remote caller gets a part as it is and an error as it is, both under its
/// request. A full chunk, and nothing else, is decoded. Full chunks and errors
/// end the stream, parts do not, and the request stays the same.
pub proof fn law_items_of_remote_caller<E>(
    s: &mut ReplyStream,
    item: Result<ResponseChunk, E>,
    r: ReplyStep<E>,
)
    requires
        call_ensures(ReplyStream::on_item::<E>, (s, item), r),
    ensures
        forall|data: Vec<u8>|
            r == ReplyStep::<E>::Decode(data) <==> item == Ok::<ResponseChunk, E>(
                ResponseChunk::Full(data),
            ),
        item matches Ok(ResponseChunk::Part(data)) ==> r == ReplyStep::<E>::Emit(
            Reply::Chunk { request_id: old(s).request_id, chunk: ResponseChunk::Part(data) },
        ),
        item matches Err(error) ==> r == ReplyStep::<E>::Emit(
            Reply::Error { request_id: old(s).request_id, error },
        ),
        final(s).request_id == old(s).request_id,
        item matches Ok(ResponseChunk::Part(_)) ==> final(s).eos == old(s).eos,
        item matches Ok(ResponseChunk::Full(_)) ==> final(s).eos,
        item is Err ==> final(s).eos,
{
}

/// A decoded reply goes to the remote caller under its request, as a full chunk
/// with just that data or as the failure.
pub proof fn law_decoded_reply_of_remote_caller<E>(
    s: ReplyStream,
    decoded: Result<Vec<u8>, E>,
    r: Reply<E>,
)
    requires
        call_ensures(ReplyStream::on_decoded::<E>, (&s, decoded), r),
    ensures
        decoded matches Ok(data) ==> r == (Reply::<E>::Chunk {
            request_id: s.request_id,
            chunk: ResponseChunk::Full(data),
        }),
        decoded matches Err(error) ==> r == (Reply::<E>::Error { request_id: s.request_id, error }),
{
}

/// A reply stream starts open and under its request. The service ends an open
/// one with one end-of-stream reply under that request, adds nothing to one
/// that has ended, and has nothing to add when asked again.
pub proof fn law_reply_stream_is_ended_once<E>(
    request_id: String,
    fresh: ReplyStream,
    s: &mut ReplyStream,
    t: &mut ReplyStream,
    first: Option<Reply<E>>,
    again: Option<Reply<E>>,
)
    requires
        call_ensures(ReplyStream::new, (request_id,), fresh),
        call_ensures(ReplyStream::on_end::<E>, (s,), first),
        call_ensures(ReplyStream::on_end::<E>, (t,), again),
        *old(t) == *final(s),
    ensures
        fresh.request_id == request_id && !fresh.eos,
        old(s).eos ==> first is None,
        !old(s).eos ==> first == Some(Reply::<E>::Eos { request_id: old(s).request_id }),
        again is None,
{
}

/// A whole response, as the remote caller sees it: one reply for each item, in
/// order, all under its request, and one end-of-stream reply behind them if and
/// only if there was neither a full chunk nor an error.
pub proof fn law_response_of_remote_caller<E>(
    s: ReplyStream,
    items: Seq<Result<ResponseChunk, E>>,
    decoded: Seq<Result<Vec<u8>, E>>,
    out: Seq<Reply<E>>,
)
    requires
        !s.eos,
        decoded.len() == items.len(),
        out == s.run(items, decoded),
    ensures
        forall|i: int|
            0 <= i < items.len() ==> match items[i] {
                Ok(ResponseChunk::Part(data)) => #[trigger] out[i] == (Reply::<E>::Chunk {
                    request_id: s.request_id,
                    chunk: ResponseChunk::Part(data),
                }),
                Ok(ResponseChunk::Full(_)) => match decoded[i] {
                    Ok(data) => out[i] == (Reply::<E>::Chunk {
                        request_id: s.request_id,
                        chunk: ResponseChunk::Full(data),
                    }),
                    Err(error) => out[i] == (Reply::<E>::Error { request_id: s.request_id, error }),
                },
                Err(error) => out[i] == (Reply::<E>::Error { request_id: s.request_id, error }),
            },
        (exists|i: int|
            0 <= i < items.len() && (#[trigger] items[i] is Err || items[i]->Ok_0 is Full))
            ==> out.len() == items.len(),
        (forall|i: int|
            0 <= i < items.len() ==> (#[trigger] items[i] is Ok && items[i]->Ok_0 is Part))
            ==> out.len() == items.len() + 1 && out.last() == (Reply::<E>::Eos {
            request_id: s.request_id,
        }),
{
    crate::stream::law_reply_stream_run(s, items, decoded);
    assert forall|i: int| 0 <= i < items.len() implies #[trigger] out[i] == crate::stream::replied(
        s.request_id,
        items[i],
        decoded[i],
    ) by {}
    if exists|i: int|
        0 <= i < items.len() && (#[trigger] items[i] is Err || items[i]->Ok_0 is Full) {
        let i = choose|i: int|
            0 <= i < items.len() && (#[trigger] items[i] is Err || items[i]->Ok_0 is Full);
        assert(crate::stream::item_ends(items[i]));
    }
}

/// What succeeds is kept just as it is, and what fails is passed over: for
/// encoded replies and for messages cut out of a byte stream.
pub proof fn law_successes_are_kept<E>(
    outcome: Result<Vec<u8>, E>,
    sent: Option<Vec<u8>>,
    message: Option<Vec<u8>>,
)
    requires
        call_ensures(crate::stream::encoded_reply::<E>, (outcome,), sent),
        call_ensures(crate::ingress::prefixed_message::<E>, (outcome,), message),
    ensures
        forall|data: Vec<u8>| sent == Some(data) <==> outcome == Ok::<Vec<u8>, E>(data),
        forall|data: Vec<u8>| message == Some(data) <==> outcome == Ok::<Vec<u8>, E>(data),
{
}

} // verus!
