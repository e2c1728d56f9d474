//! Response streams: what becomes of each piece, and what ends a stream.
//!
//! A stream counts as ended once a full chunk, or an error where errors end
//! it, has passed. One that runs dry before that is ended by the service.

use vstd::prelude::*;

use crate::message::{BusError, ResponseChunk};

verus! {

/// The chunk ends the stream that it belongs to.
pub open spec fn ends(chunk: ResponseChunk) -> bool {
    chunk is Full
}

/// What becomes of a chunk on its way to the caller.
#[derive(Debug, PartialEq, Eq)]
pub enum ChunkStep {
    /// The reply in it is decoded; see `decoded_chunk`.
    Decode(Vec<u8>),
    /// It is passed on as it is.
    Pass(ResponseChunk),
}

/// What becomes of a chunk: a full one is decoded, any other is passed on.
pub open spec fn chunk_step(chunk: ResponseChunk) -> ChunkStep {
    match chunk {
        ResponseChunk::Full(data) => ChunkStep::Decode(data),
        ResponseChunk::Part(_) => ChunkStep::Pass(chunk),
    }
}

/// What a decoded reply is passed on as: a full chunk, or the error.
pub open spec fn decoded_full<E>(decoded: Result<Vec<u8>, E>) -> Result<ResponseChunk, E> {
    match decoded {
        Ok(data) => Ok(ResponseChunk::Full(data)),
        Err(e) => Err(e),
    }
}

/// What a local caller gets for a chunk. Where the reply in it is decoded,
/// `decoded` is the result.
pub open spec fn passed<E>(chunk: ResponseChunk, decoded: Result<Vec<u8>, E>) -> Result<
    ResponseChunk,
    E,
> {
    match chunk_step(chunk) {
        ChunkStep::Decode(_) => decoded_full(decoded),
        ChunkStep::Pass(c) => Ok(c),
    }
}

/// What the caller of a single call gets.
#[derive(Debug, PartialEq, Eq)]
pub enum RpcStep {
    /// The result of decoding the reply.
    Decode(Vec<u8>),
    Fail(BusError),
}

/// The answer to a single call from the first chunk of the response, or from
/// the lack of one.
pub fn rpc_reply(first: Option<ResponseChunk>) -> (r: RpcStep)
    ensures
        match first {
            Some(ResponseChunk::Full(data)) => r == RpcStep::Decode(data),
            Some(ResponseChunk::Part(_)) => r matches RpcStep::Fail(BusError::GsbFailure(e)) && e@
                == "partial response"@,
            None => r == RpcStep::Fail(BusError::Cancelled),
        },
{
    match first {
        Some(ResponseChunk::Full(data)) => RpcStep::Decode(data),
        Some(ResponseChunk::Part(_)) => RpcStep::Fail(
            BusError::GsbFailure("partial response".to_owned()),
        ),
        None => RpcStep::Fail(BusError::Cancelled),
    }
}

/// A response stream on its way to a local caller.
pub struct EgressStream {
    pub eos: bool,
}

impl EgressStream {
    /// A stream at its start.
    pub open spec fn start() -> Self {
        EgressStream { eos: false }
    }

    /// The stream after one more chunk.
    pub open spec fn after(self, chunk: ResponseChunk) -> Self {
        EgressStream { eos: self.eos || ends(chunk) }
    }

    /// The stream after the chunks `chunks`.
    pub open spec fn after_all(self, chunks: Seq<ResponseChunk>) -> Self
        decreases chunks.len(),
    {
        if chunks.len() == 0 {
            self
        } else {
            self.after(chunks[0]).after_all(chunks.drop_first())
        }
    }

    /// The stream after its end was taken.
    pub open spec fn ended(self) -> Self {
        EgressStream { eos: true }
    }

    /// `r` is what the service adds at the end of the response.
    pub open spec fn is_end(self, r: Option<ResponseChunk>) -> bool {
        if self.eos {
            r is None
        } else {
            r matches Some(ResponseChunk::Full(data)) && data@.len() == 0
        }
    }

    /// `out` is what the service adds to a response that ran dry, asked until
    /// there is no more.
    pub open spec fn is_tail<E>(self, out: Seq<Result<ResponseChunk, E>>) -> bool
        decreases out.len(),
    {
        if out.len() == 0 {
            self.is_end(None)
        } else {
            out[0] matches Ok(chunk) && self.is_end(Some(chunk)) && self.ended().is_tail(
                out.drop_first(),
            )
        }
    }

    /// `out` is what the caller gets of the chunks `chunks` and the end of the
    /// response, taken step by step. `decoded` has a place for each chunk.
    pub open spec fn is_run<E>(
        self,
        chunks: Seq<ResponseChunk>,
        decoded: Seq<Result<Vec<u8>, E>>,
        out: Seq<Result<ResponseChunk, E>>,
    ) -> bool
        decreases chunks.len(),
    {
        if chunks.len() == 0 {
            self.is_tail(out)
        } else {
            &&& out.len() > 0
            &&& out[0] == passed(chunks[0], decoded[0])
            &&& self.after(chunks[0]).is_run(
                chunks.drop_first(),
                decoded.drop_first(),
                out.drop_first(),
            )
        }
    }

    /// A stream at its start.
    pub fn new() -> (r: Self)
        ensures
            r == Self::start(),
    {
        EgressStream { eos: false }
    }

    /// Takes the next chunk of the response.
    pub fn on_chunk(&mut self, chunk: ResponseChunk) -> (r: ChunkStep)
        ensures
            r == chunk_step(chunk),
            match chunk {
                ResponseChunk::Part(data) => r == ChunkStep::Pass(ResponseChunk::Part(data)),
                ResponseChunk::Full(data) => r == ChunkStep::Decode(data),
            },
            *final(self) == old(self).after(chunk),
            final(self).eos <==> old(self).eos || chunk is Full,
    {
        match chunk {
            ResponseChunk::Full(data) => {
                self.eos = true;
                ChunkStep::Decode(data)
            },
            ResponseChunk::Part(data) => ChunkStep::Pass(ResponseChunk::Part(data)),
        }
    }

    /// Takes the end of the response: an empty full chunk ends a stream that
    /// has not ended yet.
    pub fn on_end(&mut self) -> (r: Option<ResponseChunk>)
        ensures
            *final(self) == old(self).ended(),
            old(self).is_end(r),
    {
        if self.eos {
            None
        } else {
            self.eos = true;
            Some(ResponseChunk::Full(Vec::new()))
        }
    }
}

/// What the caller gets for a decoded reply: a full chunk, or the error.
pub fn decoded_chunk<E>(decoded: Result<Vec<u8>, E>) -> (r: Result<ResponseChunk, E>)
    ensures
        r == decoded_full(decoded),
{
    match decoded {
        Ok(data) => Ok(ResponseChunk::Full(data)),
        Err(e) => Err(e),
    }
}

/// A reply to a remote caller, before encoding.
#[derive(Debug, PartialEq, Eq)]
pub enum Reply<E> {
    Chunk { request_id: String, chunk: ResponseChunk },
    Error { request_id: String, error: E },
    /// The end of a stream that did not end by itself.
    Eos { request_id: String },
}

/// What becomes of an item of the response to a remote caller.
#[derive(Debug, PartialEq, Eq)]
pub enum ReplyStep<E> {
    /// The reply in it is decoded; see `ReplyStream::on_decoded`.
    Decode(Vec<u8>),
    Emit(Reply<E>),
}

/// A response stream on its way to a remote caller.
pub struct ReplyStream {
    pub request_id: String,
    pub eos: bool,
}

/// The item ends the stream that it belongs to.
pub open spec fn item_ends<E>(item: Result<ResponseChunk, E>) -> bool {
    match item {
        Ok(chunk) => ends(chunk),
        Err(_) => true,
    }
}

/// What becomes of an item of the response to the request `request_id`: a full
/// chunk is decoded, anything else is a reply as it is.
pub open spec fn item_step<E>(request_id: String, item: Result<ResponseChunk, E>) -> ReplyStep<E> {
    match item {
        Ok(ResponseChunk::Full(data)) => ReplyStep::Decode(data),
        Ok(ResponseChunk::Part(data)) => ReplyStep::Emit(
            Reply::Chunk { request_id, chunk: ResponseChunk::Part(data) },
        ),
        Err(error) => ReplyStep::Emit(Reply::Error { request_id, error }),
    }
}

/// The reply for a decoded full chunk.
pub open spec fn decoded_reply<E>(request_id: String, decoded: Result<Vec<u8>, E>) -> Reply<E> {
    match decoded {
        Ok(data) => Reply::Chunk { request_id, chunk: ResponseChunk::Full(data) },
        Err(error) => Reply::Error { request_id, error },
    }
}

/// The reply for an item. Where the reply in it is decoded, `decoded` is the
/// result.
pub open spec fn replied<E>(
    request_id: String,
    item: Result<ResponseChunk, E>,
    decoded: Result<Vec<u8>, E>,
) -> Reply<E> {
    match item_step(request_id, item) {
        ReplyStep::Decode(_) => decoded_reply(request_id, decoded),
        ReplyStep::Emit(reply) => reply,
    }
}

impl ReplyStream {
    /// The stream after one more item.
    pub open spec fn after<E>(self, item: Result<ResponseChunk, E>) -> Self {
        ReplyStream { request_id: self.request_id, eos: self.eos || item_ends(item) }
    }

    /// The stream after the items `items`.
    pub open spec fn after_all<E>(self, items: Seq<Result<ResponseChunk, E>>) -> Self
        decreases items.len(),
    {
        if items.len() == 0 {
            self
        } else {
            self.after(items[0]).after_all(items.drop_first())
        }
    }

    /// The stream after its end was taken.
    pub open spec fn ended(self) -> Self {
        ReplyStream { request_id: self.request_id, eos: true }
    }

    /// What the service adds at the end of the response.
    pub open spec fn end_reply<E>(self) -> Option<Reply<E>> {
        if self.eos {
            None
        } else {
            Some(Reply::Eos { request_id: self.request_id })
        }
    }

    /// What the service adds to a response that ran dry, asked until there is
    /// no more.
    pub open spec fn tail<E>(self) -> Seq<Reply<E>>
        decreases (if self.eos { 0int } else { 1int }),
    {
        match self.end_reply::<E>() {
            Some(reply) => seq![reply] + self.ended().tail::<E>(),
            None => Seq::empty(),
        }
    }

    /// The replies to the items `items` and the end of the response, taken step
    /// by step. `decoded` has a place for each item.
    pub open spec fn run<E>(
        self,
        items: Seq<Result<ResponseChunk, E>>,
        decoded: Seq<Result<Vec<u8>, E>>,
    ) -> Seq<Reply<E>>
        decreases items.len(),
    {
        if items.len() == 0 {
            self.tail()
        } else {
            seq![replied(self.request_id, items[0], decoded[0])] + self.after(items[0]).run(
                items.drop_first(),
                decoded.drop_first(),
            )
        }
    }

    /// A stream at its start.
    pub fn new(request_id: String) -> (r: Self)
        ensures
            r.request_id == request_id,
            !r.eos,
    {
        ReplyStream { request_id, eos: false }
    }

    /// Takes the next item of the response.
    pub fn on_item<E>(&mut self, item: Result<ResponseChunk, E>) -> (r: ReplyStep<E>)
        ensures
            *final(self) == old(self).after(item),
            r == item_step(old(self).request_id, item),
    {
        match item {
            Ok(ResponseChunk::Full(data)) => {
                self.eos = true;
                ReplyStep::Decode(data)
            },
            Ok(ResponseChunk::Part(data)) => ReplyStep::Emit(
                Reply::Chunk { request_id: self.request_id.clone(), chunk: ResponseChunk::Part(data) },
            ),
            Err(error) => {
                self.eos = true;
                ReplyStep::Emit(Reply::Error { request_id: self.request_id.clone(), error })
            },
        }
    }

    /// Takes the result of decoding the reply in a full chunk.
    pub fn on_decoded<E>(&self, decoded: Result<Vec<u8>, E>) -> (r: Reply<E>)
        ensures
            r == decoded_reply(self.request_id, decoded),
    {
        match decoded {
            Ok(data) => Reply::Chunk {
                request_id: self.request_id.clone(),
                chunk: ResponseChunk::Full(data),
            },
            Err(error) => Reply::Error { request_id: self.request_id.clone(), error },
        }
    }

    /// Takes the end of the response.
    pub fn on_end<E>(&mut self) -> (r: Option<Reply<E>>)
        ensures
            *final(self) == old(self).ended(),
            r == old(self).end_reply::<E>(),
    {
        if self.eos {
            None
        } else {
            self.eos = true;
            Some(Reply::Eos { request_id: self.request_id.clone() })
        }
    }
}

/// What is kept of an outcome: a success.
pub open spec fn kept<E>(outcome: Result<Vec<u8>, E>) -> Option<Vec<u8>> {
    match outcome {
        Ok(data) => Some(data),
        Err(_) => None,
    }
}

/// What is handed on of a run of outcomes, taken one by one.
pub open spec fn handed_on<E>(outcomes: Seq<Result<Vec<u8>, E>>) -> Seq<Vec<u8>>
    decreases outcomes.len(),
{
    if outcomes.len() == 0 {
        Seq::empty()
    } else {
        match kept(outcomes.last()) {
            Some(data) => handed_on(outcomes.drop_last()).push(data),
            None => handed_on(outcomes.drop_last()),
        }
    }
}

/// What is sent of an encoded reply: one that cannot be encoded is left out.
pub fn encoded_reply<E>(encoded: Result<Vec<u8>, E>) -> (r: Option<Vec<u8>>)
    ensures
        r == kept(encoded),
{
    match encoded {
        Ok(data) => Some(data),
        Err(_) => None,
    }
}

/// After any chunks, a stream to a local caller still waits for the service to
/// end it if and only if none of the chunks was full. So the caller sees one
/// full chunk at least, and the service adds one at most.
pub proof fn law_stream_end(chunks: Seq<ResponseChunk>)
    ensures
        EgressStream::start().after_all(chunks).eos <==> exists|i: int|
            0 <= i < chunks.len() && ends(#[trigger] chunks[i]),
{
    lemma_after_all(EgressStream::start(), chunks);
}

proof fn lemma_after_all(s: EgressStream, chunks: Seq<ResponseChunk>)
    ensures
        s.after_all(chunks).eos <==> s.eos || exists|i: int|
            0 <= i < chunks.len() && ends(#[trigger] chunks[i]),
    decreases chunks.len(),
{
    if chunks.len() > 0 {
        let rest = chunks.drop_first();
        lemma_after_all(s.after(chunks[0]), rest);
        if exists|i: int| 0 <= i < rest.len() && ends(#[trigger] rest[i]) {
            let i = choose|i: int| 0 <= i < rest.len() && ends(#[trigger] rest[i]);
            assert(ends(chunks[i + 1]));
        }
        if exists|i: int| 0 <= i < chunks.len() && ends(#[trigger] chunks[i]) {
            let i = choose|i: int| 0 <= i < chunks.len() && ends(#[trigger] chunks[i]);
            if i > 0 {
                assert(rest[i - 1] == chunks[i]);
            }
        }
    }
}

/// After any items, a stream to a remote caller still waits for the service to
/// end it if and only if none of the items was a full chunk or an error. It
/// carries the same request throughout.
pub proof fn law_reply_stream_end<E>(s: ReplyStream, items: Seq<Result<ResponseChunk, E>>)
    requires
        !s.eos,
    ensures
        s.after_all(items).eos <==> exists|i: int|
            0 <= i < items.len() && item_ends(#[trigger] items[i]),
        s.after_all(items).request_id == s.request_id,
{
    lemma_reply_after_all(s, items);
}

proof fn lemma_reply_after_all<E>(s: ReplyStream, items: Seq<Result<ResponseChunk, E>>)
    ensures
        s.after_all(items).eos <==> s.eos || exists|i: int|
            0 <= i < items.len() && item_ends(#[trigger] items[i]),
        s.after_all(items).request_id == s.request_id,
    decreases items.len(),
{
    if items.len() > 0 {
        let rest = items.drop_first();
        lemma_reply_after_all(s.after(items[0]), rest);
        if exists|i: int| 0 <= i < rest.len() && item_ends(#[trigger] rest[i]) {
            let i = choose|i: int| 0 <= i < rest.len() && item_ends(#[trigger] rest[i]);
            assert(item_ends(items[i + 1]));
        }
        if exists|i: int| 0 <= i < items.len() && item_ends(#[trigger] items[i]) {
            let i = choose|i: int| 0 <= i < items.len() && item_ends(#[trigger] items[i]);
            if i > 0 {
                assert(rest[i - 1] == items[i]);
            }
        }
    }
}

/// `out` is the whole response to a local caller: what the caller gets for
/// each of the chunks, in order, and then one empty full chunk if and only if
/// none of the chunks was full and the stream had not `ended` before them.
pub open spec fn is_response<E>(
    ended: bool,
    chunks: Seq<ResponseChunk>,
    decoded: Seq<Result<Vec<u8>, E>>,
    out: Seq<Result<ResponseChunk, E>>,
) -> bool {
    &&& chunks.len() <= out.len()
    &&& forall|i: int|
        0 <= i < chunks.len() ==> #[trigger] out[i] == passed(chunks[i], decoded[i])
    &&& if ended || exists|i: int| 0 <= i < chunks.len() && ends(#[trigger] chunks[i]) {
        out.len() == chunks.len()
    } else {
        &&& out.len() == chunks.len() + 1
        &&& out.last() matches Ok(ResponseChunk::Full(data))
        &&& data@.len() == 0
    }
}

/// A response of any length gives the local caller the chunks in order, the
/// full ones decoded, and then one empty full chunk if and only if none of the
/// chunks was full. Nothing else comes out of the stream.
pub proof fn law_stream_run<E>(
    chunks: Seq<ResponseChunk>,
    decoded: Seq<Result<Vec<u8>, E>>,
    out: Seq<Result<ResponseChunk, E>>,
)
    requires
        decoded.len() == chunks.len(),
    ensures
        EgressStream::start().is_run(chunks, decoded, out) <==> is_response(
            false,
            chunks,
            decoded,
            out,
        ),
{
    lemma_run(EgressStream::start(), chunks, decoded, out);
}

proof fn lemma_run<E>(
    s: EgressStream,
    chunks: Seq<ResponseChunk>,
    decoded: Seq<Result<Vec<u8>, E>>,
    out: Seq<Result<ResponseChunk, E>>,
)
    requires
        decoded.len() == chunks.len(),
    ensures
        s.is_run(chunks, decoded, out) <==> is_response(s.eos, chunks, decoded, out),
    decreases chunks.len(),
{
    if chunks.len() == 0 {
        reveal_with_fuel(EgressStream::is_tail, 3);
    } else if out.len() > 0 {
        let t = s.after(chunks[0]);
        let rest = chunks.drop_first();
        let dec = decoded.drop_first();
        let more = out.drop_first();
        lemma_run(t, rest, dec, more);
        lemma_after_all(s, chunks);
        lemma_after_all(t, rest);
        if is_response(t.eos, rest, dec, more) && out[0] == passed(chunks[0], decoded[0]) {
            assert forall|i: int| 0 <= i < chunks.len() implies #[trigger] out[i] == passed(
                chunks[i],
                decoded[i],
            ) by {
                if i > 0 {
                    assert(more[i - 1] == passed(rest[i - 1], dec[i - 1]));
                }
            }
        }
        if is_response(s.eos, chunks, decoded, out) {
            assert forall|i: int| 0 <= i < rest.len() implies #[trigger] more[i] == passed(
                rest[i],
                dec[i],
            ) by {
                assert(out[i + 1] == passed(chunks[i + 1], decoded[i + 1]));
            }
            assert(out[0] == passed(chunks[0], decoded[0]));
        }
    }
}

/// A response of any length gives the remote caller one reply for each item,
/// in order, the full chunks decoded, and then one end-of-stream reply if and
/// only if none of the items was a full chunk or an error.
pub proof fn law_reply_stream_run<E>(
    s: ReplyStream,
    items: Seq<Result<ResponseChunk, E>>,
    decoded: Seq<Result<Vec<u8>, E>>,
)
    requires
        !s.eos,
        decoded.len() == items.len(),
    ensures
        s.run(items, decoded) == Seq::new(
            items.len(),
            |i: int| replied(s.request_id, items[i], decoded[i]),
        ) + (if exists|i: int| 0 <= i < items.len() && item_ends(#[trigger] items[i]) {
            Seq::empty()
        } else {
            seq![Reply::Eos { request_id: s.request_id }]
        }),
{
    lemma_reply_run(s, items, decoded);
    lemma_reply_after_all(s, items);
    reveal_with_fuel(ReplyStream::tail, 2);
}

proof fn lemma_reply_run<E>(
    s: ReplyStream,
    items: Seq<Result<ResponseChunk, E>>,
    decoded: Seq<Result<Vec<u8>, E>>,
)
    requires
        decoded.len() == items.len(),
    ensures
        s.run(items, decoded) == Seq::new(
            items.len(),
            |i: int| replied(s.request_id, items[i], decoded[i]),
        ) + s.after_all(items).tail::<E>(),
    decreases items.len(),
{
    if items.len() == 0 {
        assert(s.run(items, decoded) =~= s.tail::<E>());
    } else {
        lemma_reply_run(s.after(items[0]), items.drop_first(), decoded.drop_first());
    }
    assert(s.run(items, decoded) =~= Seq::new(
        items.len(),
        |i: int| replied(s.request_id, items[i], decoded[i]),
    ) + s.after_all(items).tail::<E>());
}

/// What is handed on of a run of outcomes is exactly the successful ones, in
/// order. Where all of them succeed, nothing is lost or changed.
pub proof fn law_successes_are_handed_on<E>(outcomes: Seq<Result<Vec<u8>, E>>, all: Seq<Vec<u8>>)
    ensures
        handed_on(outcomes) == outcomes.filter(
            |r: Result<Vec<u8>, E>| r is Ok,
        ).map_values(|r: Result<Vec<u8>, E>| r->Ok_0),
        outcomes.len() == all.len() && (forall|i: int|
            0 <= i < all.len() ==> #[trigger] outcomes[i] == Ok::<Vec<u8>, E>(all[i]))
            ==> handed_on(outcomes) == all,
    decreases outcomes.len(),
{
    let good = |r: Result<Vec<u8>, E>| r is Ok;
    let value = |r: Result<Vec<u8>, E>| r->Ok_0;
    reveal(Seq::filter);
    if outcomes.len() == 0 {
        assert(outcomes.filter(good).map_values(value) =~= handed_on(outcomes));
        if all.len() == 0 {
            assert(handed_on(outcomes) =~= all);
        }
    } else {
        let before = outcomes.drop_last();
        let most = if all.len() > 0 {
            all.drop_last()
        } else {
            all
        };
        law_successes_are_handed_on(before, most);
        assert(outcomes.filter(good).map_values(value) =~= handed_on(outcomes));
        if outcomes.len() == all.len() && forall|i: int|
            0 <= i < all.len() ==> #[trigger] outcomes[i] == Ok::<Vec<u8>, E>(all[i]) {
            assert forall|i: int| 0 <= i < most.len() implies #[trigger] before[i] == Ok::<
                Vec<u8>,
                E,
            >(most[i]) by {
                assert(outcomes[i] == Ok::<Vec<u8>, E>(all[i]));
            }
            assert(outcomes[outcomes.len() - 1] == Ok::<Vec<u8>, E>(all[all.len() - 1]));
            assert(handed_on(outcomes) =~= all);
        }
    }
}

} // verus!
