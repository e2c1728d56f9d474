use hybrid_net::message::{BusError, ResponseChunk};
use hybrid_net::stream::{
    decoded_chunk, encoded_reply, rpc_reply, ChunkStep, EgressStream, Reply, ReplyStep,
    ReplyStream, RpcStep,
};

#[test]
fn single_call_takes_the_first_full_chunk() {
    assert_eq!(
        rpc_reply(Some(ResponseChunk::Full(vec![1]))),
        RpcStep::Decode(vec![1])
    );
    assert_eq!(
        rpc_reply(Some(ResponseChunk::Part(vec![1]))),
        RpcStep::Fail(BusError::GsbFailure("partial response".to_string()))
    );
    assert_eq!(rpc_reply(None), RpcStep::Fail(BusError::Cancelled));
}

#[test]
fn stream_with_a_full_chunk_ends_by_itself() {
    let mut s = EgressStream::new();
    assert_eq!(
        s.on_chunk(ResponseChunk::Part(vec![1])),
        ChunkStep::Pass(ResponseChunk::Part(vec![1]))
    );
    assert_eq!(s.on_chunk(ResponseChunk::Full(vec![2])), ChunkStep::Decode(vec![2]));
    assert_eq!(s.on_end(), None);
}

#[test]
fn stream_that_runs_dry_is_ended_once() {
    let mut s = EgressStream::new();
    s.on_chunk(ResponseChunk::Part(vec![1]));
    assert_eq!(s.on_end(), Some(ResponseChunk::Full(vec![])));
    assert_eq!(s.on_end(), None);
}

#[test]
fn decoded_reply_is_a_full_chunk() {
    assert_eq!(decoded_chunk::<u8>(Ok(vec![1])), Ok(ResponseChunk::Full(vec![1])));
    assert_eq!(decoded_chunk(Err(7u8)), Err(7));
}

#[test]
fn replies_carry_the_request() {
    let id = || "r1".to_string();
    let mut s = ReplyStream::new(id());
    assert_eq!(
        s.on_item::<u8>(Ok(ResponseChunk::Part(vec![1]))),
        ReplyStep::Emit(Reply::Chunk { request_id: id(), chunk: ResponseChunk::Part(vec![1]) })
    );
    assert_eq!(
        s.on_item::<u8>(Ok(ResponseChunk::Full(vec![2]))),
        ReplyStep::Decode(vec![2])
    );
    assert_eq!(
        s.on_decoded::<u8>(Ok(vec![3])),
        Reply::Chunk { request_id: id(), chunk: ResponseChunk::Full(vec![3]) }
    );
    assert_eq!(s.on_decoded(Err(4u8)), Reply::Error { request_id: id(), error: 4 });
    assert_eq!(s.on_end::<u8>(), None);
}

#[test]
fn error_ends_a_reply_stream() {
    let mut s = ReplyStream::new("r1".to_string());
    assert_eq!(
        s.on_item(Err(5u8)),
        ReplyStep::Emit(Reply::Error { request_id: "r1".to_string(), error: 5 })
    );
    assert_eq!(s.on_end::<u8>(), None);
}

#[test]
fn reply_stream_that_runs_dry_is_ended_once() {
    let mut s = ReplyStream::new("r1".to_string());
    s.on_item::<u8>(Ok(ResponseChunk::Part(vec![])));
    assert_eq!(s.on_end::<u8>(), Some(Reply::Eos { request_id: "r1".to_string() }));
    assert_eq!(s.on_end::<u8>(), None);
}

#[test]
fn reply_that_cannot_be_encoded_is_left_out() {
    assert_eq!(encoded_reply::<u8>(Ok(vec![1])), Some(vec![1]));
    assert_eq!(encoded_reply(Err(1u8)), None);
}

/// What a local caller gets of `chunks`, where decoding adds one to each byte.
fn response(chunks: Vec<ResponseChunk>) -> Vec<Result<ResponseChunk, u8>> {
    let mut s = EgressStream::new();
    let mut out = Vec::new();
    for chunk in chunks {
        out.push(match s.on_chunk(chunk) {
            ChunkStep::Decode(data) => decoded_chunk(Ok(data.iter().map(|b| b + 1).collect())),
            ChunkStep::Pass(chunk) => Ok(chunk),
        });
    }
    while let Some(chunk) = s.on_end() {
        out.push(Ok(chunk));
    }
    out
}

#[test]
fn whole_response_of_a_local_caller() {
    let part = |b: u8| ResponseChunk::Part(vec![b]);
    let full = |b: u8| ResponseChunk::Full(vec![b]);
    assert_eq!(response(vec![]), vec![Ok(ResponseChunk::Full(vec![]))]);
    assert_eq!(
        response(vec![part(1), part(2)]),
        vec![Ok(part(1)), Ok(part(2)), Ok(ResponseChunk::Full(vec![]))]
    );
    assert_eq!(
        response(vec![part(1), full(2), part(3)]),
        vec![Ok(part(1)), Ok(full(3)), Ok(part(3))]
    );
}

/// The replies to a remote caller, where decoding fails on an empty chunk.
fn replies(items: Vec<Result<ResponseChunk, u8>>) -> Vec<Reply<u8>> {
    let mut s = ReplyStream::new("r1".to_string());
    let mut out = Vec::new();
    for item in items {
        out.push(match s.on_item(item) {
            ReplyStep::Decode(data) if data.is_empty() => s.on_decoded(Err(9)),
            ReplyStep::Decode(data) => s.on_decoded(Ok(data)),
            ReplyStep::Emit(reply) => reply,
        });
    }
    while let Some(reply) = s.on_end() {
        out.push(reply);
    }
    out
}

#[test]
fn whole_response_of_a_remote_caller() {
    let id = || "r1".to_string();
    let chunk = |chunk: ResponseChunk| Reply::Chunk { request_id: id(), chunk };
    assert_eq!(
        replies(vec![Ok(ResponseChunk::Part(vec![1]))]),
        vec![chunk(ResponseChunk::Part(vec![1])), Reply::Eos { request_id: id() }]
    );
    assert_eq!(
        replies(vec![Ok(ResponseChunk::Part(vec![1])), Ok(ResponseChunk::Full(vec![]))]),
        vec![
            chunk(ResponseChunk::Part(vec![1])),
            Reply::Error { request_id: id(), error: 9 },
        ]
    );
    assert_eq!(replies(vec![Err(4)]), vec![Reply::Error { request_id: id(), error: 4 }]);
}
