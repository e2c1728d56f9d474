//! Messages of the service bus, as far as the service looks at them.

use vstd::prelude::*;

verus! {

/// Piece of a response.
#[derive(Debug, PartialEq, Eq)]
pub enum ResponseChunk {
    /// A piece that others follow.
    Part(Vec<u8>),
    /// The whole response, or the last piece of it.
    Full(Vec<u8>),
}

/// Failure of a bus call.
#[derive(Debug, PartialEq, Eq)]
pub enum BusError {
    Cancelled,
    GsbFailure(String),
    GsbBadRequest(String),
}

/// A call of another node.
#[derive(Debug, PartialEq, Eq)]
pub struct CallRequest {
    pub caller: String,
    pub address: String,
    pub request_id: String,
    pub data: Vec<u8>,
}

/// A reply of another node. `code` and `reply_type` are the numbers that came
/// over the wire.
#[derive(Debug, PartialEq, Eq)]
pub struct CallReply {
    pub request_id: String,
    pub code: i32,
    pub reply_type: i32,
    pub data: Vec<u8>,
}

/// A broadcast of another node.
#[derive(Debug, PartialEq, Eq)]
pub struct BroadcastRequest {
    pub caller: String,
    pub data: Vec<u8>,
    pub topic: String,
}

/// A message of another node.
#[derive(Debug, PartialEq, Eq)]
pub enum GsbMessage {
    CallRequest(CallRequest),
    CallReply(CallReply),
    BroadcastRequest(BroadcastRequest),
    /// Any other kind of message.
    Other,
}

/// Outcome of a call.
#[derive(Clone, Copy, Debug, PartialEq, Eq)]
pub enum ReplyCode {
    CallReplyOk,
    CallReplyBadRequest,
    ServiceFailure,
}

impl ReplyCode {
    /// Number of the outcome on the wire.
    pub open spec fn number(self) -> i32 {
        match self {
            ReplyCode::CallReplyOk => 0,
            ReplyCode::CallReplyBadRequest => 400,
            ReplyCode::ServiceFailure => 500,
        }
    }
}

/// Number of the reply type of whole responses on the wire.
pub open spec fn full_type() -> i32 {
    0
}

/// Number of an outcome on the wire.
///
/// Reads the variants of `ya_sb_proto::CallReplyCode`, which the protocol
/// numbers 0, 400 and 500.
#[verifier::external_body]
pub(crate) fn reply_code_number(code: ReplyCode) -> (r: i32)
    ensures
        r == code.number(),
{
    match code {
        ReplyCode::CallReplyOk => ya_sb_proto::CallReplyCode::CallReplyOk as i32,
        ReplyCode::CallReplyBadRequest => ya_sb_proto::CallReplyCode::CallReplyBadRequest as i32,
        ReplyCode::ServiceFailure => ya_sb_proto::CallReplyCode::ServiceFailure as i32,
    }
}

/// Number of the reply type of whole responses on the wire.
///
/// Reads the variant `Full` of `ya_sb_proto::CallReplyType`, which the protocol
/// numbers 0.
#[verifier::external_body]
pub(crate) fn full_type_number() -> (r: i32)
    ensures
        r == full_type(),
{
    ya_sb_proto::CallReplyType::Full as i32
}

/// A reply that the service makes up to report an error, before encoding.
#[derive(Debug, PartialEq, Eq)]
pub struct ErrorReply {
    pub request_id: String,
    pub error: String,
    pub code: i32,
}

impl ErrorReply {
    /// The reply to `request_id` that reports `error` as `code`.
    pub open spec fn reports(&self, request_id: Seq<char>, error: Seq<char>, code: ReplyCode) -> bool {
        self.request_id@ == request_id && self.error@ == error && self.code == code.number()
    }
}

/// The reply that reports `error`.
pub fn handler_reply_err(request_id: String, error: String, code: ReplyCode) -> (r: ErrorReply)
    ensures
        r.reports(request_id@, error@, code),
{
    ErrorReply { request_id, error, code: reply_code_number(code) }
}

/// The reply that reports a request that cannot be taken.
pub fn handler_reply_bad_request(request_id: String, error: String) -> (r: ErrorReply)
    ensures
        r.reports(request_id@, error@, ReplyCode::CallReplyBadRequest),
{
    handler_reply_err(request_id, error, ReplyCode::CallReplyBadRequest)
}

/// The reply that reports a request that could not be served.
pub fn handler_reply_service_err(request_id: String, error: String) -> (r: ErrorReply)
    ensures
        r.reports(request_id@, error@, ReplyCode::ServiceFailure),
{
    handler_reply_err(request_id, error, ReplyCode::ServiceFailure)
}

/// The response that carries an encoded error reply: nothing follows it.
pub fn error_chunk(encoded: Vec<u8>) -> (r: ResponseChunk)
    ensures
        r == ResponseChunk::Full(encoded),
{
    ResponseChunk::Full(encoded)
}

} // verus!
