//! Inbound traffic: packets and messages of other nodes.

use vstd::prelude::*;

use crate::message::{
    full_type_number, reply_code_number, BroadcastRequest, BusError, CallReply, CallRequest,
    GsbMessage, ReplyCode, ResponseChunk,
};
use crate::node_id::{node_id_text, parse_node_id, NodeId};
use crate::state::{Request, RouteKey, State};
use crate::stream::ReplyStream;
use crate::table::Key;
use crate::text;

verus! {

/// Why a message of another node is refused.
#[derive(Debug, PartialEq, Eq)]
pub enum IngressError {
    /// A call in the name of another node than the sender.
    InvalidCaller(String),
    /// A broadcast in the name of another node than the sender.
    InvalidBroadcastCaller(String),
    /// A reply of another node than the one that was called.
    InvalidReplyCaller(String),
    /// A reply to no waiting request.
    InvalidReplyRequestId(String),
    /// A reply that cannot be encoded for the local bus.
    EncodeReply,
    /// A message that cannot be decoded, with the reason.
    Decode(String),
    /// A message of a kind that nodes do not send each other.
    UnexpectedMessage,
}

impl IngressError {
    /// The refusal in words.
    pub open spec fn text(&self) -> Seq<char> {
        match self {
            IngressError::InvalidCaller(caller) => "invalid caller id: "@ + caller@,
            IngressError::InvalidBroadcastCaller(caller) => "invalid broadcast caller id: "@
                + caller@,
            IngressError::InvalidReplyCaller(id) => "invalid caller for request id: "@ + id@,
            IngressError::InvalidReplyRequestId(id) => "invalid reply request id: "@ + id@,
            IngressError::EncodeReply => "unable to encode reply"@,
            IngressError::Decode(e) => "received message error: "@ + e@,
            IngressError::UnexpectedMessage => "unexpected message type"@,
        }
    }

    /// The refusal in words.
    pub fn message(&self) -> (r: String)
        ensures
            r@ == self.text(),
    {
        match self {
            IngressError::InvalidCaller(caller) => text::join2(
                "invalid caller id: ",
                caller.as_str(),
            ),
            IngressError::InvalidBroadcastCaller(caller) => text::join2(
                "invalid broadcast caller id: ",
                caller.as_str(),
            ),
            IngressError::InvalidReplyCaller(id) => text::join2(
                "invalid caller for request id: ",
                id.as_str(),
            ),
            IngressError::InvalidReplyRequestId(id) => text::join2(
                "invalid reply request id: ",
                id.as_str(),
            ),
            IngressError::EncodeReply => "unable to encode reply".to_owned(),
            IngressError::Decode(e) => text::join2("received message error: ", e.as_str()),
            IngressError::UnexpectedMessage => "unexpected message type".to_owned(),
        }
    }
}

/// `caller` names the node `remote_id`.
pub open spec fn names(caller: Seq<char>, remote_id: Seq<u8>) -> bool {
    crate::node_id::id_of_text(caller) == Ok::<Seq<u8>, Seq<char>>(remote_id)
}

/// The node `remote_id`, where `caller` names it.
fn named(caller: &str, remote_id: &NodeId) -> (r: Option<NodeId>)
    ensures
        match r {
            Some(id) => names(caller@, remote_id@) && id@ == remote_id@,
            None => !names(caller@, remote_id@),
        },
{
    match parse_node_id(caller) {
        Ok(id) => if id.same(remote_id) {
            Some(id)
        } else {
            None
        },
        Err(_) => None,
    }
}

/// Where the response to a remote call comes from.
#[derive(Debug)]
pub enum CallSource {
    /// A public endpoint, called in the name of the remote caller.
    Local { address: String, caller: String, data: Vec<u8> },
    /// The call is answered by the error alone.
    Reject(BusError),
}

/// A remote call that was accepted: its response goes through `replies` to the
/// caller.
pub struct InboundCall {
    pub source: CallSource,
    pub replies: ReplyStream,
    pub caller_id: NodeId,
    pub reliable: bool,
}

/// `r` is what becomes of a call of the node `remote_id`.
pub open spec fn request_handled(
    request: CallRequest,
    remote_id: Seq<u8>,
    services: Set<Seq<char>>,
    reliable: bool,
    r: Result<InboundCall, IngressError>,
) -> bool {
    if !names(request.caller@, remote_id) {
        r == Err::<InboundCall, IngressError>(IngressError::InvalidCaller(request.caller))
    } else {
        &&& r matches Ok(call)
        &&& call.caller_id@ == remote_id
        &&& call.reliable == reliable
        &&& call.replies.request_id == request.request_id
        &&& !call.replies.eos
        &&& match call.source {
            CallSource::Local { address, caller, data } => {
                &&& crate::state::is_local_address(services, request.address@, address@)
                &&& caller == request.caller
                &&& data == request.data
            },
            CallSource::Reject(e) => {
                &&& !crate::state::is_served(services, request.address@)
                &&& e matches BusError::GsbBadRequest(m)
                &&& m@ == "unknown address: "@ + request.address@
            },
        }
    }
}

/// Handles a call of the node `remote_id`.
pub fn handle_request<S, R>(
    request: CallRequest,
    remote_id: NodeId,
    state: &State<S, R>,
    reliable: bool,
) -> (r: Result<InboundCall, IngressError>)
    ensures
        request_handled(request, remote_id@, state@.services, reliable, r),
        r is Ok <==> crate::node_id::id_of_text(request.caller@) == Ok::<Seq<u8>, Seq<char>>(
            remote_id@,
        ),
        r matches Ok(call) ==> call.reliable == reliable && call.caller_id@ == remote_id@
            && call.replies.request_id == request.request_id,
{
    let caller_id: NodeId = match named(request.caller.as_str(), &remote_id) {
        Some(id) => id,
        None => return Err(IngressError::InvalidCaller(request.caller)),
    };
    let source: CallSource = match state.local_address(request.address.as_str()) {
        Some(address) => CallSource::Local { address, caller: request.caller, data: request.data },
        None => CallSource::Reject(
            BusError::GsbBadRequest(text::join2("unknown address: ", request.address.as_str())),
        ),
    };
    Ok(InboundCall { source, replies: ReplyStream::new(request.request_id), caller_id, reliable })
}

/// What becomes of a reply.
pub enum ReplyDelivery<S> {
    /// The chunk goes to the caller.
    Send { tx: S, chunk: ResponseChunk },
    /// The reply reports a failure: it is encoded, and `encoded_delivery` says
    /// what goes to the caller.
    Encode { tx: S, full: bool, reply: CallReply },
}

/// The chunk that carries `data` to the caller.
pub open spec fn reply_chunk(full: bool, data: Vec<u8>) -> ResponseChunk {
    if full {
        ResponseChunk::Full(data)
    } else {
        ResponseChunk::Part(data)
    }
}

/// The reply is the last one to its request.
pub open spec fn is_last(reply: CallReply) -> bool {
    reply.reply_type == crate::message::full_type()
}

/// The requests that still wait after `reply` of the node `remote_id`.
pub open spec fn requests_after<S>(
    requests: Map<Seq<char>, Request<S>>,
    reply: CallReply,
    remote_id: Seq<u8>,
) -> Map<Seq<char>, Request<S>> {
    let id = reply.request_id@;
    if requests.contains_key(id) && requests[id].remote_id@ == remote_id && is_last(reply) {
        requests.remove(id)
    } else {
        requests
    }
}

/// `r` is what becomes of a reply of the node `remote_id`.
pub open spec fn reply_handled<S: Clone>(
    requests: Map<Seq<char>, Request<S>>,
    reply: CallReply,
    remote_id: Seq<u8>,
    r: Result<ReplyDelivery<S>, IngressError>,
) -> bool {
    let id = reply.request_id@;
    if !requests.contains_key(id) {
        r == Err::<ReplyDelivery<S>, IngressError>(
            IngressError::InvalidReplyRequestId(reply.request_id),
        )
    } else if requests[id].remote_id@ != remote_id {
        r == Err::<ReplyDelivery<S>, IngressError>(
            IngressError::InvalidReplyCaller(reply.request_id),
        )
    } else {
        match r {
            Err(_) => false,
            Ok(ReplyDelivery::Send { tx, chunk }) => {
                &&& reply.code == ReplyCode::CallReplyOk.number()
                &&& cloned(requests[id].tx, tx)
                &&& chunk == reply_chunk(is_last(reply), reply.data)
            },
            Ok(ReplyDelivery::Encode { tx, full, reply: sent }) => {
                &&& reply.code != ReplyCode::CallReplyOk.number()
                &&& cloned(requests[id].tx, tx)
                &&& full == is_last(reply)
                &&& sent == reply
            },
        }
    }
}

fn chunk_of(full: bool, data: Vec<u8>) -> (r: ResponseChunk)
    ensures
        r == reply_chunk(full, data),
{
    if full {
        ResponseChunk::Full(data)
    } else {
        ResponseChunk::Part(data)
    }
}

/// Handles a reply of the node `remote_id`: it goes to the caller of the
/// request, which waits on unless the reply is the last one.
pub fn handle_reply<S: Clone, R>(
    reply: CallReply,
    remote_id: NodeId,
    state: &mut State<S, R>,
) -> (r: Result<ReplyDelivery<S>, IngressError>)
    requires
        old(state).wf(),
    ensures
        final(state).wf(),
        final(state)@ == (crate::state::StateModel {
            requests: requests_after(old(state)@.requests, reply, remote_id@),
            ..old(state)@
        }),
        reply_handled(old(state)@.requests, reply, remote_id@, r),
        r matches Ok(delivery) ==> (delivery is Send <==> reply.code == 0),
{
    let full: bool = reply.reply_type == full_type_number();
    let tx: S = match state.request(&reply.request_id) {
        Some(request) => if request.remote_id.same(&remote_id) {
            request.tx.clone()
        } else {
            return Err(IngressError::InvalidReplyCaller(reply.request_id));
        },
        None => return Err(IngressError::InvalidReplyRequestId(reply.request_id)),
    };
    if full {
        let _ = state.remove_request(&reply.request_id);
    }
    if reply.code == reply_code_number(ReplyCode::CallReplyOk) {
        Ok(ReplyDelivery::Send { tx, chunk: chunk_of(full, reply.data) })
    } else {
        Ok(ReplyDelivery::Encode { tx, full, reply })
    }
}

/// The chunk that goes to the caller for an encoded reply.
pub fn encoded_delivery<E>(full: bool, encoded: Result<Vec<u8>, E>) -> (r: Result<
    ResponseChunk,
    IngressError,
>)
    ensures
        match encoded {
            Ok(data) => r == Ok::<ResponseChunk, IngressError>(reply_chunk(full, data)),
            Err(_) => r == Err::<ResponseChunk, IngressError>(IngressError::EncodeReply),
        },
{
    match encoded {
        Ok(data) => Ok(chunk_of(full, data)),
        Err(_) => Err(IngressError::EncodeReply),
    }
}

/// A broadcast for the handlers of its topic.
#[derive(Debug)]
pub struct Broadcast {
    pub caller: String,
    pub topic: String,
    pub data: Vec<u8>,
}

/// `r` is what becomes of a broadcast of the node `remote_id`.
pub open spec fn broadcast_handled(
    request: BroadcastRequest,
    remote_id: Seq<u8>,
    r: Result<Broadcast, IngressError>,
) -> bool {
    if !names(request.caller@, remote_id) {
        r == Err::<Broadcast, IngressError>(IngressError::InvalidBroadcastCaller(request.caller))
    } else {
        &&& r matches Ok(b)
        &&& b.caller@ == crate::node_id::id_text(remote_id)
        &&& b.topic == request.topic
        &&& b.data == request.data
    }
}

/// Handles a broadcast of the node `remote_id`.
pub fn handle_broadcast(request: BroadcastRequest, remote_id: NodeId) -> (r: Result<
    Broadcast,
    IngressError,
>)
    ensures
        broadcast_handled(request, remote_id@, r),
{
    match named(request.caller.as_str(), &remote_id) {
        Some(id) => Ok(
            Broadcast { caller: node_id_text(&id), topic: request.topic, data: request.data },
        ),
        None => Err(IngressError::InvalidBroadcastCaller(request.caller)),
    }
}

/// The endpoints that have a handler, in order.
pub open spec fn handled_endpoints(endpoints: Seq<String>, handlers: Set<Seq<char>>) -> Seq<
    String,
> {
    endpoints.filter(|e: String| handlers.contains(e@))
}

/// Whether `name` is on the list.
fn listed(list: &Vec<String>, name: &String) -> (r: bool)
    ensures
        r == crate::state::text_set(list@).contains(name@),
{
    let mut i: usize = 0;
    while i < list.len()
        invariant
            i <= list@.len(),
            forall|j: int| 0 <= j < i ==> (#[trigger] list@[j])@ != name@,
        decreases list@.len() - i,
    {
        if list[i] == *name {
            assert(list@[i as int]@ == name@);
            return true;
        }
        i = i + 1;
    }
    false
}

/// The endpoints to hand a broadcast to: those subscribed to its topic that
/// have a handler, in the order of subscription.
pub fn broadcast_endpoints(subscribed: &Vec<String>, handlers: &Vec<String>) -> (r: Vec<String>)
    ensures
        r@ == handled_endpoints(subscribed@, crate::state::text_set(handlers@)),
{
    let ghost set = crate::state::text_set(handlers@);
    let ghost keep = |e: String| set.contains(e@);
    let mut out: Vec<String> = Vec::new();
    let mut i: usize = 0;
    assert(subscribed@.take(0).filter(keep) =~= Seq::<String>::empty()) by {
        reveal(Seq::filter);
    }
    while i < subscribed.len()
        invariant
            i <= subscribed@.len(),
            set == crate::state::text_set(handlers@),
            keep == (|e: String| set.contains(e@)),
            out@ == subscribed@.take(i as int).filter(keep),
        decreases subscribed@.len() - i,
    {
        proof {
            reveal(Seq::filter);
            assert(subscribed@.take(i + 1).drop_last() =~= subscribed@.take(i as int));
        }
        if listed(handlers, &subscribed[i]) {
            out.push(subscribed[i].clone());
        }
        i = i + 1;
    }
    assert(subscribed@.take(i as int) =~= subscribed@);
    out
}

/// What becomes of a message.
pub enum InboundAction<S> {
    Call(InboundCall),
    Reply(ReplyDelivery<S>),
    Broadcast(Broadcast),
    /// A part of a message: nothing is done.
    Partial,
}

/// Handles a message of the node `remote_id`, once it was decoded or not.
pub fn inbound_handler<S: Clone, R>(
    decoded: Result<Option<GsbMessage>, String>,
    remote_id: NodeId,
    reliable: bool,
    state: &mut State<S, R>,
) -> (r: Result<InboundAction<S>, IngressError>)
    requires
        old(state).wf(),
    ensures
        final(state).wf(),
        match decoded {
            Ok(Some(GsbMessage::CallReply(reply))) => final(state)@ == (crate::state::StateModel {
                requests: requests_after(old(state)@.requests, reply, remote_id@),
                ..old(state)@
            }),
            _ => final(state)@ == old(state)@,
        },
        match decoded {
            Ok(Some(GsbMessage::CallRequest(request))) => match r {
                Ok(InboundAction::Call(call)) => request_handled(
                    request,
                    remote_id@,
                    old(state)@.services,
                    reliable,
                    Ok(call),
                ),
                Ok(_) => false,
                Err(e) => request_handled(
                    request,
                    remote_id@,
                    old(state)@.services,
                    reliable,
                    Err(e),
                ),
            },
            Ok(Some(GsbMessage::CallReply(reply))) => match r {
                Ok(InboundAction::Reply(delivery)) => reply_handled(
                    old(state)@.requests,
                    reply,
                    remote_id@,
                    Ok(delivery),
                ),
                Ok(_) => false,
                Err(e) => reply_handled(old(state)@.requests, reply, remote_id@, Err(e)),
            },
            Ok(Some(GsbMessage::BroadcastRequest(request))) => match r {
                Ok(InboundAction::Broadcast(b)) => broadcast_handled(request, remote_id@, Ok(b)),
                Ok(_) => false,
                Err(e) => broadcast_handled(request, remote_id@, Err(e)),
            },
            Ok(Some(GsbMessage::Other)) => r == Err::<InboundAction<S>, IngressError>(
                IngressError::UnexpectedMessage,
            ),
            Ok(None) => r matches Ok(InboundAction::Partial),
            Err(e) => r == Err::<InboundAction<S>, IngressError>(IngressError::Decode(e)),
        },
{
    match decoded {
        Ok(Some(GsbMessage::CallRequest(request))) => match handle_request(
            request,
            remote_id,
            state,
            reliable,
        ) {
            Ok(call) => Ok(InboundAction::Call(call)),
            Err(e) => Err(e),
        },
        Ok(Some(GsbMessage::CallReply(reply))) => match handle_reply(reply, remote_id, state) {
            Ok(delivery) => Ok(InboundAction::Reply(delivery)),
            Err(e) => Err(e),
        },
        Ok(Some(GsbMessage::BroadcastRequest(request))) => match handle_broadcast(
            request,
            remote_id,
        ) {
            Ok(b) => Ok(InboundAction::Broadcast(b)),
            Err(e) => Err(e),
        },
        Ok(Some(GsbMessage::Other)) => Err(IngressError::UnexpectedMessage),
        Ok(None) => Ok(InboundAction::Partial),
        Err(e) => Err(IngressError::Decode(e)),
    }
}

/// What is done with a packet of another node.
#[derive(Debug, PartialEq, Eq)]
pub enum ForwardStep<R> {
    /// It goes to an open route.
    Deliver(R),
    /// A route is opened first, with the given framing.
    Open(Framing),
}

/// How messages are cut out of the packets of a route.
#[derive(Clone, Copy, Debug, PartialEq, Eq)]
pub enum Framing {
    /// Packets are pieces of a byte stream, in which a length goes before each
    /// message.
    Prefixed,
    /// Each packet is a message.
    Plain,
}

/// The framing of a transport.
pub open spec fn framing_of(reliable: bool) -> Framing {
    if reliable {
        Framing::Prefixed
    } else {
        Framing::Plain
    }
}

/// The framing of a transport.
pub fn forward_channel(reliable: bool) -> (r: Framing)
    ensures
        r == framing_of(reliable),
{
    if reliable {
        Framing::Prefixed
    } else {
        Framing::Plain
    }
}

/// The message cut out of a byte stream: a failure to cut is passed over.
pub fn prefixed_message<E>(cut: Result<Vec<u8>, E>) -> (r: Option<Vec<u8>>)
    ensures
        r == crate::stream::kept(cut),
{
    match cut {
        Ok(message) => Some(message),
        Err(_) => None,
    }
}

/// `step` is what is done with a packet of the route `key`.
pub open spec fn is_forward_step<R: Clone>(
    routes: Map<(Seq<u8>, bool), R>,
    key: (Seq<u8>, bool),
    step: ForwardStep<R>,
) -> bool {
    if routes.contains_key(key) {
        step matches ForwardStep::Deliver(tx) && cloned(routes[key], tx)
    } else {
        step == ForwardStep::<R>::Open(framing_of(key.1))
    }
}

/// Decides where a packet goes.
pub fn forward_handler<S, R: Clone>(state: &State<S, R>, key: &RouteKey) -> (r: ForwardStep<R>)
    requires
        state.wf(),
    ensures
        is_forward_step(state@.routes, key.key(), r),
{
    match state.route(key) {
        Some(tx) => ForwardStep::Deliver(tx),
        None => ForwardStep::Open(forward_channel(key.reliable)),
    }
}

/// Takes whether a packet reached its route: one that cannot be reached is
/// closed.
pub fn forward_sent<S, R>(state: &mut State<S, R>, key: &RouteKey, reached: bool)
    requires
        old(state).wf(),
    ensures
        final(state).wf(),
        final(state)@ == (if reached {
            old(state)@
        } else {
            crate::state::StateModel {
                routes: old(state)@.routes.remove(key.key()),
                ..old(state)@
            }
        }),
{
    if !reached {
        state.remove(key);
    }
}

/// A packet in a run of packets.
pub struct PacketModel<R> {
    /// The sending node and its transport.
    pub route: RouteKey,
    /// The handle that is kept if a route is opened for it.
    pub fresh: R,
    /// Whether it reached its route.
    pub reached: bool,
}

/// The open routes after one more packet: its route is opened if it was not,
/// and closed again if it was not reached.
pub open spec fn routes_step<R>(
    routes: Map<(Seq<u8>, bool), R>,
    packet: PacketModel<R>,
) -> Map<(Seq<u8>, bool), R> {
    let key = packet.route.key();
    let open = if routes.contains_key(key) {
        routes
    } else {
        routes.insert(key, packet.fresh)
    };
    if packet.reached {
        open
    } else {
        open.remove(key)
    }
}

/// The open routes after the packets `packets`, where none was open before.
pub open spec fn routes_after<R>(packets: Seq<PacketModel<R>>) -> Map<(Seq<u8>, bool), R>
    decreases packets.len(),
{
    if packets.len() == 0 {
        Map::empty()
    } else {
        routes_step(routes_after(packets.drop_last()), packets.last())
    }
}

/// `steps` is what is done with the packets `packets`, one after the other,
/// where no route was open before.
pub open spec fn is_packet_run<R: Clone>(
    packets: Seq<PacketModel<R>>,
    steps: Seq<ForwardStep<R>>,
) -> bool {
    &&& steps.len() == packets.len()
    &&& forall|i: int|
        0 <= i < packets.len() ==> is_forward_step(
            routes_after(packets.take(i)),
            packets[i].route.key(),
            #[trigger] steps[i],
        )
}

/// `p` is the last packet before packet `n` that came from the node and over
/// the transport of `route`.
pub open spec fn is_previous<R>(
    packets: Seq<PacketModel<R>>,
    route: RouteKey,
    p: int,
    n: int,
) -> bool {
    &&& 0 <= p < n
    &&& crate::state::same_route(packets[p].route, route)
    &&& forall|q: int|
        p < q < n ==> !crate::state::same_route((#[trigger] packets[q]).route, route)
}

/// There was a packet of `route` before packet `n`, and the last one reached
/// its route.
pub open spec fn is_live<R>(packets: Seq<PacketModel<R>>, route: RouteKey, n: int) -> bool {
    exists|p: int| #[trigger] is_previous(packets, route, p, n) && packets[p].reached
}

/// The stream of `route` that is open at packet `n` was opened for packet `j`,
/// and every packet of that route since then reached it.
pub open spec fn is_opened_by<R>(
    packets: Seq<PacketModel<R>>,
    route: RouteKey,
    j: int,
    n: int,
) -> bool {
    &&& 0 <= j < n
    &&& crate::state::same_route(packets[j].route, route)
    &&& !is_live(packets, route, j)
    &&& forall|q: int|
        j <= q < n && crate::state::same_route((#[trigger] packets[q]).route, route)
            ==> packets[q].reached
}

/// Packet `i` goes to the stream of its own node and transport: a new one if
/// there was none or the packet before it did not reach it, else the one that
/// was opened last.
pub open spec fn goes_to_own_route<R: Clone>(
    packets: Seq<PacketModel<R>>,
    steps: Seq<ForwardStep<R>>,
    i: int,
) -> bool {
    let route = packets[i].route;
    if is_live(packets, route, i) {
        exists|j: int| #[trigger]
            is_opened_by(packets, route, j, i) && steps[j] is Open && (
            steps[i] matches ForwardStep::Deliver(tx) && cloned(packets[j].fresh, tx))
    } else if route.reliable {
        steps[i] == ForwardStep::<R>::Open(Framing::Prefixed)
    } else {
        steps[i] == ForwardStep::<R>::Open(Framing::Plain)
    }
}

/// Once a route was opened, packets of that route go to it, and the steps for
/// packets of other routes stay the same.
pub proof fn law_open_route_is_used<R: Clone>(
    routes: Map<(Seq<u8>, bool), R>,
    key: (Seq<u8>, bool),
    tx: R,
    packet: (Seq<u8>, bool),
    step: ForwardStep<R>,
)
    requires
        is_forward_step(routes.insert(key, tx), packet, step),
    ensures
        packet == key ==> (step matches ForwardStep::Deliver(t) && cloned(tx, t)),
        packet != key ==> is_forward_step(routes, packet, step),
{
}

/// Once a route was closed, the next packet of that route opens it anew, and
/// the steps for packets of other routes stay the same.
pub proof fn law_closed_route_is_opened_anew<R: Clone>(
    routes: Map<(Seq<u8>, bool), R>,
    key: (Seq<u8>, bool),
    packet: (Seq<u8>, bool),
    step: ForwardStep<R>,
)
    requires
        is_forward_step(routes.remove(key), packet, step),
    ensures
        packet == key ==> step == ForwardStep::<R>::Open(framing_of(key.1)),
        packet != key ==> is_forward_step(routes, packet, step),
{
}

/// Only the node that was called gets through with a reply: a reply of another
/// node is refused, reaches nobody and leaves the requests as they are.
pub proof fn law_reply_of_stranger_is_refused<S: Clone>(
    requests: Map<Seq<char>, Request<S>>,
    reply: CallReply,
    stranger: Seq<u8>,
    r: Result<ReplyDelivery<S>, IngressError>,
)
    requires
        requests.contains_key(reply.request_id@),
        requests[reply.request_id@].remote_id@ != stranger,
        reply_handled(requests, reply, stranger, r),
    ensures
        r is Err,
        requests_after(requests, reply, stranger) == requests,
{
}

/// After the last reply to a request, every further reply to it is refused,
/// whoever sends it.
pub proof fn law_last_reply_is_last<S: Clone>(
    requests: Map<Seq<char>, Request<S>>,
    last: CallReply,
    remote_id: Seq<u8>,
    r: Result<ReplyDelivery<S>, IngressError>,
    next: CallReply,
    sender: Seq<u8>,
    s: Result<ReplyDelivery<S>, IngressError>,
)
    requires
        is_last(last),
        reply_handled(requests, last, remote_id, r),
        r is Ok,
        next.request_id@ == last.request_id@,
        reply_handled(requests_after(requests, last, remote_id), next, sender, s),
    ensures
        s == Err::<ReplyDelivery<S>, IngressError>(
            IngressError::InvalidReplyRequestId(next.request_id),
        ),
{
}

/// A reply that is not the last one leaves its request waiting.
pub proof fn law_partial_reply_keeps_waiting<S: Clone>(
    requests: Map<Seq<char>, Request<S>>,
    reply: CallReply,
    remote_id: Seq<u8>,
)
    requires
        !is_last(reply),
    ensures
        requests_after(requests, reply, remote_id) == requests,
{
}

/// The reply of the called node to a request that was just sent reaches the
/// caller of that request, whatever other requests wait.
pub proof fn law_reply_reaches_caller<S: Clone>(
    requests: Map<Seq<char>, Request<S>>,
    sent: Request<S>,
    reply: CallReply,
    r: Result<ReplyDelivery<S>, IngressError>,
)
    requires
        reply_handled(
            requests.insert(reply.request_id@, sent),
            reply,
            sent.remote_id@,
            r,
        ),
    ensures
        match r {
            Ok(ReplyDelivery::Send { tx, chunk }) => cloned(sent.tx, tx) && chunk == reply_chunk(
                is_last(reply),
                reply.data,
            ),
            Ok(ReplyDelivery::Encode { tx, full, reply: e }) => cloned(sent.tx, tx) && full
                == is_last(reply) && e == reply,
            Err(_) => false,
        },
        is_last(reply) ==> requests_after(
            requests.insert(reply.request_id@, sent),
            reply,
            sent.remote_id@,
        ) == requests.remove(reply.request_id@),
{
    assert(requests.insert(reply.request_id@, sent).remove(reply.request_id@) =~= requests.remove(
        reply.request_id@,
    ));
}

/// A reply touches no request but its own.
pub proof fn law_reply_touches_own_request_only<S: Clone>(
    requests: Map<Seq<char>, Request<S>>,
    reply: CallReply,
    remote_id: Seq<u8>,
    other: Seq<char>,
)
    requires
        other != reply.request_id@,
    ensures
        requests_after(requests, reply, remote_id).contains_key(other) == requests.contains_key(
            other,
        ),
        requests.contains_key(other) ==> requests_after(requests, reply, remote_id)[other]
            == requests[other],
{
}

/// A call is accepted if and only if the sender itself is named as the caller,
/// and so is a broadcast.
pub proof fn law_sender_must_be_caller(
    request: CallRequest,
    broadcast: BroadcastRequest,
    sender: Seq<u8>,
    services: Set<Seq<char>>,
    reliable: bool,
    r: Result<InboundCall, IngressError>,
    b: Result<Broadcast, IngressError>,
)
    requires
        request_handled(request, sender, services, reliable, r),
        broadcast_handled(broadcast, sender, b),
    ensures
        r is Ok <==> names(request.caller@, sender),
        b is Ok <==> names(broadcast.caller@, sender),
{
}

/// A node that writes its own identity is never refused as a caller.
pub proof fn law_written_identity_names_its_node(id: Seq<u8>)
    requires
        id.len() == 20,
    ensures
        names(crate::node_id::id_text(id), id),
{
    crate::node_id::law_id_text_reads_back(id);
}

/// A call under the `/net` address of an endpoint, the address under which
/// calls go out, reaches the public endpoint of that name at the node that it
/// is for. It carries the name and the data of the sender along.
pub proof fn law_call_reaches_public_endpoint(
    ids: Set<Seq<u8>>,
    from: Seq<u8>,
    to: Seq<u8>,
    udp: bool,
    endpoint: Seq<char>,
    request: CallRequest,
    reliable: bool,
    r: Result<InboundCall, IngressError>,
)
    requires
        forall|i: Seq<u8>| ids.contains(i) ==> i.len() == 20,
        ids.contains(to),
        from.len() == 20,
        request.caller@ == crate::node_id::id_text(from),
        request.address@ == crate::egress::net_address(udp, to, endpoint),
        request_handled(request, from, crate::state::services_of(ids), reliable, r),
    ensures
        match r {
            Ok(call) => call.caller_id@ == from && call.reliable == reliable && match call.source {
                CallSource::Local { address, caller, data } => address@
                    == crate::address::PUBLIC_PREFIX@ + "/"@ + endpoint && caller == request.caller
                    && data == request.data,
                CallSource::Reject(_) => false,
            },
            Err(_) => false,
        },
{
    law_written_identity_names_its_node(from);
    let want = crate::address::PUBLIC_PREFIX@ + "/"@ + endpoint;
    crate::egress::law_net_address_is_public(ids, to, udp, endpoint, want);
    if let Ok(call) = r {
        if let CallSource::Local { address, .. } = call.source {
            crate::egress::law_net_address_is_public(ids, to, udp, endpoint, address@);
        }
    }
}

/// Which routes are open after the first `n` packets, and by which handles.
proof fn lemma_routes_after<R>(packets: Seq<PacketModel<R>>, route: RouteKey, n: int)
    requires
        0 <= n <= packets.len(),
    ensures
        routes_after(packets.take(n)).contains_key(route.key()) <==> is_live(packets, route, n),
        is_live(packets, route, n) ==> exists|j: int| #[trigger]
            is_opened_by(packets, route, j, n) && routes_after(packets.take(n))[route.key()]
                == packets[j].fresh,
    decreases n,
{
    if n > 0 {
        let m = n - 1;
        let last = packets[m];
        let key = route.key();
        let before = routes_after(packets.take(m));
        lemma_routes_after(packets, route, m);
        crate::state::law_route_is_node_and_transport(last.route, route);
        assert(packets.take(n).drop_last() =~= packets.take(m));
        assert(packets.take(n).last() == last);
        assert(routes_after(packets.take(n)) == routes_step(before, last));
        if !crate::state::same_route(last.route, route) {
            assert(is_live(packets, route, n) == is_live(packets, route, m)) by {
                if is_live(packets, route, m) {
                    let p = choose|p: int| #[trigger]
                        is_previous(packets, route, p, m) && packets[p].reached;
                    assert(is_previous(packets, route, p, n));
                }
                if is_live(packets, route, n) {
                    let p = choose|p: int| #[trigger]
                        is_previous(packets, route, p, n) && packets[p].reached;
                    assert(is_previous(packets, route, p, m));
                }
            }
            if is_live(packets, route, m) {
                let j = choose|j: int| #[trigger]
                    is_opened_by(packets, route, j, m) && before[key] == packets[j].fresh;
                assert(is_opened_by(packets, route, j, n));
            }
        } else {
            assert(is_previous(packets, route, m, n));
            assert forall|p: int| #[trigger] is_previous(packets, route, p, n) implies p == m by {
                assert(crate::state::same_route(packets[m].route, route));
            }
            if last.reached {
                if before.contains_key(key) {
                    let j = choose|j: int| #[trigger]
                        is_opened_by(packets, route, j, m) && before[key] == packets[j].fresh;
                    assert(is_opened_by(packets, route, j, n));
                } else {
                    assert(is_opened_by(packets, route, m, n));
                }
            }
        }
    } else {
        assert(packets.take(0) =~= Seq::empty());
    }
}

/// In a run of packets of any length and of any nodes, each packet goes to the
/// stream of its own node and transport. A stream is opened for the first
/// packet of a route and for each one that comes after the route was closed,
/// and for no other.
pub proof fn law_packets_go_to_own_route<R: Clone>(
    packets: Seq<PacketModel<R>>,
    steps: Seq<ForwardStep<R>>,
)
    requires
        is_packet_run(packets, steps),
    ensures
        forall|i: int| 0 <= i < packets.len() ==> #[trigger] goes_to_own_route(packets, steps, i),
{
    assert forall|i: int| 0 <= i < packets.len() implies #[trigger] goes_to_own_route(
        packets,
        steps,
        i,
    ) by {
        let route = packets[i].route;
        let routes = routes_after(packets.take(i));
        lemma_routes_after(packets, route, i);
        assert(is_forward_step(routes, route.key(), steps[i]));
        if is_live(packets, route, i) {
            let j = choose|j: int| #[trigger]
                is_opened_by(packets, route, j, i) && routes[route.key()] == packets[j].fresh;
            lemma_routes_after(packets, route, j);
            crate::state::law_route_is_node_and_transport(packets[j].route, route);
            assert(is_forward_step(routes_after(packets.take(j)), packets[j].route.key(), steps[j]));
        }
    }
}

/// Where every packet reaches its route, a run of packets opens one stream for
/// each node and transport, at the first packet of it, and all further packets
/// of that node and transport go to that stream.
pub proof fn law_one_stream_per_route<R: Clone>(
    packets: Seq<PacketModel<R>>,
    steps: Seq<ForwardStep<R>>,
    i: int,
    first: int,
)
    requires
        is_packet_run(packets, steps),
        forall|k: int| 0 <= k < packets.len() ==> (#[trigger] packets[k]).reached,
        0 <= first <= i < packets.len(),
        crate::state::same_route(packets[first].route, packets[i].route),
        forall|k: int|
            0 <= k < first ==> !crate::state::same_route(
                (#[trigger] packets[k]).route,
                packets[i].route,
            ),
    ensures
        steps[i] is Open <==> i == first,
        i == first && packets[i].route.reliable ==> steps[i] == ForwardStep::<R>::Open(
            Framing::Prefixed,
        ),
        i == first && !packets[i].route.reliable ==> steps[i] == ForwardStep::<R>::Open(
            Framing::Plain,
        ),
        i != first ==> (steps[i] matches ForwardStep::Deliver(tx) && cloned(
            packets[first].fresh,
            tx,
        )),
{
    let route = packets[i].route;
    law_packets_go_to_own_route(packets, steps);
    assert(goes_to_own_route(packets, steps, i));
    lemma_live_after(packets, route, first, i);
    if i != first {
        let j = choose|j: int| #[trigger]
            is_opened_by(packets, route, j, i) && steps[j] is Open && (
            steps[i] matches ForwardStep::Deliver(tx) && cloned(packets[j].fresh, tx));
        lemma_live_after(packets, route, first, j);
    }
}

/// Where every packet reaches its route, a route is live from its first packet
/// on.
proof fn lemma_live_after<R>(packets: Seq<PacketModel<R>>, route: RouteKey, first: int, n: int)
    requires
        forall|k: int| 0 <= k < packets.len() ==> (#[trigger] packets[k]).reached,
        0 <= first <= n <= packets.len(),
        first < packets.len(),
        crate::state::same_route(packets[first].route, route),
        forall|k: int|
            0 <= k < first ==> !crate::state::same_route((#[trigger] packets[k]).route, route),
    ensures
        is_live(packets, route, n) <==> first < n,
    decreases n,
{
    if n > first {
        let m = n - 1;
        if crate::state::same_route(packets[m].route, route) {
            assert(is_previous(packets, route, m, n));
        } else {
            lemma_live_after(packets, route, first, m);
            let p = choose|p: int| #[trigger]
                is_previous(packets, route, p, m) && packets[p].reached;
            assert(is_previous(packets, route, p, n));
        }
    }
}

} // verus!
