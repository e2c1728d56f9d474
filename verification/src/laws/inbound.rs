//! Laws on packets and messages of other nodes.

use vstd::prelude::*;

use crate::egress::{NetForward, OutboundRequest};
use crate::ingress::{
    Broadcast, CallSource, ForwardStep, Framing, InboundAction, InboundCall, IngressError,
    ReplyDelivery,
};
use crate::message::{
    BroadcastRequest, BusError, CallReply, CallRequest, GsbMessage, ResponseChunk,
};
use crate::node_id::NodeId;
use crate::service::NetworkPlan;
use crate::state::{RouteKey, State};

verus! {

/// A call is accepted if and only if the sender itself is named as the caller,
/// and refused by that name if not. The replies to an accepted call go to the
/// sender, under the request of the call and on the transport that it came in
/// on, whatever answers it.
pub proof fn law_call_is_answered_where_it_came_from<S, R>(
    request: CallRequest,
    sender: NodeId,
    state: State<S, R>,
    reliable: bool,
    r: Result<InboundCall, IngressError>,
)
    requires
        call_ensures(
            crate::ingress::handle_request::<S, R>,
            (request, sender, &state, reliable),
            r,
        ),
    ensures
        r is Ok <==> crate::node_id::id_of_text(request.caller@) == Ok::<Seq<u8>, Seq<char>>(
            sender.bytes@,
        ),
        r matches Ok(call) ==> call.reliable == reliable,
        r matches Ok(call) ==> call.caller_id.bytes@ == sender.bytes@,
        r matches Ok(call) ==> call.replies.request_id == request.request_id && !call.replies.eos,
        r matches Err(e) ==> e == IngressError::InvalidCaller(request.caller),
{
}

/// Two calls that differ in their transport alone are answered alike, each on
/// its own transport.
pub proof fn law_transport_of_call_is_kept<S, R>(
    request: CallRequest,
    sender: NodeId,
    state: State<S, R>,
    a: Result<InboundCall, IngressError>,
    b: Result<InboundCall, IngressError>,
)
    requires
        call_ensures(crate::ingress::handle_request::<S, R>, (request, sender, &state, true), a),
        call_ensures(crate::ingress::handle_request::<S, R>, (request, sender, &state, false), b),
    ensures
        a is Ok <==> b is Ok,
        a matches Ok(call) ==> call.reliable,
        b matches Ok(call) ==> !call.reliable,
{
}

/// An accepted call goes to the endpoint behind a served address that its own
/// address starts with, in the name and with the data of the sender. Where its
/// address starts with none, it is answered as one to an unknown address.
pub proof fn law_call_goes_to_public_endpoint<S, R>(
    request: CallRequest,
    sender: NodeId,
    state: State<S, R>,
    reliable: bool,
    r: Result<InboundCall, IngressError>,
)
    requires
        call_ensures(
            crate::ingress::handle_request::<S, R>,
            (request, sender, &state, reliable),
            r,
        ),
    ensures
        r matches Ok(call) ==> match call.source {
            CallSource::Local { address, caller, data } => {
                &&& exists|s: Seq<char>, rest: Seq<char>| #[trigger]
                    state@.services.contains(s) && request.address@ == #[trigger] (s + rest)
                        && address@ == "/public"@ + rest
                &&& caller == request.caller
                &&& data == request.data
            },
            CallSource::Reject(e) => {
                &&& e matches BusError::GsbBadRequest(m)
                &&& m@ == "unknown address: "@ + request.address@
                &&& forall|s: Seq<char>, rest: Seq<char>| #[trigger]
                    state@.services.contains(s) ==> request.address@ != #[trigger] (s + rest)
            },
        },
{
    if let Ok(call) = r {
        match call.source {
            CallSource::Local { address, .. } => {
                let s = choose|s: Seq<char>| #[trigger]
                    state@.services.contains(s) && s.is_prefix_of(request.address@) && address@
                        == "/public"@ + request.address@.skip(s.len() as int);
                let rest = request.address@.skip(s.len() as int);
                assert(request.address@ =~= s + rest);
            },
            CallSource::Reject(_) => {
                assert forall|s: Seq<char>, rest: Seq<char>| #[trigger]
                    state@.services.contains(s) implies request.address@ != #[trigger] (s
                    + rest) by {
                    if request.address@ == s + rest {
                        assert(s =~= request.address@.subrange(0, s.len() as int));
                        assert(s.is_prefix_of(request.address@));
                    }
                }
            },
        }
    }
}

/// At a started service, a call under the `/net` address of an own identity, in
/// the written name of its sender, reaches the public endpoint of what follows
/// the identity, and is answered on the transport that it came in on.
pub proof fn law_call_to_own_identity_is_served<S, R>(
    default_id: NodeId,
    ids: Vec<NodeId>,
    plan: NetworkPlan<S, R>,
    k: int,
    prefix: Seq<char>,
    rest: Seq<char>,
    request: CallRequest,
    sender: NodeId,
    reliable: bool,
    r: Result<InboundCall, IngressError>,
)
    requires
        call_ensures(crate::service::start_network::<S, R>, (default_id, ids), plan),
        0 <= k < ids@.len(),
        prefix == ""@ || prefix == "/udp"@,
        request.address@ == prefix + "/net/"@ + crate::node_id::id_text(ids@[k].bytes@) + rest,
        request.caller@ == crate::node_id::id_text(sender.bytes@),
        call_ensures(
            crate::ingress::handle_request::<S, R>,
            (request, sender, &plan.state, reliable),
            r,
        ),
    ensures
        match r {
            Ok(call) => call.reliable == reliable && call.caller_id.bytes@ == sender.bytes@
                && match call.source {
                CallSource::Local { address, caller, data } => address@ == "/public"@ + rest
                    && caller == request.caller && data == request.data,
                CallSource::Reject(_) => false,
            },
            Err(_) => false,
        },
{
    crate::node_id::law_id_text_reads_back(sender@);
    crate::laws::outbound::lemma_own_address(ids@, k, prefix, rest, request.address@);
    if let Ok(call) = r {
        if let CallSource::Local { address, .. } = call.source {
            crate::laws::outbound::lemma_own_address_only(
                ids@,
                k,
                prefix,
                rest,
                request.address@,
                address@,
            );
        }
    }
}

/// A reply of the called node to a waiting request is delivered, whatever its
/// code. It goes to the caller raw if and only if its code is 0, and with any
/// other code it is encoded whole. It is the last one if and only if its type is
/// 0, and only then the request is forgotten.
pub proof fn law_reply_is_delivered<S: Clone, R>(
    reply: CallReply,
    sender: NodeId,
    state: &mut State<S, R>,
    r: Result<ReplyDelivery<S>, IngressError>,
)
    requires
        call_ensures(crate::ingress::handle_reply::<S, R>, (reply, sender, state), r),
        old(state)@.requests.contains_key(reply.request_id@),
        old(state)@.requests[reply.request_id@].remote_id.bytes@ == sender.bytes@,
    ensures
        r is Ok,
        r->Ok_0 is Send <==> reply.code == 0,
        r->Ok_0 is Encode <==> reply.code != 0,
        r matches Ok(ReplyDelivery::Send { tx, chunk }) ==> {
            &&& cloned(old(state)@.requests[reply.request_id@].tx, tx)
            &&& reply.reply_type == 0 ==> chunk == ResponseChunk::Full(reply.data)
            &&& reply.reply_type != 0 ==> chunk == ResponseChunk::Part(reply.data)
        },
        r matches Ok(ReplyDelivery::Encode { tx, full, reply: sent }) ==> {
            &&& cloned(old(state)@.requests[reply.request_id@].tx, tx)
            &&& full <==> reply.reply_type == 0
            &&& sent == reply
        },
        final(state)@.requests.contains_key(reply.request_id@) <==> reply.reply_type != 0,
        reply.reply_type != 0 ==> final(state)@.requests == old(state)@.requests,
{
}

/// A reply to no waiting request, or of another node than the called one, is
/// refused by the name of the request. It changes nothing.
pub proof fn law_stray_reply_is_refused<S: Clone, R>(
    reply: CallReply,
    sender: NodeId,
    state: &mut State<S, R>,
    r: Result<ReplyDelivery<S>, IngressError>,
)
    requires
        call_ensures(crate::ingress::handle_reply::<S, R>, (reply, sender, state), r),
    ensures
        !old(state)@.requests.contains_key(reply.request_id@) ==> r == Err::<
            ReplyDelivery<S>,
            IngressError,
        >(IngressError::InvalidReplyRequestId(reply.request_id)),
        old(state)@.requests.contains_key(reply.request_id@) && old(
            state,
        )@.requests[reply.request_id@].remote_id.bytes@ != sender.bytes@ ==> r == Err::<
            ReplyDelivery<S>,
            IngressError,
        >(IngressError::InvalidReplyCaller(reply.request_id)),
        r is Err ==> final(state)@.requests == old(state)@.requests,
{
}

/// A reply touches no request but its own, no route, no identity and no served
/// address.
pub proof fn law_reply_touches_its_request_only<S: Clone, R>(
    reply: CallReply,
    sender: NodeId,
    state: &mut State<S, R>,
    r: Result<ReplyDelivery<S>, IngressError>,
)
    requires
        call_ensures(crate::ingress::handle_reply::<S, R>, (reply, sender, state), r),
    ensures
        forall|other: Seq<char>|
            other != reply.request_id@ ==> {
                &&& #[trigger] final(state)@.requests.contains_key(other) == old(
                    state,
                )@.requests.contains_key(other)
                &&& old(state)@.requests.contains_key(other) ==> final(state)@.requests[other]
                    == old(state)@.requests[other]
            },
        final(state)@.routes == old(state)@.routes,
        final(state)@.ids == old(state)@.ids,
        final(state)@.services == old(state)@.services,
{
}

/// A request that was sent to a node is answered by that node alone: its first
/// reply under the name of the request goes to the caller, and that of any
/// other node is refused.
pub proof fn law_sent_request_is_answered_by_its_node<S: Clone, R>(
    before: &mut State<S, R>,
    request: OutboundRequest,
    remote_id: NodeId,
    message: Vec<u8>,
    tx: S,
    sent: NetForward,
    after: &mut State<S, R>,
    reply: CallReply,
    sender: NodeId,
    r: Result<ReplyDelivery<S>, IngressError>,
)
    requires
        call_ensures(
            crate::egress::forward_bus_to_net::<S, R>,
            (before, request, remote_id, Ok::<Vec<u8>, String>(message), tx),
            sent,
        ),
        *old(after) == *final(before),
        reply.request_id@ == request.request_id@,
        call_ensures(crate::ingress::handle_reply::<S, R>, (reply, sender, after), r),
    ensures
        r is Ok <==> sender.bytes@ == remote_id.bytes@,
        r matches Ok(ReplyDelivery::Send { tx: t, .. }) ==> cloned(tx, t) && reply.code == 0,
        r matches Ok(ReplyDelivery::Encode { tx: t, .. }) ==> cloned(tx, t) && reply.code != 0,
{
}

/// An encoded failure goes to the caller as a full chunk if it is the last
/// reply and as a part if not. One that cannot be encoded is refused.
pub proof fn law_encoded_failure_is_delivered<E>(
    full: bool,
    encoded: Result<Vec<u8>, E>,
    r: Result<ResponseChunk, IngressError>,
)
    requires
        call_ensures(crate::ingress::encoded_delivery::<E>, (full, encoded), r),
    ensures
        match encoded {
            Ok(data) => if full {
                r == Ok::<ResponseChunk, IngressError>(ResponseChunk::Full(data))
            } else {
                r == Ok::<ResponseChunk, IngressError>(ResponseChunk::Part(data))
            },
            Err(_) => r == Err::<ResponseChunk, IngressError>(IngressError::EncodeReply),
        },
{
}

/// A broadcast is taken if and only if the sender itself is named as its
/// caller, and handed on in the written name of the sender, with its topic and
/// data as they are.
pub proof fn law_broadcast_is_of_its_sender(
    request: BroadcastRequest,
    sender: NodeId,
    r: Result<Broadcast, IngressError>,
)
    requires
        call_ensures(crate::ingress::handle_broadcast, (request, sender), r),
    ensures
        r is Ok <==> crate::node_id::id_of_text(request.caller@) == Ok::<Seq<u8>, Seq<char>>(
            sender.bytes@,
        ),
        r matches Ok(b) ==> b.caller@ == crate::node_id::id_text(sender.bytes@) && b.topic
            == request.topic && b.data == request.data,
        r matches Err(e) ==> e == IngressError::InvalidBroadcastCaller(request.caller),
{
}

/// One more endpoint at the end of the subscribed ones is handed the broadcast,
/// after all others, if and only if it has a handler. Nothing is handed out
/// where nobody is subscribed.
pub proof fn law_broadcast_in_order_of_subscription(
    subscribed: Vec<String>,
    more: Vec<String>,
    handlers: Vec<String>,
    e: String,
    r: Vec<String>,
    q: Vec<String>,
)
    requires
        call_ensures(crate::ingress::broadcast_endpoints, (&subscribed, &handlers), r),
        call_ensures(crate::ingress::broadcast_endpoints, (&more, &handlers), q),
        more@ == subscribed@.push(e),
    ensures
        (exists|k: int| 0 <= k < handlers@.len() && (#[trigger] handlers@[k])@ == e@) ==> q@
            == r@.push(e),
        (forall|k: int| 0 <= k < handlers@.len() ==> (#[trigger] handlers@[k])@ != e@) ==> q@
            == r@,
        subscribed@.len() == 0 ==> r@.len() == 0,
{
    reveal(Seq::filter);
    assert(more@.drop_last() =~= subscribed@);
    let set = crate::state::text_set(handlers@);
    if exists|k: int| 0 <= k < handlers@.len() && (#[trigger] handlers@[k])@ == e@ {
        assert(set.contains(e@));
    }
    if forall|k: int| 0 <= k < handlers@.len() ==> (#[trigger] handlers@[k])@ != e@ {
        assert(!set.contains(e@));
    }
}

/// Messages are told apart by their kind. A call is accepted in the name of its
/// sender alone and keeps its transport, a reply of the called node is delivered
/// by its code, and a broadcast is taken in the name of its sender alone. A part
/// of a message is left, and anything else is refused.
pub proof fn law_messages_are_told_apart<S: Clone, R>(
    decoded: Result<Option<GsbMessage>, String>,
    sender: NodeId,
    reliable: bool,
    state: &mut State<S, R>,
    r: Result<InboundAction<S>, IngressError>,
)
    requires
        call_ensures(
            crate::ingress::inbound_handler::<S, R>,
            (decoded, sender, reliable, state),
            r,
        ),
    ensures
        decoded matches Err(e) ==> r == Err::<InboundAction<S>, IngressError>(
            IngressError::Decode(e),
        ),
        decoded matches Ok(None) ==> (r matches Ok(InboundAction::Partial)),
        decoded matches Ok(Some(GsbMessage::Other)) ==> r == Err::<InboundAction<S>, IngressError>(
            IngressError::UnexpectedMessage,
        ),
        decoded matches Ok(Some(GsbMessage::CallRequest(q))) ==> {
            let named = crate::node_id::id_of_text(q.caller@) == Ok::<Seq<u8>, Seq<char>>(
                sender.bytes@,
            );
            match r {
                Ok(InboundAction::Call(call)) => named && call.reliable == reliable
                    && call.caller_id.bytes@ == sender.bytes@ && call.replies.request_id
                    == q.request_id,
                Ok(_) => false,
                Err(e) => !named && e == IngressError::InvalidCaller(q.caller),
            }
        },
        decoded matches Ok(Some(GsbMessage::CallReply(q))) ==> {
            let waits = old(state)@.requests.contains_key(q.request_id@);
            let called = waits && old(state)@.requests[q.request_id@].remote_id.bytes@
                == sender.bytes@;
            match r {
                Ok(InboundAction::Reply(ReplyDelivery::Send { chunk, .. })) => called && q.code == 0
                    && (chunk is Full <==> q.reply_type == 0),
                Ok(InboundAction::Reply(ReplyDelivery::Encode { full, reply, .. })) => called
                    && q.code != 0 && reply == q && (full <==> q.reply_type == 0),
                Ok(_) => false,
                Err(e) => !called && e == (if waits {
                    IngressError::InvalidReplyCaller(q.request_id)
                } else {
                    IngressError::InvalidReplyRequestId(q.request_id)
                }),
            }
        },
        decoded matches Ok(Some(GsbMessage::BroadcastRequest(q))) ==> {
            let named = crate::node_id::id_of_text(q.caller@) == Ok::<Seq<u8>, Seq<char>>(
                sender.bytes@,
            );
            match r {
                Ok(InboundAction::Broadcast(b)) => named && b.caller@ == crate::node_id::id_text(
                    sender.bytes@,
                ) && b.topic == q.topic && b.data == q.data,
                Ok(_) => false,
                Err(e) => !named && e == IngressError::InvalidBroadcastCaller(q.caller),
            }
        },
        !(decoded matches Ok(Some(GsbMessage::CallReply(_)))) ==> final(state)@ == old(state)@,
        final(state)@.routes == old(state)@.routes,
        final(state)@.ids == old(state)@.ids,
        final(state)@.services == old(state)@.services,
{
}

/// A refusal in words.
pub proof fn law_ingress_refusal_in_words(e: IngressError, r: String)
    requires
        call_ensures(IngressError::message, (&e,), r),
    ensures
        match e {
            IngressError::InvalidCaller(c) => r@ == "invalid caller id: "@ + c@,
            IngressError::InvalidBroadcastCaller(c) => r@ == "invalid broadcast caller id: "@ + c@,
            IngressError::InvalidReplyCaller(id) => r@ == "invalid caller for request id: "@ + id@,
            IngressError::InvalidReplyRequestId(id) => r@ == "invalid reply request id: "@ + id@,
            IngressError::EncodeReply => r@ == "unable to encode reply"@,
            IngressError::Decode(reason) => r@ == "received message error: "@ + reason@,
            IngressError::UnexpectedMessage => r@ == "unexpected message type"@,
        },
{
}

/// Once a route was opened, packets with all bytes of that node and its
/// transport go to it. A packet of another node, or over the other transport,
/// is treated as if the route had not been opened.
pub proof fn law_opened_route_takes_its_node_only<S, R: Clone>(
    state: &mut State<S, R>,
    key: RouteKey,
    tx: R,
    opened: (),
    packet: RouteKey,
    before: ForwardStep<R>,
    after: ForwardStep<R>,
)
    requires
        call_ensures(State::<S, R>::open_route, (state, key, tx), opened),
        call_ensures(
            crate::ingress::forward_handler::<S, R>,
            (&*old(state), &packet),
            before,
        ),
        call_ensures(
            crate::ingress::forward_handler::<S, R>,
            (&*final(state), &packet),
            after,
        ),
    ensures
        packet.node_id.bytes@ == key.node_id.bytes@ && packet.reliable == key.reliable ==> (
        after matches ForwardStep::Deliver(t) && cloned(tx, t)),
        packet.node_id.bytes@ != key.node_id.bytes@ || packet.reliable != key.reliable ==> (
        after is Open <==> before is Open),
        after is Open ==> after == (if packet.reliable {
            ForwardStep::<R>::Open(Framing::Prefixed)
        } else {
            ForwardStep::<R>::Open(Framing::Plain)
        }),
        final(state)@.requests == old(state)@.requests,
        final(state)@.ids == old(state)@.ids,
        final(state)@.services == old(state)@.services,
{
    lemma_route_bytes(packet, key);
}

/// A route that could not be reached is closed: its next packet opens it anew.
/// One that was reached stays, and so do all routes of other nodes and over the
/// other transport.
pub proof fn law_unreached_route_is_closed<S, R: Clone>(
    state: &mut State<S, R>,
    key: RouteKey,
    reached: bool,
    done: (),
    packet: RouteKey,
    before: ForwardStep<R>,
    after: ForwardStep<R>,
)
    requires
        call_ensures(crate::ingress::forward_sent::<S, R>, (state, &key, reached), done),
        call_ensures(
            crate::ingress::forward_handler::<S, R>,
            (&*old(state), &packet),
            before,
        ),
        call_ensures(
            crate::ingress::forward_handler::<S, R>,
            (&*final(state), &packet),
            after,
        ),
    ensures
        !reached && packet.node_id.bytes@ == key.node_id.bytes@ && packet.reliable == key.reliable
            ==> after is Open,
        reached || packet.node_id.bytes@ != key.node_id.bytes@ || packet.reliable != key.reliable
            ==> (after is Open <==> before is Open),
        final(state)@.requests == old(state)@.requests,
        final(state)@.ids == old(state)@.ids,
        final(state)@.services == old(state)@.services,
{
    lemma_route_bytes(packet, key);
}

/// A route is its node's bytes and its transport.
proof fn lemma_route_bytes(a: RouteKey, b: RouteKey)
    ensures
        crate::state::same_route(a, b) <==> a.node_id.bytes@ == b.node_id.bytes@ && a.reliable
            == b.reliable,
        crate::state::same_route(a, b) <==> crate::table::Key::key(&a) == crate::table::Key::key(
            &b,
        ),
{
    crate::state::law_route_is_node_and_transport(a, b);
    if crate::state::same_route(a, b) {
        assert(a.node_id.bytes@ =~= b.node_id.bytes@);
    }
    if a.node_id.bytes@ == b.node_id.bytes@ {
        assert forall|i: int| 0 <= i < 20 implies a.node_id.bytes[i]
            == #[trigger] b.node_id.bytes[i] by {
            assert(a.node_id.bytes@[i] == b.node_id.bytes@[i]);
        }
    }
}

/// The reliable transport carries a byte stream, the other one messages.
pub proof fn law_framing_of_transport(reliable: bool, r: Framing)
    requires
        call_ensures(crate::ingress::forward_channel, (reliable,), r),
    ensures
        r == Framing::Prefixed <==> reliable,
        r == Framing::Plain <==> !reliable,
{
}

/// A request that waits is found under its name, with all that it was put there
/// with, and is not found once it was taken away. Requests of other names stay.
pub proof fn law_waiting_requests<S, R>(
    state: &mut State<S, R>,
    id: String,
    request: crate::state::Request<S>,
    added: (),
    found: Option<&crate::state::Request<S>>,
    later: &mut State<S, R>,
    taken: Option<crate::state::Request<S>>,
    gone: Option<&crate::state::Request<S>>,
    other: String,
    first: Option<&crate::state::Request<S>>,
    last: Option<&crate::state::Request<S>>,
)
    requires
        call_ensures(State::<S, R>::add_request, (state, id, request), added),
        call_ensures(State::<S, R>::request, (&*final(state), &id), found),
        *old(later) == *final(state),
        call_ensures(State::<S, R>::remove_request, (later, &id), taken),
        call_ensures(State::<S, R>::request, (&*final(later), &id), gone),
        other@ != id@,
        call_ensures(State::<S, R>::request, (&*old(state), &other), first),
        call_ensures(State::<S, R>::request, (&*final(later), &other), last),
    ensures
        found matches Some(q) && *q == request,
        taken == Some(request),
        gone is None,
        first == last,
{
}

/// A state knows the identities and the served addresses that it was made with,
/// and no others. What follows a served address is found behind `/public`.
pub proof fn law_state_as_it_was_made<S, R>(
    ids: Vec<NodeId>,
    services: Vec<String>,
    state: State<S, R>,
    id: NodeId,
    own: bool,
    addr: &str,
    local: Option<String>,
    k: int,
    rest: Seq<char>,
)
    requires
        call_ensures(State::<S, R>::new, (ids, services), state),
        call_ensures(State::<S, R>::is_own, (&state, &id), own),
        call_ensures(State::<S, R>::local_address, (&state, addr), local),
    ensures
        own <==> exists|i: int| 0 <= i < ids@.len() && (#[trigger] ids@[i]).bytes@ == id.bytes@,
        local matches Some(a) ==> exists|i: int|
            0 <= i < services@.len() && (#[trigger] services@[i])@.len() <= addr@.len() && addr@
                == services@[i]@ + addr@.skip(services@[i]@.len() as int) && a@ == "/public"@
                + addr@.skip(services@[i]@.len() as int),
        local is None && 0 <= k < services@.len() ==> addr@ != services@[k]@ + rest,
{
    if own {
        let i = choose|i: int| 0 <= i < ids@.len() && (#[trigger] ids@[i])@ == id@;
        assert(ids@[i].bytes@ == id.bytes@);
    }
    if exists|i: int| 0 <= i < ids@.len() && (#[trigger] ids@[i]).bytes@ == id.bytes@ {
        let i = choose|i: int| 0 <= i < ids@.len() && (#[trigger] ids@[i]).bytes@ == id.bytes@;
        assert(ids@[i]@ == id@);
    }
    if let Some(a) = local {
        let s = choose|s: Seq<char>| #[trigger]
            state@.services.contains(s) && s.is_prefix_of(addr@) && a@ == "/public"@ + addr@.skip(
                s.len() as int,
            );
        let i = choose|i: int| 0 <= i < services@.len() && (#[trigger] services@[i])@ == s;
        assert(addr@ =~= services@[i]@ + addr@.skip(services@[i]@.len() as int));
    } else if 0 <= k < services@.len() && addr@ == services@[k]@ + rest {
        let s = services@[k]@;
        assert(state@.services.contains(s));
        assert(s =~= addr@.subrange(0, s.len() as int));
        assert(s.is_prefix_of(addr@));
    }
}

} // verus!
