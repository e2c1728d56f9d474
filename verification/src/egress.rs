//! Outbound calls: from the local bus to the network, or back to the local bus
//! where the destination is an own identity.

use rand::Rng;
use vstd::prelude::*;

use crate::address::{parse_from_to_addr, parse_net_to_addr, AddressError};
use crate::message::{handler_reply_bad_request, handler_reply_service_err, BusError, ErrorReply};
use crate::node_id::{node_id_text, NodeId};
use crate::state::{Request, State};
use crate::text;

verus! {

/// Largest request number: fifty-three bits.
pub const MAX_ID: u64 = 0x001f_ffff_ffff_ffff;

/// How the address of a call is read.
#[derive(Clone, Copy)]
pub enum Resolver {
    /// As a `/net` address, called by the default identity.
    Net { default_id: NodeId },
    /// As a `/from` address, called by the own identity that it names.
    From,
}

/// A call with its address read.
#[derive(Debug)]
pub struct Resolved {
    pub caller_id: NodeId,
    pub remote_id: NodeId,
    pub address: String,
}

/// Why the address of a call is refused.
#[derive(Debug)]
pub enum ResolveError {
    Address(AddressError),
    /// The caller is no own identity.
    UnknownIdentity(NodeId),
}

/// Model of `ResolveError`.
pub enum ResolveFailure {
    Address(crate::address::AddressFailure),
    UnknownIdentity(Seq<u8>),
}

impl View for ResolveError {
    type V = ResolveFailure;

    open spec fn view(&self) -> ResolveFailure {
        match self {
            ResolveError::Address(e) => ResolveFailure::Address(e@),
            ResolveError::UnknownIdentity(id) => ResolveFailure::UnknownIdentity(id@),
        }
    }
}

impl ResolveFailure {
    /// The failure in words.
    pub open spec fn message(self) -> Seq<char> {
        match self {
            ResolveFailure::Address(e) => "invalid address: "@ + e.message(),
            ResolveFailure::UnknownIdentity(id) => "unknown identity: "@ + crate::node_id::id_text(
                id,
            ),
        }
    }
}

impl ResolveError {
    /// The failure in words.
    pub fn message(&self) -> (r: String)
        ensures
            r@ == self@.message(),
    {
        match self {
            ResolveError::Address(e) => text::join2("invalid address: ", e.message().as_str()),
            ResolveError::UnknownIdentity(id) => text::join2(
                "unknown identity: ",
                node_id_text(id).as_str(),
            ),
        }
    }
}

/// The resolver can read `addr`: it begins with `/`, or the cut that is made
/// in it is in bounds all the same.
pub open spec fn readable(resolver: Resolver, addr: Seq<char>) -> bool {
    crate::address::rooted(addr) || match resolver {
        Resolver::Net { .. } => crate::address::net_to_in_bounds(addr),
        Resolver::From => crate::address::from_to_in_bounds(addr),
    }
}

/// Caller, destination and address of a call to `addr`.
pub open spec fn resolved_of(resolver: Resolver, ids: Set<Seq<u8>>, addr: Seq<char>) -> Result<
    (Seq<u8>, Seq<u8>, Seq<char>),
    ResolveFailure,
> {
    match resolver {
        Resolver::Net { default_id } => match crate::address::net_to_of(addr) {
            Ok((to, address)) => Ok((default_id@, to, address)),
            Err(e) => Err(ResolveFailure::Address(e)),
        },
        Resolver::From => match crate::address::from_to_of(addr) {
            Ok((from, to, address)) => if ids.contains(from) {
                Ok((from, to, address))
            } else {
                Err(ResolveFailure::UnknownIdentity(from))
            },
            Err(e) => Err(ResolveFailure::Address(e)),
        },
    }
}

/// View of a resolved call.
pub open spec fn resolved_result(r: Result<Resolved, ResolveError>) -> Result<
    (Seq<u8>, Seq<u8>, Seq<char>),
    ResolveFailure,
> {
    match r {
        Ok(c) => Ok((c.caller_id@, c.remote_id@, c.address@)),
        Err(e) => Err(e@),
    }
}

/// Whether the resolver can read `addr`.
pub fn is_readable(resolver: &Resolver, addr: &str) -> (r: bool)
    ensures
        r == readable(*resolver, addr@),
{
    proof {
        if crate::address::rooted(addr@) {
            crate::address::law_net_to_in_bounds(addr@);
            crate::address::law_from_to_in_bounds(addr@);
        }
    }
    match resolver {
        Resolver::Net { .. } => crate::address::is_net_to_in_bounds(addr),
        Resolver::From => crate::address::is_from_to_in_bounds(addr),
    }
}

/// Reads the address of a call.
pub fn resolve<S, R>(resolver: &Resolver, state: &State<S, R>, addr: &str) -> (r: Result<
    Resolved,
    ResolveError,
>)
    requires
        readable(*resolver, addr@),
    ensures
        resolved_result(r) == resolved_of(*resolver, state@.ids, addr@),
{
    match resolver {
        Resolver::Net { default_id } => match parse_net_to_addr(addr) {
            Ok((remote_id, address)) => Ok(
                Resolved { caller_id: *default_id, remote_id, address },
            ),
            Err(e) => Err(ResolveError::Address(e)),
        },
        Resolver::From => match parse_from_to_addr(addr) {
            Ok((caller_id, remote_id, address)) => if state.is_own(&caller_id) {
                Ok(Resolved { caller_id, remote_id, address })
            } else {
                Err(ResolveError::UnknownIdentity(caller_id))
            },
            Err(e) => Err(ResolveError::Address(e)),
        },
    }
}

/// What is done with a call on the local bus.
#[derive(Debug)]
pub enum CallPlan {
    /// The caller gets the error.
    Fail(BusError),
    /// The destination is an own identity: the call goes back to the local
    /// bus, in the name of `caller` and with the address that it came in with,
    /// see `forward_bus_to_local`.
    Local { caller: String, address: String },
    /// The call goes to another node, see `forward_bus_to_net`.
    Net { call: Resolved, reliable: bool },
}

/// `plan` is what is done with a call to `addr`.
pub open spec fn is_plan(
    resolver: Resolver,
    ids: Set<Seq<u8>>,
    addr: Seq<char>,
    reliable: bool,
    plan: CallPlan,
) -> bool {
    match resolved_of(resolver, ids, addr) {
        Err(e) => plan matches CallPlan::Fail(BusError::GsbFailure(m)) && m@ == e.message(),
        Ok((caller_id, remote_id, address)) => if ids.contains(remote_id) {
            &&& plan matches CallPlan::Local { caller, address: own }
            &&& caller@ == crate::node_id::id_text(caller_id)
            &&& own@ == addr
        } else {
            &&& plan matches CallPlan::Net { call, reliable: on }
            &&& call.caller_id@ == caller_id
            &&& call.remote_id@ == remote_id
            &&& call.address@ == address
            &&& on == reliable
        },
    }
}

/// Decides what is done with a call to `addr` on the local bus, where it came
/// in at an address of the given transport.
pub fn plan_call<S, R>(
    resolver: &Resolver,
    state: &State<S, R>,
    addr: &str,
    reliable: bool,
) -> (r: CallPlan)
    requires
        readable(*resolver, addr@),
    ensures
        is_plan(*resolver, state@.ids, addr@, reliable, r),
{
    match resolve(resolver, state, addr) {
        Err(e) => CallPlan::Fail(BusError::GsbFailure(e.message())),
        Ok(call) => if state.is_own(&call.remote_id) {
            CallPlan::Local { caller: node_id_text(&call.caller_id), address: addr.to_owned() }
        } else {
            CallPlan::Net { call, reliable }
        },
    }
}

/// What is done with a call to an own identity.
#[derive(Debug)]
pub enum LocalForward {
    /// The endpoint is called on the local bus.
    Call { address: String },
    /// The caller gets the reply.
    Reply(ErrorReply),
}

/// Forwards a call to an own identity to the public endpoint that `addr`
/// stands for.
pub fn forward_bus_to_local<S, R>(state: &State<S, R>, addr: &str) -> (r: LocalForward)
    ensures
        match r {
            LocalForward::Call { address } => crate::state::is_local_address(
                state@.services,
                addr@,
                address@,
            ),
            LocalForward::Reply(e) => !crate::state::is_served(state@.services, addr@) && e.reports(
                "unknown"@,
                "unknown address: "@ + addr@,
                crate::message::ReplyCode::CallReplyBadRequest,
            ),
        },
{
    match state.local_address(addr) {
        Some(address) => LocalForward::Call { address },
        None => LocalForward::Reply(
            handler_reply_bad_request(
                "unknown".to_owned(),
                text::join2("unknown address: ", addr),
            ),
        ),
    }
}

/// A random number.
///
/// Calls `rand::Rng::gen::<u64>` on `rand::thread_rng`. Nothing is claimed of
/// the number but that it is one that the generator may give, and it may give
/// any.
#[verifier::external_body]
fn random_u64() -> (r: u64)
    ensures
        crate::draw::is_draw(r),
{
    rand::thread_rng().gen::<u64>()
}

/// The request number made of a random number: its low fifty-three bits.
pub fn id_of_random(random: u64) -> (r: u64)
    ensures
        r == random % 0x0020_0000_0000_0000,
        r <= MAX_ID,
{
    let r: u64 = random & MAX_ID;
    assert(random & 0x001f_ffff_ffff_ffff == random % 0x0020_0000_0000_0000) by (bit_vector);
    r
}

/// A new request number, made of a number that is drawn for it.
pub fn gen_id() -> (r: u64)
    ensures
        r <= MAX_ID,
        exists|drawn: u64| #[trigger]
            crate::draw::is_draw(drawn) && r == drawn % 0x0020_0000_0000_0000,
{
    id_of_random(random_u64())
}

/// A request to a remote node, before encoding.
#[derive(Debug)]
pub struct OutboundRequest {
    pub caller_id: NodeId,
    pub address: String,
    pub request_id: String,
    pub data: Vec<u8>,
}

/// The request with the number `id`.
pub fn request_of_id(id: u64, caller_id: NodeId, address: String, data: Vec<u8>) -> (r:
    OutboundRequest)
    ensures
        r.caller_id == caller_id,
        r.address == address,
        r.request_id@ == text::decimal(id as nat),
        r.data == data,
{
    OutboundRequest { caller_id, address, request_id: text::decimal_text(id), data }
}

/// The request under the number made of the random number `drawn`.
pub fn request_of_draw(drawn: u64, caller_id: NodeId, address: String, data: Vec<u8>) -> (r:
    OutboundRequest)
    ensures
        r.caller_id == caller_id,
        r.address == address,
        r.request_id@ == text::decimal((drawn % 0x0020_0000_0000_0000) as nat),
        r.data == data,
{
    request_of_id(id_of_random(drawn), caller_id, address, data)
}

/// A request under a new number, made of a number that is drawn for it.
pub fn new_request(caller_id: NodeId, address: String, data: Vec<u8>) -> (r: OutboundRequest)
    ensures
        r.caller_id == caller_id,
        r.address == address,
        exists|id: u64| id <= MAX_ID && r.request_id@ == #[trigger] text::decimal(id as nat),
        exists|drawn: u64| #[trigger]
            crate::draw::is_draw(drawn) && r.request_id@ == text::decimal(
                (drawn % 0x0020_0000_0000_0000) as nat,
            ),
        r.data == data,
{
    let id: u64 = gen_id();
    request_of_id(id, caller_id, address, data)
}

/// What is done with a request to a remote node.
#[derive(Debug)]
pub enum NetForward {
    /// The message is sent to the node.
    Send { message: Vec<u8> },
    /// The caller gets the reply.
    Reply(ErrorReply),
}

/// Forwards a request to a remote node, once its encoding has succeeded or
/// failed. A request that is sent waits for its reply.
pub fn forward_bus_to_net<S, R>(
    state: &mut State<S, R>,
    request: OutboundRequest,
    remote_id: NodeId,
    encoded: Result<Vec<u8>, String>,
    tx: S,
) -> (r: NetForward)
    requires
        old(state).wf(),
    ensures
        final(state).wf(),
        match encoded {
            Ok(message) => {
                &&& r == NetForward::Send { message }
                &&& final(state)@ == (crate::state::StateModel {
                    requests: old(state)@.requests.insert(
                        request.request_id@,
                        Request {
                            caller_id: request.caller_id,
                            remote_id,
                            address: request.address,
                            tx,
                        },
                    ),
                    ..old(state)@
                })
            },
            Err(e) => {
                &&& r matches NetForward::Reply(reply)
                &&& reply.reports(
                    request.request_id@,
                    "Invalid request: "@ + e@,
                    crate::message::ReplyCode::CallReplyBadRequest,
                )
                &&& final(state)@ == old(state)@
            },
        },
{
    match encoded {
        Ok(message) => {
            state.add_request(
                request.request_id,
                Request { caller_id: request.caller_id, remote_id, address: request.address, tx },
            );
            NetForward::Send { message }
        },
        Err(e) => NetForward::Reply(
            handler_reply_bad_request(
                request.request_id,
                text::join2("Invalid request: ", e.as_str()),
            ),
        ),
    }
}

/// How the sending of a message went.
#[derive(Debug)]
pub enum SendOutcome {
    Sent,
    /// There is a way to the node, but it was closed.
    SessionClosed,
    /// There is no way to the node, with the reason.
    NoSink(String),
}

/// What the caller of a request is told after its message was sent or not.
pub fn forward_outcome(request_id: String, outcome: SendOutcome) -> (r: Option<ErrorReply>)
    ensures
        match outcome {
            SendOutcome::Sent => r is None,
            SendOutcome::SessionClosed => r matches Some(e) && e.reports(
                request_id@,
                "error sending message: session closed"@,
                crate::message::ReplyCode::ServiceFailure,
            ),
            SendOutcome::NoSink(reason) => r matches Some(e) && e.reports(
                request_id@,
                "error forwarding message: "@ + reason@,
                crate::message::ReplyCode::ServiceFailure,
            ),
        },
{
    match outcome {
        SendOutcome::Sent => None,
        SendOutcome::SessionClosed => Some(
            handler_reply_service_err(
                request_id,
                "error sending message: session closed".to_owned(),
            ),
        ),
        SendOutcome::NoSink(reason) => Some(
            handler_reply_service_err(
                request_id,
                text::join2("error forwarding message: ", reason.as_str()),
            ),
        ),
    }
}

/// The `/net` address of an endpoint of a node, on either transport.
pub open spec fn net_address(udp: bool, id: Seq<u8>, endpoint: Seq<char>) -> Seq<char> {
    (if udp {
        "/udp"@
    } else {
        ""@
    }) + crate::address::net_service_of(crate::node_id::id_text(id) + "/"@ + endpoint)
}

/// The `/from` address of an endpoint of a node, on either transport.
pub open spec fn from_address(
    udp: bool,
    from: Seq<u8>,
    to: Seq<u8>,
    endpoint: Seq<char>,
) -> Seq<char> {
    (if udp {
        "/udp"@
    } else {
        ""@
    }) + "/from/"@ + crate::node_id::id_text(from) + "/to/"@ + (crate::node_id::id_text(to) + "/"@
        + endpoint)
}

/// The `/net` address of an endpoint of an own identity stands for the public
/// endpoint of that name and for no other.
pub proof fn law_net_address_is_public(
    ids: Set<Seq<u8>>,
    to: Seq<u8>,
    udp: bool,
    endpoint: Seq<char>,
    a: Seq<char>,
)
    requires
        forall|i: Seq<u8>| ids.contains(i) ==> i.len() == 20,
        ids.contains(to),
    ensures
        crate::state::is_local_address(
            crate::state::services_of(ids),
            net_address(udp, to, endpoint),
            a,
        ) <==> a == crate::address::PUBLIC_PREFIX@ + "/"@ + endpoint,
{
    crate::state::law_own_address_is_public(ids, to, udp, "/"@ + endpoint, a);
    let service = crate::address::net_service_of(crate::node_id::id_text(to));
    reveal_strlit("");
    assert(net_address(udp, to, endpoint) =~= (if udp {
        "/udp"@ + service
    } else {
        service
    }) + ("/"@ + endpoint));
    assert(crate::address::PUBLIC_PREFIX@ + ("/"@ + endpoint) =~= crate::address::PUBLIC_PREFIX@
        + "/"@ + endpoint);
}

/// A call to an endpoint of an own identity goes back to the local bus, in the
/// name of the default identity, and reaches the public endpoint of that name.
pub proof fn law_call_to_self_is_local(
    default_id: NodeId,
    ids: Set<Seq<u8>>,
    to: Seq<u8>,
    udp: bool,
    endpoint: Seq<char>,
    reliable: bool,
    plan: CallPlan,
    a: Seq<char>,
)
    requires
        forall|i: Seq<u8>| ids.contains(i) ==> i.len() == 20,
        ids.contains(to),
        is_plan(
            Resolver::Net { default_id },
            ids,
            net_address(udp, to, endpoint),
            reliable,
            plan,
        ),
    ensures
        plan matches CallPlan::Local { caller, address } && caller@ == crate::node_id::id_text(
            default_id@,
        ) && address@ == net_address(udp, to, endpoint),
        crate::state::is_local_address(
            crate::state::services_of(ids),
            net_address(udp, to, endpoint),
            a,
        ) <==> a == crate::address::PUBLIC_PREFIX@ + "/"@ + endpoint,
{
    crate::address::law_net_address_resolves(udp, to, endpoint);
    law_net_address_is_public(ids, to, udp, endpoint, a);
}

/// A call to an endpoint of another node goes out to that node, in the name of
/// the default identity, under the same address and on the transport at hand.
pub proof fn law_call_to_other_goes_out(
    default_id: NodeId,
    ids: Set<Seq<u8>>,
    to: Seq<u8>,
    udp: bool,
    endpoint: Seq<char>,
    reliable: bool,
    plan: CallPlan,
)
    requires
        to.len() == 20,
        !ids.contains(to),
        is_plan(
            Resolver::Net { default_id },
            ids,
            net_address(udp, to, endpoint),
            reliable,
            plan,
        ),
    ensures
        plan matches CallPlan::Net { call, reliable: on } && call.caller_id@ == default_id@
            && call.remote_id@ == to && call.address@ == net_address(udp, to, endpoint) && on
            == reliable,
{
    crate::address::law_net_address_resolves(udp, to, endpoint);
}

/// A call on behalf of an own identity goes out in the name of that identity,
/// under the `/net` address of the destination.
pub proof fn law_call_from_identity_goes_out(
    ids: Set<Seq<u8>>,
    from: Seq<u8>,
    to: Seq<u8>,
    udp: bool,
    endpoint: Seq<char>,
    reliable: bool,
    plan: CallPlan,
)
    requires
        from.len() == 20,
        to.len() == 20,
        ids.contains(from),
        !ids.contains(to),
        is_plan(Resolver::From, ids, from_address(udp, from, to, endpoint), reliable, plan),
    ensures
        plan matches CallPlan::Net { call, reliable: on } && call.caller_id@ == from
            && call.remote_id@ == to && call.address@ == net_address(udp, to, endpoint) && on
            == reliable,
{
    crate::address::law_from_address_resolves(udp, from, to, endpoint);
}

/// A call on behalf of an identity that is not an own one is refused.
pub proof fn law_call_from_stranger_is_refused(
    ids: Set<Seq<u8>>,
    from: Seq<u8>,
    to: Seq<u8>,
    udp: bool,
    endpoint: Seq<char>,
    reliable: bool,
    plan: CallPlan,
)
    requires
        from.len() == 20,
        to.len() == 20,
        !ids.contains(from),
        is_plan(Resolver::From, ids, from_address(udp, from, to, endpoint), reliable, plan),
    ensures
        plan matches CallPlan::Fail(BusError::GsbFailure(m)) && m@ == "unknown identity: "@
            + crate::node_id::id_text(from),
{
    crate::address::law_from_address_resolves(udp, from, to, endpoint);
}

/// No served address stands at the start of a `/from` address. Since
/// `forward_bus_to_local` rewrites the address that a call came in with, and
/// not the `/net` address that it resolves to, a consequence is that a call
/// with a `/from` address to an own identity is answered as one to an unknown
/// address.
pub proof fn law_from_address_is_not_served(
    ids: Set<Seq<u8>>,
    from: Seq<u8>,
    to: Seq<u8>,
    udp: bool,
    endpoint: Seq<char>,
)
    ensures
        !crate::state::is_served(
            crate::state::services_of(ids),
            from_address(udp, from, to, endpoint),
        ),
{
    let services = crate::state::services_of(ids);
    let addr = from_address(udp, from, to, endpoint);
    assert forall|s: Seq<char>| #[trigger] services.contains(s) implies !s.is_prefix_of(addr) by {
        let id = choose|id: Seq<u8>| #[trigger]
            ids.contains(id) && crate::state::serves(id, s);
        reveal_strlit("/net");
        reveal_strlit("/udp");
        reveal_strlit("/from/");
        reveal_strlit("/");
        reveal_strlit("");
        let service = crate::address::net_service_of(crate::node_id::id_text(id));
        if s.is_prefix_of(addr) {
            assert(s[1] == addr[1]);
            assert(s[5] == addr[5]);
        }
    }
}

/// Different request numbers have different names.
pub proof fn law_request_names_differ(a: u64, b: u64)
    requires
        a != b,
    ensures
        text::decimal(a as nat) != text::decimal(b as nat),
{
    if text::decimal(a as nat) == text::decimal(b as nat) {
        text::lemma_decimal_injective(a as nat, b as nat);
    }
}

} // verus!
