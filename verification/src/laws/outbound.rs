//! Laws on calls that leave the local bus.

use vstd::prelude::*;

use crate::egress::{
    CallPlan, LocalForward, NetForward, OutboundRequest, Resolved, ResolveError, Resolver,
    SendOutcome,
};
use crate::laws::addresses;
use crate::message::{BusError, ErrorReply, ResponseChunk};
use crate::node_id::NodeId;
use crate::service::NetworkPlan;
use crate::state::State;

verus! {

/// A call under a `/net` address goes back to the local bus if the node that it
/// names is an own identity, and out to that node if not. Either way it is made
/// by the default identity, under the address and on the transport that it came
/// in with.
pub proof fn law_call_under_net_address<S, R>(
    default_id: NodeId,
    state: State<S, R>,
    addr: &str,
    reliable: bool,
    prefix: Seq<char>,
    to: Seq<char>,
    endpoint: Seq<char>,
    id: Seq<u8>,
    r: CallPlan,
)
    requires
        call_ensures(
            crate::egress::plan_call::<S, R>,
            (&Resolver::Net { default_id }, &state, addr, reliable),
            r,
        ),
        addresses::net_parts(addr@, prefix, to, endpoint),
        crate::node_id::id_of_text(to) == Ok::<Seq<u8>, Seq<char>>(id),
    ensures
        state@.ids.contains(id) ==> (r matches CallPlan::Local { caller, address } && caller@
            == crate::node_id::id_text(default_id.bytes@) && address@ == addr@),
        !state@.ids.contains(id) ==> (r matches CallPlan::Net { call, reliable: on }
            && call.caller_id.bytes@ == default_id.bytes@ && call.remote_id.bytes@ == id
            && call.address@ == addr@ && on == reliable),
{
    addresses::lemma_net_parts(addr@, prefix, to, endpoint);
    crate::address::law_net_to_keeps_address(addr@);
}

/// A call fails, in words that say why, where its address is no `/net` address
/// or names a node that cannot be read.
pub proof fn law_call_under_no_net_address<S, R>(
    default_id: NodeId,
    state: State<S, R>,
    addr: &str,
    reliable: bool,
    r: CallPlan,
)
    requires
        call_ensures(
            crate::egress::plan_call::<S, R>,
            (&Resolver::Net { default_id }, &state, addr, reliable),
            r,
        ),
        addr@.len() > 0 && addr@[0] == '/',
    ensures
        (forall|prefix: Seq<char>, to: Seq<char>, endpoint: Seq<char>|
            !#[trigger] addresses::net_parts(addr@, prefix, to, endpoint)) ==> (
        r matches CallPlan::Fail(BusError::GsbFailure(m)) && m@ == "invalid address: "@
            + ("invalid net-to destination: "@ + addr@)),
        forall|prefix: Seq<char>, to: Seq<char>, endpoint: Seq<char>|
            #[trigger] addresses::net_parts(addr@, prefix, to, endpoint)
                && crate::node_id::id_of_text(to) is Err ==> (r matches CallPlan::Fail(
                BusError::GsbFailure(m),
            ) && m@ == "invalid address: "@ + crate::node_id::id_of_text(to)->Err_0),
{
    if crate::address::net_to_parts(crate::text::segments(addr@, '/')) is Some {
        addresses::lemma_net_parts_exist(addr@);
    }
    assert forall|prefix: Seq<char>, to: Seq<char>, endpoint: Seq<char>|
        #[trigger] addresses::net_parts(addr@, prefix, to, endpoint)
            && crate::node_id::id_of_text(to) is Err implies (r matches CallPlan::Fail(
        BusError::GsbFailure(m),
    ) && m@ == "invalid address: "@ + crate::node_id::id_of_text(to)->Err_0) by {
        addresses::lemma_net_parts(addr@, prefix, to, endpoint);
    }
}

/// A call under a `/from` address is refused if its sender is no own identity.
/// Otherwise it is made by that sender: on the local bus, under the address
/// that it came in with, if the destination is an own identity too, and else at
/// the destination, under its `/net` address.
pub proof fn law_call_under_from_address<S, R>(
    state: State<S, R>,
    addr: &str,
    reliable: bool,
    prefix: Seq<char>,
    from: Seq<char>,
    to: Seq<char>,
    endpoint: Seq<char>,
    f: Seq<u8>,
    t: Seq<u8>,
    r: CallPlan,
)
    requires
        call_ensures(
            crate::egress::plan_call::<S, R>,
            (&Resolver::From, &state, addr, reliable),
            r,
        ),
        addresses::from_parts(addr@, prefix, from, to, endpoint),
        crate::node_id::id_of_text(from) == Ok::<Seq<u8>, Seq<char>>(f),
        crate::node_id::id_of_text(to) == Ok::<Seq<u8>, Seq<char>>(t),
    ensures
        !state@.ids.contains(f) ==> (r matches CallPlan::Fail(BusError::GsbFailure(m)) && m@
            == "unknown identity: "@ + crate::node_id::id_text(f)),
        state@.ids.contains(f) && state@.ids.contains(t) ==> (r matches CallPlan::Local {
            caller,
            address,
        } && caller@ == crate::node_id::id_text(f) && address@ == addr@),
        state@.ids.contains(f) && !state@.ids.contains(t) ==> (r matches CallPlan::Net {
            call,
            reliable: on,
        } && call.caller_id.bytes@ == f && call.remote_id.bytes@ == t && call.address@ == prefix
            + "/net/"@ + to + "/"@ + endpoint && on == reliable),
{
    addresses::lemma_from_parts(addr@, prefix, from, to, endpoint);
    addresses::lemma_net_prefix(to + "/"@ + endpoint);
    assert(prefix + ("/net/"@ + (to + "/"@ + endpoint)) =~= prefix + "/net/"@ + to + "/"@
        + endpoint);
}

/// Reading an address and deciding on the call agree: the call fails with the
/// words of the failure, or is made by the caller that was read.
pub proof fn law_plan_follows_resolution<S, R>(
    resolver: Resolver,
    state: State<S, R>,
    addr: &str,
    reliable: bool,
    read: Result<Resolved, ResolveError>,
    words: String,
    r: CallPlan,
)
    requires
        call_ensures(crate::egress::resolve::<S, R>, (&resolver, &state, addr), read),
        call_ensures(crate::egress::plan_call::<S, R>, (&resolver, &state, addr, reliable), r),
        read matches Err(e) ==> call_ensures(ResolveError::message, (&e,), words),
    ensures
        match read {
            Err(e) => r matches CallPlan::Fail(BusError::GsbFailure(m)) && m@ == words@,
            Ok(c) => match r {
                CallPlan::Fail(_) => false,
                CallPlan::Local { caller, address } => state@.ids.contains(c.remote_id.bytes@)
                    && caller@ == crate::node_id::id_text(c.caller_id.bytes@) && address@ == addr@,
                CallPlan::Net { call, reliable: on } => !state@.ids.contains(c.remote_id.bytes@)
                    && call.caller_id.bytes@ == c.caller_id.bytes@ && call.remote_id.bytes@
                    == c.remote_id.bytes@ && call.address@ == c.address@ && on == reliable,
            },
        },
{
}

/// The text of a refusal: what is wrong with the address, or who is unknown.
pub proof fn law_refusal_in_words(e: ResolveError, words: String, inner: String)
    requires
        call_ensures(ResolveError::message, (&e,), words),
        e matches ResolveError::Address(a) ==> call_ensures(
            crate::address::AddressError::message,
            (&a,),
            inner,
        ),
    ensures
        match e {
            ResolveError::Address(_) => words@ == "invalid address: "@ + inner@,
            ResolveError::UnknownIdentity(id) => words@ == "unknown identity: "@
                + crate::node_id::id_text(id.bytes@),
        },
{
}

/// Every address that begins with `/` can be read, whatever the resolver.
pub proof fn law_rooted_call_can_be_planned(resolver: Resolver, addr: &str, r: bool)
    requires
        call_ensures(crate::egress::is_readable, (&resolver, addr), r),
    ensures
        addr@.len() > 0 && addr@[0] == '/' ==> r,
{
}

/// A request number is the low fifty-three bits of the random number: it is
/// below the fifty-third power of two, and differs from the random number by a
/// multiple of it.
pub proof fn law_request_number_of_random(random: u64, r: u64)
    requires
        call_ensures(crate::egress::id_of_random, (random,), r),
    ensures
        0 <= r < 9007199254740992,
        exists|k: int| random == r + #[trigger] (k * 9007199254740992),
{
    assert(random == r + (random / 9007199254740992) as int * 9007199254740992);
}

/// A new request number, and the name of a new request, are made of a number
/// that was drawn for it.
pub proof fn law_new_request_is_drawn(
    n: u64,
    caller_id: NodeId,
    address: String,
    data: Vec<u8>,
    r: OutboundRequest,
)
    requires
        call_ensures(crate::egress::gen_id, (), n),
        call_ensures(crate::egress::new_request, (caller_id, address, data), r),
    ensures
        exists|drawn: u64| #[trigger]
            crate::draw::is_draw(drawn) && n == drawn % 9007199254740992,
        exists|drawn: u64| #[trigger]
            crate::draw::is_draw(drawn) && crate::laws::identities::number_in(r.request_id@)
                == drawn % 9007199254740992,
        r.caller_id == caller_id,
        r.address == address,
        r.data == data,
{
    let drawn = choose|drawn: u64| #[trigger]
        crate::draw::is_draw(drawn) && r.request_id@ == crate::text::decimal(
            (drawn % 0x0020_0000_0000_0000) as nat,
        );
    crate::laws::identities::lemma_decimal((drawn % 0x0020_0000_0000_0000) as nat);
}

/// Requests made of draws that differ in their low fifty-three bits have
/// different names, so they wait side by side. The rest of each is as given.
pub proof fn law_draws_keep_requests_apart(
    x: u64,
    y: u64,
    ca: NodeId,
    cb: NodeId,
    aa: String,
    ab: String,
    da: Vec<u8>,
    db: Vec<u8>,
    a: OutboundRequest,
    b: OutboundRequest,
)
    requires
        call_ensures(crate::egress::request_of_draw, (x, ca, aa, da), a),
        call_ensures(crate::egress::request_of_draw, (y, cb, ab, db), b),
    ensures
        a.request_id@ == b.request_id@ <==> x % 9007199254740992 == y % 9007199254740992,
        crate::laws::identities::number_in(a.request_id@) == x % 9007199254740992,
        a.caller_id == ca && a.address == aa && a.data == da,
{
    crate::laws::identities::lemma_decimal((x % 0x0020_0000_0000_0000) as nat);
    crate::laws::identities::lemma_decimal((y % 0x0020_0000_0000_0000) as nat);
}

/// A request under a number has that number for its name.
pub proof fn law_request_is_named_by_its_number(
    id: u64,
    caller_id: NodeId,
    address: String,
    data: Vec<u8>,
    r: OutboundRequest,
)
    requires
        call_ensures(crate::egress::request_of_id, (id, caller_id, address, data), r),
    ensures
        crate::laws::identities::number_in(r.request_id@) == id,
        r.caller_id == caller_id,
        r.address == address,
        r.data == data,
{
    crate::laws::identities::lemma_decimal(id as nat);
}

/// A request that could be encoded is sent as encoded, and waits for the node
/// that it goes to, on behalf of its caller. One that could not is answered with
/// code 400 and does not wait. No other request, no route, no identity and no
/// served address is touched.
pub proof fn law_sent_request_waits<S, R>(
    state: &mut State<S, R>,
    request: OutboundRequest,
    remote_id: NodeId,
    encoded: Result<Vec<u8>, String>,
    tx: S,
    r: NetForward,
)
    requires
        call_ensures(
            crate::egress::forward_bus_to_net::<S, R>,
            (state, request, remote_id, encoded, tx),
            r,
        ),
    ensures
        match encoded {
            Ok(message) => {
                let id = request.request_id@;
                &&& r == NetForward::Send { message }
                &&& final(state)@.requests.contains_key(id)
                &&& final(state)@.requests[id].remote_id == remote_id
                &&& final(state)@.requests[id].caller_id == request.caller_id
                &&& final(state)@.requests[id].address == request.address
                &&& final(state)@.requests[id].tx == tx
            },
            Err(e) => {
                &&& r matches NetForward::Reply(reply)
                &&& reply.request_id@ == request.request_id@
                &&& reply.error@ == "Invalid request: "@ + e@
                &&& reply.code == 400
                &&& final(state)@.requests == old(state)@.requests
            },
        },
        forall|other: Seq<char>|
            other != request.request_id@ ==> {
                &&& #[trigger] final(state)@.requests.contains_key(other) == old(
                    state,
                )@.requests.contains_key(other)
                &&& old(state)@.requests.contains_key(other) ==> final(state)@.requests[other]
                    == old(state)@.requests[other]
            },
        final(state)@.routes == old(state)@.routes,
        final(state)@.ids == old(state)@.ids,
        final(state)@.services == old(state)@.services,
{
}

/// A caller hears of a message that could not be sent, with code 500 and the
/// reason, and of nothing else.
pub proof fn law_failed_sending_is_reported(
    request_id: String,
    outcome: SendOutcome,
    r: Option<ErrorReply>,
)
    requires
        call_ensures(crate::egress::forward_outcome, (request_id, outcome), r),
    ensures
        r is None <==> outcome is Sent,
        r matches Some(e) ==> e.request_id@ == request_id@ && e.code == 500,
        r matches Some(e) ==> match outcome {
            SendOutcome::Sent => false,
            SendOutcome::SessionClosed => e.error@ == "error sending message: session closed"@,
            SendOutcome::NoSink(reason) => e.error@ == "error forwarding message: "@ + reason@,
        },
{
}

/// Replies that report an error carry the request, the words and the number of
/// the outcome, and go to the caller as a full chunk.
pub proof fn law_error_replies(
    request_id: String,
    error: String,
    bad: ErrorReply,
    failed: ErrorReply,
    encoded: Vec<u8>,
    chunk: ResponseChunk,
)
    requires
        call_ensures(crate::message::handler_reply_bad_request, (request_id, error), bad),
        call_ensures(crate::message::handler_reply_service_err, (request_id, error), failed),
        call_ensures(crate::message::error_chunk, (encoded,), chunk),
    ensures
        bad.request_id@ == request_id@ && bad.error@ == error@ && bad.code == 400,
        failed.request_id@ == request_id@ && failed.error@ == error@ && failed.code == 500,
        chunk == ResponseChunk::Full(encoded),
{
}

/// The numbers of outcomes and of whole replies on the wire.
pub proof fn law_numbers_on_the_wire(code: crate::message::ReplyCode, e: ErrorReply)
    requires
        e.reports(""@, ""@, code),
    ensures
        match code {
            crate::message::ReplyCode::CallReplyOk => e.code == 0,
            crate::message::ReplyCode::CallReplyBadRequest => e.code == 400,
            crate::message::ReplyCode::ServiceFailure => e.code == 500,
        },
        crate::message::full_type() == 0,
{
}

/// On the bus of a started service, the `/net` address of an own identity, on
/// either transport and whatever follows it, is called at the public endpoint
/// of what follows.
pub proof fn law_own_address_is_called_locally<S, R>(
    default_id: NodeId,
    ids: Vec<NodeId>,
    plan: NetworkPlan<S, R>,
    k: int,
    prefix: Seq<char>,
    rest: Seq<char>,
    addr: &str,
    r: LocalForward,
)
    requires
        call_ensures(crate::service::start_network::<S, R>, (default_id, ids), plan),
        0 <= k < ids@.len(),
        prefix == ""@ || prefix == "/udp"@,
        addr@ == prefix + "/net/"@ + crate::node_id::id_text(ids@[k].bytes@) + rest,
        call_ensures(crate::egress::forward_bus_to_local::<S, R>, (&plan.state, addr), r),
    ensures
        r matches LocalForward::Call { address } && address@ == "/public"@ + rest,
{
    lemma_own_address(ids@, k, prefix, rest, addr@);
    if let LocalForward::Call { address } = r {
        lemma_own_address_only(ids@, k, prefix, rest, addr@, address@);
    }
}

/// An address that no own identity has is unknown to a started service, and
/// the caller hears so with code 400.
pub proof fn law_foreign_address_is_unknown<S, R>(
    default_id: NodeId,
    ids: Vec<NodeId>,
    plan: NetworkPlan<S, R>,
    addr: &str,
    r: LocalForward,
)
    requires
        call_ensures(crate::service::start_network::<S, R>, (default_id, ids), plan),
        forall|k: int, prefix: Seq<char>, rest: Seq<char>|
            0 <= k < ids@.len() && (prefix == ""@ || prefix == "/udp"@) ==> addr@
                != #[trigger] own_address(ids@, k, prefix, rest),
        call_ensures(crate::egress::forward_bus_to_local::<S, R>, (&plan.state, addr), r),
    ensures
        r matches LocalForward::Reply(e) && e.request_id@ == "unknown"@ && e.error@
            == "unknown address: "@ + addr@ && e.code == 400,
{
    if let LocalForward::Call { address } = r {
        lemma_local_is_own(ids@, addr@, address@);
    }
}

/// The `/net` address of the `k`-th identity, with what follows it.
pub open spec fn own_address(
    ids: Seq<NodeId>,
    k: int,
    prefix: Seq<char>,
    rest: Seq<char>,
) -> Seq<char> {
    prefix + "/net/"@ + crate::node_id::id_text(ids[k].bytes@) + rest
}

/// The addresses that are served for identities, in full.
pub proof fn lemma_services(ids: Seq<NodeId>, s: Seq<char>)
    ensures
        crate::state::services_of(crate::node_id::id_set(ids)).contains(s) <==> exists|
            k: int,
            prefix: Seq<char>,
        |
            0 <= k < ids.len() && (prefix == ""@ || prefix == "/udp"@) && s
                == #[trigger] own_address(ids, k, prefix, Seq::empty()),
{
    let set = crate::node_id::id_set(ids);
    reveal_strlit("");
    if crate::state::services_of(set).contains(s) {
        let id = choose|id: Seq<u8>| #[trigger] set.contains(id) && crate::state::serves(id, s);
        let k = choose|k: int| 0 <= k < ids.len() && (#[trigger] ids[k])@ == id;
        addresses::lemma_net_prefix(crate::node_id::id_text(id));
        let service = crate::address::net_service_of(crate::node_id::id_text(id));
        let prefix = if s == service {
            ""@
        } else {
            "/udp"@
        };
        assert(s =~= own_address(ids, k, prefix, Seq::empty()));
    }
    if exists|k: int, prefix: Seq<char>|
        0 <= k < ids.len() && (prefix == ""@ || prefix == "/udp"@) && s == #[trigger] own_address(
            ids,
            k,
            prefix,
            Seq::empty(),
        ) {
        let (k, prefix) = choose|k: int, prefix: Seq<char>|
            0 <= k < ids.len() && (prefix == ""@ || prefix == "/udp"@) && s
                == #[trigger] own_address(ids, k, prefix, Seq::empty());
        let id = ids[k]@;
        assert(set.contains(id));
        addresses::lemma_net_prefix(crate::node_id::id_text(id));
        let service = crate::address::net_service_of(crate::node_id::id_text(id));
        assert(own_address(ids, k, prefix, Seq::empty()) =~= prefix + service);
        assert(""@ + service =~= service);
        assert(crate::state::serves(id, s));
    }
}

/// An own address is served.
pub proof fn lemma_own_address(
    ids: Seq<NodeId>,
    k: int,
    prefix: Seq<char>,
    rest: Seq<char>,
    addr: Seq<char>,
)
    requires
        0 <= k < ids.len(),
        prefix == ""@ || prefix == "/udp"@,
        addr == prefix + "/net/"@ + crate::node_id::id_text(ids[k].bytes@) + rest,
    ensures
        crate::state::is_served(crate::state::services_of(crate::node_id::id_set(ids)), addr),
{
    let s = own_address(ids, k, prefix, Seq::empty());
    lemma_services(ids, s);
    assert(addr =~= s + rest);
    assert(s =~= addr.subrange(0, s.len() as int));
    assert(s.is_prefix_of(addr));
}

/// An own address stands for the public endpoint of what follows, and for no
/// other.
pub proof fn lemma_own_address_only(
    ids: Seq<NodeId>,
    k: int,
    prefix: Seq<char>,
    rest: Seq<char>,
    addr: Seq<char>,
    a: Seq<char>,
)
    requires
        0 <= k < ids.len(),
        prefix == ""@ || prefix == "/udp"@,
        addr == prefix + "/net/"@ + crate::node_id::id_text(ids[k].bytes@) + rest,
        crate::state::is_local_address(
            crate::state::services_of(crate::node_id::id_set(ids)),
            addr,
            a,
        ),
    ensures
        a == "/public"@ + rest,
{
    let set = crate::node_id::id_set(ids);
    let id = ids[k]@;
    let t = crate::node_id::id_text(id);
    assert(set.contains(id));
    assert forall|i: Seq<u8>| set.contains(i) implies i.len() == 20 by {
        let q = choose|q: int| 0 <= q < ids.len() && (#[trigger] ids[q])@ == i;
    }
    addresses::lemma_net_prefix(t);
    reveal_strlit("");
    reveal_strlit("/udp");
    let udp = prefix == "/udp"@;
    let service = crate::address::net_service_of(t);
    assert(addr =~= (if udp {
        "/udp"@ + service
    } else {
        service
    }) + rest);
    crate::state::law_own_address_is_public(set, id, udp, rest, a);
}

/// What stands for a public endpoint is an own address.
pub proof fn lemma_local_is_own(ids: Seq<NodeId>, addr: Seq<char>, a: Seq<char>)
    requires
        crate::state::is_local_address(
            crate::state::services_of(crate::node_id::id_set(ids)),
            addr,
            a,
        ),
    ensures
        exists|k: int, prefix: Seq<char>, rest: Seq<char>|
            0 <= k < ids.len() && (prefix == ""@ || prefix == "/udp"@) && addr
                == #[trigger] own_address(ids, k, prefix, rest) && a == "/public"@ + rest,
{
    let services = crate::state::services_of(crate::node_id::id_set(ids));
    let s = choose|s: Seq<char>| #[trigger]
        services.contains(s) && s.is_prefix_of(addr) && a == "/public"@ + addr.skip(
            s.len() as int,
        );
    lemma_services(ids, s);
    let (k, prefix) = choose|k: int, prefix: Seq<char>|
        0 <= k < ids.len() && (prefix == ""@ || prefix == "/udp"@) && s == #[trigger] own_address(
            ids,
            k,
            prefix,
            Seq::empty(),
        );
    let rest = addr.skip(s.len() as int);
    assert(addr =~= own_address(ids, k, prefix, rest));
}

/// The largest request number.
pub proof fn law_largest_request_number()
    ensures
        crate::egress::MAX_ID == 9007199254740991,
{
}

/// A call is resolved as its address is read: `/net` calls by the default
/// identity, `/from` calls by the sender, who has to be an own identity.
pub proof fn law_resolution_follows_address<S, R>(
    default_id: NodeId,
    state: State<S, R>,
    addr: &str,
    net: Result<(NodeId, String), crate::address::AddressError>,
    from: Result<(NodeId, NodeId, String), crate::address::AddressError>,
    n: Result<Resolved, ResolveError>,
    f: Result<Resolved, ResolveError>,
)
    requires
        call_ensures(crate::address::parse_net_to_addr, (addr,), net),
        call_ensures(crate::address::parse_from_to_addr, (addr,), from),
        call_ensures(
            crate::egress::resolve::<S, R>,
            (&Resolver::Net { default_id }, &state, addr),
            n,
        ),
        call_ensures(crate::egress::resolve::<S, R>, (&Resolver::From, &state, addr), f),
    ensures
        n is Ok <==> net is Ok,
        n is Ok ==> {
            &&& n->Ok_0.caller_id.bytes@ == default_id.bytes@
            &&& n->Ok_0.remote_id.bytes@ == net->Ok_0.0.bytes@
            &&& n->Ok_0.address@ == net->Ok_0.1@
        },
        f is Ok <==> from is Ok && state@.ids.contains(from->Ok_0.0.bytes@),
        f is Ok ==> {
            &&& f->Ok_0.caller_id.bytes@ == from->Ok_0.0.bytes@
            &&& f->Ok_0.remote_id.bytes@ == from->Ok_0.1.bytes@
            &&& f->Ok_0.address@ == from->Ok_0.2@
        },
        from is Ok && f is Err ==> (f->Err_0 matches ResolveError::UnknownIdentity(id) && id.bytes@
            == from->Ok_0.0.bytes@),
        n is Err ==> n->Err_0 is Address,
        from is Err ==> f->Err_0 is Address,
{
}

/// A resolver can read what the address reader behind it can read.
pub proof fn law_resolver_reads_what_its_reader_reads(
    default_id: NodeId,
    addr: &str,
    net: bool,
    from: bool,
    n: bool,
    f: bool,
)
    requires
        call_ensures(crate::address::is_net_to_in_bounds, (addr,), net),
        call_ensures(crate::address::is_from_to_in_bounds, (addr,), from),
        call_ensures(crate::egress::is_readable, (&Resolver::Net { default_id }, addr), n),
        call_ensures(crate::egress::is_readable, (&Resolver::From, addr), f),
    ensures
        n == net,
        f == from,
{
    if crate::address::rooted(addr@) {
        crate::address::law_net_to_in_bounds(addr@);
        crate::address::law_from_to_in_bounds(addr@);
    }
}

} // verus!
