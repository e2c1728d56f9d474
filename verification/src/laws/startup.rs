//! Laws on the life of the service and on the search for the relay server.

use vstd::prelude::*;

use crate::egress::Resolver;
use crate::node_id::NodeId;
use crate::relay::{ClientError, RelayError, RelayStep};
use crate::service::{
    IdentityActions, IdentityEvent, Net, NetError, NetworkPlan, Sink, StartError,
};
use crate::state::State;

verus! {

/// A started service knows exactly the identities that it was given, serves the
/// `/net` addresses of exactly these on both transports, and has no request and
/// no route.
pub proof fn law_started_service<S, R>(
    default_id: NodeId,
    ids: Vec<NodeId>,
    plan: NetworkPlan<S, R>,
    id: NodeId,
    own: bool,
    s: Seq<char>,
)
    requires
        call_ensures(crate::service::start_network::<S, R>, (default_id, ids), plan),
        call_ensures(State::<S, R>::is_own, (&plan.state, &id), own),
    ensures
        own <==> exists|k: int| 0 <= k < ids@.len() && (#[trigger] ids@[k]).bytes@ == id.bytes@,
        plan.state@.services.contains(s) <==> exists|k: int, prefix: Seq<char>|
            0 <= k < ids@.len() && (prefix == ""@ || prefix == "/udp"@) && s
                == #[trigger] crate::laws::outbound::own_address(ids@, k, prefix, Seq::empty()),
        plan.state@.requests == Map::<Seq<char>, crate::state::Request<S>>::empty(),
        plan.state@.routes == Map::<(Seq<u8>, bool), R>::empty(),
{
    crate::laws::outbound::lemma_services(ids@, s);
    if own {
        let k = choose|k: int| 0 <= k < ids@.len() && (#[trigger] ids@[k])@ == id@;
        assert(ids@[k].bytes@ == id.bytes@);
    }
    if exists|k: int| 0 <= k < ids@.len() && (#[trigger] ids@[k]).bytes@ == id.bytes@ {
        let k = choose|k: int| 0 <= k < ids@.len() && (#[trigger] ids@[k]).bytes@ == id.bytes@;
        assert(ids@[k]@ == id@);
    }
}

/// Where a started service takes calls: `/net` and `/from`, each plain for the
/// reliable transport and behind `/udp` for the other one. `/net` calls are made
/// by the default identity.
pub proof fn law_bindings_of_service<S, R>(
    default_id: NodeId,
    ids: Vec<NodeId>,
    plan: NetworkPlan<S, R>,
    i: int,
)
    requires
        call_ensures(crate::service::start_network::<S, R>, (default_id, ids), plan),
        0 <= i < plan.bindings@.len(),
    ensures
        plan.bindings@.len() == 4,
        ({
            let b = plan.bindings@[i];
            &&& b.resolver is From <==> b.address@ == "/from"@ || b.address@ == "/udp/from"@
            &&& b.resolver is Net <==> b.address@ == "/net"@ || b.address@ == "/udp/net"@
            &&& b.resolver matches Resolver::Net { default_id: d } ==> d == default_id
            &&& b.reliable <==> b.address@ == "/net"@ || b.address@ == "/from"@
        }),
        plan.bindings@[0].address@ == "/udp/net"@,
        plan.bindings@[1].address@ == "/net"@,
        plan.bindings@[2].address@ == "/from"@,
        plan.bindings@[3].address@ == "/udp/from"@,
{
    reveal_strlit("/net");
    reveal_strlit("/udp/net");
    reveal_strlit("/from");
    reveal_strlit("/udp/from");
    assert("/net"@.len() == 4 && "/from"@.len() == 5 && "/udp/net"@.len() == 8
        && "/udp/from"@.len() == 9);
}

/// The addresses to serve for a list of nodes: two for each, the one behind
/// `/udp` first.
pub proof fn law_addresses_to_serve(ids: Vec<NodeId>, r: Vec<String>, s: Seq<char>)
    requires
        call_ensures(crate::state::network_services, (&ids,), r),
    ensures
        (exists|i: int| 0 <= i < r@.len() && (#[trigger] r@[i])@ == s) <==> exists|
            k: int,
            prefix: Seq<char>,
        |
            0 <= k < ids@.len() && (prefix == ""@ || prefix == "/udp"@) && s
                == #[trigger] crate::laws::outbound::own_address(ids@, k, prefix, Seq::empty()),
{
    crate::laws::outbound::lemma_services(ids@, s);
    assert(crate::state::text_set(r@).contains(s) <==> exists|i: int|
        0 <= i < r@.len() && (#[trigger] r@[i])@ == s);
}

/// The start succeeds if and only if the service reported that it did. Without
/// a report it fails, and a reported failure is handed on.
pub proof fn law_start_needs_a_report<E>(
    report: Option<Result<(), E>>,
    r: Result<(), StartError<E>>,
)
    requires
        call_ensures(Net::gsb::<E>, (report,), r),
    ensures
        r is Ok <==> (report matches Some(Ok(_))),
        report is None ==> r == Err::<(), StartError<E>>(StartError::Net(NetError::Start)),
        report matches Some(Err(e)) ==> r == Err::<(), StartError<E>>(StartError::Reported(e)),
{
}

/// The client is shut down where there is one, and the signal is given once.
pub proof fn law_service_is_stopped_once<C, T, E>(
    client: Result<C, E>,
    down: Option<C>,
    a: &mut Option<T>,
    b: &mut Option<T>,
    first: Option<T>,
    second: Option<T>,
)
    requires
        call_ensures(Net::shutdown::<C, E>, (client,), down),
        call_ensures(Net::stop_signal::<T>, (a,), first),
        *old(b) == *final(a),
        call_ensures(Net::stop_signal::<T>, (b,), second),
    ensures
        forall|c: C| down == Some(c) <==> client == Ok::<C, E>(c),
        first == *old(a),
        second is None,
{
}

/// Every change of an identity makes the service forget aliases and connect
/// anew, where it has a client. Changes come in at `/net/id`.
pub proof fn law_identity_change<C>(
    event: IdentityEvent,
    client: Option<C>,
    r: IdentityActions<C>,
    endpoint: String,
)
    requires
        call_ensures(crate::service::on_identity_event::<C>, (event, client), r),
        call_ensures(crate::service::identity_endpoint, (), endpoint),
    ensures
        r.reset_alias_cache,
        r.reconnect == client,
        endpoint@ == "/net/id"@,
{
    reveal_strlit("/net");
    reveal_strlit("/id");
    reveal_strlit("/net/id");
    assert(endpoint@ =~= "/net/id"@);
}

/// A broadcast needs a client, and its failure is reported in words.
pub proof fn law_broadcast_needs_a_client<C>(
    client: Option<C>,
    through: Result<C, NetError>,
    sent: Result<(), String>,
    r: Result<(), NetError>,
)
    requires
        call_ensures(crate::service::broadcast_client::<C>, (client,), through),
        call_ensures(crate::service::broadcast_outcome, (sent,), r),
    ensures
        forall|c: C| through == Ok::<C, NetError>(c) <==> client == Some(c),
        client is None ==> through == Err::<C, NetError>(NetError::NotInitialized),
        r is Ok <==> sent is Ok,
        sent matches Err(e) ==> r == Err::<(), NetError>(NetError::Broadcast(e)),
{
}

/// A way to a node needs a client. It is a byte stream on the reliable
/// transport and one message to a packet on the other.
pub proof fn law_way_to_a_node<S, R, C>(
    client: Option<C>,
    reliable: bool,
    r: Result<Sink<C>, NetError>,
)
    requires
        call_ensures(State::<S, R>::forward_sink::<C>, (client, reliable), r),
    ensures
        client is None <==> r is Err,
        r matches Err(e) ==> e == NetError::NotStarted,
        r matches Ok(Sink::Prefixed(c)) ==> reliable && client == Some(c),
        r matches Ok(Sink::Plain(c)) ==> !reliable && client == Some(c),
{
}

/// Failures of the service in words.
pub proof fn law_service_failure_in_words(e: NetError, r: String)
    requires
        call_ensures(NetError::message, (&e,), r),
    ensures
        match e {
            NetError::Start => r@ == "Error starting network"@,
            NetError::NotStarted => r@ == "network not started"@,
            NetError::NotInitialized => r@ == "network not initialized"@,
            NetError::Broadcast(reason) => r@ == "Broadcast failed: "@ + reason@,
        },
{
}

/// One public address is reported where there is one, and none where not.
pub proof fn law_public_addresses<A>(public: Option<A>, r: u64)
    requires
        call_ensures(crate::service::public_addresses::<A>, (&public,), r),
    ensures
        r == 1 <==> public is Some,
        r == 0 <==> public is None,
{
}

/// A configured server is taken, and nothing is looked up first. Otherwise the
/// service record is, and the server that it names is taken, or the default one
/// where there is no record. A server is a host without a colon, a colon and a
/// port, and is refused if there is no colon.
pub proof fn law_relay_server<E>(
    configured: Option<String>,
    step: RelayStep,
    resolved: Result<String, E>,
    next: RelayStep,
    host: Seq<char>,
    port: Seq<char>,
)
    requires
        call_ensures(crate::relay::relay_addr, (configured,), step),
        call_ensures(crate::relay::relay_srv::<E>, (resolved,), next),
        !host.contains(':'),
    ensures
        configured is None ==> (step matches RelayStep::ResolveSrv { record } && record@
            == "_net_relay._udp"@),
        configured matches Some(c) && c@ == host + ":"@ + port ==> (step matches
            RelayStep::ResolveDns { host: h, port: p } && h@ == host && p@ == port),
        configured matches Some(c) && !c@.contains(':') ==> step == RelayStep::Fail(
            RelayError::Format,
        ),
        resolved matches Ok(c) && c@ == host + ":"@ + port ==> (next matches RelayStep::ResolveDns {
            host: h,
            port: p,
        } && h@ == host && p@ == port),
        resolved matches Ok(c) && !c@.contains(':') ==> next == RelayStep::Fail(
            RelayError::Format,
        ),
        resolved is Err ==> (next matches RelayStep::ResolveDns { host: h, port: p } && h@
            == "127.0.0.1"@ && p@ == "7464"@),
{
    if let Some(c) = configured {
        if c@ == host + ":"@ + port {
            crate::relay::law_host_and_port_split(host, port, step);
        }
    }
    match resolved {
        Ok(c) => {
            if c@ == host + ":"@ + port {
                crate::relay::law_host_and_port_split(host, port, next);
            }
        },
        Err(_) => {
            crate::relay::law_default_relay_has_port(next);
        },
    }
}

/// The socket is looked up by address and port with a colon between, and the
/// first one that was found is taken. A failed lookup and an empty one are
/// failures.
pub proof fn law_relay_socket<A>(
    ip: &str,
    port: &str,
    text: String,
    owned_ip: String,
    owned_port: String,
    found: Result<Vec<A>, String>,
    r: Result<A, RelayError>,
)
    requires
        call_ensures(crate::relay::relay_socket_text, (ip, port), text),
        call_ensures(crate::relay::relay_socket::<A>, (owned_ip, owned_port, found), r),
    ensures
        text@ == ip@ + ":"@ + port@,
        r is Ok <==> found is Ok && found->Ok_0@.len() > 0,
        r is Ok ==> r->Ok_0 == found->Ok_0@[0],
        found matches Err(e) ==> r == Err::<A, RelayError>(RelayError::Lookup(e)),
        found is Ok && found->Ok_0@.len() == 0 ==> r == Err::<A, RelayError>(
            RelayError::NoSocket { ip: owned_ip, port: owned_port },
        ),
{
}

/// The URL of the relay server is what reads as one behind `udp://`. A failed
/// search and a failed reading are failures of their own.
pub proof fn law_client_url(
    relay: Result<String, RelayError>,
    r: Result<String, ClientError>,
    read: Result<String, String>,
    q: Result<String, ClientError>,
)
    requires
        call_ensures(crate::relay::build_client_url, (relay,), r),
        call_ensures(crate::relay::read_client_url, (read,), q),
    ensures
        relay matches Err(e) ==> r == Err::<String, ClientError>(ClientError::Relay(e)),
        relay matches Ok(addr) ==> match crate::relay::parsed_url("udp://"@ + addr@) {
            Ok(url) => r matches Ok(u) && u@ == url,
            Err(e) => r matches Err(ClientError::Url(m)) && m@ == e,
        },
        forall|u: String| q == Ok::<String, ClientError>(u) <==> read == Ok::<String, String>(u),
        forall|e: String|
            q == Err::<String, ClientError>(ClientError::Url(e)) <==> read == Err::<
                String,
                String,
            >(e),
{
}

/// Failures of the search in words.
pub proof fn law_relay_failure_in_words(
    e: RelayError,
    r: String,
    c: ClientError,
    q: String,
)
    requires
        call_ensures(RelayError::message, (&e,), r),
        call_ensures(ClientError::message, (&c,), q),
    ensures
        match e {
            RelayError::Format => r@ == "Please use host:port format"@,
            RelayError::Lookup(reason) => r@ == reason@,
            RelayError::NoSocket { ip, port } => r@ == "Invalid relay address: "@ + (ip@ + ":"@
                + port@),
        },
        c == ClientError::Relay(e) ==> q@ == "Resolving hybrid NET relay server failed. Error: "@
            + r@,
        c matches ClientError::Url(reason) ==> q@ == reason@,
{
}

} // verus!
