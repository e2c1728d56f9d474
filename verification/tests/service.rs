use hybrid_net::address::{BUS_ID, BUS_ID_UDP, PUBLIC_PREFIX};
use hybrid_net::agreements::{
    after_timestamp, agreement_ids, collect_agreement_events, get_agreement, owners,
    register_endpoints, terminate_agreement, AgreementError, Endpoint, Handler, HttpReply, Method,
    OwnerType, Timestamp,
};
use hybrid_net::egress::Resolver;
use hybrid_net::node_id::NodeId;
use hybrid_net::relay::{
    build_client_url, read_client_url, relay_addr, relay_socket, relay_socket_text, relay_srv,
    ClientError, RelayError, RelayStep,
};
use hybrid_net::service::{
    broadcast_client, broadcast_outcome, identity_endpoint, on_identity_event, public_addresses,
    start_network, IdentityEvent, Net, NetError, NetworkPlan, Sink, StartError,
};
use hybrid_net::state::State;

fn dns(host: &str, port: &str) -> RelayStep {
    RelayStep::ResolveDns { host: host.to_string(), port: port.to_string() }
}

#[test]
fn bus_prefixes() {
    assert_eq!(BUS_ID, "/net");
    assert_eq!(BUS_ID_UDP, "/udp/net");
    assert_eq!(PUBLIC_PREFIX, "/public");
}

#[test]
fn start_report_decides_the_start() {
    assert_eq!(Net::gsb::<String>(Some(Ok(()))), Ok(()));
    assert_eq!(Net::gsb(Some(Err("bad"))), Err(StartError::Reported("bad")));
    assert_eq!(Net::gsb::<String>(None), Err(StartError::Net(NetError::Start)));
    assert_eq!(NetError::Start.message(), "Error starting network");
}

#[test]
fn shutdown_signals_once() {
    let mut signal = Some(5);
    assert_eq!(Net::shutdown::<&str, ()>(Ok("client")), Some("client"));
    assert_eq!(Net::stop_signal(&mut signal), Some(5));
    assert_eq!(signal, None);
    assert_eq!(Net::shutdown::<&str, ()>(Err(())), None);
    assert_eq!(Net::stop_signal(&mut signal), None);
}

#[test]
fn network_starts_with_four_bindings() {
    let own = NodeId { bytes: [1; 20] };
    let plan: NetworkPlan<u64, u64> = start_network(own, vec![own]);
    let made: Vec<(&str, bool, bool)> = plan
        .bindings
        .iter()
        .map(|b| (b.address.as_str(), b.reliable, matches!(b.resolver, Resolver::Net { .. })))
        .collect();
    assert_eq!(
        made,
        vec![
            ("/udp/net", false, true),
            ("/net", true, true),
            ("/from", true, false),
            ("/udp/from", false, false),
        ]
    );
    assert!(plan.state.is_own(&own));
    assert!(!plan.state.is_own(&NodeId { bytes: [2; 20] }));
    let addr = format!("/net/0x{}/x", "01".repeat(20));
    assert_eq!(plan.state.local_address(&addr), Some("/public/x".to_string()));
}

#[test]
fn public_address_is_counted() {
    assert_eq!(public_addresses(&Some("1.2.3.4:5")), 1);
    assert_eq!(public_addresses::<String>(&None), 0);
}

#[test]
fn identity_changes_reconnect_the_client() {
    assert_eq!(identity_endpoint(), "/net/id");
    for event in [IdentityEvent::AccountLocked, IdentityEvent::AccountUnlocked] {
        let actions = on_identity_event(event, Some("client"));
        assert!(actions.reset_alias_cache);
        assert_eq!(actions.reconnect, Some("client"));
        assert_eq!(on_identity_event::<String>(event, None).reconnect, None);
    }
}

#[test]
fn broadcast_needs_a_client() {
    assert_eq!(broadcast_client(Some(1)), Ok(1));
    let e = broadcast_client::<u8>(None).unwrap_err();
    assert_eq!(e.message(), "network not initialized");
    assert_eq!(broadcast_outcome(Ok(())), Ok(()));
    let e = broadcast_outcome(Err("no route".to_string())).unwrap_err();
    assert_eq!(e.message(), "Broadcast failed: no route");
}

#[test]
fn sink_follows_the_transport() {
    assert_eq!(State::<u64, u64>::forward_sink(Some(1), true), Ok(Sink::Prefixed(1)));
    assert_eq!(State::<u64, u64>::forward_sink(Some(1), false), Ok(Sink::Plain(1)));
    let e = State::<u64, u64>::forward_sink::<u8>(None, true).unwrap_err();
    assert_eq!(e, NetError::NotStarted);
    assert_eq!(e.message(), "network not started");
}

#[test]
fn configured_relay_is_taken() {
    assert_eq!(relay_addr(Some("relay.example:7464".to_string())), dns("relay.example", "7464"));
    assert_eq!(relay_addr(Some("a:b:c".to_string())), dns("a", "b:c"));
    assert_eq!(
        relay_addr(Some("relay.example".to_string())),
        RelayStep::Fail(RelayError::Format)
    );
    assert_eq!(RelayError::Format.message(), "Please use host:port format");
}

#[test]
fn relay_is_found_by_its_record_or_the_default() {
    assert_eq!(
        relay_addr(None),
        RelayStep::ResolveSrv { record: "_net_relay._udp".to_string() }
    );
    assert_eq!(relay_srv::<()>(Ok("10.0.0.1:99".to_string())), dns("10.0.0.1", "99"));
    assert_eq!(relay_srv(Err("timeout")), dns("127.0.0.1", "7464"));
}

#[test]
fn first_socket_is_taken() {
    assert_eq!(relay_socket_text("10.0.0.1", "99"), "10.0.0.1:99");
    let ip = || "10.0.0.1".to_string();
    let port = || "99".to_string();
    assert_eq!(relay_socket(ip(), port(), Ok(vec![4, 5])), Ok(4));
    let e = relay_socket::<u8>(ip(), port(), Ok(vec![])).unwrap_err();
    assert_eq!(e.message(), "Invalid relay address: 10.0.0.1:99");
    let e = relay_socket::<u8>(ip(), port(), Err("no such host".to_string())).unwrap_err();
    assert_eq!(e.message(), "no such host");
}

#[test]
fn relay_url_is_read() {
    assert_eq!(
        build_client_url(Ok("127.0.0.1:7464".to_string())),
        Ok("udp://127.0.0.1:7464".to_string())
    );
    let e = build_client_url(Ok("127.0.0.1:port".to_string())).unwrap_err();
    assert_eq!(e, ClientError::Url("invalid port number".to_string()));
    assert_eq!(e.message(), "invalid port number");
    let e = build_client_url(Err(RelayError::Format)).unwrap_err();
    assert_eq!(
        e.message(),
        "Resolving hybrid NET relay server failed. Error: Please use host:port format"
    );
    assert_eq!(read_client_url(Ok("u".to_string())), Ok("u".to_string()));
    assert_eq!(
        read_client_url(Err("e".to_string())),
        Err(ClientError::Url("e".to_string()))
    );
}

#[test]
fn agreement_endpoints_in_order() {
    assert_eq!(
        register_endpoints(),
        vec![
            Endpoint {
                method: Method::Get,
                path: "/agreementEvents".to_string(),
                handler: Handler::CollectAgreementEvents,
            },
            Endpoint {
                method: Method::Get,
                path: "/agreements/{agreement_id}".to_string(),
                handler: Handler::GetAgreement,
            },
            Endpoint {
                method: Method::Post,
                path: "/agreements/{agreement_id}/terminate".to_string(),
                handler: Handler::TerminateAgreement,
            },
        ]
    );
    assert_eq!(owners(Handler::CollectAgreementEvents), vec![]);
    assert_eq!(
        owners(Handler::GetAgreement),
        vec![OwnerType::Requestor, OwnerType::Provider]
    );
    assert_eq!(owners(Handler::TerminateAgreement), vec![OwnerType::Requestor]);
}

#[test]
fn agreement_of_the_side_that_has_it() {
    let none: Result<&str, ()> = Err(());
    assert_eq!(get_agreement("id", Ok("r"), none), Ok(HttpReply::Json("r")));
    assert_eq!(get_agreement("id", none, Ok("p")), Ok(HttpReply::Json("p")));
    assert_eq!(get_agreement("id", none, none), Err(AgreementError::NotFound("id")));
    assert_eq!(
        get_agreement::<_, _, ()>("id", Ok("r"), Ok("p")),
        Err(AgreementError::Internal("We found ".to_string()))
    );
}

#[test]
fn first_unreadable_agreement_name_is_reported() {
    assert_eq!(agreement_ids::<_, ()>(Ok(1), Ok(2)), Ok((1, 2)));
    assert_eq!(agreement_ids::<u8, _>(Err("r"), Err("p")), Err("r"));
    assert_eq!(agreement_ids(Ok(1), Err("p")), Err("p"));
}

#[test]
fn events_are_collected_from_the_asked_time_on() {
    let asked = Timestamp { secs: 5, nanos: 6 };
    assert_eq!(after_timestamp(Some(asked)), asked);
    let default = after_timestamp(None);
    assert_eq!(default, Timestamp { secs: 1478877120, nanos: 0 });
    let shown = chrono::DateTime::from_timestamp(default.secs, default.nanos).unwrap();
    assert_eq!(shown.to_rfc3339(), "2016-11-11T15:12:00+00:00");
}

#[test]
fn answers_of_the_other_endpoints() {
    assert_eq!(collect_agreement_events::<_, ()>(Ok(3)), Ok(HttpReply::Json(3)));
    assert_eq!(collect_agreement_events::<u8, _>(Err("e")), Err("e"));
    assert_eq!(terminate_agreement::<_, ()>(Ok(3)), Ok(HttpReply::Empty));
    assert_eq!(terminate_agreement::<u8, _>(Err("e")), Err("e"));
}
