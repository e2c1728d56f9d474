use hybrid_net::egress::{
    forward_bus_to_local, forward_bus_to_net, forward_outcome, gen_id, id_of_random, is_readable,
    new_request, plan_call, request_of_id, resolve, CallPlan, LocalForward, NetForward, Resolver,
    SendOutcome, MAX_ID,
};
use hybrid_net::ingress::{
    broadcast_endpoints, encoded_delivery, forward_channel, forward_handler, forward_sent,
    handle_broadcast, handle_reply, handle_request, inbound_handler, prefixed_message, CallSource,
    ForwardStep, Framing, InboundAction, IngressError, ReplyDelivery,
};
use hybrid_net::message::{
    error_chunk, handler_reply_bad_request, handler_reply_service_err, BroadcastRequest, BusError,
    CallReply, CallRequest, ErrorReply, GsbMessage, ResponseChunk,
};
use hybrid_net::node_id::NodeId;
use hybrid_net::state::{network_services, RouteKey, State};

const OWN: &str = "0x0101010101010101010101010101010101010101";
const OWN_2: &str = "0x0202020202020202020202020202020202020202";
const REMOTE: &str = "0xabababababababababababababababababababab";
const STRANGER: &str = "0xcccccccccccccccccccccccccccccccccccccccc";

fn id(b: u8) -> NodeId {
    NodeId { bytes: [b; 20] }
}

fn state() -> State<u64, u64> {
    let ids = vec![id(1), id(2)];
    let services = network_services(&ids);
    State::new(ids, services)
}

fn net() -> Resolver {
    Resolver::Net { default_id: id(1) }
}

fn reply(request_id: &str, code: i32, reply_type: i32, data: &[u8]) -> CallReply {
    CallReply {
        request_id: request_id.to_string(),
        code,
        reply_type,
        data: data.to_vec(),
    }
}

fn with_request(tx: u64) -> State<u64, u64> {
    let mut state = state();
    let request = request_of_id(17, id(1), "/net/x/y".to_string(), vec![]);
    forward_bus_to_net(&mut state, request, id(0xab), Ok(vec![]), tx);
    state
}

#[test]
fn served_addresses_of_identities() {
    assert_eq!(
        network_services(&vec![id(1), id(0xab)]),
        vec![
            format!("/udp/net/{}", OWN),
            format!("/net/{}", OWN),
            format!("/udp/net/{}", REMOTE),
            format!("/net/{}", REMOTE),
        ]
    );
}

#[test]
fn call_to_own_identity_reaches_the_public_endpoint() {
    let state = state();
    for addr in [format!("/net/{}/test/1", OWN_2), format!("/udp/net/{}/test/1", OWN_2)] {
        match plan_call(&net(), &state, &addr, true) {
            CallPlan::Local { caller, address } => {
                assert_eq!(caller, OWN);
                assert_eq!(address, addr);
            }
            other => panic!("{:?}", other),
        }
        match forward_bus_to_local(&state, &addr) {
            LocalForward::Call { address } => assert_eq!(address, "/public/test/1"),
            other => panic!("{:?}", other),
        }
    }
}

#[test]
fn only_the_start_of_an_address_is_replaced() {
    let state = state();
    let addr = format!("/net/{}/net/{}/x", OWN, OWN);
    match forward_bus_to_local(&state, &addr) {
        LocalForward::Call { address } => assert_eq!(address, format!("/public/net/{}/x", OWN)),
        other => panic!("{:?}", other),
    }
}

#[test]
fn unknown_local_address_is_a_bad_request() {
    let state = state();
    let addr = format!("/net/{}/x", REMOTE);
    match forward_bus_to_local(&state, &addr) {
        LocalForward::Reply(e) => assert_eq!(
            e,
            ErrorReply {
                request_id: "unknown".to_string(),
                error: format!("unknown address: {}", addr),
                code: 400,
            }
        ),
        other => panic!("{:?}", other),
    }
}

#[test]
fn own_identity_in_upper_case_is_not_served() {
    let ids = vec![id(0xab)];
    let services = network_services(&ids);
    let state: State<u64, u64> = State::new(ids, services);
    let addr = format!("/net/0x{}/x", "AB".repeat(20));
    assert!(matches!(plan_call(&net(), &state, &addr, true), CallPlan::Local { .. }));
    assert!(matches!(forward_bus_to_local(&state, &addr), LocalForward::Reply(_)));
}

#[test]
fn call_to_another_node_goes_out() {
    let state = state();
    let addr = format!("/udp/net/{}/test/1", REMOTE);
    match plan_call(&net(), &state, &addr, false) {
        CallPlan::Net { call, reliable } => {
            assert_eq!(call.caller_id, id(1));
            assert_eq!(call.remote_id, id(0xab));
            assert_eq!(call.address, addr);
            assert!(!reliable);
        }
        other => panic!("{:?}", other),
    }
}

#[test]
fn call_on_behalf_of_an_identity_goes_out_in_its_name() {
    let state = state();
    let addr = format!("/from/{}/to/{}/test/1", OWN_2, REMOTE);
    match plan_call(&Resolver::From, &state, &addr, true) {
        CallPlan::Net { call, reliable } => {
            assert_eq!(call.caller_id, id(2));
            assert_eq!(call.remote_id, id(0xab));
            assert_eq!(call.address, format!("/net/{}/test/1", REMOTE));
            assert!(reliable);
        }
        other => panic!("{:?}", other),
    }
}

#[test]
fn call_on_behalf_of_a_stranger_is_refused() {
    let state = state();
    let addr = format!("/from/{}/to/{}/test/1", STRANGER, REMOTE);
    match plan_call(&Resolver::From, &state, &addr, true) {
        CallPlan::Fail(e) => assert_eq!(
            e,
            BusError::GsbFailure(format!("unknown identity: {}", STRANGER))
        ),
        other => panic!("{:?}", other),
    }
    assert_eq!(
        resolve(&Resolver::From, &state, &addr).unwrap_err().message(),
        format!("unknown identity: {}", STRANGER)
    );
}

#[test]
fn call_on_behalf_of_an_identity_to_an_own_one_is_unknown() {
    let state = state();
    let addr = format!("/from/{}/to/{}/test/1", OWN, OWN_2);
    assert!(matches!(plan_call(&Resolver::From, &state, &addr, true), CallPlan::Local { .. }));
    assert!(matches!(forward_bus_to_local(&state, &addr), LocalForward::Reply(_)));
}

#[test]
fn unreadable_address_fails_the_call() {
    let state = state();
    assert!(is_readable(&net(), "/net/x"));
    match plan_call(&net(), &state, "/net/x", true) {
        CallPlan::Fail(e) => assert_eq!(
            e,
            BusError::GsbFailure("invalid address: invalid net-to destination: /net/x".to_string())
        ),
        other => panic!("{:?}", other),
    }
    match plan_call(&Resolver::From, &state, "/from/x", true) {
        CallPlan::Fail(e) => assert_eq!(
            e,
            BusError::GsbFailure(
                "invalid address: invalid net-from-to destination: /from/x".to_string()
            )
        ),
        other => panic!("{:?}", other),
    }
}

#[test]
fn request_numbers() {
    assert_eq!(id_of_random(u64::MAX), 9007199254740991);
    assert_eq!(id_of_random(0x0020_0000_0000_0005), 5);
    let drawn: Vec<u64> = (0..64).map(|_| gen_id()).collect();
    assert!(drawn.iter().all(|n| *n <= MAX_ID));
    assert!(drawn.iter().any(|n| *n != drawn[0]));
}

#[test]
fn new_requests_carry_their_number() {
    let request = new_request(id(3), "/net/a/b".to_string(), vec![1, 2]);
    assert_eq!(request.caller_id, id(3));
    assert_eq!(request.address, "/net/a/b");
    assert_eq!(request.data, vec![1, 2]);
    let number: u64 = request.request_id.parse().unwrap();
    assert!(number <= MAX_ID);
    assert_eq!(number.to_string(), request.request_id);
    let request = request_of_id(42, id(3), String::new(), vec![]);
    assert_eq!(request.request_id, "42");
}

#[test]
fn sent_request_waits_for_its_reply() {
    let mut state = state();
    let request = request_of_id(5, id(1), "/net/a/b".to_string(), vec![9]);
    match forward_bus_to_net(&mut state, request, id(0xab), Ok(vec![1, 2, 3]), 70) {
        NetForward::Send { message } => assert_eq!(message, vec![1, 2, 3]),
        other => panic!("{:?}", other),
    }
    let waiting = state.request(&"5".to_string()).unwrap();
    assert_eq!(waiting.caller_id, id(1));
    assert_eq!(waiting.remote_id, id(0xab));
    assert_eq!(waiting.address, "/net/a/b");
    assert_eq!(waiting.tx, 70);
}

#[test]
fn request_that_cannot_be_encoded_is_not_kept() {
    let mut state = state();
    let request = request_of_id(5, id(1), "/net/a/b".to_string(), vec![]);
    match forward_bus_to_net(&mut state, request, id(0xab), Err("too big".to_string()), 70) {
        NetForward::Reply(e) => assert_eq!(
            e,
            ErrorReply {
                request_id: "5".to_string(),
                error: "Invalid request: too big".to_string(),
                code: 400,
            }
        ),
        other => panic!("{:?}", other),
    }
    assert!(state.request(&"5".to_string()).is_none());
}

#[test]
fn failed_sending_is_reported() {
    assert!(forward_outcome("5".to_string(), SendOutcome::Sent).is_none());
    assert_eq!(
        forward_outcome("5".to_string(), SendOutcome::SessionClosed),
        Some(ErrorReply {
            request_id: "5".to_string(),
            error: "error sending message: session closed".to_string(),
            code: 500,
        })
    );
    assert_eq!(
        forward_outcome("5".to_string(), SendOutcome::NoSink("gone".to_string())),
        Some(ErrorReply {
            request_id: "5".to_string(),
            error: "error forwarding message: gone".to_string(),
            code: 500,
        })
    );
}

#[test]
fn error_replies_have_the_codes_of_the_protocol() {
    let bad = handler_reply_bad_request("1".to_string(), "e".to_string());
    assert_eq!(bad.code, ya_sb_proto::CallReplyCode::CallReplyBadRequest as i32);
    assert_eq!(bad.code, 400);
    let failed = handler_reply_service_err("1".to_string(), "e".to_string());
    assert_eq!(failed.code, ya_sb_proto::CallReplyCode::ServiceFailure as i32);
    assert_eq!(failed.code, 500);
    assert_eq!(error_chunk(vec![1]), ResponseChunk::Full(vec![1]));
}

#[test]
fn full_reply_goes_to_the_caller_once() {
    let mut state = with_request(70);
    match handle_reply(reply("17", 0, 0, &[1, 2]), id(0xab), &mut state) {
        Ok(ReplyDelivery::Send { tx, chunk }) => {
            assert_eq!(tx, 70);
            assert_eq!(chunk, ResponseChunk::Full(vec![1, 2]));
        }
        _ => panic!("no chunk"),
    }
    match handle_reply(reply("17", 0, 0, &[1, 2]), id(0xab), &mut state) {
        Err(e) => assert_eq!(e.message(), "invalid reply request id: 17"),
        Ok(_) => panic!("second reply"),
    }
}

#[test]
fn partial_replies_keep_the_request_waiting() {
    let mut state = with_request(70);
    for i in 0..3u8 {
        match handle_reply(reply("17", 0, 1, &[i]), id(0xab), &mut state) {
            Ok(ReplyDelivery::Send { tx, chunk }) => {
                assert_eq!(tx, 70);
                assert_eq!(chunk, ResponseChunk::Part(vec![i]));
            }
            _ => panic!("no chunk"),
        }
    }
    assert!(state.request(&"17".to_string()).is_some());
}

#[test]
fn reply_of_another_node_is_refused() {
    let mut state = with_request(70);
    match handle_reply(reply("17", 0, 0, &[1]), id(0xcc), &mut state) {
        Err(e) => {
            assert_eq!(e, IngressError::InvalidReplyCaller("17".to_string()));
            assert_eq!(e.message(), "invalid caller for request id: 17");
        }
        Ok(_) => panic!("accepted"),
    }
    assert!(state.request(&"17".to_string()).is_some());
}

#[test]
fn failure_reply_is_encoded_for_the_caller() {
    let mut state = with_request(70);
    match handle_reply(reply("17", 500, 0, &[4]), id(0xab), &mut state) {
        Ok(ReplyDelivery::Encode { tx, full, reply: r }) => {
            assert_eq!(tx, 70);
            assert!(full);
            assert_eq!(r, reply("17", 500, 0, &[4]));
        }
        _ => panic!("not encoded"),
    }
    assert!(state.request(&"17".to_string()).is_none());
    assert_eq!(
        encoded_delivery::<()>(true, Ok(vec![1])),
        Ok(ResponseChunk::Full(vec![1]))
    );
    assert_eq!(
        encoded_delivery::<()>(false, Ok(vec![1])),
        Ok(ResponseChunk::Part(vec![1]))
    );
    let e = encoded_delivery(true, Err("x")).unwrap_err();
    assert_eq!(e.message(), "unable to encode reply");
}

#[test]
fn reply_leaves_other_requests_alone() {
    let mut state = with_request(70);
    let request = request_of_id(18, id(1), String::new(), vec![]);
    forward_bus_to_net(&mut state, request, id(0xcc), Ok(vec![]), 71);
    assert!(handle_reply(reply("17", 0, 0, &[]), id(0xab), &mut state).is_ok());
    assert_eq!(state.request(&"18".to_string()).unwrap().tx, 71);
}

fn call(caller: &str, address: &str) -> CallRequest {
    CallRequest {
        caller: caller.to_string(),
        address: address.to_string(),
        request_id: "r1".to_string(),
        data: vec![7],
    }
}

#[test]
fn remote_call_reaches_the_public_endpoint() {
    let state = state();
    let request = call(REMOTE, &format!("/net/{}/test/1", OWN));
    let accepted = handle_request(request, id(0xab), &state, false).unwrap();
    assert_eq!(accepted.caller_id, id(0xab));
    assert!(!accepted.reliable);
    assert_eq!(accepted.replies.request_id, "r1");
    match accepted.source {
        CallSource::Local { address, caller, data } => {
            assert_eq!(address, "/public/test/1");
            assert_eq!(caller, REMOTE);
            assert_eq!(data, vec![7]);
        }
        other => panic!("{:?}", other),
    }
}

#[test]
fn call_that_goes_out_reaches_the_called_node() {
    let ids = vec![id(0xab)];
    let called: State<u64, u64> = State::new(ids.clone(), network_services(&ids));
    let addr = format!("/udp/net/{}/test/1", REMOTE);
    let planned = match plan_call(&net(), &state(), &addr, false) {
        CallPlan::Net { call, .. } => call,
        other => panic!("{:?}", other),
    };
    let inbound = handle_request(call(OWN, &planned.address), planned.caller_id, &called, false);
    match inbound.ok().map(|c| (c.caller_id, c.source)) {
        Some((caller_id, CallSource::Local { address, caller, .. })) => {
            assert_eq!(caller_id, id(1));
            assert_eq!(address, "/public/test/1");
            assert_eq!(caller, OWN);
        }
        other => panic!("{:?}", other),
    }
}

#[test]
fn remote_call_to_an_unknown_address_is_answered() {
    let state = state();
    let accepted = handle_request(call(REMOTE, "/private/x"), id(0xab), &state, true).unwrap();
    assert!(accepted.reliable);
    match accepted.source {
        CallSource::Reject(e) => assert_eq!(
            e,
            BusError::GsbBadRequest("unknown address: /private/x".to_string())
        ),
        other => panic!("{:?}", other),
    }
}

#[test]
fn remote_call_in_another_name_is_refused() {
    let state = state();
    for caller in [STRANGER, "nobody", ""] {
        let request = call(caller, &format!("/net/{}/test/1", OWN));
        match handle_request(request, id(0xab), &state, true) {
            Err(e) => assert_eq!(e.message(), format!("invalid caller id: {}", caller)),
            Ok(_) => panic!("accepted"),
        }
    }
}

fn broadcast(caller: &str) -> BroadcastRequest {
    BroadcastRequest {
        caller: caller.to_string(),
        data: vec![1],
        topic: "offers".to_string(),
    }
}

#[test]
fn broadcast_is_handed_on_under_the_written_identity() {
    let upper = format!("0x{}", "AB".repeat(20));
    let b = handle_broadcast(broadcast(&upper), id(0xab)).unwrap();
    assert_eq!(b.caller, REMOTE);
    assert_eq!(b.topic, "offers");
    assert_eq!(b.data, vec![1]);
}

#[test]
fn broadcast_in_another_name_is_refused() {
    let e = handle_broadcast(broadcast(STRANGER), id(0xab)).unwrap_err();
    assert_eq!(e.message(), format!("invalid broadcast caller id: {}", STRANGER));
}

#[test]
fn broadcast_goes_to_subscribed_endpoints_with_handlers() {
    let names = |list: &[&str]| list.iter().map(|s| s.to_string()).collect::<Vec<String>>();
    assert_eq!(
        broadcast_endpoints(&names(&["c", "a", "b", "a"]), &names(&["a", "x", "c"])),
        names(&["c", "a", "a"])
    );
    assert_eq!(broadcast_endpoints(&names(&["c"]), &names(&[])), names(&[]));
}

#[test]
fn messages_are_told_apart() {
    let mut state = with_request(70);
    let request = call(REMOTE, &format!("/net/{}/test/1", OWN));
    assert!(matches!(
        inbound_handler(Ok(Some(GsbMessage::CallRequest(request))), id(0xab), true, &mut state),
        Ok(InboundAction::Call(_))
    ));
    assert!(matches!(
        inbound_handler(
            Ok(Some(GsbMessage::BroadcastRequest(broadcast(REMOTE)))),
            id(0xab),
            true,
            &mut state
        ),
        Ok(InboundAction::Broadcast(_))
    ));
    assert!(matches!(
        inbound_handler(Ok(None), id(0xab), true, &mut state),
        Ok(InboundAction::Partial)
    ));
    match inbound_handler(Ok(Some(GsbMessage::Other)), id(0xab), true, &mut state) {
        Err(e) => assert_eq!(e.message(), "unexpected message type"),
        Ok(_) => panic!("accepted"),
    }
    match inbound_handler(Err("cut short".to_string()), id(0xab), true, &mut state) {
        Err(e) => assert_eq!(e.message(), "received message error: cut short"),
        Ok(_) => panic!("accepted"),
    }
    assert!(state.request(&"17".to_string()).is_some());
    assert!(matches!(
        inbound_handler(
            Ok(Some(GsbMessage::CallReply(reply("17", 0, 0, &[])))),
            id(0xab),
            true,
            &mut state
        ),
        Ok(InboundAction::Reply(_))
    ));
    assert!(state.request(&"17".to_string()).is_none());
}

#[test]
fn routes_are_opened_used_and_closed() {
    let mut state = state();
    let key = RouteKey { node_id: id(0xab), reliable: true };
    let udp = RouteKey { node_id: id(0xab), reliable: false };
    assert_eq!(forward_handler(&state, &key), ForwardStep::Open(Framing::Prefixed));
    assert_eq!(forward_handler(&state, &udp), ForwardStep::Open(Framing::Plain));
    state.open_route(key, 3);
    assert_eq!(forward_handler(&state, &key), ForwardStep::Deliver(3));
    assert_eq!(forward_handler(&state, &udp), ForwardStep::Open(Framing::Plain));
    forward_sent(&mut state, &key, true);
    assert_eq!(forward_handler(&state, &key), ForwardStep::Deliver(3));
    state.open_route(key, 4);
    assert_eq!(forward_handler(&state, &key), ForwardStep::Deliver(4));
    forward_sent(&mut state, &key, false);
    assert_eq!(forward_handler(&state, &key), ForwardStep::Open(Framing::Prefixed));
}

#[test]
fn framing_follows_the_transport() {
    assert_eq!(forward_channel(true), Framing::Prefixed);
    assert_eq!(forward_channel(false), Framing::Plain);
    assert_eq!(prefixed_message::<()>(Ok(vec![1])), Some(vec![1]));
    assert_eq!(prefixed_message(Err("cut")), None);
}

#[test]
fn packets_of_a_run_go_to_their_own_routes() {
    let mut state = state();
    let key = |node: u8, reliable: bool| RouteKey { node_id: id(node), reliable };
    // node, transport, whether the packet gets through, and the stream it goes to
    let run = [
        (7, true, true, 0),
        (8, true, true, 1),
        (7, true, true, 0),
        (7, false, true, 3),
        (7, true, false, 0),
        (8, true, true, 1),
        (7, true, true, 6),
        (7, true, true, 6),
    ];
    for (i, (node, reliable, reached, stream)) in run.into_iter().enumerate() {
        let key = key(node, reliable);
        let tx = match forward_handler(&state, &key) {
            ForwardStep::Deliver(tx) => tx,
            ForwardStep::Open(framing) => {
                assert_eq!(framing, forward_channel(reliable));
                state.open_route(key, i as u64);
                i as u64
            }
        };
        assert_eq!(tx, stream);
        forward_sent(&mut state, &key, reached);
    }
}

#[test]
fn failed_cuts_are_passed_over() {
    let cuts = vec![Ok(vec![1]), Err("cut"), Ok(vec![]), Ok(vec![2, 3]), Err("cut")];
    let messages: Vec<Vec<u8>> = cuts.into_iter().filter_map(prefixed_message).collect();
    assert_eq!(messages, vec![vec![1], vec![], vec![2, 3]]);
}
