use hybrid_net::address::{
    is_from_to_in_bounds, is_net_to_in_bounds, net_service, parse_from_to_addr, parse_net_to_addr,
    AddressError,
};
use hybrid_net::node_id::NodeId;
use hybrid_net::text::{decimal_text, join2, same, split, split_once, strip_prefix};

const A: &str = "0xbabe000000000000000000000000000000000000";
const B: &str = "0x00000000000000000000000000000000000000ff";

fn id_a() -> NodeId {
    let mut bytes = [0u8; 20];
    bytes[0] = 0xba;
    bytes[1] = 0xbe;
    NodeId { bytes }
}

fn id_b() -> NodeId {
    let mut bytes = [0u8; 20];
    bytes[19] = 0xff;
    NodeId { bytes }
}

fn fails_as(addr: &str, text: &str) {
    assert!(is_net_to_in_bounds(addr));
    assert_eq!(parse_net_to_addr(addr).unwrap_err().message(), text);
}

#[test]
fn net_address_resolves_to_itself() {
    let addr = format!("/net/{}/test/1", A);
    let (id, address) = parse_net_to_addr(&addr).unwrap();
    assert_eq!(id, id_a());
    assert_eq!(address, addr);
}

#[test]
fn udp_net_address_resolves_to_itself() {
    let addr = format!("/udp/net/{}/test/1", B);
    let (id, address) = parse_net_to_addr(&addr).unwrap();
    assert_eq!(id, id_b());
    assert_eq!(address, addr);
}

#[test]
fn endpoint_may_be_empty_or_not_ascii() {
    let addr = format!("/net/{}/", A);
    assert_eq!(parse_net_to_addr(&addr).unwrap().1, addr);
    let addr = format!("/net/{}/żółw/é", A);
    assert_eq!(parse_net_to_addr(&addr).unwrap().1, addr);
}

#[test]
fn net_address_needs_an_endpoint() {
    for addr in [
        format!("/net/{}", A),
        format!("/udp/net/{}", A),
        "/net".to_string(),
        "".to_string(),
        format!("/nett/{}/x", A),
        format!("/udp/nett/{}/x", A),
        format!("net/{}/x", A),
    ] {
        fails_as(&addr, &format!("invalid net-to destination: {}", addr));
        assert!(matches!(parse_net_to_addr(&addr), Err(AddressError::NetTo(_))));
    }
}

#[test]
fn node_of_net_address_must_be_readable() {
    fails_as(
        "/net/short/x",
        "NodeId `short` parsing error: expected length is 42 chars",
    );
    fails_as(
        "/net/012345678901234567890123456789012345678912/x",
        "NodeId `012345678901234567890123456789012345678912` parsing error: expected 0x prefix",
    );
    fails_as(
        "/net/0xx000000000000000000000000000000000000000/x",
        "NodeId `0xx000000000000000000000000000000000000000` parsing error: expected hex chars, but got: `x`",
    );
    assert!(matches!(parse_net_to_addr("/net/short/x"), Err(AddressError::Id(_))));
}

#[test]
fn node_is_measured_in_bytes() {
    let node = format!("0x{}é", "0".repeat(38));
    fails_as(
        &format!("/net/{}/x", node),
        &format!("NodeId `{}` parsing error: expected hex chars, but got: `Ã`", node),
    );
}

#[test]
fn upper_case_node_is_read_and_kept() {
    let addr = "/net/0xBABE000000000000000000000000000000000000/x";
    let (id, address) = parse_net_to_addr(addr).unwrap();
    assert_eq!(id, id_a());
    assert_eq!(address, addr);
}

#[test]
fn text_before_the_first_slash_shifts_the_endpoint() {
    let addr = format!("ab/net/{}/xyz", A);
    let (id, address) = parse_net_to_addr(&addr).unwrap();
    assert_eq!(id, id_a());
    assert_eq!(address, format!("/net/{}/0/xyz", A));
}

#[test]
fn cut_inside_a_character_is_out_of_bounds() {
    let addr = format!("a{}/net/{}/x", "é".repeat(30), A);
    assert!(!is_net_to_in_bounds(&addr));
    let addr = format!("{}/net/{}/x", "é".repeat(30), A);
    assert!(is_net_to_in_bounds(&addr));
    let addr = format!("a{}/from/{}/to/{}/x", "é".repeat(40), A, B);
    assert_eq!(is_from_to_in_bounds(&addr), addr.is_char_boundary(52));
    assert!(!is_from_to_in_bounds(&addr));
}

#[test]
fn from_address_leads_to_the_net_address() {
    let addr = format!("/from/{}/to/{}/test/1", A, B);
    let (from, to, address) = parse_from_to_addr(&addr).unwrap();
    assert_eq!(from, id_a());
    assert_eq!(to, id_b());
    assert_eq!(address, format!("/net/{}/test/1", B));
    assert_eq!(parse_net_to_addr(&address).unwrap(), (id_b(), address.clone()));
}

#[test]
fn udp_from_address_leads_to_the_udp_net_address() {
    let addr = format!("/udp/from/{}/to/{}/test/1", A, B);
    let (from, to, address) = parse_from_to_addr(&addr).unwrap();
    assert_eq!(from, id_a());
    assert_eq!(to, id_b());
    assert_eq!(address, format!("/udp/net/{}/test/1", B));
    assert_eq!(parse_net_to_addr(&address).unwrap(), (id_b(), address.clone()));
}

#[test]
fn from_address_needs_both_nodes_and_an_endpoint() {
    for addr in [
        format!("/from/{}/to/{}", A, B),
        format!("/udp/from/{}/to/{}", A, B),
        format!("/from/{}/{}/x/y", A, B),
        format!("/net/{}/x", A),
    ] {
        assert!(is_from_to_in_bounds(&addr));
        let e = parse_from_to_addr(&addr).unwrap_err();
        assert!(matches!(e, AddressError::NetFromTo(_)));
        assert_eq!(e.message(), format!("invalid net-from-to destination: {}", addr));
    }
    let e = parse_from_to_addr(&format!("/from/bad/to/{}/x", B)).unwrap_err();
    assert_eq!(e.message(), "NodeId `bad` parsing error: expected length is 42 chars");
    let e = parse_from_to_addr(&format!("/from/{}/to/worse/x", B)).unwrap_err();
    assert_eq!(e.message(), "NodeId `worse` parsing error: expected length is 42 chars");
}

#[test]
fn identity_text_reads_as_the_outside_type_reads_it() {
    let outside: ya_client_model::NodeId = A.parse().unwrap();
    let (id, _) = parse_net_to_addr(&format!("/net/{}/x", outside)).unwrap();
    assert_eq!(id.bytes, outside.into_array());
}

#[test]
fn service_addresses() {
    assert_eq!(net_service("x"), "/net/x");
    assert_eq!(net_service(""), "/net/");
}

#[test]
fn text_helpers() {
    assert!(same("é", "é"));
    assert!(!same("e", "é"));
    assert_eq!(strip_prefix("żółw", "żó"), Some("łw"));
    assert_eq!(strip_prefix("ab", "abc"), None);
    assert_eq!(strip_prefix("ab", ""), Some("ab"));
    assert_eq!(strip_prefix("ab", "b"), None);
    assert_eq!(split("/a//b", '/'), vec!["", "a", "", "b"]);
    assert_eq!(split("", '/'), vec![""]);
    assert_eq!(split("a/", '/'), vec!["a", ""]);
    assert_eq!(split_once("h:p:q", ':'), Some(("h", "p:q")));
    assert_eq!(split_once("h", ':'), None);
    assert_eq!(join2("a", "é"), "aé");
}

#[test]
fn numbers_in_decimal() {
    for n in [0, 7, 9, 10, 99, 100, 12345, 9007199254740991, u64::MAX] {
        assert_eq!(decimal_text(n), n.to_string());
    }
}

#[test]
fn transport_prefix_keeps_acceptance_and_destination() {
    let upper = format!("0x{}", "AB".repeat(20));
    for addr in [format!("/net/{}/x", A), format!("/net/{}/x/y", upper), "/net/a/x".to_string()] {
        let plain = parse_net_to_addr(&addr).ok().map(|(id, _)| id);
        let udp = parse_net_to_addr(&format!("/udp{}", addr)).ok().map(|(id, _)| id);
        assert_eq!(plain, udp);
    }
}

#[test]
fn from_address_keeps_the_spelling_of_the_destination() {
    let upper = format!("0x{}", "FF".repeat(20));
    let (from, to, address) = parse_from_to_addr(&format!("/from/{}/to/{}/x/", A, upper)).unwrap();
    assert_eq!(from, id_a());
    assert_eq!(to, NodeId { bytes: [0xff; 20] });
    assert_eq!(address, format!("/net/{}/x/", upper));
}
