//! Bus addresses of remote nodes.
//!
//! A call to a remote node is addressed as `/net/<node>/<endpoint>`, or, on
//! behalf of a chosen identity, as `/from/<node>/to/<node>/<endpoint>`. Either
//! form takes the prefix `/udp` where the unreliable transport is wanted.

use vstd::prelude::*;
use vstd::string::*;
use vstd::utf8::*;

use crate::node_id::{parse_node_id, NodeId};
use crate::text;

verus! {

/// Bus prefix of remote nodes.
pub const BUS_ID: &'static str = "/net";

/// Bus prefix of remote nodes over the unreliable transport.
pub const BUS_ID_UDP: &'static str = "/udp/net";

/// Bus prefix of the endpoints that other nodes may call.
pub const PUBLIC_PREFIX: &'static str = "/public";

/// Why an address cannot be resolved to a node.
#[derive(Debug)]
pub enum AddressError {
    /// No `/net/<node>/<endpoint>` address.
    NetTo(String),
    /// No `/from/<node>/to/<node>/<endpoint>` address.
    NetFromTo(String),
    /// A node that cannot be read, with the reason.
    Id(String),
}

/// Model of `AddressError`.
pub enum AddressFailure {
    NetTo(Seq<char>),
    NetFromTo(Seq<char>),
    Id(Seq<char>),
}

impl View for AddressError {
    type V = AddressFailure;

    open spec fn view(&self) -> AddressFailure {
        match self {
            AddressError::NetTo(a) => AddressFailure::NetTo(a@),
            AddressError::NetFromTo(a) => AddressFailure::NetFromTo(a@),
            AddressError::Id(e) => AddressFailure::Id(e@),
        }
    }
}

impl AddressFailure {
    /// The failure in words.
    pub open spec fn message(self) -> Seq<char> {
        match self {
            AddressFailure::NetTo(a) => "invalid net-to destination: "@ + a,
            AddressFailure::NetFromTo(a) => "invalid net-from-to destination: "@ + a,
            AddressFailure::Id(e) => e,
        }
    }
}

impl AddressError {
    /// The failure in words.
    pub fn message(&self) -> (r: String)
        ensures
            r@ == self@.message(),
    {
        match self {
            AddressError::NetTo(a) => text::join2("invalid net-to destination: ", a.as_str()),
            AddressError::NetFromTo(a) => text::join2(
                "invalid net-from-to destination: ",
                a.as_str(),
            ),
            AddressError::Id(e) => e.clone(),
        }
    }
}

/// The address of `service` on the network.
pub open spec fn net_service_of(service: Seq<char>) -> Seq<char> {
    BUS_ID@ + "/"@ + service
}

/// The address of `service` on the network.
pub fn net_service(service: &str) -> (r: String)
    ensures
        r@ == net_service_of(service@),
{
    text::join3(BUS_ID, "/", service)
}

/// Transport prefix and node of the parts of a `/net` address: the parts
/// `net`, node and at least one more, behind the part `udp` where there is a
/// transport prefix. What stands before the first `/` is not looked at.
pub open spec fn net_to_parts(parts: Seq<Seq<char>>) -> Option<(Seq<char>, Seq<char>)> {
    if parts.len() >= 5 && parts[1] == "udp"@ && parts[2] == "net"@ {
        Some(("/udp"@, parts[3]))
    } else if parts.len() >= 4 && parts[1] == "net"@ {
        Some((""@, parts[2]))
    } else {
        None
    }
}

/// Transport prefix, sender and destination of the parts of a `/from` address.
pub open spec fn from_to_parts(parts: Seq<Seq<char>>) -> Option<
    (Seq<char>, Seq<char>, Seq<char>),
> {
    if parts.len() >= 7 && parts[1] == "udp"@ && parts[2] == "from"@ && parts[4] == "to"@ {
        Some(("/udp"@, parts[3], parts[5]))
    } else if parts.len() >= 6 && parts[1] == "from"@ && parts[3] == "to"@ {
        Some((""@, parts[2], parts[4]))
    } else {
        None
    }
}

/// Bytes of a `/net` address up to its endpoint.
pub open spec fn net_to_skip(prefix: Seq<char>, to: Seq<char>) -> nat {
    encode_utf8(prefix).len() + 6 + encode_utf8(to).len()
}

/// Bytes of a `/from` address up to its destination.
pub open spec fn from_to_skip(prefix: Seq<char>, from: Seq<char>) -> nat {
    encode_utf8(prefix).len() + 10 + encode_utf8(from).len()
}

/// `addr` begins with `/`, as every address on the bus does.
pub open spec fn rooted(addr: Seq<char>) -> bool {
    addr.len() > 0 && addr[0] == '/'
}

/// The endpoint of `addr` starts where a character starts. It does in every
/// address that begins with `/`: see `law_net_to_in_bounds`.
pub open spec fn net_to_in_bounds(addr: Seq<char>) -> bool {
    match net_to_parts(text::segments(addr, '/')) {
        Some((prefix, to)) => crate::node_id::id_of_text(to) is Ok ==> text::sliceable(
            addr,
            net_to_skip(prefix, to) as int,
        ),
        None => true,
    }
}

/// The destination of `addr` starts where a character starts. It does in every
/// address that begins with `/`: see `law_from_to_in_bounds`.
pub open spec fn from_to_in_bounds(addr: Seq<char>) -> bool {
    match from_to_parts(text::segments(addr, '/')) {
        Some((prefix, from, to)) => {
            crate::node_id::id_of_text(from) is Ok && crate::node_id::id_of_text(to) is Ok
                ==> text::sliceable(addr, from_to_skip(prefix, from) as int)
        },
        None => true,
    }
}

/// The node that a `/net` address names and the address to call there.
pub open spec fn net_to_of(addr: Seq<char>) -> Result<(Seq<u8>, Seq<char>), AddressFailure> {
    match net_to_parts(text::segments(addr, '/')) {
        None => Err(AddressFailure::NetTo(addr)),
        Some((prefix, to)) => match crate::node_id::id_of_text(to) {
            Err(e) => Err(AddressFailure::Id(e)),
            Ok(id) => Ok(
                (
                    id,
                    prefix + net_service_of(
                        to + "/"@ + text::byte_suffix(addr, net_to_skip(prefix, to) as int),
                    ),
                ),
            ),
        },
    }
}

/// The sender and the destination that a `/from` address names, and the
/// address to call at the destination.
pub open spec fn from_to_of(addr: Seq<char>) -> Result<
    (Seq<u8>, Seq<u8>, Seq<char>),
    AddressFailure,
> {
    match from_to_parts(text::segments(addr, '/')) {
        None => Err(AddressFailure::NetFromTo(addr)),
        Some((prefix, from, to)) => match crate::node_id::id_of_text(from) {
            Err(e) => Err(AddressFailure::Id(e)),
            Ok(from_id) => match crate::node_id::id_of_text(to) {
                Err(e) => Err(AddressFailure::Id(e)),
                Ok(to_id) => Ok(
                    (
                        from_id,
                        to_id,
                        prefix + net_service_of(
                            text::byte_suffix(addr, from_to_skip(prefix, from) as int),
                        ),
                    ),
                ),
            },
        },
    }
}

/// View of a parsed `/net` address.
pub open spec fn net_to_result(r: Result<(NodeId, String), AddressError>) -> Result<
    (Seq<u8>, Seq<char>),
    AddressFailure,
> {
    match r {
        Ok((id, a)) => Ok((id@, a@)),
        Err(e) => Err(e@),
    }
}

/// View of a parsed `/from` address.
pub open spec fn from_to_result(r: Result<(NodeId, NodeId, String), AddressError>) -> Result<
    (Seq<u8>, Seq<u8>, Seq<char>),
    AddressFailure,
> {
    match r {
        Ok((from, to, a)) => Ok((from@, to@, a@)),
        Err(e) => Err(e@),
    }
}

pub proof fn lemma_prefixes()
    ensures
        encode_utf8("/udp"@).len() == 4,
        encode_utf8(""@).len() == 0,
{
    reveal_strlit("/udp");
    reveal_strlit("");
    is_ascii_chars_encode_utf8("/udp"@);
}

/// What is left of `addr` behind its first `skip` bytes.
fn slice_from<'a>(addr: &'a str, skip: usize) -> (r: &'a str)
    requires
        text::sliceable(addr@, skip as int),
    ensures
        r@ == text::byte_suffix(addr@, skip as int),
{
    let (_, rest): (&'a str, &'a str) = addr.split_at(skip);
    proof {
        encode_utf8_decode_utf8(rest@);
    }
    rest
}

/// Transport prefix and node of a `/net` address.
fn net_to_route<'a>(addr: &'a str) -> (r: Option<(&'static str, &'a str)>)
    ensures
        match net_to_parts(text::segments(addr@, '/')) {
            Some((prefix, to)) => r matches Some((p, t)) && p@ == prefix && t@ == to,
            None => r is None,
        },
{
    let parts: Vec<&'a str> = text::split(addr, '/');
    let n: usize = parts.len();
    if n >= 5 && text::same(parts[1], "udp") && text::same(parts[2], "net") {
        Some(("/udp", parts[3]))
    } else if n >= 4 && text::same(parts[1], "net") {
        Some(("", parts[2]))
    } else {
        None
    }
}

/// Transport prefix, sender and destination of a `/from` address.
fn from_to_route<'a>(addr: &'a str) -> (r: Option<(&'static str, &'a str, &'a str)>)
    ensures
        match from_to_parts(text::segments(addr@, '/')) {
            Some((prefix, from, to)) => r matches Some((p, f, t)) && p@ == prefix && f@ == from
                && t@ == to,
            None => r is None,
        },
{
    let parts: Vec<&'a str> = text::split(addr, '/');
    let n: usize = parts.len();
    if n >= 7 && text::same(parts[1], "udp") && text::same(parts[2], "from") && text::same(
        parts[4],
        "to",
    ) {
        Some(("/udp", parts[3], parts[5]))
    } else if n >= 6 && text::same(parts[1], "from") && text::same(parts[3], "to") {
        Some(("", parts[2], parts[4]))
    } else {
        None
    }
}

/// Whether `parse_net_to_addr` can cut the endpoint out of `addr`.
pub fn is_net_to_in_bounds(addr: &str) -> (r: bool)
    ensures
        r == net_to_in_bounds(addr@),
{
    match net_to_route(addr) {
        Some((prefix, to)) => match parse_node_id(to) {
            Ok(_) => {
                proof {
                    lemma_prefixes();
                }
                addr.is_char_boundary(prefix.len() + 6 + to.len())
            },
            Err(_) => true,
        },
        None => true,
    }
}

/// Whether `parse_from_to_addr` can cut the destination out of `addr`.
pub fn is_from_to_in_bounds(addr: &str) -> (r: bool)
    ensures
        r == from_to_in_bounds(addr@),
{
    match from_to_route(addr) {
        Some((prefix, from, to)) => match (parse_node_id(from), parse_node_id(to)) {
            (Ok(_), Ok(_)) => {
                proof {
                    lemma_prefixes();
                }
                addr.is_char_boundary(prefix.len() + 10 + from.len())
            },
            _ => true,
        },
        None => true,
    }
}

/// Reads a `/net/<node>/<endpoint>` address.
pub fn parse_net_to_addr(addr: &str) -> (r: Result<(NodeId, String), AddressError>)
    requires
        rooted(addr@) || net_to_in_bounds(addr@),
    ensures
        net_to_result(r) == net_to_of(addr@),
{
    let (prefix, to): (&'static str, &str) = match net_to_route(addr) {
        Some(route) => route,
        None => return Err(AddressError::NetTo(addr.to_owned())),
    };
    let to_id: NodeId = match parse_node_id(to) {
        Ok(id) => id,
        Err(e) => return Err(AddressError::Id(e)),
    };
    proof {
        lemma_prefixes();
        if rooted(addr@) {
            law_net_to_in_bounds(addr@);
        }
    }
    let skip: usize = prefix.len() + 6 + to.len();
    let service: String = text::join3(to, "/", slice_from(addr, skip));
    let address: String = net_service(service.as_str());
    Ok((to_id, text::join2(prefix, address.as_str())))
}

/// Reads a `/from/<node>/to/<node>/<endpoint>` address.
pub fn parse_from_to_addr(addr: &str) -> (r: Result<(NodeId, NodeId, String), AddressError>)
    requires
        rooted(addr@) || from_to_in_bounds(addr@),
    ensures
        from_to_result(r) == from_to_of(addr@),
{
    let (prefix, from, to): (&'static str, &str, &str) = match from_to_route(addr) {
        Some(route) => route,
        None => return Err(AddressError::NetFromTo(addr.to_owned())),
    };
    let from_id: NodeId = match parse_node_id(from) {
        Ok(id) => id,
        Err(e) => return Err(AddressError::Id(e)),
    };
    let to_id: NodeId = match parse_node_id(to) {
        Ok(id) => id,
        Err(e) => return Err(AddressError::Id(e)),
    };
    proof {
        lemma_prefixes();
        if rooted(addr@) {
            law_from_to_in_bounds(addr@);
        }
    }
    let skip: usize = prefix.len() + 10 + from.len();
    let address: String = net_service(slice_from(addr, skip));
    Ok((from_id, to_id, text::join2(prefix, address.as_str())))
}

/// One part taken off the front of the parts from `k` on.
proof fn lemma_joined_step(parts: Seq<Seq<char>>, k: int)
    requires
        0 <= k,
        k + 1 < parts.len(),
    ensures
        text::joined(parts.skip(k), '/') == parts[k] + seq!['/'] + text::joined(
            parts.skip(k + 1),
            '/',
        ),
{
    assert(parts.skip(k).drop_first() =~= parts.skip(k + 1));
}

/// The part before a leading `/` is empty.
proof fn lemma_leading_slash(addr: Seq<char>)
    requires
        rooted(addr),
    ensures
        text::segments(addr, '/').len() >= 2,
        text::segments(addr, '/')[0] == Seq::<char>::empty(),
        addr == text::joined(text::segments(addr, '/').skip(0), '/'),
{
    let parts = text::segments(addr, '/');
    text::lemma_segments_nonempty(addr.skip(1), '/');
    text::lemma_joined_segments(addr, '/');
    assert(parts[0] =~= Seq::<char>::empty());
    assert(parts.skip(0) =~= parts);
}

/// A node found in the parts of an address that begins with `/` is followed by
/// `/` and the rest, and preceded by the transport prefix and `/net/`.
pub proof fn lemma_net_to_shape(addr: Seq<char>)
    requires
        rooted(addr),
        net_to_parts(text::segments(addr, '/')) is Some,
    ensures
        ({
            let (prefix, to) = net_to_parts(text::segments(addr, '/'))->0;
            let head = prefix + BUS_ID@ + "/"@ + to + "/"@;
            let rest = text::byte_suffix(addr, net_to_skip(prefix, to) as int);
            &&& addr == head + rest
            &&& text::sliceable(addr, net_to_skip(prefix, to) as int)
        }),
{
    let parts = text::segments(addr, '/');
    let (prefix, to) = net_to_parts(parts)->0;
    let head = prefix + BUS_ID@ + "/"@ + to + "/"@;
    lemma_leading_slash(addr);
    lemma_joined_step(parts, 0);
    lemma_joined_step(parts, 1);
    lemma_joined_step(parts, 2);
    reveal_strlit("/net");
    reveal_strlit("net");
    reveal_strlit("udp");
    reveal_strlit("/udp");
    reveal_strlit("");
    reveal_strlit("/");
    let b = if prefix == "/udp"@ {
        lemma_joined_step(parts, 3);
        text::joined(parts.skip(4), '/')
    } else {
        text::joined(parts.skip(3), '/')
    };
    assert(addr =~= head + b);
    lemma_prefixes();
    text::lemma_encode_concat(prefix + BUS_ID@ + "/"@ + to, "/"@);
    text::lemma_encode_concat(prefix + BUS_ID@ + "/"@, to);
    text::lemma_encode_concat(prefix + BUS_ID@, "/"@);
    text::lemma_encode_concat(prefix, BUS_ID@);
    is_ascii_chars_encode_utf8("/"@);
    is_ascii_chars_encode_utf8("/net"@);
    assert(encode_utf8(head).len() == net_to_skip(prefix, to));
    text::lemma_byte_suffix(head, b);
}

/// The endpoint of every address that begins with `/` can be cut out.
pub proof fn law_net_to_in_bounds(addr: Seq<char>)
    requires
        rooted(addr),
    ensures
        net_to_in_bounds(addr),
{
    if net_to_parts(text::segments(addr, '/')) is Some {
        lemma_net_to_shape(addr);
    }
}

/// A `/net` address that begins with `/` and is accepted is called unchanged.
pub proof fn law_net_to_keeps_address(addr: Seq<char>)
    requires
        rooted(addr),
        net_to_of(addr) is Ok,
    ensures
        net_to_of(addr)->Ok_0.1 == addr,
{
    lemma_net_to_shape(addr);
    let (prefix, to) = net_to_parts(text::segments(addr, '/'))->0;
    let rest = text::byte_suffix(addr, net_to_skip(prefix, to) as int);
    assert(prefix + net_service_of(to + "/"@ + rest) =~= prefix + BUS_ID@ + "/"@ + to + "/"@
        + rest);
}

/// The destination found in the parts of a `/from` address that begins with
/// `/` is where the cut is made, and `/` and the rest follow it.
pub proof fn lemma_from_to_shape(addr: Seq<char>)
    requires
        rooted(addr),
        from_to_parts(text::segments(addr, '/')) is Some,
    ensures
        ({
            let parts = text::segments(addr, '/');
            let (prefix, from, to) = from_to_parts(parts)->0;
            let cut = from_to_skip(prefix, from) as int;
            let k: int = if prefix == "/udp"@ {
                6
            } else {
                5
            };
            &&& text::sliceable(addr, cut)
            &&& text::byte_suffix(addr, cut) == to + "/"@ + text::joined(parts.skip(k), '/')
            &&& addr == prefix + "/from/"@ + from + "/to/"@ + text::byte_suffix(addr, cut)
        }),
{
    let parts = text::segments(addr, '/');
    let (prefix, from, to) = from_to_parts(parts)->0;
    let head = prefix + "/from/"@ + from + "/to/"@;
    lemma_leading_slash(addr);
    lemma_joined_step(parts, 0);
    lemma_joined_step(parts, 1);
    lemma_joined_step(parts, 2);
    lemma_joined_step(parts, 3);
    lemma_joined_step(parts, 4);
    reveal_strlit("/from/");
    reveal_strlit("/to/");
    reveal_strlit("from");
    reveal_strlit("to");
    reveal_strlit("udp");
    reveal_strlit("/udp");
    reveal_strlit("");
    reveal_strlit("/");
    let b = if prefix == "/udp"@ {
        lemma_joined_step(parts, 5);
        to + "/"@ + text::joined(parts.skip(6), '/')
    } else {
        to + "/"@ + text::joined(parts.skip(5), '/')
    };
    assert(addr =~= head + b);
    lemma_prefixes();
    text::lemma_encode_concat(prefix + "/from/"@ + from, "/to/"@);
    text::lemma_encode_concat(prefix + "/from/"@, from);
    text::lemma_encode_concat(prefix, "/from/"@);
    is_ascii_chars_encode_utf8("/from/"@);
    is_ascii_chars_encode_utf8("/to/"@);
    assert(encode_utf8(head).len() == from_to_skip(prefix, from));
    text::lemma_byte_suffix(head, b);
}

/// The destination of every address that begins with `/` can be cut out.
pub proof fn law_from_to_in_bounds(addr: Seq<char>)
    requires
        rooted(addr),
    ensures
        from_to_in_bounds(addr),
{
    if from_to_parts(text::segments(addr, '/')) is Some {
        lemma_from_to_shape(addr);
    }
}

/// How a `/net` address, with or without transport prefix, splits up.
pub proof fn lemma_net_address_parts(prefix: Seq<char>, to: Seq<char>, rest: Seq<char>)
    requires
        prefix == ""@ || prefix == "/udp"@,
        forall|j: int| 0 <= j < to.len() ==> to[j] != '/',
    ensures
        ({
            let addr = prefix + net_service_of(to + "/"@ + rest);
            &&& rooted(addr)
            &&& net_to_parts(text::segments(addr, '/')) == Some((prefix, to))
        }),
{
    let addr = prefix + net_service_of(to + "/"@ + rest);
    reveal_strlit("/net");
    reveal_strlit("net");
    reveal_strlit("udp");
    reveal_strlit("/udp");
    reveal_strlit("");
    reveal_strlit("/");
    let none = Seq::<char>::empty();
    text::lemma_segments_nonempty(rest, '/');
    text::lemma_segments_of(to, rest, '/');
    let at_to = to + seq!['/'] + rest;
    text::lemma_segments_of("net"@, at_to, '/');
    let at_net = "net"@ + seq!['/'] + at_to;
    let inner = seq!["net"@, to] + text::segments(rest, '/');
    assert(text::segments(at_net, '/') =~= inner);
    if prefix == "/udp"@ {
        text::lemma_segments_of("udp"@, at_net, '/');
        let at_udp = "udp"@ + seq!['/'] + at_net;
        text::lemma_segments_of(none, at_udp, '/');
        assert(addr =~= none + seq!['/'] + at_udp);
        assert(text::segments(addr, '/') =~= seq![none, "udp"@] + inner);
    } else {
        text::lemma_segments_of(none, at_net, '/');
        assert(addr =~= none + seq!['/'] + at_net);
        assert(text::segments(addr, '/') =~= seq![none] + inner);
        assert("net"@ != "udp"@) by {
            assert("net"@[0] != "udp"@[0]);
        }
    }
}

/// The address of an endpoint of a node, on either transport, resolves to that
/// node and to itself.
pub proof fn law_net_address_resolves(udp: bool, id: Seq<u8>, endpoint: Seq<char>)
    requires
        id.len() == 20,
    ensures
        ({
            let prefix = if udp {
                "/udp"@
            } else {
                ""@
            };
            let addr = prefix + net_service_of(crate::node_id::id_text(id) + "/"@ + endpoint);
            &&& net_to_in_bounds(addr)
            &&& net_to_of(addr) == Ok::<(Seq<u8>, Seq<char>), AddressFailure>((id, addr))
        }),
{
    let prefix = if udp {
        "/udp"@
    } else {
        ""@
    };
    let to = crate::node_id::id_text(id);
    let addr = prefix + net_service_of(to + "/"@ + endpoint);
    crate::node_id::lemma_id_text_ascii(id);
    crate::node_id::law_id_text_reads_back(id);
    lemma_net_address_parts(prefix, to, endpoint);
    law_net_to_in_bounds(addr);
    law_net_to_keeps_address(addr);
}

/// A `/from` address that begins with `/` and is accepted is called as a
/// `/net` address, and that address resolves to the same destination.
pub proof fn law_from_to_leads_to_destination(addr: Seq<char>)
    requires
        rooted(addr),
        from_to_of(addr) is Ok,
    ensures
        ({
            let (from, to, address) = from_to_of(addr)->Ok_0;
            net_to_of(address) == Ok::<(Seq<u8>, Seq<char>), AddressFailure>((to, address))
        }),
{
    let parts = text::segments(addr, '/');
    let (prefix, from, to) = from_to_parts(parts)->0;
    let address = from_to_of(addr)->Ok_0.2;
    lemma_from_to_shape(addr);
    let k: int = if prefix == "/udp"@ {
        6
    } else {
        5
    };
    let rest = text::joined(parts.skip(k), '/');
    let at: int = if prefix == "/udp"@ {
        5
    } else {
        4
    };
    reveal_strlit("/udp");
    reveal_strlit("");
    assert(to == parts[at]);
    assert forall|j: int| 0 <= j < to.len() implies to[j] != '/' by {
        text::lemma_segments_clean(addr, '/', at, j);
    }
    lemma_net_address_parts(prefix, to, rest);
    law_net_to_keeps_address(address);
}

/// How a `/from` address, with or without transport prefix, splits up.
pub proof fn lemma_from_address_parts(
    prefix: Seq<char>,
    from: Seq<char>,
    to: Seq<char>,
    rest: Seq<char>,
)
    requires
        prefix == ""@ || prefix == "/udp"@,
        forall|j: int| 0 <= j < from.len() ==> from[j] != '/',
        forall|j: int| 0 <= j < to.len() ==> to[j] != '/',
    ensures
        ({
            let addr = prefix + "/from/"@ + from + "/to/"@ + (to + "/"@ + rest);
            &&& rooted(addr)
            &&& from_to_parts(text::segments(addr, '/')) == Some((prefix, from, to))
            &&& text::byte_suffix(addr, from_to_skip(prefix, from) as int) == to + "/"@ + rest
        }),
{
    let addr = prefix + "/from/"@ + from + "/to/"@ + (to + "/"@ + rest);
    reveal_strlit("/from/");
    reveal_strlit("/to/");
    reveal_strlit("from");
    reveal_strlit("to");
    reveal_strlit("udp");
    reveal_strlit("/udp");
    reveal_strlit("");
    reveal_strlit("/");
    let none = Seq::<char>::empty();
    text::lemma_segments_nonempty(rest, '/');
    text::lemma_segments_of(to, rest, '/');
    let at_to = to + seq!['/'] + rest;
    text::lemma_segments_of("to"@, at_to, '/');
    let at_word = "to"@ + seq!['/'] + at_to;
    text::lemma_segments_of(from, at_word, '/');
    let at_from = from + seq!['/'] + at_word;
    text::lemma_segments_of("from"@, at_from, '/');
    let at_start = "from"@ + seq!['/'] + at_from;
    let inner = seq!["from"@, from, "to"@, to] + text::segments(rest, '/');
    assert(text::segments(at_start, '/') =~= inner);
    let parts = text::segments(addr, '/');
    if prefix == "/udp"@ {
        text::lemma_segments_of("udp"@, at_start, '/');
        let at_udp = "udp"@ + seq!['/'] + at_start;
        text::lemma_segments_of(none, at_udp, '/');
        assert(addr =~= none + seq!['/'] + at_udp);
        assert(parts =~= seq![none, "udp"@] + inner);
    } else {
        text::lemma_segments_of(none, at_start, '/');
        assert(addr =~= none + seq!['/'] + at_start);
        assert(parts =~= seq![none] + inner);
        assert("from"@ != "udp"@) by {
            assert("from"@.len() != "udp"@.len());
        }
    }
    assert(from_to_parts(parts) == Some((prefix, from, to)));
    lemma_from_to_shape(addr);
    text::lemma_joined_segments(rest, '/');
    assert(parts.skip(if prefix == "/udp"@ {
        6
    } else {
        5
    }) =~= text::segments(rest, '/'));
}

/// A transport prefix: none, or the one of the unreliable transport.
pub open spec fn is_transport(prefix: Seq<char>) -> bool {
    prefix == ""@ || prefix == "/udp"@
}

/// `addr` is a `/net` address: a transport prefix, `/net/`, a readable node,
/// `/` and an endpoint.
pub open spec fn is_net_address(
    addr: Seq<char>,
    prefix: Seq<char>,
    to: Seq<char>,
    endpoint: Seq<char>,
) -> bool {
    &&& is_transport(prefix)
    &&& crate::node_id::id_of_text(to) is Ok
    &&& addr == prefix + "/net/"@ + to + "/"@ + endpoint
}

/// `addr` is a `/from` address: a transport prefix, `/from/`, a readable node,
/// `/to/`, a readable node, `/` and an endpoint.
pub open spec fn is_from_address(
    addr: Seq<char>,
    prefix: Seq<char>,
    from: Seq<char>,
    to: Seq<char>,
    endpoint: Seq<char>,
) -> bool {
    &&& is_transport(prefix)
    &&& crate::node_id::id_of_text(from) is Ok
    &&& crate::node_id::id_of_text(to) is Ok
    &&& addr == prefix + "/from/"@ + from + "/to/"@ + to + "/"@ + endpoint
}

/// A `/net` address resolves to the node that it names, however that is
/// spelled, and to itself.
pub proof fn law_net_address_result(
    addr: Seq<char>,
    prefix: Seq<char>,
    to: Seq<char>,
    endpoint: Seq<char>,
)
    requires
        is_net_address(addr, prefix, to, endpoint),
    ensures
        net_to_in_bounds(addr),
        net_to_of(addr) == Ok::<(Seq<u8>, Seq<char>), AddressFailure>(
            (crate::node_id::id_of_text(to)->Ok_0, addr),
        ),
{
    assert forall|j: int| 0 <= j < to.len() implies to[j] != '/' by {
        crate::node_id::lemma_readable_has_no_slash(to, j);
    }
    reveal_strlit("/net/");
    reveal_strlit("/net");
    reveal_strlit("/");
    assert(addr =~= prefix + net_service_of(to + "/"@ + endpoint));
    lemma_net_address_parts(prefix, to, endpoint);
    law_net_to_in_bounds(addr);
    law_net_to_keeps_address(addr);
}

/// Of the addresses that begin with `/`, exactly the `/net` addresses are
/// accepted as such.
pub proof fn law_net_address_accepted(addr: Seq<char>)
    requires
        rooted(addr),
    ensures
        net_to_of(addr) is Ok <==> exists|prefix: Seq<char>, to: Seq<char>, endpoint: Seq<char>|
            is_net_address(addr, prefix, to, endpoint),
{
    if net_to_of(addr) is Ok {
        let (prefix, to) = net_to_parts(text::segments(addr, '/'))->0;
        let endpoint = text::byte_suffix(addr, net_to_skip(prefix, to) as int);
        lemma_net_to_shape(addr);
        reveal_strlit("/net/");
        reveal_strlit("/net");
        reveal_strlit("/");
        assert(addr =~= prefix + "/net/"@ + to + "/"@ + endpoint);
        assert(is_net_address(addr, prefix, to, endpoint));
    }
    if exists|prefix: Seq<char>, to: Seq<char>, endpoint: Seq<char>|
        is_net_address(addr, prefix, to, endpoint) {
        let (prefix, to, endpoint) = choose|
            prefix: Seq<char>,
            to: Seq<char>,
            endpoint: Seq<char>,
        | is_net_address(addr, prefix, to, endpoint);
        law_net_address_result(addr, prefix, to, endpoint);
    }
}

/// A `/from` address resolves to the nodes that it names, however they are
/// spelled, and to the `/net` address of the endpoint.
pub proof fn law_from_address_result(
    addr: Seq<char>,
    prefix: Seq<char>,
    from: Seq<char>,
    to: Seq<char>,
    endpoint: Seq<char>,
)
    requires
        is_from_address(addr, prefix, from, to, endpoint),
    ensures
        from_to_in_bounds(addr),
        from_to_of(addr) == Ok::<(Seq<u8>, Seq<u8>, Seq<char>), AddressFailure>(
            (
                crate::node_id::id_of_text(from)->Ok_0,
                crate::node_id::id_of_text(to)->Ok_0,
                prefix + "/net/"@ + to + "/"@ + endpoint,
            ),
        ),
{
    assert forall|j: int| 0 <= j < from.len() implies from[j] != '/' by {
        crate::node_id::lemma_readable_has_no_slash(from, j);
    }
    assert forall|j: int| 0 <= j < to.len() implies to[j] != '/' by {
        crate::node_id::lemma_readable_has_no_slash(to, j);
    }
    reveal_strlit("/net/");
    reveal_strlit("/net");
    reveal_strlit("/");
    assert(addr =~= prefix + "/from/"@ + from + "/to/"@ + (to + "/"@ + endpoint));
    lemma_from_address_parts(prefix, from, to, endpoint);
    law_from_to_in_bounds(addr);
    assert(prefix + net_service_of(to + "/"@ + endpoint) =~= prefix + "/net/"@ + to + "/"@
        + endpoint);
}

/// Of the addresses that begin with `/`, exactly the `/from` addresses are
/// accepted as such.
pub proof fn law_from_address_accepted(addr: Seq<char>)
    requires
        rooted(addr),
    ensures
        from_to_of(addr) is Ok <==> exists|
            prefix: Seq<char>,
            from: Seq<char>,
            to: Seq<char>,
            endpoint: Seq<char>,
        | is_from_address(addr, prefix, from, to, endpoint),
{
    if from_to_of(addr) is Ok {
        let parts = text::segments(addr, '/');
        let (prefix, from, to) = from_to_parts(parts)->0;
        lemma_from_to_shape(addr);
        let endpoint = text::joined(parts.skip(if prefix == "/udp"@ {
            6
        } else {
            5
        }), '/');
        assert(addr =~= prefix + "/from/"@ + from + "/to/"@ + to + "/"@ + endpoint);
        assert(is_from_address(addr, prefix, from, to, endpoint));
    }
    if exists|prefix: Seq<char>, from: Seq<char>, to: Seq<char>, endpoint: Seq<char>|
        is_from_address(addr, prefix, from, to, endpoint) {
        let (prefix, from, to, endpoint) = choose|
            prefix: Seq<char>,
            from: Seq<char>,
            to: Seq<char>,
            endpoint: Seq<char>,
        | is_from_address(addr, prefix, from, to, endpoint);
        law_from_address_result(addr, prefix, from, to, endpoint);
    }
}

/// The transport prefix changes neither whether an address that begins with
/// `/net/` is accepted nor which node it leads to.
pub proof fn law_transport_keeps_destination(addr: Seq<char>)
    requires
        "/net/"@.is_prefix_of(addr),
    ensures
        net_to_of("/udp"@ + addr) is Ok <==> net_to_of(addr) is Ok,
        net_to_of(addr) is Ok ==> net_to_of("/udp"@ + addr)->Ok_0.0 == net_to_of(addr)->Ok_0.0,
{
    reveal_strlit("/net/");
    reveal_strlit("net");
    reveal_strlit("udp");
    reveal_strlit("/udp");
    let none = Seq::<char>::empty();
    let rest = addr.skip(5);
    let at_net = "net"@ + seq!['/'] + rest;
    let at_udp = "udp"@ + seq!['/'] + at_net;
    assert(addr[0] == "/net/"@[0] && addr[1] == "/net/"@[1] && addr[2] == "/net/"@[2] && addr[3]
        == "/net/"@[3] && addr[4] == "/net/"@[4]);
    assert(addr =~= none + seq!['/'] + at_net);
    assert("/udp"@ + addr =~= none + seq!['/'] + at_udp);
    text::lemma_segments_nonempty(rest, '/');
    text::lemma_segments_of("net"@, rest, '/');
    text::lemma_segments_of(none, at_net, '/');
    text::lemma_segments_of("udp"@, at_net, '/');
    text::lemma_segments_of(none, at_udp, '/');
    assert(text::segments(addr, '/') =~= seq![none, "net"@] + text::segments(rest, '/'));
    assert(text::segments("/udp"@ + addr, '/') =~= seq![none, "udp"@, "net"@] + text::segments(
        rest,
        '/',
    ));
    assert("net"@[0] != "udp"@[0]);
}

/// The address of an endpoint of the node `to` on behalf of `from`, on either
/// transport, resolves to both nodes and to the `/net` address of the endpoint.
pub proof fn law_from_address_resolves(
    udp: bool,
    from: Seq<u8>,
    to: Seq<u8>,
    endpoint: Seq<char>,
)
    requires
        from.len() == 20,
        to.len() == 20,
    ensures
        ({
            let prefix = if udp {
                "/udp"@
            } else {
                ""@
            };
            let service = crate::node_id::id_text(to) + "/"@ + endpoint;
            let addr = prefix + "/from/"@ + crate::node_id::id_text(from) + "/to/"@ + service;
            &&& from_to_in_bounds(addr)
            &&& from_to_of(addr) == Ok::<(Seq<u8>, Seq<u8>, Seq<char>), AddressFailure>(
                (from, to, prefix + net_service_of(service)),
            )
        }),
{
    let prefix = if udp {
        "/udp"@
    } else {
        ""@
    };
    let f = crate::node_id::id_text(from);
    let t = crate::node_id::id_text(to);
    let service = t + "/"@ + endpoint;
    let addr = prefix + "/from/"@ + f + "/to/"@ + service;
    crate::node_id::law_id_text_reads_back(from);
    crate::node_id::law_id_text_reads_back(to);
    assert(addr =~= prefix + "/from/"@ + f + "/to/"@ + t + "/"@ + endpoint);
    law_from_address_result(addr, prefix, f, t, endpoint);
    reveal_strlit("/net/");
    reveal_strlit("/net");
    reveal_strlit("/");
    assert(prefix + net_service_of(service) =~= prefix + "/net/"@ + t + "/"@ + endpoint);
}

} // verus!
