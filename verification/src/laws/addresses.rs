//! Laws on bus addresses.

use vstd::prelude::*;
use vstd::utf8::*;

use crate::address::AddressError;
use crate::node_id::NodeId;

verus! {

/// `addr` is `prefix`, `/net/`, `to`, `/` and `endpoint`, where `prefix` is
/// nothing or `/udp` and `to` holds no `/`.
pub open spec fn net_parts(
    addr: Seq<char>,
    prefix: Seq<char>,
    to: Seq<char>,
    endpoint: Seq<char>,
) -> bool {
    &&& prefix == ""@ || prefix == "/udp"@
    &&& !to.contains('/')
    &&& addr == prefix + "/net/"@ + to + "/"@ + endpoint
}

/// `addr` is `prefix`, `/from/`, `from`, `/to/`, `to`, `/` and `endpoint`, where
/// `prefix` is nothing or `/udp` and neither `from` nor `to` holds a `/`.
pub open spec fn from_parts(
    addr: Seq<char>,
    prefix: Seq<char>,
    from: Seq<char>,
    to: Seq<char>,
    endpoint: Seq<char>,
) -> bool {
    &&& prefix == ""@ || prefix == "/udp"@
    &&& !from.contains('/')
    &&& !to.contains('/')
    &&& addr == prefix + "/from/"@ + from + "/to/"@ + to + "/"@ + endpoint
}

/// Bus prefixes in full.
pub proof fn law_bus_prefixes()
    ensures
        crate::address::BUS_ID@ == "/net"@,
        crate::address::BUS_ID_UDP@ == "/udp/net"@,
        crate::address::PUBLIC_PREFIX@ == "/public"@,
{
}

/// The network address of a service is the service behind `/net/`.
pub proof fn law_network_address(service: &str, r: String)
    requires
        call_ensures(crate::address::net_service, (service,), r),
    ensures
        r@ == "/net/"@ + service@,
        crate::address::net_service_of(service@) == "/net/"@ + service@,
{
    lemma_net_prefix(service@);
}

/// The network address of `service` in full.
pub proof fn lemma_net_prefix(service: Seq<char>)
    ensures
        crate::address::net_service_of(service) == "/net/"@ + service,
{
    reveal_strlit("/net/");
    reveal_strlit("/net");
    reveal_strlit("/");
    assert(crate::address::net_service_of(service) =~= "/net/"@ + service);
}

proof fn lemma_no_slash(s: Seq<char>)
    requires
        !s.contains('/'),
    ensures
        forall|j: int| 0 <= j < s.len() ==> s[j] != '/',
{
    assert forall|j: int| 0 <= j < s.len() implies s[j] != '/' by {
        assert(s.contains(s[j]));
    }
}

/// The parts of a `/net` address.
pub proof fn lemma_net_parts(addr: Seq<char>, prefix: Seq<char>, to: Seq<char>, endpoint: Seq<char>)
    requires
        net_parts(addr, prefix, to, endpoint),
    ensures
        crate::address::rooted(addr),
        crate::address::net_to_parts(crate::text::segments(addr, '/')) == Some((prefix, to)),
{
    lemma_no_slash(to);
    lemma_net_prefix(to + "/"@ + endpoint);
    assert(addr =~= prefix + ("/net/"@ + (to + "/"@ + endpoint)));
    crate::address::lemma_net_address_parts(prefix, to, endpoint);
}

/// Where the parts of an address that begins with `/` name a node, the address
/// is made of them.
pub proof fn lemma_net_parts_exist(addr: Seq<char>)
    requires
        crate::address::rooted(addr),
        crate::address::net_to_parts(crate::text::segments(addr, '/')) is Some,
    ensures
        exists|prefix: Seq<char>, to: Seq<char>, endpoint: Seq<char>| #[trigger]
            net_parts(addr, prefix, to, endpoint),
{
    let parts = crate::text::segments(addr, '/');
    let (prefix, to) = crate::address::net_to_parts(parts)->0;
    crate::address::lemma_net_to_shape(addr);
    let endpoint = crate::text::byte_suffix(
        addr,
        crate::address::net_to_skip(prefix, to) as int,
    );
    let at: int = if parts.len() >= 5 && parts[1] == "udp"@ && parts[2] == "net"@ {
        3
    } else {
        2
    };
    assert(to == parts[at]);
    if to.contains('/') {
        let j = choose|j: int| 0 <= j < to.len() && to[j] == '/';
        crate::text::lemma_segments_clean(addr, '/', at, j);
    }
    reveal_strlit("/net/");
    reveal_strlit("/net");
    reveal_strlit("/");
    assert(addr =~= prefix + "/net/"@ + to + "/"@ + endpoint);
    assert(net_parts(addr, prefix, to, endpoint));
}

/// A `/net` address resolves to the node that it names, and is called as it is.
/// Where the node cannot be read, that is the failure.
pub proof fn law_net_address_names_its_node(
    addr: &str,
    prefix: Seq<char>,
    to: Seq<char>,
    endpoint: Seq<char>,
    r: Result<(NodeId, String), AddressError>,
)
    requires
        call_ensures(crate::address::parse_net_to_addr, (addr,), r),
        net_parts(addr@, prefix, to, endpoint),
    ensures
        match crate::node_id::id_of_text(to) {
            Ok(id) => r matches Ok((node, address)) && node.bytes@ == id && address@ == addr@,
            Err(e) => r matches Err(AddressError::Id(m)) && m@ == e,
        },
{
    lemma_net_parts(addr@, prefix, to, endpoint);
    if crate::node_id::id_of_text(to) is Ok {
        crate::address::law_net_to_keeps_address(addr@);
    }
}

/// An address that begins with `/` and is no `/net` address is refused as such,
/// by name.
pub proof fn law_other_address_is_no_net_address(
    addr: &str,
    r: Result<(NodeId, String), AddressError>,
)
    requires
        call_ensures(crate::address::parse_net_to_addr, (addr,), r),
        addr@.len() > 0 && addr@[0] == '/',
        forall|prefix: Seq<char>, to: Seq<char>, endpoint: Seq<char>|
            !#[trigger] net_parts(addr@, prefix, to, endpoint),
    ensures
        r matches Err(AddressError::NetTo(a)) && a@ == addr@,
{
    if crate::address::net_to_parts(crate::text::segments(addr@, '/')) is Some {
        lemma_net_parts_exist(addr@);
    }
}

pub proof fn lemma_from_parts(
    addr: Seq<char>,
    prefix: Seq<char>,
    from: Seq<char>,
    to: Seq<char>,
    endpoint: Seq<char>,
)
    requires
        from_parts(addr, prefix, from, to, endpoint),
    ensures
        crate::address::rooted(addr),
        crate::address::from_to_parts(crate::text::segments(addr, '/')) == Some(
            (prefix, from, to),
        ),
        crate::text::byte_suffix(addr, crate::address::from_to_skip(prefix, from) as int) == to
            + "/"@ + endpoint,
{
    lemma_no_slash(from);
    lemma_no_slash(to);
    assert(addr =~= prefix + "/from/"@ + from + "/to/"@ + (to + "/"@ + endpoint));
    crate::address::lemma_from_address_parts(prefix, from, to, endpoint);
}

/// A `/from` address resolves to the two nodes that it names, each in its role,
/// and is called as the `/net` address of the second one on the same transport.
/// Where a node cannot be read, that is the failure, the sender's first.
pub proof fn law_from_address_names_its_nodes(
    addr: &str,
    prefix: Seq<char>,
    from: Seq<char>,
    to: Seq<char>,
    endpoint: Seq<char>,
    r: Result<(NodeId, NodeId, String), AddressError>,
)
    requires
        call_ensures(crate::address::parse_from_to_addr, (addr,), r),
        from_parts(addr@, prefix, from, to, endpoint),
    ensures
        match (crate::node_id::id_of_text(from), crate::node_id::id_of_text(to)) {
            (Ok(f), Ok(t)) => r matches Ok((sender, node, address)) && sender.bytes@ == f
                && node.bytes@ == t && address@ == prefix + "/net/"@ + to + "/"@ + endpoint,
            (Err(e), _) => r matches Err(AddressError::Id(m)) && m@ == e,
            (Ok(_), Err(e)) => r matches Err(AddressError::Id(m)) && m@ == e,
        },
{
    lemma_from_parts(addr@, prefix, from, to, endpoint);
    lemma_net_prefix(to + "/"@ + endpoint);
    assert(prefix + ("/net/"@ + (to + "/"@ + endpoint)) =~= prefix + "/net/"@ + to + "/"@
        + endpoint);
}

/// An address that begins with `/` and is no `/from` address is refused as such,
/// by name.
pub proof fn law_other_address_is_no_from_address(
    addr: &str,
    r: Result<(NodeId, NodeId, String), AddressError>,
)
    requires
        call_ensures(crate::address::parse_from_to_addr, (addr,), r),
        addr@.len() > 0 && addr@[0] == '/',
        forall|prefix: Seq<char>, from: Seq<char>, to: Seq<char>, endpoint: Seq<char>|
            !#[trigger] from_parts(addr@, prefix, from, to, endpoint),
    ensures
        r matches Err(AddressError::NetFromTo(a)) && a@ == addr@,
{
    let parts = crate::text::segments(addr@, '/');
    if crate::address::from_to_parts(parts) is Some {
        let (prefix, from, to) = crate::address::from_to_parts(parts)->0;
        crate::address::lemma_from_to_shape(addr@);
        let udp = parts.len() >= 7 && parts[1] == "udp"@ && parts[2] == "from"@ && parts[4]
            == "to"@;
        let at: int = if udp {
            3
        } else {
            2
        };
        reveal_strlit("/udp");
        reveal_strlit("");
        let endpoint = crate::text::joined(
            parts.skip(if prefix == "/udp"@ {
                6
            } else {
                5
            }),
            '/',
        );
        if from.contains('/') {
            let j = choose|j: int| 0 <= j < from.len() && from[j] == '/';
            crate::text::lemma_segments_clean(addr@, '/', at, j);
        }
        if to.contains('/') {
            let j = choose|j: int| 0 <= j < to.len() && to[j] == '/';
            crate::text::lemma_segments_clean(addr@, '/', at + 2, j);
        }
        assert(addr@ =~= prefix + "/from/"@ + from + "/to/"@ + to + "/"@ + endpoint);
        assert(from_parts(addr@, prefix, from, to, endpoint));
    }
}

/// The text of a failure: what was refused, under what it is no instance of.
pub proof fn law_address_failure_in_words(e: AddressError, r: String)
    requires
        call_ensures(AddressError::message, (&e,), r),
    ensures
        match e {
            AddressError::NetTo(a) => r@ == "invalid net-to destination: "@ + a@,
            AddressError::NetFromTo(a) => r@ == "invalid net-from-to destination: "@ + a@,
            AddressError::Id(reason) => r@ == reason@,
        },
{
}

/// Text before the first `/` changes neither whether an address is accepted nor
/// which node it leads to. The endpoint is what stands behind as many bytes as
/// without that text.
pub proof fn law_text_before_the_first_slash(
    junk: Seq<char>,
    addr: Seq<char>,
    prefix: Seq<char>,
    to: Seq<char>,
    endpoint: Seq<char>,
)
    requires
        !junk.contains('/'),
        net_parts(addr, prefix, to, endpoint),
        crate::node_id::id_of_text(to) is Ok,
    ensures
        ({
            let cut: int = if prefix == "/udp"@ {
                52
            } else {
                48
            };
            &&& crate::address::net_to_of(junk + addr) matches Ok((id, address))
            &&& id == crate::node_id::id_of_text(to)->Ok_0
            &&& address == prefix + "/net/"@ + to + "/"@ + crate::text::byte_suffix(
                junk + addr,
                cut,
            )
            &&& crate::address::net_to_in_bounds(junk + addr) <==> is_char_boundary(
                encode_utf8(junk + addr),
                cut,
            )
        }),
{
    lemma_net_parts(addr, prefix, to, endpoint);
    lemma_no_slash(junk);
    crate::address::lemma_prefixes();
    let none = Seq::<char>::empty();
    let rest = addr.skip(1);
    assert(forall|j: int| 0 <= j < none.len() ==> none[j] != '/');
    crate::text::lemma_segments_of(none, rest, '/');
    crate::text::lemma_segments_of(junk, rest, '/');
    assert(addr =~= none + seq!['/'] + rest);
    assert(junk + addr =~= junk + seq!['/'] + rest);
    let parts = crate::text::segments(junk + addr, '/');
    assert(parts =~= seq![junk] + crate::text::segments(rest, '/'));
    assert(crate::text::segments(addr, '/') =~= seq![none] + crate::text::segments(rest, '/'));
    assert(crate::address::net_to_parts(parts) == Some((prefix, to)));
    reveal_strlit("/udp");
    reveal_strlit("");
    let cut = crate::address::net_to_skip(prefix, to) as int;
    let tail = crate::text::byte_suffix(junk + addr, cut);
    lemma_net_prefix(to + "/"@ + tail);
    assert(prefix + ("/net/"@ + (to + "/"@ + tail)) =~= prefix + "/net/"@ + to + "/"@ + tail);
}

/// Text before the first `/` does the same to a `/from` address.
pub proof fn law_text_before_the_first_slash_of_from(
    junk: Seq<char>,
    addr: Seq<char>,
    prefix: Seq<char>,
    from: Seq<char>,
    to: Seq<char>,
    endpoint: Seq<char>,
)
    requires
        !junk.contains('/'),
        from_parts(addr, prefix, from, to, endpoint),
        crate::node_id::id_of_text(from) is Ok,
        crate::node_id::id_of_text(to) is Ok,
    ensures
        ({
            let cut: int = if prefix == "/udp"@ {
                56
            } else {
                52
            };
            &&& crate::address::from_to_of(junk + addr) matches Ok((sender, node, address))
            &&& sender == crate::node_id::id_of_text(from)->Ok_0
            &&& node == crate::node_id::id_of_text(to)->Ok_0
            &&& address == prefix + "/net/"@ + crate::text::byte_suffix(junk + addr, cut)
            &&& crate::address::from_to_in_bounds(junk + addr) <==> is_char_boundary(
                encode_utf8(junk + addr),
                cut,
            )
        }),
{
    lemma_from_parts(addr, prefix, from, to, endpoint);
    lemma_no_slash(junk);
    crate::address::lemma_prefixes();
    let none = Seq::<char>::empty();
    let rest = addr.skip(1);
    assert(forall|j: int| 0 <= j < none.len() ==> none[j] != '/');
    crate::text::lemma_segments_of(none, rest, '/');
    crate::text::lemma_segments_of(junk, rest, '/');
    assert(addr =~= none + seq!['/'] + rest);
    assert(junk + addr =~= junk + seq!['/'] + rest);
    let parts = crate::text::segments(junk + addr, '/');
    assert(parts =~= seq![junk] + crate::text::segments(rest, '/'));
    assert(crate::text::segments(addr, '/') =~= seq![none] + crate::text::segments(rest, '/'));
    assert(crate::address::from_to_parts(parts) == Some((prefix, from, to)));
    reveal_strlit("/udp");
    reveal_strlit("");
    let tail = crate::text::byte_suffix(
        junk + addr,
        crate::address::from_to_skip(prefix, from) as int,
    );
    lemma_net_prefix(tail);
    assert(prefix + ("/net/"@ + tail) =~= prefix + "/net/"@ + tail);
}

/// Every address that begins with `/` can be read, and the tests for it say
/// what they are for.
pub proof fn law_rooted_addresses_can_be_read(addr: &str, n: bool, f: bool)
    requires
        call_ensures(crate::address::is_net_to_in_bounds, (addr,), n),
        call_ensures(crate::address::is_from_to_in_bounds, (addr,), f),
    ensures
        addr@.len() > 0 && addr@[0] == '/' ==> n && f,
        n <==> crate::address::net_to_in_bounds(addr@),
        f <==> crate::address::from_to_in_bounds(addr@),
{
    if addr@.len() > 0 && addr@[0] == '/' {
        crate::address::law_net_to_in_bounds(addr@);
        crate::address::law_from_to_in_bounds(addr@);
    }
}

/// What stands behind a leading part of a text is cut off where that part ends
/// in bytes.
pub proof fn law_cut_behind_a_part(a: Seq<char>, b: Seq<char>)
    ensures
        crate::text::byte_suffix(a + b, encode_utf8(a).len() as int) == b,
        crate::text::sliceable(a + b, encode_utf8(a).len() as int),
        forall|n: int| crate::text::sliceable(a, n) <==> #[trigger] is_char_boundary(
            encode_utf8(a),
            n,
        ),
{
    crate::text::lemma_byte_suffix(a, b);
}

/// An address that is refused is refused by its parts alone, so it can always
/// be read.
pub proof fn law_refused_address_can_be_read(addr: Seq<char>)
    ensures
        crate::address::net_to_of(addr) is Err ==> crate::address::net_to_in_bounds(addr),
        crate::address::from_to_of(addr) is Err ==> crate::address::from_to_in_bounds(addr),
{
}

/// Text before the first `/` makes no address acceptable, and none unacceptable.
pub proof fn law_text_before_the_first_slash_decides_nothing(junk: Seq<char>, addr: Seq<char>)
    requires
        !junk.contains('/'),
        addr.len() > 0 && addr[0] == '/',
    ensures
        crate::address::net_to_of(junk + addr) is Ok <==> crate::address::net_to_of(addr) is Ok,
        crate::address::from_to_of(junk + addr) is Ok <==> crate::address::from_to_of(addr) is Ok,
{
    lemma_no_slash(junk);
    let none = Seq::<char>::empty();
    let rest = addr.skip(1);
    assert(forall|j: int| 0 <= j < none.len() ==> none[j] != '/');
    crate::text::lemma_segments_of(none, rest, '/');
    crate::text::lemma_segments_of(junk, rest, '/');
    assert(addr =~= none + seq!['/'] + rest);
    assert(junk + addr =~= junk + seq!['/'] + rest);
    assert(crate::text::segments(junk + addr, '/') =~= seq![junk] + crate::text::segments(
        rest,
        '/',
    ));
    assert(crate::text::segments(addr, '/') =~= seq![none] + crate::text::segments(rest, '/'));
}

/// A text without `/` is no address.
pub proof fn law_text_without_slash_is_no_address(
    addr: &str,
    n: Result<(NodeId, String), AddressError>,
    f: Result<(NodeId, NodeId, String), AddressError>,
)
    requires
        !addr@.contains('/'),
        call_ensures(crate::address::parse_net_to_addr, (addr,), n),
        call_ensures(crate::address::parse_from_to_addr, (addr,), f),
    ensures
        n matches Err(AddressError::NetTo(a)) && a@ == addr@,
        f matches Err(AddressError::NetFromTo(a)) && a@ == addr@,
{
    lemma_no_slash(addr@);
    crate::text::lemma_first_index_is(addr@, '/', addr@.len() as int);
    assert(crate::text::segments(addr@, '/').len() == 1);
}

} // verus!
