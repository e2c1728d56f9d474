//! What the service remembers: own identities, served addresses, requests that
//! wait for a reply, and open inbound routes.
//!
//! `S` is the handle by which replies reach the caller of a request, `R` the
//! handle by which packets reach an inbound route.

use vstd::prelude::*;

use crate::address::{net_service, PUBLIC_PREFIX};
use crate::node_id::{contains_id, node_id_text, NodeId};
use crate::table::{Key, Table};
use crate::text;

verus! {

/// A request that was sent to a remote node.
pub struct Request<S> {
    pub caller_id: NodeId,
    pub remote_id: NodeId,
    pub address: String,
    pub tx: S,
}

/// An inbound route: the sending node and its transport.
#[derive(Clone, Copy)]
pub struct RouteKey {
    pub node_id: NodeId,
    pub reliable: bool,
}

impl Key for RouteKey {
    type Model = (Seq<u8>, bool);

    open spec fn key(&self) -> (Seq<u8>, bool) {
        (self.node_id@, self.reliable)
    }

    fn same_key(&self, other: &Self) -> (r: bool) {
        self.node_id.same(&other.node_id) && self.reliable == other.reliable
    }
}

/// Two routes are the same: the same twenty bytes of the sending node, and the
/// same transport.
pub open spec fn same_route(a: RouteKey, b: RouteKey) -> bool {
    &&& forall|i: int| 0 <= i < 20 ==> a.node_id.bytes[i] == #[trigger] b.node_id.bytes[i]
    &&& a.reliable == b.reliable
}

/// Two keys find the same route if and only if they have the same twenty bytes
/// of a node and the same transport.
pub proof fn law_route_is_node_and_transport(a: RouteKey, b: RouteKey)
    ensures
        a.key() == b.key() <==> (forall|i: int|
            0 <= i < 20 ==> a.node_id.bytes[i] == #[trigger] b.node_id.bytes[i]) && a.reliable
            == b.reliable,
{
    if same_route(a, b) {
        assert(a.node_id@ =~= b.node_id@);
    }
    if a.key() == b.key() {
        assert forall|i: int| 0 <= i < 20 implies a.node_id.bytes[i]
            == #[trigger] b.node_id.bytes[i] by {
            assert(a.node_id@[i] == b.node_id@[i]);
        }
    }
}

/// Model of `State`.
pub struct StateModel<S, R> {
    pub requests: Map<Seq<char>, Request<S>>,
    pub routes: Map<(Seq<u8>, bool), R>,
    pub ids: Set<Seq<u8>>,
    pub services: Set<Seq<char>>,
}

/// State of the service.
pub struct State<S, R> {
    requests: Table<String, Request<S>>,
    routes: Table<RouteKey, R>,
    ids: Vec<NodeId>,
    services: Vec<String>,
}

/// The texts of a list, as a set.
pub open spec fn text_set(list: Seq<String>) -> Set<Seq<char>> {
    Set::new(|v: Seq<char>| exists|i: int| 0 <= i < list.len() && (#[trigger] list[i])@ == v)
}

/// `a` is `addr` with a served address at its start replaced by the prefix of
/// public endpoints.
pub open spec fn is_local_address(
    services: Set<Seq<char>>,
    addr: Seq<char>,
    a: Seq<char>,
) -> bool {
    exists|s: Seq<char>| #[trigger]
        services.contains(s) && s.is_prefix_of(addr) && a == PUBLIC_PREFIX@ + addr.skip(
            s.len() as int,
        )
}

/// `addr` starts with a served address.
pub open spec fn is_served(services: Set<Seq<char>>, addr: Seq<char>) -> bool {
    exists|s: Seq<char>| #[trigger] services.contains(s) && s.is_prefix_of(addr)
}

/// The addresses served for a node: its network address on either transport.
pub open spec fn serves(id: Seq<u8>, s: Seq<char>) -> bool {
    let service = crate::address::net_service_of(crate::node_id::id_text(id));
    s == service || s == "/udp"@ + service
}

/// The addresses served for the nodes `ids`.
pub open spec fn services_of(ids: Set<Seq<u8>>) -> Set<Seq<char>> {
    Set::new(|s: Seq<char>| exists|id: Seq<u8>| #[trigger] ids.contains(id) && serves(id, s))
}

impl<S, R> View for State<S, R> {
    type V = StateModel<S, R>;

    closed spec fn view(&self) -> StateModel<S, R> {
        StateModel {
            requests: self.requests@,
            routes: self.routes@,
            ids: crate::node_id::id_set(self.ids@),
            services: text_set(self.services@),
        }
    }
}

impl<S, R> State<S, R> {
    /// No request and no route is held twice.
    pub closed spec fn wf(&self) -> bool {
        self.requests.wf() && self.routes.wf()
    }

    /// A state with no request and no route.
    pub fn new(ids: Vec<NodeId>, services: Vec<String>) -> (r: Self)
        ensures
            r.wf(),
            r@.requests == Map::<Seq<char>, Request<S>>::empty(),
            r@.routes == Map::<(Seq<u8>, bool), R>::empty(),
            r@.ids == crate::node_id::id_set(ids@),
            r@.services == text_set(services@),
    {
        State { requests: Table::new(), routes: Table::new(), ids, services }
    }

    /// Whether `id` is an own identity.
    pub fn is_own(&self, id: &NodeId) -> (r: bool)
        ensures
            r == self@.ids.contains(id@),
    {
        contains_id(&self.ids, id)
    }

    /// The public endpoint that `addr` stands for, where it starts with a
    /// served address. Which one is found, if there are several, is open.
    pub fn local_address(&self, addr: &str) -> (r: Option<String>)
        ensures
            match r {
                Some(a) => is_local_address(self@.services, addr@, a@),
                None => !is_served(self@.services, addr@),
            },
    {
        let mut i: usize = 0;
        while i < self.services.len()
            invariant
                i <= self.services@.len(),
                forall|j: int|
                    0 <= j < i ==> !(#[trigger] self.services@[j])@.is_prefix_of(addr@),
            decreases self.services@.len() - i,
        {
            let service: &str = self.services[i].as_str();
            if let Some(rest) = text::strip_prefix(addr, service) {
                assert(self@.services.contains(self.services@[i as int]@));
                return Some(text::join2(PUBLIC_PREFIX, rest));
            }
            i = i + 1;
        }
        None
    }

    /// The handle of an open route.
    pub fn route(&self, key: &RouteKey) -> (r: Option<R>) where R: Clone
        requires
            self.wf(),
        ensures
            match r {
                Some(tx) => self@.routes.contains_key(key.key()) && cloned(
                    self@.routes[key.key()],
                    tx,
                ),
                None => !self@.routes.contains_key(key.key()),
            },
    {
        match self.routes.get(key) {
            Some(tx) => Some(tx.clone()),
            None => None,
        }
    }

    /// Opens a route.
    pub fn open_route(&mut self, key: RouteKey, tx: R)
        requires
            old(self).wf(),
        ensures
            final(self).wf(),
            final(self)@ == (StateModel {
                routes: old(self)@.routes.insert(key.key(), tx),
                ..old(self)@
            }),
    {
        self.routes.insert(key, tx);
    }

    /// Closes a route.
    pub fn remove(&mut self, key: &RouteKey)
        requires
            old(self).wf(),
        ensures
            final(self).wf(),
            final(self)@ == (StateModel {
                routes: old(self)@.routes.remove(key.key()),
                ..old(self)@
            }),
    {
        let _ = self.routes.remove(key);
    }

    /// The request that waits under `request_id`.
    pub fn request(&self, request_id: &String) -> (r: Option<&Request<S>>)
        requires
            self.wf(),
        ensures
            match r {
                Some(q) => self@.requests.contains_key(request_id@) && *q
                    == self@.requests[request_id@],
                None => !self@.requests.contains_key(request_id@),
            },
    {
        self.requests.get(request_id)
    }

    /// Lets a request wait for its reply under `request_id`.
    pub fn add_request(&mut self, request_id: String, request: Request<S>)
        requires
            old(self).wf(),
        ensures
            final(self).wf(),
            final(self)@ == (StateModel {
                requests: old(self)@.requests.insert(request_id@, request),
                ..old(self)@
            }),
    {
        self.requests.insert(request_id, request);
    }

    /// Forgets the request that waits under `request_id`.
    pub fn remove_request(&mut self, request_id: &String) -> (r: Option<Request<S>>)
        requires
            old(self).wf(),
        ensures
            final(self).wf(),
            final(self)@ == (StateModel {
                requests: old(self)@.requests.remove(request_id@),
                ..old(self)@
            }),
            match r {
                Some(q) => old(self)@.requests.contains_key(request_id@) && q == old(
                    self,
                )@.requests[request_id@],
                None => !old(self)@.requests.contains_key(request_id@),
            },
    {
        self.requests.remove(request_id)
    }
}

/// The addresses to serve for the nodes `ids`.
pub fn network_services(ids: &Vec<NodeId>) -> (r: Vec<String>)
    ensures
        text_set(r@) == services_of(crate::node_id::id_set(ids@)),
{
    let mut out: Vec<String> = Vec::new();
    let mut i: usize = 0;
    while i < ids.len()
        invariant
            i <= ids@.len(),
            out@.len() == 2 * i,
            forall|j: int|
                0 <= j < i ==> {
                    let service = crate::address::net_service_of(
                        crate::node_id::id_text((#[trigger] ids@[j])@),
                    );
                    out@[2 * j]@ == "/udp"@ + service && out@[2 * j + 1]@ == service
                },
        decreases ids@.len() - i,
    {
        let service: String = net_service(node_id_text(&ids[i]).as_str());
        out.push(text::join2("/udp", service.as_str()));
        out.push(service);
        i = i + 1;
    }
    proof {
        let set = crate::node_id::id_set(ids@);
        assert forall|s: Seq<char>| text_set(out@).contains(s) == services_of(set).contains(s) by {
            if text_set(out@).contains(s) {
                let k = choose|k: int| 0 <= k < out@.len() && (#[trigger] out@[k])@ == s;
                let j = k / 2;
                assert(k == 2 * j || k == 2 * j + 1);
                assert(set.contains(ids@[j]@));
                assert(serves(ids@[j]@, s));
            }
            if services_of(set).contains(s) {
                let id = choose|id: Seq<u8>| #[trigger] set.contains(id) && serves(id, s);
                let j = choose|j: int| 0 <= j < ids@.len() && (#[trigger] ids@[j])@ == id;
                assert(out@[2 * j]@ == s || out@[2 * j + 1]@ == s);
            }
        }
        assert(text_set(out@) =~= services_of(set));
    }
    out
}

proof fn lemma_service_shape(id: Seq<u8>, s: Seq<char>)
    requires
        id.len() == 20,
        serves(id, s),
    ensures
        s.len() == 47 && s[1] == 'n' && s.subrange(5, 47) == crate::node_id::id_text(id) || s.len()
            == 51 && s[1] == 'u' && s.subrange(9, 51) == crate::node_id::id_text(id),
{
    reveal_strlit("/net");
    reveal_strlit("/udp");
    reveal_strlit("/");
    crate::node_id::lemma_id_text_ascii(id);
    let t = crate::node_id::id_text(id);
    let service = crate::address::net_service_of(t);
    if s == service {
        assert(s.subrange(5, 47) =~= t);
    } else {
        assert(s.subrange(9, 51) =~= t);
    }
}

/// At most one served address stands at the start of an address, so the
/// public endpoint that an address stands for is unique.
pub proof fn law_local_address_unique(
    ids: Set<Seq<u8>>,
    addr: Seq<char>,
    a: Seq<char>,
    b: Seq<char>,
)
    requires
        forall|id: Seq<u8>| ids.contains(id) ==> id.len() == 20,
        is_local_address(services_of(ids), addr, a),
        is_local_address(services_of(ids), addr, b),
    ensures
        a == b,
{
    let services = services_of(ids);
    let s = choose|s: Seq<char>| #[trigger]
        services.contains(s) && s.is_prefix_of(addr) && a == PUBLIC_PREFIX@ + addr.skip(
            s.len() as int,
        );
    let t = choose|s: Seq<char>| #[trigger]
        services.contains(s) && s.is_prefix_of(addr) && b == PUBLIC_PREFIX@ + addr.skip(
            s.len() as int,
        );
    let x = choose|id: Seq<u8>| #[trigger] ids.contains(id) && serves(id, s);
    let y = choose|id: Seq<u8>| #[trigger] ids.contains(id) && serves(id, t);
    lemma_service_shape(x, s);
    lemma_service_shape(y, t);
    assert(s[1] == addr[1]);
    assert(t[1] == addr[1]);
    assert(s.len() == t.len());
}

/// The network address of an own identity, on either transport, stands for the
/// public endpoint of the same name and for no other.
pub proof fn law_own_address_is_public(
    ids: Set<Seq<u8>>,
    id: Seq<u8>,
    udp: bool,
    rest: Seq<char>,
    a: Seq<char>,
)
    requires
        forall|i: Seq<u8>| ids.contains(i) ==> i.len() == 20,
        ids.contains(id),
    ensures
        ({
            let service = crate::address::net_service_of(crate::node_id::id_text(id));
            let addr = (if udp {
                "/udp"@ + service
            } else {
                service
            }) + rest;
            is_local_address(services_of(ids), addr, a) <==> a == PUBLIC_PREFIX@ + rest
        }),
{
    let service = crate::address::net_service_of(crate::node_id::id_text(id));
    let s = if udp {
        "/udp"@ + service
    } else {
        service
    };
    let addr = s + rest;
    let want = PUBLIC_PREFIX@ + rest;
    assert(serves(id, s));
    assert(services_of(ids).contains(s));
    assert(s.is_prefix_of(addr)) by {
        assert(s =~= addr.subrange(0, s.len() as int));
    }
    assert(addr.skip(s.len() as int) =~= rest);
    assert(is_local_address(services_of(ids), addr, want));
    if is_local_address(services_of(ids), addr, a) {
        law_local_address_unique(ids, addr, a, want);
    }
}

} // verus!
