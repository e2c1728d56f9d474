//! Life of the network service: start, identities, broadcasts and shutdown.

use vstd::prelude::*;

use crate::address::{BUS_ID, BUS_ID_UDP};
use crate::egress::Resolver;
use crate::node_id::NodeId;
use crate::state::{network_services, State};
use crate::text;

verus! {

/// The network service.
pub struct Net;

/// Why the service cannot do what it is asked for.
#[derive(Debug, PartialEq, Eq)]
pub enum NetError {
    /// It went away before it was started.
    Start,
    /// It has no connection yet to send through.
    NotStarted,
    /// It has no connection yet to broadcast through.
    NotInitialized,
    /// A broadcast failed, with the reason.
    Broadcast(String),
}

impl NetError {
    /// The failure in words.
    pub open spec fn text(&self) -> Seq<char> {
        match self {
            NetError::Start => "Error starting network"@,
            NetError::NotStarted => "network not started"@,
            NetError::NotInitialized => "network not initialized"@,
            NetError::Broadcast(e) => "Broadcast failed: "@ + e@,
        }
    }

    /// The failure in words.
    pub fn message(&self) -> (r: String)
        ensures
            r@ == self.text(),
    {
        match self {
            NetError::Start => "Error starting network".to_owned(),
            NetError::NotStarted => "network not started".to_owned(),
            NetError::NotInitialized => "network not initialized".to_owned(),
            NetError::Broadcast(e) => text::join2("Broadcast failed: ", e.as_str()),
        }
    }
}

/// How the start of the service ended.
#[derive(Debug, PartialEq, Eq)]
pub enum StartError<E> {
    /// The service went away before it reported.
    Net(NetError),
    /// The failure that the service reported.
    Reported(E),
}

impl Net {
    /// The outcome of the start, from the report of the service or the lack of
    /// one.
    pub fn gsb<E>(report: Option<Result<(), E>>) -> (r: Result<(), StartError<E>>)
        ensures
            r == (match report {
                Some(Ok(_)) => Ok(()),
                Some(Err(e)) => Err(StartError::Reported(e)),
                None => Err(StartError::Net(NetError::Start)),
            }),
    {
        match report {
            Some(Ok(_)) => Ok(()),
            Some(Err(e)) => Err(StartError::Reported(e)),
            None => Err(StartError::Net(NetError::Start)),
        }
    }

    /// The client to shut down, where there is one. Whether that works does
    /// not matter; `stop_signal` comes after it.
    pub fn shutdown<C, E>(client: Result<C, E>) -> (r: Option<C>)
        ensures
            r == (match client {
                Ok(c) => Some(c),
                Err(_) => None,
            }),
    {
        match client {
            Ok(c) => Some(c),
            Err(_) => None,
        }
    }

    /// Takes the signal that stops the service out of its place. Nothing is
    /// left to give by a second call.
    pub fn stop_signal<T>(signal: &mut Option<T>) -> (r: Option<T>)
        ensures
            r == *old(signal),
            *final(signal) is None,
    {
        signal.take()
    }
}

/// An address at which the service takes calls on the local bus.
pub struct Binding {
    pub address: String,
    pub reliable: bool,
    pub resolver: Resolver,
}

impl Binding {
    /// The binding to `address`.
    pub open spec fn binds(&self, address: Seq<char>, reliable: bool, resolver: Resolver) -> bool {
        self.address@ == address && self.reliable == reliable && self.resolver == resolver
    }
}

/// What the service starts with.
pub struct NetworkPlan<S, R> {
    pub state: State<S, R>,
    /// In the order in which they are made.
    pub bindings: Vec<Binding>,
}

/// What the service of the identities `ids` starts with, where calls without a
/// sender are made by `default_id`.
pub fn start_network<S, R>(default_id: NodeId, ids: Vec<NodeId>) -> (r: NetworkPlan<S, R>)
    ensures
        r.state.wf(),
        r.state@.requests == Map::<Seq<char>, crate::state::Request<S>>::empty(),
        r.state@.routes == Map::<(Seq<u8>, bool), R>::empty(),
        r.state@.ids == crate::node_id::id_set(ids@),
        r.state@.services == crate::state::services_of(crate::node_id::id_set(ids@)),
        r.bindings@.len() == 4,
        r.bindings@[0].binds(BUS_ID_UDP@, false, Resolver::Net { default_id }),
        r.bindings@[1].binds(BUS_ID@, true, Resolver::Net { default_id }),
        r.bindings@[2].binds("/from"@, true, Resolver::From),
        r.bindings@[3].binds("/udp/from"@, false, Resolver::From),
{
    let services: Vec<String> = network_services(&ids);
    let state: State<S, R> = State::new(ids, services);
    let net: Resolver = Resolver::Net { default_id };
    let mut bindings: Vec<Binding> = Vec::new();
    bindings.push(Binding { address: BUS_ID_UDP.to_owned(), reliable: false, resolver: net });
    bindings.push(Binding { address: BUS_ID.to_owned(), reliable: true, resolver: net });
    bindings.push(
        Binding { address: "/from".to_owned(), reliable: true, resolver: Resolver::From },
    );
    bindings.push(
        Binding { address: "/udp/from".to_owned(), reliable: false, resolver: Resolver::From },
    );
    NetworkPlan { state, bindings }
}

/// Number of public addresses that is reported after the start.
pub fn public_addresses<A>(public: &Option<A>) -> (r: u64)
    ensures
        r == (if public is Some {
            1u64
        } else {
            0u64
        }),
{
    if public.is_some() {
        1
    } else {
        0
    }
}

/// A change of an identity.
#[derive(Clone, Copy, Debug, PartialEq, Eq)]
pub enum IdentityEvent {
    AccountLocked,
    AccountUnlocked,
}

/// The address at which changes of identities are announced.
pub fn identity_endpoint() -> (r: String)
    ensures
        r@ == BUS_ID@ + "/id"@,
{
    text::join2(BUS_ID, "/id")
}

/// What is done on a change of an identity.
pub struct IdentityActions<C> {
    /// The aliases of identities that were remembered are forgotten.
    pub reset_alias_cache: bool,
    /// The client to connect to the server anew.
    pub reconnect: Option<C>,
}

/// Decides what is done on a change of an identity: aliases are forgotten, and
/// the client, where there is one, connects anew.
pub fn on_identity_event<C>(event: IdentityEvent, client: Option<C>) -> (r: IdentityActions<C>)
    ensures
        r.reset_alias_cache,
        r.reconnect == client,
{
    let reconnect: Option<C> = match event {
        IdentityEvent::AccountUnlocked | IdentityEvent::AccountLocked => client,
    };
    IdentityActions { reset_alias_cache: true, reconnect }
}

/// The client to broadcast through.
pub fn broadcast_client<C>(client: Option<C>) -> (r: Result<C, NetError>)
    ensures
        r == (match client {
            Some(c) => Ok(c),
            None => Err(NetError::NotInitialized),
        }),
{
    match client {
        Some(c) => Ok(c),
        None => Err(NetError::NotInitialized),
    }
}

/// The outcome of a broadcast.
pub fn broadcast_outcome(sent: Result<(), String>) -> (r: Result<(), NetError>)
    ensures
        r == (match sent {
            Ok(_) => Ok(()),
            Err(e) => Err(NetError::Broadcast(e)),
        }),
{
    match sent {
        Ok(_) => Ok(()),
        Err(e) => Err(NetError::Broadcast(e)),
    }
}

/// A way to a remote node.
#[derive(Debug, PartialEq, Eq)]
pub enum Sink<C> {
    /// The reliable transport, with a length before each message.
    Prefixed(C),
    /// The unreliable transport, one message to a packet.
    Plain(C),
}

impl<S, R> State<S, R> {
    /// The way to a remote node through the client, on the given transport.
    pub fn forward_sink<C>(client: Option<C>, reliable: bool) -> (r: Result<Sink<C>, NetError>)
        ensures
            r == (match client {
                None => Err(NetError::NotStarted),
                Some(c) => Ok(
                    if reliable {
                        Sink::Prefixed(c)
                    } else {
                        Sink::Plain(c)
                    },
                ),
            }),
    {
        match client {
            None => Err(NetError::NotStarted),
            Some(c) => Ok(
                if reliable {
                    Sink::Prefixed(c)
                } else {
                    Sink::Plain(c)
                },
            ),
        }
    }
}

} // verus!
