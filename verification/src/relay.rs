//! Finding and reaching the relay server.
//!
//! Lookups are done outside. Each step takes the outcome of the lookup before
//! and says what is looked up next.

use url::Url;
use vstd::prelude::*;

use crate::text;

verus! {

/// Relay server that is used where none can be found.
pub const DEFAULT_NET_RELAY_HOST: &'static str = "127.0.0.1:7464";

/// Service record of the relay server.
pub const RELAY_SRV_RECORD: &'static str = "_net_relay._udp";

/// Why the relay server cannot be found.
#[derive(Debug, PartialEq, Eq)]
pub enum RelayError {
    /// The server is not given as host and port.
    Format,
    /// The lookup of its socket failed, with the reason.
    Lookup(String),
    /// There is no socket at that host and port.
    NoSocket { ip: String, port: String },
}

impl RelayError {
    /// The failure in words.
    pub open spec fn text(&self) -> Seq<char> {
        match self {
            RelayError::Format => "Please use host:port format"@,
            RelayError::Lookup(e) => e@,
            RelayError::NoSocket { ip, port } => "Invalid relay address: "@ + (ip@ + ":"@ + port@),
        }
    }

    /// The failure in words.
    pub fn message(&self) -> (r: String)
        ensures
            r@ == self.text(),
    {
        match self {
            RelayError::Format => "Please use host:port format".to_owned(),
            RelayError::Lookup(e) => e.clone(),
            RelayError::NoSocket { ip, port } => text::join2(
                "Invalid relay address: ",
                text::join3(ip.as_str(), ":", port.as_str()).as_str(),
            ),
        }
    }
}

/// What is looked up next.
#[derive(Debug, PartialEq, Eq)]
pub enum RelayStep {
    /// The service record, whose outcome `relay_srv` takes.
    ResolveSrv { record: String },
    /// The address of the host; `relay_socket_text` takes it with the port.
    ResolveDns { host: String, port: String },
    Fail(RelayError),
}

/// `step` is what follows from the server `host_port`: the text before the
/// first colon is the host, the rest is the port.
pub open spec fn is_host_step(host_port: Seq<char>, step: RelayStep) -> bool {
    if host_port.contains(':') {
        let i = text::first_index(host_port, ':');
        &&& step matches RelayStep::ResolveDns { host, port }
        &&& host@ == host_port.take(i)
        &&& port@ == host_port.skip(i + 1)
    } else {
        step == RelayStep::Fail(RelayError::Format)
    }
}

fn host_step(host_port: &str) -> (r: RelayStep)
    ensures
        is_host_step(host_port@, r),
{
    match text::split_once(host_port, ':') {
        Some((host, port)) => RelayStep::ResolveDns {
            host: host.to_owned(),
            port: port.to_owned(),
        },
        None => RelayStep::Fail(RelayError::Format),
    }
}

/// Starts the search: a configured server is taken, else the service record is
/// looked up.
pub fn relay_addr(configured: Option<String>) -> (r: RelayStep)
    ensures
        match configured {
            Some(host_port) => is_host_step(host_port@, r),
            None => r matches RelayStep::ResolveSrv { record } && record@ == RELAY_SRV_RECORD@,
        },
{
    match configured {
        Some(host_port) => host_step(host_port.as_str()),
        None => RelayStep::ResolveSrv { record: RELAY_SRV_RECORD.to_owned() },
    }
}

/// Goes on with the server of the service record, or with the default one
/// where the record was not found.
pub fn relay_srv<E>(resolved: Result<String, E>) -> (r: RelayStep)
    ensures
        match resolved {
            Ok(host_port) => is_host_step(host_port@, r),
            Err(_) => is_host_step(DEFAULT_NET_RELAY_HOST@, r),
        },
{
    match resolved {
        Ok(host_port) => host_step(host_port.as_str()),
        Err(_) => host_step(DEFAULT_NET_RELAY_HOST),
    }
}

/// The socket to look up for an address and a port.
pub fn relay_socket_text(ip: &str, port: &str) -> (r: String)
    ensures
        r@ == ip@ + ":"@ + port@,
{
    text::join3(ip, ":", port)
}

/// The socket of the relay server: the first one that was found.
pub fn relay_socket<A>(ip: String, port: String, found: Result<Vec<A>, String>) -> (r: Result<
    A,
    RelayError,
>)
    ensures
        r == (match found {
            Err(e) => Err(RelayError::Lookup(e)),
            Ok(sockets) => if sockets@.len() > 0 {
                Ok(sockets@[0])
            } else {
                Err(RelayError::NoSocket { ip, port })
            },
        }),
{
    match found {
        Err(e) => Err(RelayError::Lookup(e)),
        Ok(sockets) => {
            let mut sockets: Vec<A> = sockets;
            if sockets.len() > 0 {
                Ok(sockets.remove(0))
            } else {
                Err(RelayError::NoSocket { ip, port })
            }
        },
    }
}

/// Why the client of the relay server cannot be set up.
#[derive(Debug, PartialEq, Eq)]
pub enum ClientError {
    Relay(RelayError),
    /// The address of the server makes no URL, with the reason.
    Url(String),
}

impl ClientError {
    /// The failure in words.
    pub open spec fn text(&self) -> Seq<char> {
        match self {
            ClientError::Relay(e) => "Resolving hybrid NET relay server failed. Error: "@
                + e.text(),
            ClientError::Url(e) => e@,
        }
    }

    /// The failure in words.
    pub fn message(&self) -> (r: String)
        ensures
            r@ == self.text(),
    {
        match self {
            ClientError::Relay(e) => text::join2(
                "Resolving hybrid NET relay server failed. Error: ",
                e.message().as_str(),
            ),
            ClientError::Url(e) => e.clone(),
        }
    }
}

/// What `url::Url::parse` makes of a text: the URL in its normal form, or the
/// failure in words.
pub uninterp spec fn parsed_url(input: Seq<char>) -> Result<Seq<char>, Seq<char>>;

/// A result with both sides taken by their views.
pub open spec fn text_result(r: Result<String, String>) -> Result<Seq<char>, Seq<char>> {
    match r {
        Ok(t) => Ok(t@),
        Err(e) => Err(e@),
    }
}

/// Reads a URL.
///
/// Calls `url::Url::parse` and hands out the serialization of the URL, or the
/// display of the error. Both depend on the text alone; `parsed_url` is their
/// name.
#[verifier::external_body]
fn parse_url(input: &str) -> (r: Result<String, String>)
    ensures
        text_result(r) == parsed_url(input@),
{
    match Url::parse(input) {
        Ok(url) => Ok(String::from(url)),
        Err(e) => Err(e.to_string()),
    }
}

/// The URL of the relay server, once its address was read as a URL or not.
pub fn read_client_url(read: Result<String, String>) -> (r: Result<String, ClientError>)
    ensures
        r == (match read {
            Ok(url) => Ok(url),
            Err(e) => Err(ClientError::Url(e)),
        }),
{
    match read {
        Ok(url) => Ok(url),
        Err(e) => Err(ClientError::Url(e)),
    }
}

/// The URL of the relay server, from the outcome of the search for its socket.
pub fn build_client_url(relay: Result<String, RelayError>) -> (r: Result<String, ClientError>)
    ensures
        match relay {
            Err(e) => r == Err::<String, ClientError>(ClientError::Relay(e)),
            Ok(addr) => match parsed_url("udp://"@ + addr@) {
                Ok(url) => r matches Ok(u) && u@ == url,
                Err(e) => r matches Err(ClientError::Url(m)) && m@ == e,
            },
        },
{
    match relay {
        Err(e) => Err(ClientError::Relay(e)),
        Ok(addr) => {
            let input: String = text::join2("udp://", addr.as_str());
            read_client_url(parse_url(input.as_str()))
        },
    }
}

/// The default relay server is given as host and port, so the search does not
/// end where the service record is missing.
pub proof fn law_default_relay_has_port(step: RelayStep)
    requires
        is_host_step(DEFAULT_NET_RELAY_HOST@, step),
    ensures
        step matches RelayStep::ResolveDns { host, port } && host@ == "127.0.0.1"@ && port@
            == "7464"@,
{
    reveal_strlit("127.0.0.1:7464");
    reveal_strlit("127.0.0.1");
    reveal_strlit("7464");
    let s = DEFAULT_NET_RELAY_HOST@;
    text::lemma_first_index_is(s, ':', 9);
    assert(s[9] == ':');
    assert(s.take(9) =~= "127.0.0.1"@);
    assert(s.skip(10) =~= "7464"@);
}

/// A host without a colon and a port are told apart again after they were put
/// together.
pub proof fn law_host_and_port_split(host: Seq<char>, port: Seq<char>, step: RelayStep)
    requires
        !host.contains(':'),
        is_host_step(host + ":"@ + port, step),
    ensures
        step matches RelayStep::ResolveDns { host: h, port: p } && h@ == host && p@ == port,
{
    reveal_strlit(":");
    let s = host + ":"@ + port;
    assert forall|j: int| 0 <= j < host.len() implies s[j] != ':' by {
        assert(s[j] == host[j]);
        assert(host.contains(host[j]));
    }
    assert(s[host.len() as int] == ':');
    text::lemma_first_index_is(s, ':', host.len() as int);
    assert(s.take(host.len() as int) =~= host);
    assert(s.skip(host.len() as int + 1) =~= port);
}

} // verus!
