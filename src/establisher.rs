//! The connection establisher: which socket a listener is built on, how long
//! a connector waits, and what a connection attempt comes to.
use vstd::prelude::*;

use crate::address::SocketAddress;

verus! {

/// Number of pending connections a listener queues, the value tokio uses by
/// default.
pub const LISTEN_BACKLOG: i32 = 1024;

/// The protocol family of a socket.
#[derive(Clone, Copy, Debug, PartialEq, Eq, Structural)]
pub enum SocketDomain {
    Ipv4,
    Ipv6,
}

/// How to build a listening socket: the family, the `IPV6_V6ONLY` setting if
/// one is to be made, non-blocking mode, and the backlog of the `listen` call.
#[derive(Clone, Copy, Debug, PartialEq, Eq, Structural)]
pub struct ListenerSetup {
    pub domain: SocketDomain,
    pub only_v6: Option<bool>,
    pub nonblocking: bool,
    pub backlog: i32,
}

/// The socket a listener bound to `addr` needs: the family of the address; for
/// IPv6, dual-stack (`IPV6_V6ONLY` off) so that every system accepts IPv4 peers
/// on it alike; non-blocking, for the asynchronous runtime; and the usual backlog.
pub open spec fn spec_listener_setup(addr: SocketAddress) -> ListenerSetup {
    ListenerSetup {
        domain: if addr is V4 { SocketDomain::Ipv4 } else { SocketDomain::Ipv6 },
        only_v6: if addr is V6 { Some(false) } else { None },
        nonblocking: true,
        backlog: LISTEN_BACKLOG,
    }
}

/// Initiates connections, waiting at most `timeout_ms` milliseconds for each.
#[derive(Clone, Copy, Debug, PartialEq, Eq, Structural)]
pub struct DefaultConnector {
    pub timeout_ms: u64,
}

impl DefaultConnector {
    /// The time a connection attempt may take, in milliseconds.
    pub fn timeout_millis(&self) -> (r: u64)
        ensures
            r == self.timeout_ms,
    {
        self.timeout_ms
    }
}

/// Why a connection attempt failed: the socket reported an error, or the
/// attempt outlived the connector's timeout.
#[derive(Clone, Copy, Debug, PartialEq, Eq)]
pub enum ConnectError<E> {
    Io(E),
    TimedOut,
}

/// The result of a connection attempt raced against the connector's timeout:
/// `None` when the time ran out first, otherwise what the attempt returned.
/// A connection or an error of the socket is passed on; an expired timeout
/// becomes `TimedOut`, so that no attempt is left pending.
pub fn settle_connect<S, E>(attempt: Option<Result<S, E>>) -> (r: Result<S, ConnectError<E>>)
    ensures
        match attempt {
            Some(Ok(s)) => r == Ok::<S, ConnectError<E>>(s),
            Some(Err(e)) => r == Err::<S, ConnectError<E>>(ConnectError::Io(e)),
            None => r == Err::<S, ConnectError<E>>(ConnectError::TimedOut),
        },
{
    match attempt {
        Some(Ok(sock)) => Ok(sock),
        Some(Err(e)) => Err(ConnectError::Io(e)),
        None => Err(ConnectError::TimedOut),
    }
}

/// Establishes connections: builds listeners and connectors.
#[derive(Debug)]
pub struct DefaultEstablisher {}

impl DefaultEstablisher {
    /// Creates an establisher.
    pub fn new() -> (r: DefaultEstablisher)
        ensures
            r == (DefaultEstablisher {}),
    {
        DefaultEstablisher {}
    }

    /// The socket setup of a listener bound to `addr`.
    pub fn listener_setup(&self, addr: SocketAddress) -> (r: ListenerSetup)
        ensures
            r == spec_listener_setup(addr),
    {
        let domain = if addr.is_ipv4() {
            SocketDomain::Ipv4
        } else {
            SocketDomain::Ipv6
        };
        let only_v6 = if addr.is_ipv6() {
            Some(false)
        } else {
            None
        };
        ListenerSetup { domain, only_v6, nonblocking: true, backlog: LISTEN_BACKLOG }
    }

    /// A connector that waits `timeout_duration` milliseconds for each attempt.
    pub fn get_connector(&mut self, timeout_duration: u64) -> (r: DefaultConnector)
        ensures
            r.timeout_ms == timeout_duration,
            *final(self) == *old(self),
    {
        DefaultConnector { timeout_ms: timeout_duration }
    }
}

impl Default for DefaultEstablisher {
    fn default() -> (r: DefaultEstablisher)
        ensures
            r == (DefaultEstablisher {}),
    {
        DefaultEstablisher::new()
    }
}

} // verus!
