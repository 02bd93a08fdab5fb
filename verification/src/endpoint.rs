//! Delivery to one network endpoint, as a state machine.
//!
//! The caller owns the sockets. For every message and endpoint it asks
//! [`NetworkEndpoint::send_message`] what to do, does it, and reports with
//! [`NetworkEndpoint::advance`] whether it worked, until the send is
//! finished. The endpoint keeps track of whether a connection is held, so
//! that a connection is made on the first send, checked before it is used
//! again, dropped when a write fails, and made anew on the send after that.

use vstd::prelude::*;
use core::time::Duration;
use socket2::TcpKeepalive;

verus! {

/// Seconds of silence after which a TCP connection is probed.
pub const KEEPALIVE_TIME_SECS: u64 = 30;

/// Seconds between two probes of a silent TCP connection.
pub const KEEPALIVE_INTERVAL_SECS: u64 = 30;

/// `socket2::TcpKeepalive`, the keepalive parameters of a socket. The type
/// offers no way to read them back; [`keepalive_settings`] stands for them.
#[verifier::external_type_specification]
#[verifier::external_body]
pub struct ExTcpKeepalive(socket2::TcpKeepalive);

/// The length of a `core::time::Duration` in nanoseconds: its whole seconds
/// and the fraction of a second together.
pub uninterp spec fn duration_nanos(duration: Duration) -> nat;

/// What a `socket2::TcpKeepalive` holds, in the order of its fields: the
/// idle time before the first probe and the time between two probes, each
/// in nanoseconds, and the number of probes that may go unanswered. Each is
/// `None` where the parameters leave it to the system.
pub uninterp spec fn keepalive_settings(keepalive: TcpKeepalive) -> (
    Option<nat>,
    Option<nat>,
    Option<u32>,
);

/// `core::time::Duration::from_secs`. The duration is `secs` whole seconds
/// and no fraction of one, as the documentation of std has it.
pub assume_specification[ Duration::from_secs ](secs: u64) -> (duration: Duration)
    ensures
        duration_nanos(duration) == secs * 1_000_000_000,
;

/// The keepalive parameters for the socket of a new TCP connection: a probe
/// after [`KEEPALIVE_TIME_SECS`] of silence, and one every
/// [`KEEPALIVE_INTERVAL_SECS`] from then on; the number of probes is left
/// to the system.
pub fn tcp_keepalive() -> (keepalive: TcpKeepalive)
    ensures
        keepalive_settings(keepalive).0 matches Some(time) && time == KEEPALIVE_TIME_SECS
            * 1_000_000_000,
        keepalive_settings(keepalive).1 matches Some(interval) && interval
            == KEEPALIVE_INTERVAL_SECS * 1_000_000_000,
        keepalive_settings(keepalive).2 is None,
{
    TcpKeepalive::new().with_time(Duration::from_secs(KEEPALIVE_TIME_SECS)).with_interval(
        Duration::from_secs(KEEPALIVE_INTERVAL_SECS),
    )
}

/// `socket2::TcpKeepalive::new`. The parameters it makes set nothing: its
/// source fills every field with `None`.
pub assume_specification[ TcpKeepalive::new ]() -> (keepalive: TcpKeepalive)
    ensures
        keepalive_settings(keepalive) == (None::<nat>, None::<nat>, None::<u32>),
;

/// `socket2::TcpKeepalive::with_time`. It sets the idle time to `time` and
/// hands the other fields on as they were.
pub assume_specification[ TcpKeepalive::with_time ](
    keepalive: TcpKeepalive,
    time: Duration,
) -> (with_time: TcpKeepalive)
    ensures
        keepalive_settings(with_time) == (
            Some(duration_nanos(time)),
            keepalive_settings(keepalive).1,
            keepalive_settings(keepalive).2,
        ),
;

/// `socket2::TcpKeepalive::with_interval`. It sets the time between two
/// probes to `interval` and hands the other fields on as they were.
pub assume_specification[ TcpKeepalive::with_interval ](
    keepalive: TcpKeepalive,
    interval: Duration,
) -> (with_interval: TcpKeepalive)
    ensures
        keepalive_settings(with_interval) == (
            keepalive_settings(keepalive).0,
            Some(duration_nanos(interval)),
            keepalive_settings(keepalive).2,
        ),
;

/// The transport of an endpoint.
#[derive(Clone, Copy, Debug, PartialEq, Eq)]
pub enum Protocol {
    /// Connect to the peer over TCP.
    TCP,
    /// Send datagrams to the peer over UDP.
    UDP,
    /// Wait for peers over TCP; nothing is ever sent to such an endpoint.
    TCPListen,
    /// Wait for datagrams over UDP; nothing is ever sent to such an endpoint.
    UDPListen,
}

/// One thing the caller does with its sockets.
#[derive(Clone, Copy, Debug, PartialEq, Eq)]
pub enum SendAction {
    /// Ask the held TCP connection for its peer's address, to see whether
    /// it is still alive.
    ProbeConnection,
    /// Connect over TCP and switch keepalive on, with
    /// [`KEEPALIVE_TIME_SECS`] and [`KEEPALIVE_INTERVAL_SECS`].
    Connect,
    /// Write the message to the held TCP connection.
    Write,
    /// Bind a UDP socket to an ephemeral local port and associate it with
    /// the peer.
    Bind,
    /// Send the message as a datagram through the held UDP socket.
    SendDatagram,
}

/// Where a send stands.
#[derive(Clone, Copy, Debug, PartialEq, Eq)]
pub enum SendStep {
    /// The caller is to perform the action and report how it went.
    Perform(SendAction),
    /// The send is over; the flag says whether it counts as delivered.
    Finished(bool),
}

/// The state of an endpoint as plain values.
pub struct Link {
    pub protocol: Protocol,
    /// A TCP connection is held.
    pub connected: bool,
    /// A UDP socket is held.
    pub bound: bool,
    /// The action whose outcome is awaited.
    pub pending: Option<SendAction>,
}

impl Link {
    /// An endpoint that holds nothing.
    pub open spec fn idle(protocol: Protocol) -> Link {
        Link { protocol, connected: false, bound: false, pending: None }
    }

    /// At most one connection is held and it fits the transport, listening
    /// endpoints hold nothing, and the awaited action fits what is held.
    pub open spec fn well_formed(self) -> bool {
        &&& self.connected ==> self.protocol == Protocol::TCP
        &&& self.bound ==> self.protocol == Protocol::UDP
        &&& match self.pending {
            Some(SendAction::ProbeConnection) => self.connected,
            Some(SendAction::Connect) => self.protocol == Protocol::TCP && !self.connected,
            Some(SendAction::Write) => self.connected,
            Some(SendAction::Bind) => self.protocol == Protocol::UDP && !self.bound,
            Some(SendAction::SendDatagram) => self.bound,
            None => true,
        }
    }

    /// The first step of a send.
    pub open spec fn first_step(self) -> SendStep {
        match self.protocol {
            Protocol::TCP => if self.connected {
                SendStep::Perform(SendAction::ProbeConnection)
            } else {
                SendStep::Perform(SendAction::Connect)
            },
            Protocol::UDP => if self.bound {
                SendStep::Perform(SendAction::SendDatagram)
            } else {
                SendStep::Perform(SendAction::Bind)
            },
            Protocol::TCPListen | Protocol::UDPListen => SendStep::Finished(true),
        }
    }

    /// The step that follows once the awaited action succeeded or failed.
    pub open spec fn next_step(self, succeeded: bool) -> SendStep {
        match self.pending {
            Some(SendAction::ProbeConnection) => if succeeded {
                SendStep::Perform(SendAction::Write)
            } else {
                SendStep::Perform(SendAction::Connect)
            },
            Some(SendAction::Connect) => if succeeded {
                SendStep::Perform(SendAction::Write)
            } else {
                SendStep::Finished(false)
            },
            Some(SendAction::Bind) => if succeeded {
                SendStep::Perform(SendAction::SendDatagram)
            } else {
                SendStep::Finished(false)
            },
            Some(SendAction::Write) | Some(SendAction::SendDatagram) => SendStep::Finished(
                succeeded,
            ),
            None => SendStep::Finished(false),
        }
    }

    /// What is held once the awaited action succeeded or failed: a
    /// connection that proved dead or that failed a write is dropped, one
    /// that was made is kept; a socket that was bound is kept, also when a
    /// datagram fails.
    pub open spec fn holds_after(self, succeeded: bool) -> (bool, bool) {
        match self.pending {
            Some(SendAction::ProbeConnection) | Some(SendAction::Connect) | Some(
                SendAction::Write,
            ) => (succeeded, self.bound),
            Some(SendAction::Bind) => (self.connected, succeeded),
            Some(SendAction::SendDatagram) | None => (self.connected, self.bound),
        }
    }

    /// The action that `step` leaves to be awaited.
    pub open spec fn awaited(step: SendStep) -> Option<SendAction> {
        match step {
            SendStep::Perform(action) => Some(action),
            SendStep::Finished(_) => None,
        }
    }

    /// The state after a send was begun.
    pub open spec fn begun(self) -> Link {
        Link { pending: Link::awaited(self.first_step()), ..self }
    }

    /// The state after the awaited action succeeded or failed.
    pub open spec fn advanced(self, succeeded: bool) -> Link {
        Link {
            protocol: self.protocol,
            connected: self.holds_after(succeeded).0,
            bound: self.holds_after(succeeded).1,
            pending: Link::awaited(self.next_step(succeeded)),
        }
    }
}

/// One network destination and what is held for it.
#[derive(Clone, Copy, Debug, PartialEq, Eq)]
pub struct NetworkEndpoint {
    protocol: Protocol,
    connected: bool,
    bound: bool,
    pending: Option<SendAction>,
}

impl View for NetworkEndpoint {
    type V = Link;

    closed spec fn view(&self) -> Link {
        Link {
            protocol: self.protocol,
            connected: self.connected,
            bound: self.bound,
            pending: self.pending,
        }
    }
}

impl NetworkEndpoint {
    #[verifier::type_invariant]
    spec fn inv(self) -> bool {
        self@.well_formed()
    }

    /// An endpoint for which nothing is held yet.
    pub fn new(protocol: Protocol) -> (endpoint: Self)
        ensures
            endpoint@ == Link::idle(protocol),
    {
        NetworkEndpoint { protocol, connected: false, bound: false, pending: None }
    }

    /// The transport of the endpoint.
    pub fn protocol(&self) -> (protocol: Protocol)
        ensures
            protocol == self@.protocol,
            self@.well_formed(),
    {
        proof {
            use_type_invariant(self);
        }
        self.protocol
    }

    /// Whether a TCP connection is held.
    pub fn is_connected(&self) -> (connected: bool)
        ensures
            connected == self@.connected,
    {
        self.connected
    }

    /// Whether a UDP socket is held.
    pub fn is_bound(&self) -> (bound: bool)
        ensures
            bound == self@.bound,
    {
        self.bound
    }

    /// Begins the send of one message and says what to do first. A send
    /// that was begun before and not finished is given up.
    pub fn send_message(&mut self) -> (step: SendStep)
        ensures
            step == old(self)@.first_step(),
            final(self)@ == old(self)@.begun(),
            final(self)@.well_formed(),
    {
        proof {
            use_type_invariant(&*self);
        }
        let step = match self.protocol {
            Protocol::TCP => if self.connected {
                SendStep::Perform(SendAction::ProbeConnection)
            } else {
                SendStep::Perform(SendAction::Connect)
            },
            Protocol::UDP => if self.bound {
                SendStep::Perform(SendAction::SendDatagram)
            } else {
                SendStep::Perform(SendAction::Bind)
            },
            Protocol::TCPListen | Protocol::UDPListen => SendStep::Finished(true),
        };
        self.pending = match step {
            SendStep::Perform(action) => Some(action),
            SendStep::Finished(_) => None,
        };
        step
    }

    /// Takes the outcome of the action that was asked for last, and says
    /// what follows. Without such an action the send is finished as failed.
    pub fn advance(&mut self, succeeded: bool) -> (step: SendStep)
        ensures
            step == old(self)@.next_step(succeeded),
            final(self)@ == old(self)@.advanced(succeeded),
            final(self)@.well_formed(),
    {
        proof {
            use_type_invariant(&*self);
        }
        let (step, connected, bound) = match self.pending {
            Some(SendAction::ProbeConnection) => if succeeded {
                (SendStep::Perform(SendAction::Write), true, self.bound)
            } else {
                (SendStep::Perform(SendAction::Connect), false, self.bound)
            },
            Some(SendAction::Connect) => if succeeded {
                (SendStep::Perform(SendAction::Write), true, self.bound)
            } else {
                (SendStep::Finished(false), false, self.bound)
            },
            Some(SendAction::Write) => (SendStep::Finished(succeeded), succeeded, self.bound),
            Some(SendAction::Bind) => if succeeded {
                (SendStep::Perform(SendAction::SendDatagram), self.connected, true)
            } else {
                (SendStep::Finished(false), self.connected, false)
            },
            Some(SendAction::SendDatagram) => (
                SendStep::Finished(succeeded),
                self.connected,
                self.bound,
            ),
            None => (SendStep::Finished(false), self.connected, self.bound),
        };
        let pending = match step {
            SendStep::Perform(action) => Some(action),
            SendStep::Finished(_) => None,
        };
        *self = NetworkEndpoint { protocol: self.protocol, connected, bound, pending };
        step
    }
}

/// Being well formed is kept by every step of a send.
pub proof fn lemma_steps_keep_well_formed(link: Link, succeeded: bool)
    requires
        link.well_formed(),
    ensures
        Link::idle(link.protocol).well_formed(),
        link.begun().well_formed(),
        link.advanced(succeeded).well_formed(),
{
}

/// A listening endpoint is inert: a send to it is finished at once, asks
/// for no action and leaves nothing held.
pub proof fn lemma_listening_endpoint_is_inert(link: Link)
    requires
        link.well_formed(),
        link.protocol == Protocol::TCPListen || link.protocol == Protocol::UDPListen,
    ensures
        link.first_step() == SendStep::Finished(true),
        link.begun().pending is None,
        !link.begun().connected,
        !link.begun().bound,
{
}

/// A send asks for at most three actions, however they go.
pub proof fn lemma_send_finishes(link: Link, first: bool, second: bool, third: bool)
    requires
        link.well_formed(),
    ensures
        link.begun().advanced(first).advanced(second).advanced(third).pending is None,
        link.begun().advanced(first).advanced(second).next_step(third) is Finished,
{
}

/// A TCP connection that breaks is replaced. When a write fails, or when
/// the held connection turns out to be dead before a write, the connection
/// is dropped; the next thing asked for is a new connection, and once that
/// is made and written to, the message counts as delivered.
pub proof fn lemma_broken_connection_is_replaced(link: Link)
    requires
        link.well_formed(),
        link.protocol == Protocol::TCP,
        link.connected,
    ensures
        ({
            let failed = Link { pending: Some(SendAction::Write), ..link };
            &&& failed.next_step(false) == SendStep::Finished(false)
            &&& !failed.advanced(false).connected
            &&& failed.advanced(false).first_step() == SendStep::Perform(SendAction::Connect)
            &&& failed.advanced(false).begun().next_step(true) == SendStep::Perform(
                SendAction::Write,
            )
            &&& failed.advanced(false).begun().advanced(true).connected
            &&& failed.advanced(false).begun().advanced(true).next_step(true)
                == SendStep::Finished(true)
        }),
        ({
            let probing = link.begun();
            &&& link.first_step() == SendStep::Perform(SendAction::ProbeConnection)
            &&& probing.next_step(false) == SendStep::Perform(SendAction::Connect)
            &&& !probing.advanced(false).connected
            &&& probing.advanced(false).next_step(true) == SendStep::Perform(SendAction::Write)
            &&& probing.advanced(false).advanced(true).connected
            &&& probing.advanced(false).advanced(true).next_step(true) == SendStep::Finished(
                true,
            )
        }),
{
}

/// A datagram that cannot be sent fails that send only: the socket is kept
/// and the next send uses it without binding again.
pub proof fn lemma_failed_datagram_keeps_socket(link: Link)
    requires
        link.well_formed(),
        link.pending == Some(SendAction::SendDatagram),
    ensures
        link.next_step(false) == SendStep::Finished(false),
        link.advanced(false).bound,
        link.advanced(false).first_step() == SendStep::Perform(SendAction::SendDatagram),
{
}

} // verus!
