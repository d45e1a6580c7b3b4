use vstd::prelude::*;

use crate::error::NexError;

verus! {

// The connection lifecycle: the handshake, the data phase with its PING
// keepalive, and disconnection. The heart is a pure transition function
// from state and event to next state and action; the surrounding endpoint
// performs the action and feeds the next event back.

/// A datagram sink and source, implemented by the surrounding transport.
pub trait Endpoint {
    fn send(&self, data: &[u8]) -> Result<(), NexError>;

    fn receive(&self) -> Result<Vec<u8>, NexError>;
}

/// A connection lifecycle capability, implemented by the surrounding
/// transport.
pub trait Connection {
    fn connect(&mut self) -> Result<(), NexError>;

    fn disconnect(&mut self) -> Result<(), NexError>;
}

/// The connection states: the client walks Idle, SynSent, ConnectSent,
/// Established; the server walks Idle, SynReceived, ConnectReceived,
/// Established; both end through Disconnecting or directly in Closed.
#[derive(Debug, Clone, Copy, PartialEq, Eq, Structural)]
pub enum ConnectionState {
    Idle,
    SynSent,
    SynReceived,
    ConnectSent,
    ConnectReceived,
    Established,
    Disconnecting,
    Closed,
}

/// Why a connection ended.
#[derive(Debug, Clone, Copy, PartialEq, Eq, Structural)]
pub enum CloseReason {
    Timeout,
    ProtocolError,
    PeerDisconnect,
    LocalClose,
}

/// What reached the connection.
#[derive(Debug, Clone, Copy, PartialEq, Eq, Structural)]
pub enum ConnectionEvent {
    StartConnect,
    ReceiveSyn,
    ReceiveSynAck,
    ReceiveConnect,
    ReceiveConnectAck,
    ReceiveData,
    ReceivePing,
    ReceivePingAck,
    ReceiveDisconnect,
    PingTimeout,
    RetransmitExhausted,
    CloseRequested,
    DisconnectSent,
}

/// How many times a DISCONNECT goes out: unreliably, so a lost ack never
/// blocks closure.
pub const DISCONNECT_REPEAT: u8 = 3;

/// What the endpoint must do next.
#[derive(Debug, Clone, Copy, PartialEq, Eq, Structural)]
pub enum ConnectionAction {
    Nothing,
    SendSyn,
    SendSynAck,
    SendConnect,
    SendConnectAck,
    AcceptData,
    SendPingAck,
    SendDisconnect(u8),
    TearDown(CloseReason),
}

/// The transition table. Disconnects close immediately from every state;
/// unexpected handshake traffic aborts the handshake; post-handshake
/// protocol violations tear the connection down; pings are answered only
/// once established.
pub open spec fn connection_transition(s: ConnectionState, e: ConnectionEvent) -> (
    ConnectionState,
    ConnectionAction,
) {
    if s is Closed {
        (ConnectionState::Closed, ConnectionAction::Nothing)
    } else if e is ReceiveDisconnect {
        (ConnectionState::Closed, ConnectionAction::Nothing)
    } else if e is PingTimeout || e is RetransmitExhausted {
        (ConnectionState::Closed, ConnectionAction::TearDown(CloseReason::Timeout))
    } else if e is CloseRequested {
        (ConnectionState::Disconnecting, ConnectionAction::SendDisconnect(DISCONNECT_REPEAT))
    } else {
        match s {
            ConnectionState::Idle => match e {
                ConnectionEvent::StartConnect => (
                    ConnectionState::SynSent,
                    ConnectionAction::SendSyn,
                ),
                ConnectionEvent::ReceiveSyn => (
                    ConnectionState::SynReceived,
                    ConnectionAction::SendSynAck,
                ),
                _ => (ConnectionState::Idle, ConnectionAction::Nothing),
            },
            ConnectionState::SynSent => match e {
                ConnectionEvent::ReceiveSynAck => (
                    ConnectionState::ConnectSent,
                    ConnectionAction::SendConnect,
                ),
                ConnectionEvent::ReceivePing | ConnectionEvent::ReceivePingAck => (
                    ConnectionState::SynSent,
                    ConnectionAction::Nothing,
                ),
                _ => (
                    ConnectionState::Closed,
                    ConnectionAction::TearDown(CloseReason::ProtocolError),
                ),
            },
            ConnectionState::SynReceived => match e {
                ConnectionEvent::ReceiveSyn => (
                    ConnectionState::SynReceived,
                    ConnectionAction::SendSynAck,
                ),
                ConnectionEvent::ReceiveConnect => (
                    ConnectionState::ConnectReceived,
                    ConnectionAction::SendConnectAck,
                ),
                ConnectionEvent::ReceivePing | ConnectionEvent::ReceivePingAck => (
                    ConnectionState::SynReceived,
                    ConnectionAction::Nothing,
                ),
                _ => (
                    ConnectionState::Closed,
                    ConnectionAction::TearDown(CloseReason::ProtocolError),
                ),
            },
            ConnectionState::ConnectSent => match e {
                ConnectionEvent::ReceiveConnectAck => (
                    ConnectionState::Established,
                    ConnectionAction::Nothing,
                ),
                ConnectionEvent::ReceiveSynAck => (
                    ConnectionState::ConnectSent,
                    ConnectionAction::SendConnect,
                ),
                ConnectionEvent::ReceivePing | ConnectionEvent::ReceivePingAck => (
                    ConnectionState::ConnectSent,
                    ConnectionAction::Nothing,
                ),
                _ => (
                    ConnectionState::Closed,
                    ConnectionAction::TearDown(CloseReason::ProtocolError),
                ),
            },
            ConnectionState::ConnectReceived => match e {
                ConnectionEvent::ReceiveConnect => (
                    ConnectionState::ConnectReceived,
                    ConnectionAction::SendConnectAck,
                ),
                ConnectionEvent::ReceiveData => (
                    ConnectionState::Established,
                    ConnectionAction::AcceptData,
                ),
                ConnectionEvent::ReceivePing => (
                    ConnectionState::Established,
                    ConnectionAction::SendPingAck,
                ),
                ConnectionEvent::ReceivePingAck => (
                    ConnectionState::ConnectReceived,
                    ConnectionAction::Nothing,
                ),
                _ => (
                    ConnectionState::Closed,
                    ConnectionAction::TearDown(CloseReason::ProtocolError),
                ),
            },
            ConnectionState::Established => match e {
                ConnectionEvent::ReceiveData => (
                    ConnectionState::Established,
                    ConnectionAction::AcceptData,
                ),
                ConnectionEvent::ReceivePing => (
                    ConnectionState::Established,
                    ConnectionAction::SendPingAck,
                ),
                ConnectionEvent::ReceivePingAck => (
                    ConnectionState::Established,
                    ConnectionAction::Nothing,
                ),
                ConnectionEvent::ReceiveConnect => (
                    ConnectionState::Established,
                    ConnectionAction::SendConnectAck,
                ),
                _ => (
                    ConnectionState::Closed,
                    ConnectionAction::TearDown(CloseReason::ProtocolError),
                ),
            },
            ConnectionState::Disconnecting => match e {
                ConnectionEvent::DisconnectSent => (
                    ConnectionState::Closed,
                    ConnectionAction::Nothing,
                ),
                _ => (ConnectionState::Disconnecting, ConnectionAction::Nothing),
            },
            ConnectionState::Closed => (ConnectionState::Closed, ConnectionAction::Nothing),
        }
    }
}

/// Performs one step of the connection state machine.
pub fn connection_step(s: ConnectionState, e: ConnectionEvent) -> (r: (
    ConnectionState,
    ConnectionAction,
))
    ensures
        r == connection_transition(s, e),
{
    if matches!(s, ConnectionState::Closed) {
        (ConnectionState::Closed, ConnectionAction::Nothing)
    } else if matches!(e, ConnectionEvent::ReceiveDisconnect) {
        (ConnectionState::Closed, ConnectionAction::Nothing)
    } else if matches!(e, ConnectionEvent::PingTimeout)
        || matches!(e, ConnectionEvent::RetransmitExhausted) {
        (ConnectionState::Closed, ConnectionAction::TearDown(CloseReason::Timeout))
    } else if matches!(e, ConnectionEvent::CloseRequested) {
        (ConnectionState::Disconnecting, ConnectionAction::SendDisconnect(DISCONNECT_REPEAT))
    } else {
        match s {
            ConnectionState::Idle => match e {
                ConnectionEvent::StartConnect => (
                    ConnectionState::SynSent,
                    ConnectionAction::SendSyn,
                ),
                ConnectionEvent::ReceiveSyn => (
                    ConnectionState::SynReceived,
                    ConnectionAction::SendSynAck,
                ),
                _ => (ConnectionState::Idle, ConnectionAction::Nothing),
            },
            ConnectionState::SynSent => match e {
                ConnectionEvent::ReceiveSynAck => (
                    ConnectionState::ConnectSent,
                    ConnectionAction::SendConnect,
                ),
                ConnectionEvent::ReceivePing | ConnectionEvent::ReceivePingAck => (
                    ConnectionState::SynSent,
                    ConnectionAction::Nothing,
                ),
                _ => (
                    ConnectionState::Closed,
                    ConnectionAction::TearDown(CloseReason::ProtocolError),
                ),
            },
            ConnectionState::SynReceived => match e {
                ConnectionEvent::ReceiveSyn => (
                    ConnectionState::SynReceived,
                    ConnectionAction::SendSynAck,
                ),
                ConnectionEvent::ReceiveConnect => (
                    ConnectionState::ConnectReceived,
                    ConnectionAction::SendConnectAck,
                ),
                ConnectionEvent::ReceivePing | ConnectionEvent::ReceivePingAck => (
                    ConnectionState::SynReceived,
                    ConnectionAction::Nothing,
                ),
                _ => (
                    ConnectionState::Closed,
                    ConnectionAction::TearDown(CloseReason::ProtocolError),
                ),
            },
            ConnectionState::ConnectSent => match e {
                ConnectionEvent::ReceiveConnectAck => (
                    ConnectionState::Established,
                    ConnectionAction::Nothing,
                ),
                ConnectionEvent::ReceiveSynAck => (
                    ConnectionState::ConnectSent,
                    ConnectionAction::SendConnect,
                ),
                ConnectionEvent::ReceivePing | ConnectionEvent::ReceivePingAck => (
                    ConnectionState::ConnectSent,
                    ConnectionAction::Nothing,
                ),
                _ => (
                    ConnectionState::Closed,
                    ConnectionAction::TearDown(CloseReason::ProtocolError),
                ),
            },
            ConnectionState::ConnectReceived => match e {
                ConnectionEvent::ReceiveConnect => (
                    ConnectionState::ConnectReceived,
                    ConnectionAction::SendConnectAck,
                ),
                ConnectionEvent::ReceiveData => (
                    ConnectionState::Established,
                    ConnectionAction::AcceptData,
                ),
                ConnectionEvent::ReceivePing => (
                    ConnectionState::Established,
                    ConnectionAction::SendPingAck,
                ),
                ConnectionEvent::ReceivePingAck => (
                    ConnectionState::ConnectReceived,
                    ConnectionAction::Nothing,
                ),
                _ => (
                    ConnectionState::Closed,
                    ConnectionAction::TearDown(CloseReason::ProtocolError),
                ),
            },
            ConnectionState::Established => match e {
                ConnectionEvent::ReceiveData => (
                    ConnectionState::Established,
                    ConnectionAction::AcceptData,
                ),
                ConnectionEvent::ReceivePing => (
                    ConnectionState::Established,
                    ConnectionAction::SendPingAck,
                ),
                ConnectionEvent::ReceivePingAck => (
                    ConnectionState::Established,
                    ConnectionAction::Nothing,
                ),
                ConnectionEvent::ReceiveConnect => (
                    ConnectionState::Established,
                    ConnectionAction::SendConnectAck,
                ),
                _ => (
                    ConnectionState::Closed,
                    ConnectionAction::TearDown(CloseReason::ProtocolError),
                ),
            },
            ConnectionState::Disconnecting => match e {
                ConnectionEvent::DisconnectSent => (
                    ConnectionState::Closed,
                    ConnectionAction::Nothing,
                ),
                _ => (ConnectionState::Disconnecting, ConnectionAction::Nothing),
            },
            ConnectionState::Closed => (ConnectionState::Closed, ConnectionAction::Nothing),
        }
    }
}

/// A closed connection stays closed, whatever arrives.
pub proof fn lemma_closed_absorbing(e: ConnectionEvent)
    ensures
        connection_transition(ConnectionState::Closed, e).0 is Closed,
{
}

/// A DISCONNECT closes the connection from every state, and a repeated
/// DISCONNECT leaves it closed: disconnection is idempotent.
pub proof fn lemma_disconnect_idempotent(s: ConnectionState)
    ensures
        connection_transition(s, ConnectionEvent::ReceiveDisconnect).0 is Closed,
        connection_transition(
            connection_transition(s, ConnectionEvent::ReceiveDisconnect).0,
            ConnectionEvent::ReceiveDisconnect,
        ).0 is Closed,
{
}

/// The client handshake: starting from Idle, the SYN/ACK then CONNECT/ACK
/// exchange ends in Established, sending SYN and CONNECT on the way.
pub proof fn lemma_client_handshake()
    ensures
        ({
            let s1 = connection_transition(ConnectionState::Idle, ConnectionEvent::StartConnect);
            let s2 = connection_transition(s1.0, ConnectionEvent::ReceiveSynAck);
            let s3 = connection_transition(s2.0, ConnectionEvent::ReceiveConnectAck);
            s1.1 is SendSyn && s2.1 is SendConnect && s3.0 is Established
        }),
{
}

/// The server handshake: starting from Idle, receiving SYN then CONNECT
/// answers both and ends in Established once data flows.
pub proof fn lemma_server_handshake()
    ensures
        ({
            let s1 = connection_transition(ConnectionState::Idle, ConnectionEvent::ReceiveSyn);
            let s2 = connection_transition(s1.0, ConnectionEvent::ReceiveConnect);
            let s3 = connection_transition(s2.0, ConnectionEvent::ReceiveData);
            s1.1 is SendSynAck && s2.1 is SendConnectAck && s3.0 is Established
        }),
{
}

/// What the keepalive clock asks for.
#[derive(Debug, Clone, Copy, PartialEq, Eq, Structural)]
pub enum PingDecision {
    Nothing,
    SendPing(u64),
    TimedOut,
}

/// The PING keepalive clock of one established connection: pings go out
/// after `ping_interval` of silence, each carries a fresh increasing id,
/// and an unanswered ping past `ping_timeout` times the connection out.
pub struct PingMonitor {
    last_activity: u64,
    ping_interval: u64,
    ping_timeout: u64,
    outstanding: Option<u64>,
    outstanding_since: u64,
    next_ping_id: u64,
}

impl PingMonitor {
    pub closed spec fn last_activity_spec(&self) -> u64 {
        self.last_activity
    }

    pub closed spec fn ping_interval_spec(&self) -> u64 {
        self.ping_interval
    }

    pub closed spec fn ping_timeout_spec(&self) -> u64 {
        self.ping_timeout
    }

    pub closed spec fn outstanding_spec(&self) -> Option<u64> {
        self.outstanding
    }

    pub closed spec fn outstanding_since_spec(&self) -> u64 {
        self.outstanding_since
    }

    pub closed spec fn next_ping_id_spec(&self) -> u64 {
        self.next_ping_id
    }

    pub fn new(now: u64, ping_interval: u64, ping_timeout: u64) -> (r: Self)
        ensures
            r.last_activity_spec() == now,
            r.ping_interval_spec() == ping_interval,
            r.ping_timeout_spec() == ping_timeout,
            r.outstanding_spec() is None,
            r.next_ping_id_spec() == 0,
    {
        PingMonitor {
            last_activity: now,
            ping_interval,
            ping_timeout,
            outstanding: None,
            outstanding_since: 0,
            next_ping_id: 0,
        }
    }

    /// Notes traffic from the peer: the idle clock restarts and any
    /// outstanding ping is considered answered.
    pub fn note_activity(&mut self, now: u64)
        ensures
            final(self).last_activity_spec() == now,
            final(self).outstanding_spec() is None,
            final(self).ping_interval_spec() == old(self).ping_interval_spec(),
            final(self).ping_timeout_spec() == old(self).ping_timeout_spec(),
            final(self).next_ping_id_spec() == old(self).next_ping_id_spec(),
    {
        self.last_activity = now;
        self.outstanding = None;
    }

    /// Consults the clock: a ping outstanding past the timeout times the
    /// connection out; silence past the interval sends a fresh ping;
    /// otherwise nothing is owed.
    pub fn poll(&mut self, now: u64) -> (r: PingDecision)
        requires
            old(self).next_ping_id_spec() < u64::MAX,
            old(self).outstanding_since_spec() + old(self).ping_timeout_spec() <= u64::MAX,
            old(self).last_activity_spec() + old(self).ping_interval_spec() <= u64::MAX,
        ensures
            old(self).outstanding_spec() is Some && now >= old(self).outstanding_since_spec()
                + old(self).ping_timeout_spec() ==> r == PingDecision::TimedOut && *final(self)
                == *old(self),
            old(self).outstanding_spec() is Some && now < old(self).outstanding_since_spec()
                + old(self).ping_timeout_spec() ==> r == PingDecision::Nothing && *final(self)
                == *old(self),
            old(self).outstanding_spec() is None && now >= old(self).last_activity_spec() + old(
                self,
            ).ping_interval_spec() ==> {
                &&& r == PingDecision::SendPing(old(self).next_ping_id_spec())
                &&& final(self).outstanding_spec() == Some(old(self).next_ping_id_spec())
                &&& final(self).outstanding_since_spec() == now
                &&& final(self).next_ping_id_spec() == old(self).next_ping_id_spec() + 1
            },
            old(self).outstanding_spec() is None && now < old(self).last_activity_spec() + old(
                self,
            ).ping_interval_spec() ==> r == PingDecision::Nothing && *final(self) == *old(self),
            final(self).ping_interval_spec() == old(self).ping_interval_spec(),
            final(self).ping_timeout_spec() == old(self).ping_timeout_spec(),
    {
        match self.outstanding {
            Some(_) => {
                if now >= self.outstanding_since + self.ping_timeout {
                    PingDecision::TimedOut
                } else {
                    PingDecision::Nothing
                }
            },
            None => {
                if now >= self.last_activity + self.ping_interval {
                    let id = self.next_ping_id;
                    self.outstanding = Some(id);
                    self.outstanding_since = now;
                    self.next_ping_id = id + 1;
                    PingDecision::SendPing(id)
                } else {
                    PingDecision::Nothing
                }
            },
        }
    }
}

/// One PRUDP association: the state machine, the keepalive clock, the
/// per-substream reliable state, the per-direction cipher states, the
/// signature-mismatch counter, and the handshake-scoped identity — the
/// session ids and the peer's connection signature, which are chosen
/// during the handshake and never change afterwards.
pub struct PrudpConnection {
    state: ConnectionState,
    local_session_id: u8,
    remote_session_id: u8,
    remote_signature: Vec<u8>,
    access_key: Vec<u8>,
    cipher_in: crate::encryption::PayloadCipher,
    cipher_out: crate::encryption::PayloadCipher,
    signatures: crate::signature::SignatureMonitor,
    pub pings: PingMonitor,
    pub substream: crate::reliable::ReliableSubstream,
}

impl PrudpConnection {
    pub closed spec fn state_spec(&self) -> ConnectionState {
        self.state
    }

    pub closed spec fn local_session_id_spec(&self) -> u8 {
        self.local_session_id
    }

    pub closed spec fn remote_session_id_spec(&self) -> u8 {
        self.remote_session_id
    }

    pub closed spec fn remote_signature_spec(&self) -> Seq<u8> {
        self.remote_signature@
    }

    pub closed spec fn access_key_spec(&self) -> Seq<u8> {
        self.access_key@
    }

    /// The keepalive clock.
    pub closed spec fn pings_spec(&self) -> PingMonitor {
        self.pings
    }

    /// The reliable state of the default substream.
    pub closed spec fn substream_spec(&self) -> crate::reliable::ReliableSubstream {
        self.substream
    }

    /// The cipher applied to inbound payloads.
    pub closed spec fn cipher_in_spec(&self) -> crate::encryption::PayloadCipher {
        self.cipher_in
    }

    /// The cipher applied to outbound payloads.
    pub closed spec fn cipher_out_spec(&self) -> crate::encryption::PayloadCipher {
        self.cipher_out
    }

    /// The signature-mismatch counter.
    pub closed spec fn signatures_spec(&self) -> crate::signature::SignatureMonitor {
        self.signatures
    }

    /// Both cipher states carry usable keys.
    pub open spec fn ciphers_wf(&self) -> bool {
        &&& crate::encryption::cipher_wf(self.cipher_in_spec())
        &&& crate::encryption::cipher_wf(self.cipher_out_spec())
    }

    /// The identity fixed by the handshake: both session ids and the
    /// peer's connection signature.
    pub open spec fn same_identity(&self, other: &Self) -> bool {
        &&& self.local_session_id_spec() == other.local_session_id_spec()
        &&& self.remote_session_id_spec() == other.remote_session_id_spec()
        &&& self.remote_signature_spec() == other.remote_signature_spec()
        &&& self.access_key_spec() == other.access_key_spec()
    }

    pub fn new(
        access_key: Vec<u8>,
        local_session_id: u8,
        now: u64,
        ping_interval: u64,
        ping_timeout: u64,
        signature_ceiling: u32,
    ) -> (r: Self)
        requires
            signature_ceiling >= 1,
        ensures
            r.state_spec() is Idle,
            r.local_session_id_spec() == local_session_id,
            r.remote_session_id_spec() == 0,
            r.remote_signature_spec() == Seq::<u8>::empty(),
            r.access_key_spec() == access_key@,
            r.cipher_in_spec() is PassThrough,
            r.cipher_out_spec() is PassThrough,
            r.ciphers_wf(),
            r.signatures_spec().failures_spec() == 0,
            r.signatures_spec().ceiling_spec() == signature_ceiling,
            r.substream_spec().wf(),
            r.substream_spec().dispatch.wf(),
    {
        let r = PrudpConnection {
            state: ConnectionState::Idle,
            local_session_id,
            remote_session_id: 0,
            remote_signature: Vec::new(),
            access_key,
            cipher_in: crate::encryption::PayloadCipher::PassThrough,
            cipher_out: crate::encryption::PayloadCipher::PassThrough,
            signatures: crate::signature::SignatureMonitor::new(signature_ceiling),
            pings: PingMonitor::new(now, ping_interval, ping_timeout),
            substream: crate::reliable::ReliableSubstream::new(1, 1, 128),
        };
        proof {
            assert(r.remote_signature_spec() =~= Seq::<u8>::empty());
        }
        r
    }

    pub fn state(&self) -> (r: ConnectionState)
        ensures
            r == self.state_spec(),
    {
        self.state
    }

    pub fn local_session_id(&self) -> (r: u8)
        ensures
            r == self.local_session_id_spec(),
    {
        self.local_session_id
    }

    pub fn remote_session_id(&self) -> (r: u8)
        ensures
            r == self.remote_session_id_spec(),
    {
        self.remote_session_id
    }

    /// Adopts the peer's session id and connection signature, as the SYN
    /// exchange hands them over. Only the handshake may call this: once
    /// the connection is established the identity is frozen.
    pub fn adopt_remote_identity(&mut self, session_id: u8, signature: Vec<u8>)
        requires
            !(old(self).state_spec() is Established),
            !(old(self).state_spec() is Disconnecting),
            !(old(self).state_spec() is Closed),
        ensures
            final(self).remote_session_id_spec() == session_id,
            final(self).remote_signature_spec() == signature@,
            final(self).local_session_id_spec() == old(self).local_session_id_spec(),
            final(self).access_key_spec() == old(self).access_key_spec(),
            final(self).state_spec() == old(self).state_spec(),
            final(self).pings_spec() == old(self).pings_spec(),
            final(self).substream_spec() == old(self).substream_spec(),
            final(self).cipher_in_spec() == old(self).cipher_in_spec(),
            final(self).cipher_out_spec() == old(self).cipher_out_spec(),
            final(self).signatures_spec() == old(self).signatures_spec(),
    {
        self.remote_session_id = session_id;
        self.remote_signature = signature;
    }

    /// Feeds one event to the state machine and hands back the action the
    /// endpoint owes. The handshake-scoped identity never changes here,
    /// whatever arrives.
    pub fn handle_event(&mut self, e: ConnectionEvent) -> (a: ConnectionAction)
        ensures
            (final(self).state_spec(), a) == connection_transition(old(self).state_spec(), e),
            final(self).same_identity(old(self)),
            final(self).pings_spec() == old(self).pings_spec(),
            final(self).substream_spec() == old(self).substream_spec(),
            final(self).cipher_in_spec() == old(self).cipher_in_spec(),
            final(self).cipher_out_spec() == old(self).cipher_out_spec(),
            final(self).signatures_spec() == old(self).signatures_spec(),
    {
        let (next, action) = connection_step(self.state, e);
        self.state = next;
        action
    }

    /// Installs the per-direction ciphers the handshake negotiated. Only
    /// the handshake may call this: the data phase keeps its ciphers.
    pub fn set_ciphers(
        &mut self,
        inbound: crate::encryption::PayloadCipher,
        outbound: crate::encryption::PayloadCipher,
    )
        requires
            !(old(self).state_spec() is Established),
            !(old(self).state_spec() is Disconnecting),
            !(old(self).state_spec() is Closed),
            crate::encryption::cipher_wf(inbound),
            crate::encryption::cipher_wf(outbound),
        ensures
            final(self).cipher_in_spec() == inbound,
            final(self).cipher_out_spec() == outbound,
            final(self).ciphers_wf(),
            final(self).same_identity(old(self)),
            final(self).state_spec() == old(self).state_spec(),
            final(self).pings_spec() == old(self).pings_spec(),
            final(self).substream_spec() == old(self).substream_spec(),
            final(self).signatures_spec() == old(self).signatures_spec(),
    {
        self.cipher_in = inbound;
        self.cipher_out = outbound;
    }

    /// Counts one packet whose signature did not match: the packet itself
    /// is dropped silently, and once the count reaches the configured
    /// ceiling the connection closes with a `Signature` error.
    pub fn note_signature_failure(&mut self) -> (r: Option<NexError>)
        ensures
            final(self).same_identity(old(self)),
            final(self).pings_spec() == old(self).pings_spec(),
            final(self).substream_spec() == old(self).substream_spec(),
            final(self).cipher_in_spec() == old(self).cipher_in_spec(),
            final(self).cipher_out_spec() == old(self).cipher_out_spec(),
            final(self).signatures_spec().ceiling_spec()
                == old(self).signatures_spec().ceiling_spec(),
            old(self).signatures_spec().failures_spec() < u32::MAX
                ==> final(self).signatures_spec().failures_spec()
                == old(self).signatures_spec().failures_spec() + 1,
            final(self).signatures_spec().failures_spec()
                >= final(self).signatures_spec().ceiling_spec() ==> (r matches Some(e)
                && e is Signature && final(self).state_spec() is Closed),
            final(self).signatures_spec().failures_spec()
                < final(self).signatures_spec().ceiling_spec() ==> r is None
                && final(self).state_spec() == old(self).state_spec(),
    {
        let tear_down = self.signatures.record_failure();
        if tear_down {
            self.state = ConnectionState::Closed;
            Some(NexError::Signature("signature mismatches reached the ceiling".to_owned()))
        } else {
            None
        }
    }

    /// Runs an outbound payload through this direction's cipher.
    pub fn encipher_outbound(&self, payload: &[u8]) -> (r: Vec<u8>)
        requires
            self.ciphers_wf(),
        ensures
            r@ == crate::encryption::cipher_apply_spec(self.cipher_out_spec(), payload@),
    {
        self.cipher_out.apply(payload)
    }

    /// Takes one inbound DATA payload: it runs through this direction's
    /// cipher first, then through reordering and reassembly, exactly as
    /// `ReliableSubstream::receive_data` does with the deciphered bytes.
    pub fn receive_ciphered_data(&mut self, seq: u16, fragment_id: u8, ciphered: &[u8]) -> (r:
        Result<Vec<Vec<u8>>, NexError>)
        requires
            old(self).substream_spec().wf(),
            old(self).substream_spec().dispatch.wf(),
            old(self).ciphers_wf(),
        ensures
            final(self).same_identity(old(self)),
            final(self).state_spec() == old(self).state_spec(),
            final(self).pings_spec() == old(self).pings_spec(),
            final(self).cipher_in_spec() == old(self).cipher_in_spec(),
            final(self).cipher_out_spec() == old(self).cipher_out_spec(),
            final(self).signatures_spec() == old(self).signatures_spec(),
            final(self).substream_spec().wf(),
            final(self).substream_spec().dispatch.wf(),
            final(self).substream_spec().next_out_spec()
                == old(self).substream_spec().next_out_spec(),
            final(self).substream_spec().window_spec()
                == old(self).substream_spec().window_spec(),
            final(self).substream_spec().dispatch.window_spec()
                == old(self).substream_spec().dispatch.window_spec(),
            r matches Err(e) ==> e is Parse,
            crate::packet_dispatch_queue::seq_dist(
                old(self).substream_spec().dispatch.next_expected_spec(),
                seq,
            ) != 0 ==> (r matches Ok(v) && v@.len() == 0 && final(self).substream_spec().assembler
                == old(self).substream_spec().assembler
                && final(self).substream_spec().dispatch.next_expected_spec()
                == old(self).substream_spec().dispatch.next_expected_spec()),
            r matches Ok(list) ==> (crate::packet_dispatch_queue::seq_dist(
                old(self).substream_spec().dispatch.next_expected_spec(),
                seq,
            ) == 0 ==> exists|items: Seq<(u8, Seq<u8>)>|
                #![auto]
                {
                    &&& items.len() >= 1
                    &&& items[0] == (
                        fragment_id,
                        crate::encryption::cipher_apply_spec(
                            old(self).cipher_in_spec(),
                            ciphered@,
                        ),
                    )
                    &&& final(self).substream_spec().dispatch.next_expected_spec()
                        == crate::packet_dispatch_queue::seq_add(
                        old(self).substream_spec().dispatch.next_expected_spec(),
                        items.len() as int,
                    )
                    &&& crate::reliable::assemble_items(
                        old(self).substream_spec().assembler.assembled(),
                        old(self).substream_spec().assembler.expecting_spec(),
                        items,
                    ) == Some(
                        (
                            final(self).substream_spec().assembler.assembled(),
                            final(self).substream_spec().assembler.expecting_spec(),
                            list@.map_values(|v: Vec<u8>| v@),
                        ),
                    )
                }),
    {
        let plain = self.cipher_in.apply(ciphered);
        self.substream.receive_data(seq, fragment_id, plain.as_slice())
    }
}


} // verus!
