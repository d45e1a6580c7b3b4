use vstd::prelude::*;

verus! {

// Wire-level constant spaces: packet types, header flags, signature methods,
// station URL schemes and NAT properties, and the stream types that a
// virtual port can carry.

/// The five PRUDP packet types, carried in the low 4 bits of the
/// `type_flags` header field.
#[derive(Debug, Clone, Copy, PartialEq, Eq, Structural)]
pub enum PrudpPacketType {
    Syn,
    Connect,
    Data,
    Disconnect,
    Ping,
}

impl PrudpPacketType {
    /// The wire value of the packet type.
    pub open spec fn value_spec(self) -> u16 {
        match self {
            PrudpPacketType::Syn => 0x0,
            PrudpPacketType::Connect => 0x1,
            PrudpPacketType::Data => 0x2,
            PrudpPacketType::Disconnect => 0x3,
            PrudpPacketType::Ping => 0x4,
        }
    }

    /// The packet type for a wire value, if the value names one.
    pub open spec fn from_value_spec(v: u16) -> Option<PrudpPacketType> {
        if v == 0x0 {
            Some(PrudpPacketType::Syn)
        } else if v == 0x1 {
            Some(PrudpPacketType::Connect)
        } else if v == 0x2 {
            Some(PrudpPacketType::Data)
        } else if v == 0x3 {
            Some(PrudpPacketType::Disconnect)
        } else if v == 0x4 {
            Some(PrudpPacketType::Ping)
        } else {
            None
        }
    }

    pub fn value(self) -> (r: u16)
        ensures
            r == self.value_spec(),
    {
        match self {
            PrudpPacketType::Syn => 0x0,
            PrudpPacketType::Connect => 0x1,
            PrudpPacketType::Data => 0x2,
            PrudpPacketType::Disconnect => 0x3,
            PrudpPacketType::Ping => 0x4,
        }
    }

    pub fn from_value(v: u16) -> (r: Option<PrudpPacketType>)
        ensures
            r == Self::from_value_spec(v),
    {
        if v == 0x0 {
            Some(PrudpPacketType::Syn)
        } else if v == 0x1 {
            Some(PrudpPacketType::Connect)
        } else if v == 0x2 {
            Some(PrudpPacketType::Data)
        } else if v == 0x3 {
            Some(PrudpPacketType::Disconnect)
        } else if v == 0x4 {
            Some(PrudpPacketType::Ping)
        } else {
            None
        }
    }
}

/// The packet type round-trips through its wire value.
pub proof fn lemma_packet_type_value_round_trip(t: PrudpPacketType)
    ensures
        PrudpPacketType::from_value_spec(t.value_spec()) == Some(t),
{
}

pub const FLAG_ACK: u16 = 0x0001;

pub const FLAG_RELIABLE: u16 = 0x0002;

pub const FLAG_NEEDS_ACK: u16 = 0x0004;

pub const FLAG_HAS_SIZE: u16 = 0x0008;

pub const FLAG_MULTI_ACK: u16 = 0x0200;

/// The PRUDP header flag set, packed in the high 12 bits of the
/// `type_flags` header field.
#[derive(Debug, Clone, Copy, PartialEq, Eq, Structural)]
pub struct PrudpPacketFlags {
    pub bits: u16,
}

impl PrudpPacketFlags {
    /// A flag set fits the 12 bits the header grants it.
    pub open spec fn wf(self) -> bool {
        self.bits < 0x1000
    }

    pub open spec fn ack_spec(self) -> bool {
        self.bits & FLAG_ACK != 0
    }

    pub open spec fn reliable_spec(self) -> bool {
        self.bits & FLAG_RELIABLE != 0
    }

    pub open spec fn needs_ack_spec(self) -> bool {
        self.bits & FLAG_NEEDS_ACK != 0
    }

    pub open spec fn has_size_spec(self) -> bool {
        self.bits & FLAG_HAS_SIZE != 0
    }

    pub open spec fn multi_ack_spec(self) -> bool {
        self.bits & FLAG_MULTI_ACK != 0
    }

    pub fn new(bits: u16) -> (r: Self)
        ensures
            r.bits == bits,
    {
        Self { bits }
    }

    pub fn ack(&self) -> (r: bool)
        ensures
            r == self.ack_spec(),
    {
        self.bits & FLAG_ACK != 0
    }

    pub fn reliable(&self) -> (r: bool)
        ensures
            r == self.reliable_spec(),
    {
        self.bits & FLAG_RELIABLE != 0
    }

    pub fn needs_ack(&self) -> (r: bool)
        ensures
            r == self.needs_ack_spec(),
    {
        self.bits & FLAG_NEEDS_ACK != 0
    }

    pub fn has_size(&self) -> (r: bool)
        ensures
            r == self.has_size_spec(),
    {
        self.bits & FLAG_HAS_SIZE != 0
    }

    pub fn multi_ack(&self) -> (r: bool)
        ensures
            r == self.multi_ack_spec(),
    {
        self.bits & FLAG_MULTI_ACK != 0
    }
}

/// How a packet signature is to be computed.
#[derive(Debug, Clone, Copy, PartialEq, Eq, Structural)]
pub enum SignatureMethod {
    Method0,
    ConnectionAddress,
    Method2,
    Method3,
    Method4,
    Method5,
    UseKey,
    Method7,
    UseEntropy,
    Ignore,
}

/// The scheme of a station URL.
#[derive(Debug, Clone, Copy, PartialEq, Eq, Structural)]
pub enum StationUrlType {
    Unknown,
    Prudp,
    Prudps,
    Udp,
}

/// NAT filtering behaviour advertised in a station URL.
#[derive(Debug, Clone, Copy, PartialEq, Eq, Structural)]
pub enum NatFilteringProperties {
    Unknown,
    PortIndependent,
    PortDependent,
}

/// NAT mapping behaviour advertised in a station URL.
#[derive(Debug, Clone, Copy, PartialEq, Eq, Structural)]
pub enum NatMappingProperties {
    Unknown,
    EndpointIndependent,
    EndpointDependent,
}

/// The stream type half of a virtual port.
#[derive(Debug, Clone, Copy, PartialEq, Eq, Structural)]
pub enum StreamType {
    Do,
    Rv,
    OldRvSec,
    SbMgmt,
    Nat,
    SessionDiscovery,
    NatEcho,
    Routing,
    Game,
    RvSecure,
    Relay,
}

impl StreamType {
    /// The wire value of the stream type, 1 through 11.
    pub open spec fn value_spec(self) -> u8 {
        match self {
            StreamType::Do => 1,
            StreamType::Rv => 2,
            StreamType::OldRvSec => 3,
            StreamType::SbMgmt => 4,
            StreamType::Nat => 5,
            StreamType::SessionDiscovery => 6,
            StreamType::NatEcho => 7,
            StreamType::Routing => 8,
            StreamType::Game => 9,
            StreamType::RvSecure => 10,
            StreamType::Relay => 11,
        }
    }

    pub fn value(self) -> (r: u8)
        ensures
            r == self.value_spec(),
    {
        match self {
            StreamType::Do => 1,
            StreamType::Rv => 2,
            StreamType::OldRvSec => 3,
            StreamType::SbMgmt => 4,
            StreamType::Nat => 5,
            StreamType::SessionDiscovery => 6,
            StreamType::NatEcho => 7,
            StreamType::Routing => 8,
            StreamType::Game => 9,
            StreamType::RvSecure => 10,
            StreamType::Relay => 11,
        }
    }
}

pub const STATION_URL_FLAG_BEHIND_NAT: u8 = 0x01;

pub const STATION_URL_FLAG_PUBLIC: u8 = 0x02;

} // verus!
