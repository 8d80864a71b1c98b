//! Transport-layer glue: protocol numbers, endpoints, and the per-protocol
//! control blocks that IPv4 delivers into.

pub mod icmp;
pub mod udp;

use vstd::prelude::*;
use crate::protocols::ipv4::Ipv4Address;
use crate::transport::udp::UdpContext;

verus! {

/// IPv4 protocol numbers for the transports this stack speaks.
#[derive(Clone, Copy, Debug, PartialEq, Eq, Structural)]
pub enum TransportProtocolNumber {
    Icmp,
    Udp,
}

impl TransportProtocolNumber {
    /// The protocol number as it appears in the IPv4 header.
    pub open spec fn spec_u8(self) -> u8 {
        match self {
            TransportProtocolNumber::Icmp => 1,
            TransportProtocolNumber::Udp => 17,
        }
    }

    pub fn to_u8(self) -> (r: u8)
        ensures
            r == self.spec_u8(),
    {
        match self {
            TransportProtocolNumber::Icmp => 1,
            TransportProtocolNumber::Udp => 17,
        }
    }

    /// The protocol numbers that `from_u8` accepts.
    pub open spec fn spec_known(value: u8) -> bool {
        value == 1 || value == 17
    }

    /// The protocol a known number names; meaningful under `spec_known`.
    pub open spec fn spec_from_u8(value: u8) -> TransportProtocolNumber {
        if value == 1 {
            TransportProtocolNumber::Icmp
        } else {
            TransportProtocolNumber::Udp
        }
    }

    pub fn from_u8(value: u8) -> (r: Option<TransportProtocolNumber>)
        ensures
            match r {
                Some(p) => Self::spec_known(value) && p == Self::spec_from_u8(value)
                    && p.spec_u8() == value,
                None => !Self::spec_known(value),
            },
    {
        if value == 1 {
            Some(TransportProtocolNumber::Icmp)
        } else if value == 17 {
            Some(TransportProtocolNumber::Udp)
        } else {
            None
        }
    }
}

/// A transport endpoint: an IPv4 address and a port.
#[derive(Clone, Copy, Debug, PartialEq, Eq, Structural)]
pub struct Endpoint {
    pub address: Ipv4Address,
    pub port: u16,
}

impl Endpoint {
    pub fn new(address: &[u8], port: u16) -> (r: Endpoint)
        requires
            address@.len() == 4,
        ensures
            r.address == Ipv4Address::spec_from_octets(
                address@[0],
                address@[1],
                address@[2],
                address@[3],
            ),
            r.port == port,
    {
        Endpoint { address: Ipv4Address::new(address), port }
    }
}

/// The transport control blocks shared by every ingress and egress path.
pub struct ContextBlocks {
    pub udp_pcb: UdpContext,
}

impl ContextBlocks {
    pub fn new() -> (r: ContextBlocks)
        ensures
            r.udp_pcb.wf(),
            r.udp_pcb.spec_all_free(),
    {
        ContextBlocks { udp_pcb: UdpContext::new() }
    }
}

} // verus!
