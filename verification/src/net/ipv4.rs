//! Internet-protocol addresses and packet headers.

use vstd::prelude::*;

verus! {

/// A four-byte protocol address.
#[derive(Copy, Clone, PartialEq, Eq, Debug)]
pub struct Ipv4Address(pub [u8; 4]);

impl Ipv4Address {
    pub fn new(bytes: [u8; 4]) -> (r: Ipv4Address)
        ensures r.0 == bytes,
    {
        Ipv4Address(bytes)
    }
}

/// Transport protocols carried in a header.
#[derive(Copy, Clone, PartialEq, Eq, Structural, Debug)]
pub enum Ipv4Protocol {
    Icmp,
    Tcp,
    Udp,
}

/// The wire value of a protocol tag.
pub open spec fn spec_protocol_code(p: Ipv4Protocol) -> u8 {
    match p {
        Ipv4Protocol::Icmp => 1,
        Ipv4Protocol::Tcp => 6,
        Ipv4Protocol::Udp => 17,
    }
}

/// The wire value of a protocol tag.
#[verifier::when_used_as_spec(spec_protocol_code)]
pub fn protocol_code(p: Ipv4Protocol) -> (r: u8)
    ensures r == spec_protocol_code(p),
{
    match p {
        Ipv4Protocol::Icmp => 1,
        Ipv4Protocol::Tcp => 6,
        Ipv4Protocol::Udp => 17,
    }
}

/// A fixed 20-byte packet header.
#[derive(Copy, Clone, PartialEq, Eq, Debug)]
pub struct Ipv4Header {
    pub version_ihl: u8,
    pub dscp_ecn: u8,
    pub total_length: u16,
    pub identification: u16,
    pub flags_fragment_offset: u16,
    pub ttl: u8,
    pub protocol: u8,
    pub header_checksum: u16,
    pub source: Ipv4Address,
    pub destination: Ipv4Address,
}

impl Ipv4Header {
    /// A header for a payload of `data`: version 4 with the minimal
    /// 5-word header, a 64-hop budget, and the total length of header
    /// plus payload.  The checksum field is filled by the network
    /// collaborator before transmission.
    pub fn new(source: Ipv4Address, destination: Ipv4Address, protocol: Ipv4Protocol,
        data: &[u8]) -> (r: Ipv4Header)
        requires
            data@.len() + 20 <= u16::MAX,
        ensures
            r.version_ihl == 0x45,
            r.dscp_ecn == 0,
            r.total_length == data@.len() + 20,
            r.identification == 0,
            r.flags_fragment_offset == 0,
            r.ttl == 64,
            r.protocol == spec_protocol_code(protocol),
            r.header_checksum == 0,
            r.source == source,
            r.destination == destination,
    {
        Ipv4Header {
            version_ihl: 0x45,
            dscp_ecn: 0,
            total_length: (data.len() + 20) as u16,
            identification: 0,
            flags_fragment_offset: 0,
            ttl: 64,
            protocol: protocol_code(protocol),
            header_checksum: 0,
            source,
            destination,
        }
    }
}

} // verus!
