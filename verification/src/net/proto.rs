//! Wire-format headers: ethernet framing and echo requests.

use vstd::prelude::*;

verus! {

/// A six-byte hardware address.
#[derive(Copy, Clone, PartialEq, Eq, Debug)]
pub struct MacAddress(pub [u8; 6]);

impl MacAddress {
    pub fn new(bytes: [u8; 6]) -> (r: MacAddress)
        ensures r.0 == bytes,
    {
        MacAddress(bytes)
    }
}

/// An ethernet frame header.
#[derive(Copy, Clone, PartialEq, Eq, Debug)]
pub struct EthernetHeader {
    pub destination: MacAddress,
    pub source: MacAddress,
    pub ether_type: u16,
}

impl EthernetHeader {
    pub fn new(destination: MacAddress, source: MacAddress, ether_type: u16)
        -> (r: EthernetHeader)
        ensures
            r.destination == destination,
            r.source == source,
            r.ether_type == ether_type,
    {
        EthernetHeader { destination, source, ether_type }
    }
}

/// Echo-message type codes.
#[derive(Copy, Clone, PartialEq, Eq, Structural, Debug)]
pub enum IcmpType {
    EchoReply,
    EchoRequest,
}

/// The wire value of an echo-message type.
pub open spec fn spec_icmp_type_code(t: IcmpType) -> u8 {
    match t {
        IcmpType::EchoReply => 0,
        IcmpType::EchoRequest => 8,
    }
}

/// An echo-message header.  The checksum field is filled by the network
/// collaborator before transmission.
#[derive(Copy, Clone, PartialEq, Eq, Debug)]
pub struct IcmpHeader {
    pub icmp_type: IcmpType,
    pub icmp_code: u8,
    pub checksum: u16,
    pub rest: [u8; 4],
}

impl IcmpHeader {
    /// A fresh echo request with an unfilled checksum.
    pub fn new_echo_request(_data: &[u8]) -> (r: IcmpHeader)
        ensures
            r.icmp_type == IcmpType::EchoRequest,
            r.icmp_code == 0,
            r.checksum == 0,
            r.rest@ == seq![0u8, 0u8, 0u8, 0u8],
    {
        IcmpHeader {
            icmp_type: IcmpType::EchoRequest,
            icmp_code: 0,
            checksum: 0,
            rest: [0, 0, 0, 0],
        }
    }
}

} // verus!
