//! Echo-message headers as the socket-facing layer shapes them.

use vstd::prelude::*;

verus! {

/// Echo-message type codes.
#[derive(Copy, Clone, PartialEq, Eq, Structural, Debug)]
pub enum IcmpType {
    EchoReply,
    EchoRequest,
}

/// An echo-message header.  The checksum field is filled by the network
/// collaborator before transmission.
#[derive(Copy, Clone, PartialEq, Eq, Debug)]
pub struct IcmpHeader {
    pub icmp_type: IcmpType,
    pub icmp_code: u8,
    pub checksum: u16,
    pub rest: [u8; 4],
}

impl IcmpHeader {
    /// A fresh echo request with an unfilled checksum.
    pub fn new_echo_request(_data: &[u8]) -> (r: IcmpHeader)
        ensures
            r.icmp_type == IcmpType::EchoRequest,
            r.icmp_code == 0,
            r.checksum == 0,
            r.rest@ == seq![0u8, 0u8, 0u8, 0u8],
    {
        IcmpHeader {
            icmp_type: IcmpType::EchoRequest,
            icmp_code: 0,
            checksum: 0,
            rest: [0, 0, 0, 0],
        }
    }
}

} // verus!
