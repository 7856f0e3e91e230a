//! An owned datagram.

use vstd::prelude::*;
use vstd::slice::slice_to_vec;

verus! {

/// One received datagram: an owned copy of its bytes.
pub struct Packet {
    pub data: Vec<u8>,
}

impl Packet {
    /// Copy `data` into a fresh packet.
    pub fn new(data: &[u8]) -> (r: Packet)
        ensures
            r.data@ == data@,
    {
        Packet { data: slice_to_vec(data) }
    }
}

} // verus!
