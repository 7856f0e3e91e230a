//! PCI configuration addressing and device search.
//!
//! Reading a configuration register is port I/O and stays with the
//! embedding program; it probes the buses and hands the register values
//! here, where the addressing arithmetic and the search are verified.

use vstd::prelude::*;

verus! {

/// A device's bus, device and function numbers.
#[derive(Copy, Clone, PartialEq, Eq, Structural, Debug, Hash)]
pub struct PciAddress {
    pub bus: u8,
    pub device: u8,
    pub function: u8,
}

impl PciAddress {
    pub fn new(bus: u8, device: u8, function: u8) -> (r: PciAddress)
        ensures
            r.bus == bus,
            r.device == device,
            r.function == function,
    {
        PciAddress { bus, device, function }
    }

    /// The configuration-space address bits: bus in 16-23, device in
    /// 11-15, function in 8-10.
    pub fn to_u32(&self) -> (r: u32)
        ensures
            r == ((self.bus as u32) << 16) | ((self.device as u32) << 11)
                | ((self.function as u32) << 8),
    {
        ((self.bus as u32) << 16) | ((self.device as u32) << 11)
            | ((self.function as u32) << 8)
    }
}

/// One probe the embedding program made: the address it read and the
/// vendor/device register that came back (`0xffff_ffff` where nothing
/// answered).
#[derive(Copy, Clone, PartialEq, Eq, Structural, Debug)]
pub struct PciProbe {
    pub address: PciAddress,
    pub base_register: u32,
}

/// Whether a probe answers for the given vendor and device ids.
pub open spec fn spec_probe_matches(p: PciProbe, vendor_id: u16, device_id: u16) -> bool {
    &&& p.base_register != 0xffff_ffff
    &&& p.base_register & 0xffff == vendor_id
    &&& (p.base_register >> 16) & 0xffff == device_id
}

/// The first probed address whose vendor/device register matches, in
/// probe order; `None` exactly when no probe matches.
pub fn find_device(probes: &Vec<PciProbe>, vendor_id: u16, device_id: u16)
    -> (r: Option<PciAddress>)
    ensures
        match r {
            Some(addr) => exists|i: int| {
                &&& 0 <= i < probes@.len()
                &&& spec_probe_matches(#[trigger] probes@[i], vendor_id, device_id)
                &&& addr == probes@[i].address
                &&& forall|k: int| 0 <= k < i
                        ==> !spec_probe_matches(#[trigger] probes@[k], vendor_id, device_id)
            },
            None => forall|k: int| 0 <= k < probes@.len()
                ==> !spec_probe_matches(#[trigger] probes@[k], vendor_id, device_id),
        },
{
    let mut i: usize = 0;
    while i < probes.len()
        invariant
            0 <= i <= probes@.len(),
            forall|k: int| 0 <= k < i
                ==> !spec_probe_matches(#[trigger] probes@[k], vendor_id, device_id),
        decreases probes@.len() - i,
    {
        let p = probes[i];
        if p.base_register != 0xffff_ffff {
            let pci_vendor_id = p.base_register & 0xffff;
            let pci_device_id = (p.base_register >> 16) & 0xffff;
            proof {
                let b: u32 = p.base_register;
                assert(b & 0xffff <= 0xffff && (b >> 16) & 0xffff <= 0xffff)
                    by (bit_vector);
            }
            if pci_vendor_id as u16 == vendor_id && pci_device_id as u16 == device_id {
                proof {
                    let b: u32 = p.base_register;
                    let v: u16 = vendor_id;
                    let d: u16 = device_id;
                    assert((b & 0xffff) as u16 == v && b & 0xffff <= 0xffff
                        ==> b & 0xffff == v as u32) by (bit_vector);
                    assert(((b >> 16) & 0xffff) as u16 == d && (b >> 16) & 0xffff <= 0xffff
                        ==> (b >> 16) & 0xffff == d as u32) by (bit_vector);
                }
                return Some(p.address);
            }
        }
        i = i + 1;
    }
    None
}

/// What a probed device reported, decoded from its class and header
/// registers.
#[derive(Copy, Clone, PartialEq, Eq, Structural, Debug)]
pub struct PciDeviceInfo {
    pub vendor_id: u32,
    pub device_id: u32,
    pub class: u32,
    pub subclass: u32,
    pub prog_if: u32,
    pub revision: u32,
    pub header_type: u32,
}

/// Decode one device's identification registers: the vendor/device
/// register, the class register, and the header-type register.
pub fn decode_device_info(base: u32, class_code: u32, header: u32) -> (r: PciDeviceInfo)
    ensures
        r.vendor_id == base & 0xffff,
        r.device_id == (base >> 16) & 0xffff,
        r.class == (class_code >> 24) & 0xff,
        r.subclass == (class_code >> 16) & 0xff,
        r.prog_if == (class_code >> 8) & 0xff,
        r.revision == class_code & 0xff,
        r.header_type == (header >> 16) & 0xff,
{
    PciDeviceInfo {
        vendor_id: base & 0xffff,
        device_id: (base >> 16) & 0xffff,
        class: (class_code >> 24) & 0xff,
        subclass: (class_code >> 16) & 0xff,
        prog_if: (class_code >> 8) & 0xff,
        revision: class_code & 0xff,
        header_type: (header >> 16) & 0xff,
    }
}

} // verus!
