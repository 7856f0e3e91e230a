//! Boot-protocol interface: the requests the kernel publishes for the
//! bootloader and the shape of the answers it reads back once at startup.
//!
//! The embedding program owns the raw, pointer-valued protocol structures;
//! here each response is plain data, which the rest of the kernel consumes.

use vstd::prelude::*;

verus! {

pub const LIMINE_MAGIC1: u64 = 0xc7b1dd30df4c8b88;
pub const LIMINE_MAGIC2: u64 = 0x0a82e883a194f07b;

/// Memory-map request, identified by its magic id.
pub struct LimineMmap {
    pub id: [u64; 4],
    pub revision: u64,
}

impl LimineMmap {
    pub fn new() -> (r: Self)
        ensures
            r.id@ == seq![LIMINE_MAGIC1, LIMINE_MAGIC2, 0x67cf3d9d378a806f, 0xe304acdfc50c3c62],
            r.revision == 0,
    {
        Self {
            id: [LIMINE_MAGIC1, LIMINE_MAGIC2, 0x67cf3d9d378a806f, 0xe304acdfc50c3c62],
            revision: 0,
        }
    }
}

/// The bootloader's answer to the memory-map request.
pub struct LimineMmapResponse {
    pub revision: u64,
    pub entries: Vec<LimineMmapEntry>,
}

#[derive(Copy, Clone, PartialEq, Eq, Structural, Debug)]
pub enum LimineMmapEntryType {
    Usable,
    Reserved,
    AcpiReclaimable,
    AcpiNvs,
    BadMemory,
    BootloaderReclaimable,
    KernelAndModules,
    Framebuffer,
}

/// One range of physical memory reported by the bootloader.
#[derive(Copy, Clone, PartialEq, Eq, Structural, Debug)]
pub struct LimineMmapEntry {
    pub base: u64,
    pub len: u64,
    pub typ: LimineMmapEntryType,
}

/// Direct-map (higher-half) offset request.
pub struct LimineHhdm {
    pub id: [u64; 4],
    pub revision: u64,
}

impl LimineHhdm {
    pub fn new() -> (r: Self)
        ensures
            r.id@ == seq![LIMINE_MAGIC1, LIMINE_MAGIC2, 0x48dcf1cb8ad2b852, 0x63984e959a98244b],
            r.revision == 0,
    {
        Self {
            id: [LIMINE_MAGIC1, LIMINE_MAGIC2, 0x48dcf1cb8ad2b852, 0x63984e959a98244b],
            revision: 0,
        }
    }
}

/// The bootloader's answer to the direct-map request.
pub struct LimineHhdmResponse {
    pub revision: u64,
    pub offset: u64,
}

/// ACPI root-pointer request.
pub struct LimineRsdp {
    pub id: [u64; 4],
    pub revision: u64,
}

impl LimineRsdp {
    pub fn new() -> (r: Self)
        ensures
            r.id@ == seq![LIMINE_MAGIC1, LIMINE_MAGIC2, 0xc5e77b6b397e7b43, 0x27637845accdcf3c],
            r.revision == 0,
    {
        Self {
            id: [LIMINE_MAGIC1, LIMINE_MAGIC2, 0xc5e77b6b397e7b43, 0x27637845accdcf3c],
            revision: 0,
        }
    }
}

/// The bootloader's answer to the ACPI root-pointer request: the physical
/// address of the RSDP structure.
pub struct LimineRsdpResponse {
    pub revision: u64,
    pub address: u64,
}

/// Multi-processor startup request.
pub struct LimineSmp {
    pub id: [u64; 4],
    pub revision: u64,
    pub flags: u32,
}

impl LimineSmp {
    pub fn new(flags: u32) -> (r: Self)
        ensures
            r.id@ == seq![LIMINE_MAGIC1, LIMINE_MAGIC2, 0x95a67b819a1b857e, 0xa0b61b723b6a73e0],
            r.revision == 0,
            r.flags == flags,
    {
        Self {
            id: [LIMINE_MAGIC1, LIMINE_MAGIC2, 0x95a67b819a1b857e, 0xa0b61b723b6a73e0],
            revision: 0,
            flags,
        }
    }
}

/// One secondary CPU as the bootloader reports it.  The write-once goto
/// field that jumps the CPU into the kernel stays with the embedding
/// program; its identifiers are what the kernel's tables are keyed by.
#[derive(Copy, Clone, PartialEq, Eq, Structural, Debug)]
pub struct LimineCpuInfo {
    pub processor_id: u32,
    pub lapic_id: u32,
    pub extra_argument: u64,
}

/// The bootloader's answer to the multi-processor request.
pub struct LimineSmpResponse {
    pub revision: u64,
    pub flags: u32,
    pub bsp_lapic_id: u32,
    pub cpus: Vec<LimineCpuInfo>,
}

} // verus!
