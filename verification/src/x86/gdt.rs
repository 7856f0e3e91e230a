//! Segment-descriptor tables: building the fixed descriptor layout and
//! the task-state segment as raw descriptor words.  Loading the table
//! into the CPU is the embedding program's step; every bit of what it
//! loads is computed and pinned here.

use vstd::prelude::*;
use vstd::pervasive::VecAdditionalExecFns;

verus! {

/// Privilege ring of a segment.
#[derive(Copy, Clone, PartialEq, Eq, Structural, Debug)]
pub enum Ring {
    Ring0,
    Ring3,
}

/// The numeric privilege level of a ring.
pub open spec fn spec_ring_value(r: Ring) -> u64 {
    match r {
        Ring::Ring0 => 0,
        Ring::Ring3 => 3,
    }
}

#[verifier::when_used_as_spec(spec_ring_value)]
pub fn ring_value(r: Ring) -> (v: u64)
    ensures v == spec_ring_value(r),
{
    match r {
        Ring::Ring0 => 0,
        Ring::Ring3 => 3,
    }
}

/// One abstract descriptor before serialization.
#[derive(Copy, Clone, PartialEq, Eq, Structural, Debug)]
pub enum GdtEntry {
    Empty,
    CodeSegment { ring: Ring },
    DataSegment { ring: Ring },
    TssSegment { address: u64, length: u32 },
}

impl GdtEntry {
    /// The one or two raw descriptor words of this entry: the fixed
    /// 64-bit code/data templates with the ring in bits 45-46, or the
    /// split base and limit fields of a system segment.
    pub fn serialize(self) -> (r: (u64, Option<u64>))
        requires
            self matches GdtEntry::TssSegment { address, length } ==> length < 0xFFFF,
        ensures
            match self {
                GdtEntry::Empty => r == (0u64, Option::<u64>::None),
                GdtEntry::CodeSegment { ring } => r == (
                    0x0020_9a00_0000_0000u64 | (spec_ring_value(ring) << 45),
                    Option::<u64>::None,
                ),
                GdtEntry::DataSegment { ring } => r == (
                    0x0020_9200_0000_0000u64 | (spec_ring_value(ring) << 45),
                    Option::<u64>::None,
                ),
                GdtEntry::TssSegment { address, length } => r == (
                    (length as u64)
                        | ((address & 0xFFFF) << 16)
                        | (((address >> 16) & 0xFF) << 32)
                        | (0x89u64 << 40)
                        | (((address >> 24) & 0xFF) << 56),
                    Some((address >> 32) & 0xFFFF_FFFF),
                ),
            },
    {
        match self {
            GdtEntry::Empty => (0, None),
            GdtEntry::CodeSegment { ring } => {
                (0x0020_9a00_0000_0000u64 | (ring_value(ring) << 45), None)
            }
            GdtEntry::DataSegment { ring } => {
                (0x0020_9200_0000_0000u64 | (ring_value(ring) << 45), None)
            }
            GdtEntry::TssSegment { address, length } => {
                let low = address & 0xFFFF;
                let mid = (address >> 16) & 0xFF;
                let high = (address >> 24) & 0xFF;
                let extended = (address >> 32) & 0xFFFF_FFFF;
                let limit = length as u64;
                (
                    limit | (low << 16) | (mid << 32) | (0x89u64 << 40) | (high << 56),
                    Some(extended),
                )
            }
        }
    }
}

/// The task-state segment: per-CPU stack pointers the hardware switches
/// to on privilege change and on the double-fault interrupt stack.
#[derive(Copy, Clone, PartialEq, Eq, Structural, Debug)]
pub struct Tss {
    pub reserved: u32,
    pub rsp0: u64,
    pub rsp1: u64,
    pub rsp2: u64,
    pub reserved2: u64,
    pub ist1: u64,
    pub ist2: u64,
    pub ist3: u64,
    pub ist4: u64,
    pub ist5: u64,
    pub ist6: u64,
    pub ist7: u64,
    pub reserved3: u64,
    pub reserved4: u16,
    pub iomap_base: u16,
}

/// The byte size of the hardware task-state layout, less one, as the
/// descriptor's limit field wants it.
pub const TSS_LIMIT: u32 = 0x67;

impl Tss {
    /// An all-zero segment.
    pub fn new() -> (r: Tss)
        ensures
            r == (Tss {
                reserved: 0u32, rsp0: 0u64, rsp1: 0u64, rsp2: 0u64, reserved2: 0u64,
                ist1: 0u64, ist2: 0u64, ist3: 0u64, ist4: 0u64, ist5: 0u64,
                ist6: 0u64, ist7: 0u64, reserved3: 0u64, reserved4: 0u16,
                iomap_base: 0u16,
            }),
    {
        Tss {
            reserved: 0, rsp0: 0, rsp1: 0, rsp2: 0, reserved2: 0,
            ist1: 0, ist2: 0, ist3: 0, ist4: 0, ist5: 0,
            ist6: 0, ist7: 0, reserved3: 0, reserved4: 0, iomap_base: 0,
        }
    }

    /// The descriptor limit of this layout.
    pub fn len(&self) -> (r: u32)
        ensures r == TSS_LIMIT,
    {
        TSS_LIMIT
    }

    /// The stack the CPU switches to when usermode traps in.
    pub fn kernel_stack(&self) -> (r: u64)
        ensures r == self.rsp0,
    {
        self.rsp0
    }

    pub fn set_kernel_stack(&mut self, stack: u64)
        ensures *final(self) == (Tss { rsp0: stack, ..*old(self) }),
    {
        self.rsp0 = stack;
    }

    pub fn set_df_stack(&mut self, stack: u64)
        ensures *final(self) == (Tss { ist1: stack, ..*old(self) }),
    {
        self.ist1 = stack;
    }
}

/// The fixed six-entry descriptor layout: null, kernel code and data,
/// user code and data, and the task segment at `tss_addr`.
pub fn basic_gdt(tss_addr: u64) -> (r: [GdtEntry; 6])
    ensures
        r@ == seq![
            GdtEntry::Empty,
            GdtEntry::CodeSegment { ring: Ring::Ring0 },
            GdtEntry::DataSegment { ring: Ring::Ring0 },
            GdtEntry::CodeSegment { ring: Ring::Ring3 },
            GdtEntry::DataSegment { ring: Ring::Ring3 },
            GdtEntry::TssSegment { address: tss_addr, length: TSS_LIMIT },
        ],
{
    [
        GdtEntry::Empty,
        GdtEntry::CodeSegment { ring: Ring::Ring0 },
        GdtEntry::DataSegment { ring: Ring::Ring0 },
        GdtEntry::CodeSegment { ring: Ring::Ring3 },
        GdtEntry::DataSegment { ring: Ring::Ring3 },
        GdtEntry::TssSegment { address: tss_addr, length: TSS_LIMIT },
    ]
}

/// Serialize descriptors into raw words, two for a system segment.
pub fn serialize_gdt(entries: &[GdtEntry], gdt: &mut Vec<u64>)
    requires
        forall|k: int| 0 <= k < entries@.len()
            ==> ((#[trigger] entries@[k]) matches GdtEntry::TssSegment { address, length }
                ==> length < 0xFFFF),
    ensures
        final(gdt)@.len() <= old(gdt)@.len() + 2 * entries@.len(),
{
    let mut i: usize = 0;
    while i < entries.len()
        invariant
            0 <= i <= entries@.len(),
            gdt@.len() <= old(gdt)@.len() + 2 * i,
            forall|k: int| 0 <= k < entries@.len()
                ==> ((#[trigger] entries@[k]) matches GdtEntry::TssSegment { address, length }
                    ==> length < 0xFFFF),
        decreases entries@.len() - i,
    {
        let (low, high) = entries[i].serialize();
        gdt.push(low);
        match high {
            Some(h) => { gdt.push(h); }
            None => {}
        }
        i = i + 1;
    }
}

/// Build the seven raw words of the fixed layout into `gdt`.
pub fn init_in_place(gdt: &mut Vec<u64>, tss_addr: u64)
    ensures
        final(gdt)@.len() == 7,
        final(gdt)@[0] == 0u64,
        final(gdt)@[1] == 0x0020_9a00_0000_0000u64,
        final(gdt)@[2] == 0x0020_9200_0000_0000u64,
        final(gdt)@[3] == 0x0020_9a00_0000_0000u64 | (3u64 << 45),
        final(gdt)@[4] == 0x0020_9200_0000_0000u64 | (3u64 << 45),
        final(gdt)@[5] == (TSS_LIMIT as u64)
            | ((tss_addr & 0xFFFF) << 16)
            | (((tss_addr >> 16) & 0xFF) << 32)
            | (0x89u64 << 40)
            | (((tss_addr >> 24) & 0xFF) << 56),
        final(gdt)@[6] == (tss_addr >> 32) & 0xFFFF_FFFF,
{
    gdt.clear();
    let entries = basic_gdt(tss_addr);
    let mut i: usize = 0;
    while i < 6
        invariant
            0 <= i <= 6,
            entries@ == basic_gdt_view(tss_addr),
            i <= 5 ==> gdt@.len() == i,
            i == 6 ==> gdt@.len() == 7,
            gdt@ == expected_gdt_words(tss_addr).take(if i <= 5 { i as int } else { 7 }),
        decreases 6 - i,
    {
        let (low, high) = entries[i].serialize();
        gdt.push(low);
        proof {
            assert(0x0020_9a00_0000_0000u64 | (0u64 << 45) == 0x0020_9a00_0000_0000u64)
                by (bit_vector);
            assert(0x0020_9200_0000_0000u64 | (0u64 << 45) == 0x0020_9200_0000_0000u64)
                by (bit_vector);
            assert(gdt@ =~= expected_gdt_words(tss_addr).take(gdt@.len() as int));
        }
        match high {
            Some(h) => {
                gdt.push(h);
                proof {
                    assert(gdt@ =~= expected_gdt_words(tss_addr).take(gdt@.len() as int));
                }
            }
            None => {}
        }
        i = i + 1;
    }
    proof {
        assert(gdt@ =~= expected_gdt_words(tss_addr));
    }
}

/// The abstract fixed layout.
pub open spec fn basic_gdt_view(tss_addr: u64) -> Seq<GdtEntry> {
    seq![
        GdtEntry::Empty,
        GdtEntry::CodeSegment { ring: Ring::Ring0 },
        GdtEntry::DataSegment { ring: Ring::Ring0 },
        GdtEntry::CodeSegment { ring: Ring::Ring3 },
        GdtEntry::DataSegment { ring: Ring::Ring3 },
        GdtEntry::TssSegment { address: tss_addr, length: TSS_LIMIT },
    ]
}

/// The seven raw words of the fixed layout.
pub open spec fn expected_gdt_words(tss_addr: u64) -> Seq<u64> {
    seq![
        0u64,
        0x0020_9a00_0000_0000u64,
        0x0020_9200_0000_0000u64,
        0x0020_9a00_0000_0000u64 | (3u64 << 45),
        0x0020_9200_0000_0000u64 | (3u64 << 45),
        (TSS_LIMIT as u64)
            | ((tss_addr & 0xFFFF) << 16)
            | (((tss_addr >> 16) & 0xFF) << 32)
            | (0x89u64 << 40)
            | (((tss_addr >> 24) & 0xFF) << 56),
        (tss_addr >> 32) & 0xFFFF_FFFF,
    ]
}

} // verus!
