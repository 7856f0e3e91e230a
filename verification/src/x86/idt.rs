//! Interrupt-descriptor entries: the raw gate layout the CPU reads, with
//! every bit of the packing pinned.  Installing the table is the
//! embedding program's step.

use vstd::prelude::*;
use vstd::pervasive::VecAdditionalExecFns;

verus! {

/// Hardware gate kinds.
#[derive(Copy, Clone, PartialEq, Eq, Structural, Debug)]
pub enum GateType {
    InterruptGate,
    TrapGate,
}

/// The 4-bit type field of a gate.
pub open spec fn spec_gate_bits(t: GateType) -> u8 {
    match t {
        GateType::InterruptGate => 0xe,
        GateType::TrapGate => 0xf,
    }
}

#[verifier::when_used_as_spec(spec_gate_bits)]
pub fn gate_bits(t: GateType) -> (r: u8)
    ensures r == spec_gate_bits(t),
{
    match t {
        GateType::InterruptGate => 0xe,
        GateType::TrapGate => 0xf,
    }
}

/// One interrupt-descriptor entry, as the hardware lays it out.
#[derive(Copy, Clone, PartialEq, Eq, Structural, Debug)]
pub struct IdtEntry {
    pub offset_low: u16,
    pub selector: u16,
    pub ist: u8,
    pub flags: u8,
    pub offset_middle: u16,
    pub offset_high: u32,
    pub zero: u32,
}

impl IdtEntry {
    /// An all-zero entry.
    pub fn zero() -> (r: IdtEntry)
        ensures
            r == (IdtEntry {
                offset_low: 0u16, selector: 0u16, ist: 0u8, flags: 0u8,
                offset_middle: 0u16, offset_high: 0u32, zero: 0u32,
            }),
    {
        IdtEntry {
            offset_low: 0, selector: 0, ist: 0, flags: 0,
            offset_middle: 0, offset_high: 0, zero: 0,
        }
    }

    /// A present gate to `handler` through the kernel code selector:
    /// the handler address split over the three offset fields, the
    /// interrupt-stack index, and flags holding present bit, requested
    /// privilege and gate type.
    pub fn new(handler: u64, ist: u8, rpl: u8, typ: GateType) -> (r: IdtEntry)
        requires
            rpl <= 3,
        ensures
            r.offset_low == handler & 0xFFFF,
            r.offset_middle == (handler >> 16) & 0xFFFF,
            r.offset_high == (handler >> 32) & 0xFFFF_FFFF,
            r.selector == 8,
            r.ist == ist,
            r.flags == (0x80u8 | (rpl << 5) | spec_gate_bits(typ)),
            r.zero == 0,
    {
        proof {
            assert(handler & 0xFFFF <= 0xFFFF && (handler >> 16) & 0xFFFF <= 0xFFFF
                && (handler >> 32) & 0xFFFF_FFFF <= 0xFFFF_FFFF) by (bit_vector);
            assert(rpl <= 3 ==> rpl << 5 <= 0x60) by (bit_vector);
        }
        let offset_low = (handler & 0xFFFF) as u16;
        let offset_middle = ((handler >> 16) & 0xFFFF) as u16;
        let offset_high = ((handler >> 32) & 0xFFFF_FFFF) as u32;
        let flags = 0x80u8 | (rpl << 5) | gate_bits(typ);
        IdtEntry {
            offset_low,
            selector: 8,
            ist,
            flags,
            offset_middle,
            offset_high,
            zero: 0,
        }
    }
}

/// The whole 256-entry table.
pub struct Idt {
    pub table: Vec<IdtEntry>,
}

impl Idt {
    /// A table of 256 zero entries.
    pub fn zero() -> (r: Idt)
        ensures
            r.table@.len() == 256,
            forall|i: int| 0 <= i < 256 ==> r.table@[i] == (IdtEntry {
                offset_low: 0u16, selector: 0u16, ist: 0u8, flags: 0u8,
                offset_middle: 0u16, offset_high: 0u32, zero: 0u32,
            }),
    {
        let mut table: Vec<IdtEntry> = Vec::new();
        let mut i: usize = 0;
        while i < 256
            invariant
                table@.len() == i,
                i <= 256,
                forall|k: int| 0 <= k < i ==> table@[k] == (IdtEntry {
                    offset_low: 0u16, selector: 0u16, ist: 0u8, flags: 0u8,
                    offset_middle: 0u16, offset_high: 0u32, zero: 0u32,
                }),
            decreases 256 - i,
        {
            table.push(IdtEntry::zero());
            i = i + 1;
        }
        Idt { table }
    }

    /// The number of entries.
    pub fn len(&self) -> (r: usize)
        ensures r == self.table@.len(),
    {
        self.table.len()
    }
}

/// One gate of the full table: an interrupt gate through the kernel
/// code selector; the breakpoint and syscall vectors open to ring 3;
/// the double fault runs on its own interrupt stack.
pub open spec fn spec_idt_entry(v: int, handler: u64) -> IdtEntry {
    IdtEntry {
        offset_low: (handler & 0xFFFF) as u16,
        selector: 8u16,
        ist: if v == 8 { 1u8 } else { 0u8 },
        flags: 0x80u8 | ((if v == 3 || v == 128 { 3u8 } else { 0u8 }) << 5)
            | spec_gate_bits(GateType::InterruptGate),
        offset_middle: ((handler >> 16) & 0xFFFF) as u16,
        offset_high: ((handler >> 32) & 0xFFFF_FFFF) as u32,
        zero: 0u32,
    }
}

/// Build the whole table from the 256 trampoline addresses, one gate per
/// vector, exactly as `spec_idt_entry` lays each out.
pub fn build_idt(handlers: &Vec<u64>) -> (r: Idt)
    requires
        handlers@.len() == 256,
    ensures
        r.table@.len() == 256,
        forall|v: int| 0 <= v < 256
            ==> #[trigger] r.table@[v] == spec_idt_entry(v, handlers@[v]),
{
    let mut t = Idt::zero();
    let mut v: usize = 0;
    while v < 256
        invariant
            t.table@.len() == 256,
            v <= 256,
            handlers@.len() == 256,
            forall|k: int| 0 <= k < v
                ==> #[trigger] t.table@[k] == spec_idt_entry(k, handlers@[k]),
        decreases 256 - v,
    {
        let rpl: u8 = if v == 3 || v == 128 { 3 } else { 0 };
        let ist: u8 = if v == 8 { 1 } else { 0 };
        let entry = IdtEntry::new(handlers[v], ist, rpl, GateType::InterruptGate);
        t.table.set(v, entry);
        v = v + 1;
    }
    t
}

} // verus!
