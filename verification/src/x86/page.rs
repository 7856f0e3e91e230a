//! Hardware page-table entries and the per-process address-space tree.
//!
//! A `Pte` is one raw 64-bit entry.  An `AddressSpace` owns the
//! process-private lower half of a four-level radix tree (9 bits per level,
//! 4 KiB leaves) and carries a copy of the shared kernel upper half; the
//! tree's frames come from, and return to, the physical frame allocator.

use vstd::prelude::*;
use vstd::pervasive::VecAdditionalExecFns;
use crate::pmm::{FrameAllocator, PageInfo};
use crate::vmm::PageFlags;

verus! {

pub const PTE_PRESENT: u64 = 0x01;
pub const PTE_WRITEABLE: u64 = 0x02;
pub const PTE_USERMODE: u64 = 0x04;
pub const PTE_ACCESSED: u64 = 0x20;
pub const PTE_DIRTY: u64 = 0x40;
pub const PTE_IS_HUGE: u64 = 0x80;
pub const PTE_GLOBAL: u64 = 0x100;
pub const PTE_COPY_ON_WRITE: u64 = 0x200;
pub const PTE_NX: u64 = 0x8000_0000_0000_0000;

pub const PTE_ADDR_MASK: u64 = 0x000f_ffff_ffff_f000;
pub const PTE_FLAG_MASK: u64 = 0xfff0_0000_0000_0fff;

/// One raw page-table entry.
#[derive(Copy, Clone, PartialEq, Eq, Structural, Debug)]
pub struct Pte(pub u64);

impl Pte {
    pub open spec fn spec_is_present(self) -> bool {
        self.0 & PTE_PRESENT != 0
    }

    #[verifier::when_used_as_spec(spec_is_present)]
    pub fn is_present(self) -> (r: bool)
        ensures r == self.spec_is_present(),
    {
        self.0 & PTE_PRESENT != 0
    }

    pub open spec fn spec_is_writeable(self) -> bool {
        self.spec_is_present() && self.0 & PTE_WRITEABLE != 0
    }

    #[verifier::when_used_as_spec(spec_is_writeable)]
    pub fn is_writeable(self) -> (r: bool)
        ensures r == self.spec_is_writeable(),
    {
        self.is_present() && self.0 & PTE_WRITEABLE != 0
    }

    pub open spec fn spec_is_usermode(self) -> bool {
        self.spec_is_present() && self.0 & PTE_USERMODE != 0
    }

    #[verifier::when_used_as_spec(spec_is_usermode)]
    pub fn is_usermode(self) -> (r: bool)
        ensures r == self.spec_is_usermode(),
    {
        self.is_present() && self.0 & PTE_USERMODE != 0
    }

    pub open spec fn spec_is_accessed(self) -> bool {
        self.spec_is_present() && self.0 & PTE_ACCESSED != 0
    }

    #[verifier::when_used_as_spec(spec_is_accessed)]
    pub fn is_accessed(self) -> (r: bool)
        ensures r == self.spec_is_accessed(),
    {
        self.is_present() && self.0 & PTE_ACCESSED != 0
    }

    pub open spec fn spec_is_dirty(self) -> bool {
        self.spec_is_present() && self.0 & PTE_DIRTY != 0
    }

    #[verifier::when_used_as_spec(spec_is_dirty)]
    pub fn is_dirty(self) -> (r: bool)
        ensures r == self.spec_is_dirty(),
    {
        self.is_present() && self.0 & PTE_DIRTY != 0
    }

    pub open spec fn spec_is_huge(self) -> bool {
        self.spec_is_present() && self.0 & PTE_IS_HUGE != 0
    }

    #[verifier::when_used_as_spec(spec_is_huge)]
    pub fn is_huge(self) -> (r: bool)
        ensures r == self.spec_is_huge(),
    {
        self.is_present() && self.0 & PTE_IS_HUGE != 0
    }

    pub open spec fn spec_is_global(self) -> bool {
        self.spec_is_present() && self.0 & PTE_GLOBAL != 0
    }

    #[verifier::when_used_as_spec(spec_is_global)]
    pub fn is_global(self) -> (r: bool)
        ensures r == self.spec_is_global(),
    {
        self.is_present() && self.0 & PTE_GLOBAL != 0
    }

    pub open spec fn spec_is_copy_on_write(self) -> bool {
        self.spec_is_present() && self.0 & PTE_COPY_ON_WRITE != 0
    }

    #[verifier::when_used_as_spec(spec_is_copy_on_write)]
    pub fn is_copy_on_write(self) -> (r: bool)
        ensures r == self.spec_is_copy_on_write(),
    {
        self.is_present() && self.0 & PTE_COPY_ON_WRITE != 0
    }

    pub open spec fn spec_is_nx(self) -> bool {
        self.spec_is_present() && self.0 & PTE_NX != 0
    }

    #[verifier::when_used_as_spec(spec_is_nx)]
    pub fn is_nx(self) -> (r: bool)
        ensures r == self.spec_is_nx(),
    {
        self.is_present() && self.0 & PTE_NX != 0
    }

    /// Build an entry from a page-aligned physical address and a flag word.
    pub fn new(address: u64, flags: u64) -> (r: Pte)
        ensures r.0 == address | flags,
    {
        Pte(address | flags)
    }

    pub open spec fn spec_address(self) -> u64 {
        self.0 & PTE_ADDR_MASK
    }

    /// The physical address this entry points at.
    #[verifier::when_used_as_spec(spec_address)]
    pub fn address(self) -> (r: u64)
        ensures r == self.spec_address(),
    {
        self.0 & PTE_ADDR_MASK
    }

    pub open spec fn spec_flags(self) -> u64 {
        self.0 & PTE_FLAG_MASK
    }

    /// The flag bits of this entry.
    #[verifier::when_used_as_spec(spec_flags)]
    pub fn flags(self) -> (r: u64)
        ensures r == self.spec_flags(),
    {
        self.0 & PTE_FLAG_MASK
    }

    /// Replace the address bits, keeping the flags.
    pub fn set_address(&mut self, address: u64)
        ensures final(self).0 == (old(self).0 & PTE_FLAG_MASK) | address,
    {
        self.0 = (self.0 & PTE_FLAG_MASK) | address;
    }

    /// Replace the flag bits, keeping the address.
    pub fn set_flags(&mut self, flags: u64)
        ensures final(self).0 == (old(self).0 & PTE_ADDR_MASK) | flags,
    {
        self.0 = (self.0 & PTE_ADDR_MASK) | flags;
    }

    /// Replace the whole entry.
    pub fn set(&mut self, address: u64, flags: u64)
        ensures final(self).0 == address | flags,
    {
        self.0 = address | flags;
    }
}

/// The hardware bits for a generic permission set: always present, `NX`
/// unless EXECUTE, `WRITEABLE` for WRITE, `USERMODE` for USER.  (The
/// architecture cannot express a non-readable present page; READ is
/// implied and its absence changes nothing here.)
pub open spec fn spec_generic_flags(flags: PageFlags) -> u64 {
    let base = PTE_NX | PTE_PRESENT;
    let w = if flags.spec_contains(PageFlags::spec_write()) { base | PTE_WRITEABLE } else { base };
    let x = if flags.spec_contains(PageFlags::spec_execute()) { w & !PTE_NX } else { w };
    if flags.spec_contains(PageFlags::spec_user()) { x | PTE_USERMODE } else { x }
}

#[verifier::when_used_as_spec(spec_generic_flags)]
pub fn generic_flags(flags: PageFlags) -> (r: u64)
    ensures
        r == spec_generic_flags(flags),
        r & PTE_PRESENT != 0,
{
    proof {
        assert((0x8000_0000_0000_0000u64 | 0x1u64) & 0x1u64 != 0) by (bit_vector);
    }
    let mut x86_flags: u64 = PTE_NX | PTE_PRESENT;
    if flags.contains(PageFlags::write()) {
        let a = x86_flags;
        x86_flags = x86_flags | PTE_WRITEABLE;
        proof {
            assert(a & 0x1u64 != 0 ==> (a | 0x2u64) & 0x1u64 != 0) by (bit_vector);
        }
    }
    if flags.contains(PageFlags::execute()) {
        let a = x86_flags;
        x86_flags = x86_flags & !PTE_NX;
        proof {
            assert(a & 0x1u64 != 0 ==> (a & !0x8000_0000_0000_0000u64) & 0x1u64 != 0)
                by (bit_vector);
        }
    }
    if flags.contains(PageFlags::user()) {
        let a = x86_flags;
        x86_flags = x86_flags | PTE_USERMODE;
        proof {
            assert(a & 0x1u64 != 0 ==> (a | 0x4u64) & 0x1u64 != 0) by (bit_vector);
        }
    }
    x86_flags
}

/// One raw 512-entry table, as it lies in a physical frame.
pub struct PageTable {
    pub entries: Vec<Pte>,
}

impl PageTable {
    pub open spec fn wf(self) -> bool {
        self.entries@.len() == 512
    }

    /// An all-empty table.
    pub fn zeroed() -> (r: PageTable)
        ensures
            r.wf(),
            forall|i: int| 0 <= i < 512 ==> r.entries@[i] == Pte(0u64),
    {
        let mut entries: Vec<Pte> = Vec::new();
        let mut i: usize = 0;
        while i < 512
            invariant
                entries@.len() == i,
                i <= 512,
                forall|k: int| 0 <= k < i ==> entries@[k] == Pte(0u64),
            decreases 512 - i,
        {
            entries.push(Pte(0));
            i = i + 1;
        }
        PageTable { entries }
    }
}

/// Entries of the canonical lower (user) half have their top bit clear.
pub open spec fn spec_user_addr(va: u64) -> bool {
    va < 0x0000_8000_0000_0000
}

#[verifier::when_used_as_spec(spec_user_addr)]
pub fn user_addr(va: u64) -> (r: bool)
    ensures r == spec_user_addr(va),
{
    va < 0x0000_8000_0000_0000
}

/// The 9-bit table index of `va` at `level` (4 at the root, 1 at the leaf).
pub open spec fn spec_va_index(va: u64, level: int) -> int {
    if level == 4 {
        ((va >> 39) & 0x1ff) as int
    } else if level == 3 {
        ((va >> 30) & 0x1ff) as int
    } else if level == 2 {
        ((va >> 21) & 0x1ff) as int
    } else {
        ((va >> 12) & 0x1ff) as int
    }
}

/// The 9-bit table index of `va` at `level` (4 at the root, 1 at the leaf).
pub fn va_index(va: u64, level: u64) -> (r: usize)
    requires 1 <= level <= 4,
    ensures
        r == spec_va_index(va, level as int),
        r < 512,
        level == 4 && spec_user_addr(va) ==> r < 256,
{
    proof {
        assert(((va >> 39) & 0x1ff) < 512 && ((va >> 30) & 0x1ff) < 512
            && ((va >> 21) & 0x1ff) < 512 && ((va >> 12) & 0x1ff) < 512) by (bit_vector);
        assert(va < 0x0000_8000_0000_0000 ==> ((va >> 39) & 0x1ff) < 256) by (bit_vector);
    }
    if level == 4 {
        ((va >> 39) & 0x1ff) as usize
    } else if level == 3 {
        ((va >> 30) & 0x1ff) as usize
    } else if level == 2 {
        ((va >> 21) & 0x1ff) as usize
    } else {
        ((va >> 12) & 0x1ff) as usize
    }
}

/// The in-mapping offset of `va` under a leaf found at `level`: huge
/// mappings at levels 2 and 3 cover 2 MiB and 1 GiB.
pub open spec fn spec_level_offset(va: u64, level: int) -> u64 {
    if level == 3 {
        va & 0x3fff_ffff
    } else if level == 2 {
        va & 0x1f_ffff
    } else {
        va & 0xfff
    }
}

/// One entry of the owned part of an address-space tree: nothing, a
/// terminal mapping (a leaf page, or a huge page above level 1), or an
/// owned child table.
pub enum Entry {
    Empty,
    Leaf(Pte),
    Table(Box<Node>),
}

/// An owned page table: the physical frame backing it and its 512 entries.
pub struct Node {
    pub frame: u64,
    pub entries: Vec<Entry>,
}

/// Well-formedness of an entry at `level`: leaves are present and sit at
/// level 3 or below; child tables sit at level 2 or above and are full
/// 512-entry tables of well-formed entries one level down.
pub open spec fn entry_wf(e: Entry, level: int) -> bool
    decreases level,
{
    match e {
        Entry::Empty => true,
        Entry::Leaf(p) => level <= 3 && p.spec_is_present(),
        Entry::Table(n) => if level >= 2 {
            &&& n.entries@.len() == 512
            &&& forall|i: int| 0 <= i < 512 ==> entry_wf(#[trigger] n.entries@[i], level - 1)
        } else {
            false
        },
    }
}

/// A process's address space: the root frame, the 256 owned entries of the
/// user half, and the 256 raw upper-half entries shared with the kernel.
pub struct AddressSpace {
    pub root_frame: u64,
    pub user: Vec<Entry>,
    pub kernel: Vec<Pte>,
}

impl AddressSpace {
    pub open spec fn wf(self) -> bool {
        &&& self.user@.len() == 256
        &&& self.kernel@.len() == 256
        &&& forall|i: int| 0 <= i < 256 ==> entry_wf(#[trigger] self.user@[i], 4)
    }
}

/// Walk `entries` (the table at `level`) down to the leaf covering `va`.
pub open spec fn lookup_entries(entries: Seq<Entry>, level: int, va: u64) -> Option<(Pte, int)>
    decreases level, 1int,
{
    if level < 1 {
        None
    } else {
        lookup_entry(entries[spec_va_index(va, level)], level, va)
    }
}

/// The leaf found through one entry at `level` for `va`.
pub open spec fn lookup_entry(e: Entry, level: int, va: u64) -> Option<(Pte, int)>
    decreases level, 0int,
{
    match e {
        Entry::Empty => None,
        Entry::Leaf(p) => Some((p, level)),
        Entry::Table(n) => if level >= 2 {
            lookup_entries(n.entries@, level - 1, va)
        } else {
            None
        },
    }
}

/// Every 9-bit table index is below 512.
pub proof fn lemma_va_index_bounds(va: u64)
    ensures
        forall|l: int| 0 <= #[trigger] spec_va_index(va, l) < 512,
{
    assert(((va >> 39) & 0x1ff) < 512 && ((va >> 30) & 0x1ff) < 512
        && ((va >> 21) & 0x1ff) < 512 && ((va >> 12) & 0x1ff) < 512) by (bit_vector);
}

/// Whether `va` and `virt` take the same path below an entry at `level`:
/// their table indices agree at every deeper level.  Below a leaf entry
/// (level 1) there is no deeper choice, so every address agrees.
pub open spec fn same_subpath(va: u64, virt: u64, level: int) -> bool
    decreases level,
{
    if level <= 1 {
        true
    } else {
        spec_va_index(va, level - 1) == spec_va_index(virt, level - 1)
            && same_subpath(va, virt, level - 1)
    }
}

/// Whether the existing tree refuses to map `virt` below this entry
/// because a huge mapping (a leaf above level 1) already covers it.
pub open spec fn huge_blocked(e: Entry, level: int, virt: u64) -> bool
    decreases level,
{
    match e {
        Entry::Empty => false,
        Entry::Leaf(_) => level >= 2,
        Entry::Table(n) => if level >= 2 {
            huge_blocked(n.entries@[spec_va_index(virt, level - 1)], level - 1, virt)
        } else {
            false
        },
    }
}

/// Why a mapping request was refused.
#[derive(Copy, Clone, PartialEq, Eq, Structural, Debug)]
pub enum MapError {
    /// A huge mapping already covers the address.
    HugePage,
    /// The frame allocator ran out of pages for an intermediate table.
    OutOfMemory,
}

/// The leaf mapping covering `va`, with the level it was found at.
pub open spec fn spec_translate(s: AddressSpace, va: u64) -> Option<(Pte, int)> {
    if spec_user_addr(va) {
        lookup_entries(s.user@, 4, va)
    } else {
        None
    }
}

/// The physical address `va` maps to, if any.
pub open spec fn spec_resolve(s: AddressSpace, va: u64) -> Option<u64> {
    match spec_translate(s, va) {
        Some((p, l)) => Some((p.spec_address() + spec_level_offset(va, l)) as u64),
        None => None,
    }
}

/// A 512-entry table of `Empty`.
fn empty_entries() -> (r: Vec<Entry>)
    ensures
        r@.len() == 512,
        forall|i: int| 0 <= i < 512 ==> r@[i] is Empty,
{
    let mut v: Vec<Entry> = Vec::new();
    let mut i: usize = 0;
    while i < 512
        invariant
            v@.len() == i,
            i <= 512,
            forall|k: int| 0 <= k < i ==> v@[k] is Empty,
        decreases 512 - i,
    {
        v.push(Entry::Empty);
        i = i + 1;
    }
    v
}

/// Allocator tables only step pages from `Free` to freshly `InUse`.
pub open spec fn alloc_transition(a: Seq<PageInfo>, b: Seq<PageInfo>) -> bool {
    &&& b.len() == a.len()
    &&& forall|i: int| 0 <= i < a.len()
            ==> b[i] == a[i]
                || (a[i] == PageInfo::Free && b[i] == (PageInfo::InUse { refcount: 1u16 }))
}

/// Build a fresh tree: allocate a root frame, share the kernel upper half
/// of `kernel_root` (entries 256 to 511), and leave the user half empty.
/// `None` exactly when no frame is free, with the allocator unchanged.
pub fn new_tree(fa: &mut FrameAllocator, kernel_root: &PageTable) -> (r: Option<AddressSpace>)
    requires
        old(fa).wf(),
        kernel_root.wf(),
    ensures
        final(fa).wf(),
        match r {
            Some(s) => {
                &&& s.wf()
                &&& forall|va: u64| spec_translate(s, va) is None
                &&& s.kernel@ == kernel_root.entries@.subrange(256, 512)
                &&& s.root_frame % crate::pmm::PAGE_SIZE == 0
                &&& (s.root_frame as int / crate::pmm::PAGE_SIZE as int) < old(fa).table@.len()
                &&& old(fa).table@[s.root_frame as int / crate::pmm::PAGE_SIZE as int]
                        == PageInfo::Free
                &&& final(fa).table@ == old(fa).table@.update(
                        s.root_frame as int / crate::pmm::PAGE_SIZE as int,
                        PageInfo::InUse { refcount: 1u16 },
                    )
            },
            None => {
                &&& *final(fa) == *old(fa)
                &&& forall|k: int| 0 <= k < old(fa).table@.len()
                        ==> old(fa).table@[k] != PageInfo::Free
            },
        },
{
    let root_frame = match fa.allocate() {
        Some(f) => f,
        None => { return None; }
    };
    let mut user: Vec<Entry> = Vec::new();
    let mut i: usize = 0;
    while i < 256
        invariant
            user@.len() == i,
            i <= 256,
            forall|k: int| 0 <= k < i ==> user@[k] is Empty,
        decreases 256 - i,
    {
        user.push(Entry::Empty);
        i = i + 1;
    }
    let mut kernel: Vec<Pte> = Vec::new();
    let mut j: usize = 256;
    while j < 512
        invariant
            256 <= j <= 512,
            kernel@.len() == j - 256,
            kernel_root.wf(),
            forall|k: int| 0 <= k < j - 256 ==> kernel@[k] == kernel_root.entries@[k + 256],
        decreases 512 - j,
    {
        kernel.push(kernel_root.entries[j]);
        j = j + 1;
    }
    let s = AddressSpace { root_frame, user, kernel };
    proof {
        assert(s.kernel@ =~= kernel_root.entries@.subrange(256, 512));
        assert forall|va: u64| spec_translate(s, va) is None by {
            if spec_user_addr(va) {
                assert(((va >> 39) & 0x1ff) < 256) by (bit_vector)
                    requires va < 0x0000_8000_0000_0000;
                assert(s.user@[spec_va_index(va, 4)] is Empty);
            }
        }
    }
    Some(s)
}

/// Walk an owned table whose entries sit at `level`, looking for the leaf
/// covering `va`.
fn lookup_node(n: &Node, level: u64, va: u64) -> (r: Option<(Pte, u64)>)
    requires
        1 <= level <= 3,
        n.entries@.len() == 512,
        forall|i: int| 0 <= i < 512 ==> entry_wf(#[trigger] n.entries@[i], level as int),
    ensures
        match r {
            Some((p, l)) => {
                &&& lookup_entries(n.entries@, level as int, va) == Some((p, l as int))
                &&& 1 <= l <= level
            },
            None => lookup_entries(n.entries@, level as int, va) is None,
        },
    decreases level,
{
    let idx = va_index(va, level);
    match &n.entries[idx] {
        Entry::Empty => None,
        Entry::Leaf(p) => Some((*p, level)),
        Entry::Table(child) => {
            if level >= 2 {
                lookup_node(child, level - 1, va)
            } else {
                proof {
                    assert(entry_wf(n.entries@[idx as int], level as int));
                }
                None
            }
        }
    }
}

impl AddressSpace {
    /// Resolve a virtual address through this tree: the physical address of
    /// the mapped leaf plus the in-mapping offset, or `None` where no
    /// mapping covers `virt` (kernel-half addresses resolve through the
    /// shared kernel root, not through the owned tree, and give `None`
    /// here).
    pub fn physical_address(&self, virt: u64) -> (r: Option<u64>)
        requires
            self.wf(),
        ensures
            r == spec_resolve(*self, virt),
    {
        if !user_addr(virt) {
            return None;
        }
        let idx4 = va_index(virt, 4);
        match &self.user[idx4] {
            Entry::Empty => None,
            Entry::Leaf(_) => {
                proof {
                    assert(entry_wf(self.user@[idx4 as int], 4));
                }
                None
            }
            Entry::Table(n) => {
                match lookup_node(n, 3, virt) {
                    Some((p, l)) => {
                        let off: u64 = if l == 3 {
                            virt & 0x3fff_ffff
                        } else if l == 2 {
                            virt & 0x1f_ffff
                        } else {
                            virt & 0xfff
                        };
                        proof {
                            let pv: u64 = p.0;
                            assert(pv & PTE_ADDR_MASK <= PTE_ADDR_MASK) by (bit_vector);
                            assert((virt & 0x3fff_ffff) <= 0x3fff_ffff
                                && (virt & 0x1f_ffff) <= 0x1f_ffff
                                && (virt & 0xfff) <= 0xfff) by (bit_vector);
                        }
                        Some(p.address() + off)
                    }
                    None => None,
                }
            }
        }
    }
}

/// Map `virt` to the leaf entry `pte` below the tree entry `e` (sitting at
/// `level`), allocating missing intermediate tables from `fa`.  Returns
/// the rebuilt entry together with the outcome; on an error the rebuilt
/// entry translates every address exactly as `e` did (intermediate tables
/// allocated before the failure stay in place but map nothing).
fn map_entry(e: Entry, level: u64, fa: &mut FrameAllocator, virt: u64, pte: u64)
    -> (res: (Entry, Result<(), MapError>))
    requires
        1 <= level <= 4,
        entry_wf(e, level as int),
        old(fa).wf(),
        pte & PTE_PRESENT != 0,
    ensures
        final(fa).wf(),
        alloc_transition(old(fa).table@, final(fa).table@),
        entry_wf(res.0, level as int),
        crate::pmm::count_tag(old(fa).table@, PageInfo::Free) >= level - 1
            ==> res.1 != Err::<(), MapError>(MapError::OutOfMemory),
        crate::pmm::count_tag(final(fa).table@, PageInfo::Free)
            >= crate::pmm::count_tag(old(fa).table@, PageInfo::Free) - (level - 1),
        match res.1 {
            Ok(_) => {
                &&& lookup_entry(res.0, level as int, virt) == Some((Pte(pte), 1int))
                &&& forall|va: u64| !same_subpath(va, virt, level as int)
                        ==> lookup_entry(res.0, level as int, va)
                            == lookup_entry(e, level as int, va)
                &&& !huge_blocked(e, level as int, virt)
            },
            Err(er) => {
                &&& forall|va: u64| lookup_entry(res.0, level as int, va)
                        == lookup_entry(e, level as int, va)
                &&& (er == MapError::HugePage <==> huge_blocked(e, level as int, virt))
            },
        },
    decreases level,
{
    if level == 1 {
        return (Entry::Leaf(Pte(pte)), Ok(()));
    }
    match e {
        Entry::Leaf(p) => (Entry::Leaf(p), Err(MapError::HugePage)),
        Entry::Empty => {
            let frame = match fa.alloc_zeroed() {
                Some(f) => f,
                None => {
                    proof {
                        crate::pmm::lemma_count_tag_none(fa.table@, PageInfo::Free);
                    }
                    return (Entry::Empty, Err(MapError::OutOfMemory));
                }
            };
            proof {
                crate::pmm::lemma_count_tag_update(
                    old(fa).table@,
                    frame as int / crate::pmm::PAGE_SIZE as int,
                    PageInfo::InUse { refcount: 1u16 },
                    PageInfo::Free,
                );
            }
            let mut node = Box::new(Node { frame, entries: empty_entries() });
            let idx = va_index(virt, level - 1);
            let mut sub = Entry::Empty;
            node.entries.set_and_swap(idx, &mut sub);
            let (new_sub, outcome) = map_entry(sub, level - 1, fa, virt, pte);
            let mut put = new_sub;
            node.entries.set_and_swap(idx, &mut put);
            proof {
                assert(node.entries@.len() == 512);
                assert(node.entries@[idx as int] == new_sub);
                assert(forall|q: int| 0 <= q < 512 && q != idx as int
                    ==> #[trigger] node.entries@[q] is Empty);
                assert forall|q: int| 0 <= q < 512
                    implies entry_wf(#[trigger] node.entries@[q], level - 1) by {
                    reveal_with_fuel(entry_wf, 2);
                    if q != idx as int {
                        assert(node.entries@[q] is Empty);
                    }
                }
                assert(entry_wf(Entry::Table(node), level as int));
                assert forall|va: u64|
                    lookup_entry(Entry::Table(node), level as int, va)
                        == (if spec_va_index(va, level - 1) == idx as int {
                            lookup_entry(new_sub, level - 1, va)
                        } else {
                            lookup_entry(Entry::Empty, level as int, va)
                        }) by {
                    lemma_va_index_bounds(va);
                    reveal_with_fuel(lookup_entry, 2);
                    reveal_with_fuel(lookup_entries, 2);
                    if spec_va_index(va, level - 1) != idx as int {
                        assert(node.entries@[spec_va_index(va, level - 1)] is Empty);
                    }
                }
            }
            match outcome {
                Ok(_) => {
                    proof {
                        assert(same_subpath(virt, virt, level - 1)
                            ==> spec_va_index(virt, level - 1) == idx as int);
                        assert forall|va: u64| !same_subpath(va, virt, level as int)
                            implies lookup_entry(Entry::Table(node), level as int, va)
                                == lookup_entry(Entry::Empty, level as int, va) by {
                            reveal_with_fuel(same_subpath, 2);
                            reveal_with_fuel(lookup_entry, 2);
                            if spec_va_index(va, level - 1) == idx as int {
                                assert(!same_subpath(va, virt, level - 1));
                                assert(lookup_entry(new_sub, level - 1, va)
                                    == lookup_entry(Entry::Empty, level - 1, va));
                            }
                        }
                        assert(lookup_entry(Entry::Table(node), level as int, virt)
                            == lookup_entry(new_sub, level - 1, virt));
                        reveal_with_fuel(huge_blocked, 2);
                    }
                    (Entry::Table(node), Ok(()))
                }
                Err(er) => {
                    proof {
                        assert(er != MapError::HugePage);
                        assert forall|va: u64|
                            lookup_entry(Entry::Table(node), level as int, va)
                                == lookup_entry(Entry::Empty, level as int, va) by {
                            reveal_with_fuel(lookup_entry, 2);
                            if spec_va_index(va, level - 1) == idx as int {
                                assert(lookup_entry(new_sub, level - 1, va)
                                    == lookup_entry(Entry::Empty, level - 1, va));
                            }
                        }
                        reveal_with_fuel(huge_blocked, 2);
                    }
                    (Entry::Table(node), Err(er))
                }
            }
        }
        Entry::Table(mut node) => {
            let idx = va_index(virt, level - 1);
            let ghost old_node = *node;
            let mut sub = Entry::Empty;
            node.entries.set_and_swap(idx, &mut sub);
            let ghost taken = sub;
            let (new_sub, outcome) = map_entry(sub, level - 1, fa, virt, pte);
            let mut put = new_sub;
            node.entries.set_and_swap(idx, &mut put);
            proof {
                assert(taken == old_node.entries@[idx as int]);
                assert(node.entries@ =~= old_node.entries@.update(idx as int, new_sub));
                assert forall|q: int| 0 <= q < 512
                    implies entry_wf(#[trigger] node.entries@[q], level - 1) by {
                    if q != idx as int {
                        assert(node.entries@[q] == old_node.entries@[q]);
                    }
                }
                assert(entry_wf(Entry::Table(node), level as int));
                assert forall|va: u64|
                    lookup_entry(Entry::Table(node), level as int, va)
                        == (if spec_va_index(va, level - 1) == idx as int {
                            lookup_entry(new_sub, level - 1, va)
                        } else {
                            lookup_entry(e, level as int, va)
                        }) by {
                    lemma_va_index_bounds(va);
                    reveal_with_fuel(lookup_entry, 2);
                    reveal_with_fuel(lookup_entries, 2);
                    if spec_va_index(va, level - 1) != idx as int {
                        assert(node.entries@[spec_va_index(va, level - 1)]
                            == old_node.entries@[spec_va_index(va, level - 1)]);
                    }
                }
                assert(huge_blocked(e, level as int, virt)
                    == huge_blocked(taken, level - 1, virt)) by {
                    reveal_with_fuel(huge_blocked, 2);
                }
            }
            match outcome {
                Ok(_) => {
                    proof {
                        assert forall|va: u64| !same_subpath(va, virt, level as int)
                            implies lookup_entry(Entry::Table(node), level as int, va)
                                == lookup_entry(e, level as int, va) by {
                            reveal_with_fuel(same_subpath, 2);
                            if spec_va_index(va, level - 1) == idx as int {
                                assert(!same_subpath(va, virt, level - 1));
                                assert(lookup_entry(new_sub, level - 1, va)
                                    == lookup_entry(taken, level - 1, va));
                            }
                        }
                        assert(lookup_entry(Entry::Table(node), level as int, virt)
                            == lookup_entry(new_sub, level - 1, virt));
                    }
                    (Entry::Table(node), Ok(()))
                }
                Err(er) => {
                    proof {
                        assert forall|va: u64|
                            lookup_entry(Entry::Table(node), level as int, va)
                                == lookup_entry(e, level as int, va) by {
                            if spec_va_index(va, level - 1) == idx as int {
                                assert(lookup_entry(new_sub, level - 1, va)
                                    == lookup_entry(taken, level - 1, va));
                            }
                        }
                    }
                    (Entry::Table(node), Err(er))
                }
            }
        }
    }
}

/// Whether an existing huge mapping in `s` covers `virt`, which makes a
/// 4 KiB mapping request fail.
pub open spec fn spec_map_blocked(s: AddressSpace, virt: u64) -> bool {
    huge_blocked(s.user@[spec_va_index(virt, 4)], 4, virt)
}

/// Install a 4 KiB mapping from `virt` to `phys` in `space`, walking four
/// levels from the root and allocating missing intermediate tables from
/// `fa` (each freshly zeroed).  Mapping inside an existing huge page is
/// refused.  On any outcome, addresses of other pages translate exactly
/// as before; with at least three free frames and no huge page in the
/// way, the mapping succeeds.
pub fn map_in_table(
    space: &mut AddressSpace,
    fa: &mut FrameAllocator,
    virt: u64,
    phys: u64,
    flags: PageFlags,
) -> (r: Result<(), MapError>)
    requires
        old(space).wf(),
        old(fa).wf(),
        spec_user_addr(virt),
    ensures
        final(space).wf(),
        final(fa).wf(),
        final(space).root_frame == old(space).root_frame,
        final(space).kernel@ == old(space).kernel@,
        alloc_transition(old(fa).table@, final(fa).table@),
        crate::pmm::count_tag(old(fa).table@, PageInfo::Free) >= 3
            && !spec_map_blocked(*old(space), virt) ==> r is Ok,
        crate::pmm::count_tag(final(fa).table@, PageInfo::Free)
            >= crate::pmm::count_tag(old(fa).table@, PageInfo::Free) - 3,
        match r {
            Ok(_) => {
                &&& spec_translate(*final(space), virt)
                        == Some((Pte(phys | spec_generic_flags(flags)), 1int))
                &&& forall|va: u64| va >> 12 != virt >> 12
                        ==> spec_translate(*final(space), va)
                            == spec_translate(*old(space), va)
            },
            Err(er) => {
                &&& forall|va: u64| spec_translate(*final(space), va)
                        == spec_translate(*old(space), va)
                &&& (er == MapError::HugePage <==> spec_map_blocked(*old(space), virt))
            },
        },
{
    proof {
        reveal_with_fuel(lookup_entries, 5);
        reveal_with_fuel(lookup_entry, 5);
        reveal_with_fuel(same_subpath, 5);
        reveal_with_fuel(huge_blocked, 5);
    }
    let g = generic_flags(flags);
    let pte = phys | g;
    proof {
        assert(g & 0x1u64 != 0 ==> (phys | g) & 0x1u64 != 0) by (bit_vector);
    }
    let idx4 = va_index(virt, 4);
    let ghost old_user = space.user@;
    let mut e = Entry::Empty;
    space.user.set_and_swap(idx4, &mut e);
    let ghost taken = e;
    let (new_e, outcome) = map_entry(e, 4, fa, virt, pte);
    let mut put = new_e;
    space.user.set_and_swap(idx4, &mut put);
    proof {
        assert(space.user@ =~= old_user.update(idx4 as int, space.user@[idx4 as int]));
        assert forall|va: u64| spec_user_addr(va)
            implies spec_translate(*space, va)
                == (if spec_va_index(va, 4) == idx4 as int {
                    lookup_entry(space.user@[idx4 as int], 4, va)
                } else {
                    spec_translate(*old(space), va)
                }) by {
            lemma_va_index_bounds(va);
            assert(va < 0x0000_8000_0000_0000 ==> ((va >> 39) & 0x1ff) < 256) by (bit_vector);
        }
        assert forall|va: u64| spec_user_addr(va) && spec_va_index(va, 4) == idx4 as int
                && same_subpath(va, virt, 4)
            implies va >> 12 == virt >> 12 by {
            assert(((va >> 39) & 0x1ff == (virt >> 39) & 0x1ff
                && (va >> 30) & 0x1ff == (virt >> 30) & 0x1ff
                && (va >> 21) & 0x1ff == (virt >> 21) & 0x1ff
                && (va >> 12) & 0x1ff == (virt >> 12) & 0x1ff
                && va < 0x0000_8000_0000_0000
                && virt < 0x0000_8000_0000_0000) ==> va >> 12 == virt >> 12)
                by (bit_vector);
        }
    }
    match outcome {
        Ok(_) => {
            proof {
                assert(spec_translate(*space, virt)
                    == lookup_entry(space.user@[idx4 as int], 4, virt));
                assert(same_subpath(virt, virt, 4));
            }
            Ok(())
        }
        Err(er) => {
            proof {
                assert(taken == old(space).user@[spec_va_index(virt, 4)]);
                assert forall|va: u64|
                    spec_translate(*space, va) == spec_translate(*old(space), va) by {
                    lemma_va_index_bounds(va);
                    if spec_user_addr(va) && spec_va_index(va, 4) == idx4 as int {
                        assert(spec_translate(*old(space), va)
                            == lookup_entry(old_user[idx4 as int], 4, va));
                        assert(lookup_entry(space.user@[idx4 as int], 4, va)
                            == lookup_entry(taken, 4, va));
                    }
                }
                if crate::pmm::count_tag(old(fa).table@, PageInfo::Free) >= 3
                    && !spec_map_blocked(*old(space), virt) {
                    assert(er != MapError::HugePage);
                    assert(er != MapError::OutOfMemory);
                    assert(false);
                }
            }
            Err(er)
        }
    }
}

/// The frames the tree below one entry owns, in the order freeing visits
/// them: leaves first, then each child table's own frame.
pub open spec fn entry_frames(e: Entry, level: int) -> Seq<u64>
    decreases level, 0int, 0int,
{
    match e {
        Entry::Empty => seq![],
        Entry::Leaf(p) => seq![p.spec_address()],
        Entry::Table(n) => if level >= 2 {
            entries_frames(n.entries@, level - 1) + seq![n.frame]
        } else {
            seq![]
        },
    }
}

/// The frames owned below a sequence of entries, visited left to right.
pub open spec fn entries_frames(s: Seq<Entry>, level: int) -> Seq<u64>
    decreases level, 1int, s.len(),
{
    if s.len() == 0 {
        seq![]
    } else {
        entry_frames(s[0], level) + entries_frames(s.drop_first(), level)
    }
}

/// All frames of an address-space tree, in freeing order: the user half's
/// subtrees, then the root frame.
pub open spec fn space_frames(s: AddressSpace) -> Seq<u64> {
    entries_frames(s.user@, 4) + seq![s.root_frame]
}

/// One `free` step on the table, as `FrameAllocator::free` performs it.
pub open spec fn free_page_at(t: Seq<PageInfo>, f: u64) -> Seq<PageInfo> {
    let idx = f as int / crate::pmm::PAGE_SIZE as int;
    if 0 <= idx < t.len() {
        t.update(idx, crate::pmm::free_one(t[idx]))
    } else {
        t
    }
}

/// The table after freeing every frame of `fs` in order.
pub open spec fn free_seq(t: Seq<PageInfo>, fs: Seq<u64>) -> Seq<PageInfo>
    decreases fs.len(),
{
    if fs.len() == 0 {
        t
    } else {
        free_seq(free_page_at(t, fs[0]), fs.drop_first())
    }
}

/// Every frame of `fs` falls inside a table of `len` pages.
pub open spec fn frames_in_range(fs: Seq<u64>, len: int) -> bool {
    forall|k: int| 0 <= k < fs.len()
        ==> ((#[trigger] fs[k]) as int / crate::pmm::PAGE_SIZE as int) < len
}

/// Freeing never changes the table's length.
pub proof fn lemma_free_seq_len(t: Seq<PageInfo>, fs: Seq<u64>)
    ensures
        free_seq(t, fs).len() == t.len(),
    decreases fs.len(),
{
    if fs.len() > 0 {
        lemma_free_seq_len(free_page_at(t, fs[0]), fs.drop_first());
    }
}

/// Freeing a concatenation is freeing the parts in order.
pub proof fn lemma_free_seq_append(t: Seq<PageInfo>, a: Seq<u64>, b: Seq<u64>)
    ensures
        free_seq(t, a + b) == free_seq(free_seq(t, a), b),
    decreases a.len(),
{
    if a.len() == 0 {
        assert(a + b =~= b);
    } else {
        assert((a + b)[0] == a[0]);
        assert((a + b).drop_first() =~= a.drop_first() + b);
        lemma_free_seq_append(free_page_at(t, a[0]), a.drop_first(), b);
    }
}

/// The frames below a prefix of entries, extended by one more entry.
pub proof fn lemma_entries_frames_take_succ(s: Seq<Entry>, level: int, j: int)
    requires
        0 <= j < s.len(),
    ensures
        entries_frames(s.take(j + 1), level)
            == entries_frames(s.take(j), level) + entry_frames(s[j], level),
    decreases j,
{
    if j == 0 {
        assert(s.take(1)[0] == s[0]);
        assert(s.take(1).drop_first() =~= Seq::<Entry>::empty());
        assert(s.take(0) =~= Seq::<Entry>::empty());
        assert(entries_frames(s.take(1), level)
            =~= entries_frames(s.take(0), level) + entry_frames(s[0], level));
    } else {
        let d = s.drop_first();
        assert(s.take(j + 1)[0] == s[0]);
        assert(s.take(j)[0] == s[0]);
        assert(s.take(j + 1).drop_first() =~= d.take(j));
        assert(s.take(j).drop_first() =~= d.take(j - 1));
        lemma_entries_frames_take_succ(d, level, j - 1);
        assert(d[j - 1] == s[j]);
        assert(entry_frames(s[0], level) + (entries_frames(d.take(j - 1), level)
                + entry_frames(s[j], level))
            =~= (entry_frames(s[0], level) + entries_frames(d.take(j - 1), level))
                + entry_frames(s[j], level));
    }
}

/// Free every frame owned below `e`, an entry at `level`, returning each
/// to the allocator in visiting order.
fn free_entry(e: Entry, level: u64, fa: &mut FrameAllocator)
    requires
        1 <= level <= 4,
        entry_wf(e, level as int),
        old(fa).wf(),
    ensures
        final(fa).wf(),
        final(fa).table@ == free_seq(old(fa).table@, entry_frames(e, level as int)),
        final(fa).table@.len() == old(fa).table@.len(),
    decreases level, 0int,
{
    proof {
        lemma_free_seq_len(old(fa).table@, entry_frames(e, level as int));
    }
    match e {
        Entry::Empty => (),
        Entry::Leaf(p) => {
            proof {
                reveal_with_fuel(free_seq, 3);
                assert(entry_frames(e, level as int)[0] == p.spec_address());
                assert(seq![p.spec_address()].drop_first() =~= Seq::<u64>::empty());
            }
            let addr = p.address();
            if (addr / crate::pmm::PAGE_SIZE) < fa.table.len() as u64 {
                fa.free(addr);
            }
        }
        Entry::Table(node) => {
            if level >= 2 {
                let frame = node.frame;
                let entries = node.entries;
                proof {
                    assert(entry_frames(e, level as int)
                        == entries_frames(entries@, level - 1) + seq![frame]);
                }
                free_entry_list(entries, level - 1, fa);
                proof {
                    reveal_with_fuel(free_seq, 3);
                    lemma_free_seq_append(
                        old(fa).table@,
                        entries_frames(entries@, level - 1),
                        seq![frame],
                    );
                    assert(seq![frame].drop_first() =~= Seq::<u64>::empty());
                    let n = entries_frames(entries@, level - 1).len() as int;
                    assert(entry_frames(e, level as int)[n] == frame);
                }
                if (frame / crate::pmm::PAGE_SIZE) < fa.table.len() as u64 {
                    fa.free(frame);
                }
            } else {
                proof {
                    assert(false);
                }
            }
        }
    }
}

/// Free the frames below every entry of `entries` (each at `level`), left
/// to right.
fn free_entry_list(entries: Vec<Entry>, level: u64, fa: &mut FrameAllocator)
    requires
        1 <= level <= 4,
        forall|i: int| 0 <= i < entries@.len()
            ==> entry_wf(#[trigger] entries@[i], level as int),
        old(fa).wf(),
    ensures
        final(fa).wf(),
        final(fa).table@ == free_seq(old(fa).table@, entries_frames(entries@, level as int)),
        final(fa).table@.len() == old(fa).table@.len(),
    decreases level, 1int,
{
    let ghost orig = entries@;
    let ghost fa0 = fa.table@;
    let mut rest = entries;
    let total = rest.len();
    let mut j: usize = 0;
    proof {
        assert(orig.len() == total);
        lemma_free_seq_len(fa0, entries_frames(orig, level as int));
        assert(orig.take(0) =~= Seq::<Entry>::empty());
    }
    while rest.len() > 0
        invariant
            1 <= level <= 4,
            orig.len() <= usize::MAX,
            j + rest@.len() == orig.len(),
            rest@ =~= orig.skip(j as int),
            forall|i: int| 0 <= i < orig.len()
                ==> entry_wf(#[trigger] orig[i], level as int),
            fa.wf(),
            fa.table@ == free_seq(fa0, entries_frames(orig.take(j as int), level as int)),
            fa.table@.len() == fa0.len(),
        decreases rest@.len(),
    {
        let e0 = rest.remove(0);
        proof {
            assert(e0 == orig[j as int]);
            assert(rest@ =~= orig.skip(j as int + 1));
            lemma_entries_frames_take_succ(orig, level as int, j as int);
            lemma_free_seq_len(fa0, entries_frames(orig.take(j as int), level as int));
        }
        free_entry(e0, level, fa);
        proof {
            lemma_free_seq_append(
                fa0,
                entries_frames(orig.take(j as int), level as int),
                entry_frames(orig[j as int], level as int),
            );
        }
        j = j + 1;
    }
    proof {
        assert(orig.take(j as int) =~= orig);
    }
}

/// The frames below a prefix of entries are a prefix of the frames below
/// the whole sequence, so they inherit its range bound.
proof fn lemma_entries_frames_prefix(s: Seq<Entry>, level: int, j: int)
    requires
        0 <= j <= s.len(),
    ensures
        entries_frames(s.take(j), level).len() <= entries_frames(s, level).len(),
        forall|k: int| 0 <= k < entries_frames(s.take(j), level).len()
            ==> #[trigger] entries_frames(s.take(j), level)[k]
                == entries_frames(s, level)[k],
    decreases s.len() - j,
{
    if j == s.len() {
        assert(s.take(j) =~= s);
    } else {
        lemma_entries_frames_take_succ(s, level, j);
        lemma_entries_frames_prefix(s, level, j + 1);
        assert forall|k: int| 0 <= k < entries_frames(s.take(j), level).len()
            implies #[trigger] entries_frames(s.take(j), level)[k]
                == entries_frames(s, level)[k] by {
            assert(entries_frames(s.take(j + 1), level)[k]
                == entries_frames(s.take(j), level)[k]);
            assert(entries_frames(s.take(j + 1), level)[k]
                == entries_frames(s, level)[k]);
        }
    }
}

/// Free a whole address-space tree: every mapped leaf frame, every
/// intermediate table frame bottom-up, and finally the root frame, each
/// returned to the allocator once, in visiting order.
pub fn free_tree(space: AddressSpace, fa: &mut FrameAllocator)
    requires
        old(fa).wf(),
        space.wf(),
    ensures
        final(fa).wf(),
        final(fa).table@ == free_seq(old(fa).table@, space_frames(space)),
        final(fa).table@.len() == old(fa).table@.len(),
{
    let AddressSpace { root_frame, user, kernel: _ } = space;
    proof {
        assert(space_frames(space)
            == entries_frames(user@, 4) + seq![root_frame]);
        lemma_free_seq_len(old(fa).table@, space_frames(space));
    }
    free_entry_list(user, 4, fa);
    proof {
        reveal_with_fuel(free_seq, 3);
        lemma_free_seq_append(
            old(fa).table@,
            entries_frames(space.user@, 4),
            seq![root_frame],
        );
        assert(seq![root_frame].drop_first() =~= Seq::<u64>::empty());
        let n = entries_frames(space.user@, 4).len() as int;
        assert(space_frames(space)[n] == root_frame);
    }
    if (root_frame / crate::pmm::PAGE_SIZE) < fa.table.len() as u64 {
        fa.free(root_frame);
    }
}

/// Whether some frame of `fs` lies in page `p`.
pub open spec fn owns_page(fs: Seq<u64>, p: int) -> bool {
    exists|k: int| 0 <= k < fs.len()
        && ((#[trigger] fs[k]) as int / crate::pmm::PAGE_SIZE as int) == p
}

/// No page of the table carries a second reference.  `init` creates no
/// `InUse` page, `allocate` and `alloc_contiguous` create refcount 1,
/// and `free` only lowers a refcount, so every table this allocator
/// produces satisfies it.
pub open spec fn single_ref(t: Seq<PageInfo>) -> bool {
    forall|p: int| 0 <= p < t.len()
        ==> ((#[trigger] t[p]) matches PageInfo::InUse { refcount } ==> refcount == 1)
}

/// Freeing a sequence of frames over a table without second references
/// frees each exclusively held page and touches no other page, however
/// often a page recurs in the sequence (a freed page stays `Free`, and
/// any other tag is a no-op for `free`).
pub proof fn lemma_free_seq_effect(t: Seq<PageInfo>, fs: Seq<u64>)
    requires
        single_ref(t),
    ensures
        free_seq(t, fs).len() == t.len(),
        forall|p: int| 0 <= p < t.len() ==> #[trigger] free_seq(t, fs)[p]
            == (if owns_page(fs, p) {
                crate::pmm::free_one(t[p])
            } else {
                t[p]
            }),
    decreases fs.len(),
{
    lemma_free_seq_len(t, fs);
    if fs.len() > 0 {
        let page_size = crate::pmm::PAGE_SIZE as int;
        let t1 = free_page_at(t, fs[0]);
        let fs1 = fs.drop_first();
        let p0 = fs[0] as int / page_size;
        assert(forall|k: int| 0 <= k < fs1.len() ==> #[trigger] fs1[k] == fs[k + 1]);
        assert forall|p: int| 0 <= p < t1.len()
            implies ((#[trigger] t1[p]) matches PageInfo::InUse { refcount }
                ==> refcount == 1) by {
            if p != p0 || !(0 <= p0 < t.len()) {
                assert(t1[p] == t[p]);
            }
        }
        lemma_free_seq_effect(t1, fs1);
        assert forall|p: int| 0 <= p < t.len()
            implies #[trigger] free_seq(t, fs)[p]
                == (if owns_page(fs, p) { crate::pmm::free_one(t[p]) } else { t[p] }) by {
            assert(free_seq(t, fs)[p] == free_seq(t1, fs1)[p]);
            if p == p0 {
                assert(t1[p] == crate::pmm::free_one(t[p]));
                assert(owns_page(fs, p)) by {
                    assert(((fs[0]) as int / page_size) == p);
                }
                if owns_page(fs1, p) {
                    // the page recurs: the second free is a no-op, since
                    // with a single reference the first free left it
                    // `Free` or never touched it
                    assert(free_seq(t1, fs1)[p] == crate::pmm::free_one(t1[p]));
                    assert(crate::pmm::free_one(t1[p]) == t1[p]);
                } else {
                    assert(free_seq(t1, fs1)[p] == t1[p]);
                }
            } else {
                assert(t1[p] == t[p]);
                if owns_page(fs, p) {
                    let k = choose|k: int| 0 <= k < fs.len()
                        && ((#[trigger] fs[k]) as int / page_size) == p;
                    assert(k != 0);
                    assert(fs1[k - 1] == fs[k]);
                    assert(owns_page(fs1, p));
                    assert(free_seq(t1, fs1)[p] == crate::pmm::free_one(t1[p]));
                } else {
                    if owns_page(fs1, p) {
                        let k = choose|k: int| 0 <= k < fs1.len()
                            && ((#[trigger] fs1[k]) as int / page_size) == p;
                        assert(fs1[k] == fs[k + 1]);
                        assert(owns_page(fs, p));
                    }
                    assert(free_seq(t1, fs1)[p] == t1[p]);
                }
            }
        }
    }
}

/// Tree freeing: over a table without second references -- which is
/// every table this allocator builds -- `free_tree` leaves every frame
/// the tree held exclusively (tagged `InUse` with refcount 1) tagged
/// `Free`, leaves every shared frame (any tag other than `InUse`, such
/// as the kernel image's frames) with its tag untouched, and leaves
/// every page outside the tree untouched.
pub proof fn lemma_tree_freeing(t: Seq<PageInfo>, s: AddressSpace)
    requires
        single_ref(t),
    ensures
        forall|p: int| 0 <= p < t.len() && owns_page(space_frames(s), p)
            && t[p] == (PageInfo::InUse { refcount: 1u16 })
            ==> #[trigger] free_seq(t, space_frames(s))[p] == PageInfo::Free,
        forall|p: int| 0 <= p < t.len() && owns_page(space_frames(s), p)
            && !(t[p] is InUse)
            ==> #[trigger] free_seq(t, space_frames(s))[p] == t[p],
        forall|p: int| 0 <= p < t.len() && !owns_page(space_frames(s), p)
            ==> #[trigger] free_seq(t, space_frames(s))[p] == t[p],
{
    lemma_free_seq_effect(t, space_frames(s));
}

/// The single-reference condition holds of a fresh table and survives
/// every operation of the allocator: the boot map assigns no `InUse`
/// tag, allocation writes refcount 1, and freeing only lowers a
/// refcount.
pub proof fn lemma_single_ref_preserved(t: Seq<PageInfo>, i: int)
    requires
        single_ref(t),
        0 <= i < t.len(),
    ensures
        single_ref(t.update(i, PageInfo::InUse { refcount: 1u16 })),
        single_ref(t.update(i, crate::pmm::free_one(t[i]))),
        single_ref(t.update(i, PageInfo::Free)),
{
    assert forall|p: int| 0 <= p < t.len()
        implies ((#[trigger] t.update(i, crate::pmm::free_one(t[i]))[p])
            matches PageInfo::InUse { refcount } ==> refcount == 1) by {
        if p != i {
            assert(t.update(i, crate::pmm::free_one(t[i]))[p] == t[p]);
        }
    }
}

/// No huge mapping anywhere: every translation the tree gives is a
/// 4 KiB leaf.
pub open spec fn no_huge(s: AddressSpace) -> bool {
    forall|va: u64| spec_user_addr(va) ==> match #[trigger] spec_translate(s, va) {
        Some((p, l)) => l == 1,
        None => true,
    }
}

/// A walk that is blocked by a huge leaf also translates, at that leaf's
/// level (2 or above).
pub proof fn lemma_blocked_translates(e: Entry, level: int, virt: u64)
    requires
        1 <= level <= 4,
        huge_blocked(e, level, virt),
    ensures
        match lookup_entry(e, level, virt) {
            Some((p, l)) => 2 <= l <= level,
            None => false,
        },
    decreases level,
{
    reveal_with_fuel(lookup_entry, 2);
    reveal_with_fuel(lookup_entries, 2);
    reveal_with_fuel(huge_blocked, 2);
    match e {
        Entry::Empty => {}
        Entry::Leaf(_) => {}
        Entry::Table(n) => {
            lemma_blocked_translates(
                n.entries@[spec_va_index(virt, level - 1)],
                level - 1,
                virt,
            );
        }
    }
}

/// A tree without huge mappings never refuses a 4 KiB mapping for being
/// inside one.
pub proof fn lemma_no_huge_not_blocked(s: AddressSpace, virt: u64)
    requires
        s.wf(),
        no_huge(s),
        spec_user_addr(virt),
    ensures
        !spec_map_blocked(s, virt),
{
    if spec_map_blocked(s, virt) {
        lemma_blocked_translates(s.user@[spec_va_index(virt, 4)], 4, virt);
        assert(spec_translate(s, virt)
            == lookup_entry(s.user@[spec_va_index(virt, 4)], 4, virt));
    }
}

/// Two addresses of the same page (equal table indices at every level)
/// walk the same path and translate alike.
pub proof fn lemma_lookup_same_page(entries: Seq<Entry>, level: int, va: u64, vb: u64)
    requires
        1 <= level <= 4,
        forall|l: int| 1 <= l <= level ==> spec_va_index(va, l) == spec_va_index(vb, l),
    ensures
        lookup_entries(entries, level, va) == lookup_entries(entries, level, vb),
    decreases level,
{
    reveal_with_fuel(lookup_entry, 2);
    reveal_with_fuel(lookup_entries, 2);
    assert(spec_va_index(va, level) == spec_va_index(vb, level));
    match entries[spec_va_index(va, level)] {
        Entry::Empty => {}
        Entry::Leaf(_) => {}
        Entry::Table(n) => {
            if level >= 2 {
                lemma_lookup_same_page(n.entries@, level - 1, va, vb);
            }
        }
    }
}

/// Addresses of one page share all four indices.
pub proof fn lemma_same_page_same_indices(va: u64, vb: u64)
    requires
        va >> 12 == vb >> 12,
    ensures
        forall|l: int| 1 <= l <= 4 ==> spec_va_index(va, l) == spec_va_index(vb, l),
{
    assert(va >> 12 == vb >> 12 ==> ((va >> 39) & 0x1ff == (vb >> 39) & 0x1ff
        && (va >> 30) & 0x1ff == (vb >> 30) & 0x1ff
        && (va >> 21) & 0x1ff == (vb >> 21) & 0x1ff
        && (va >> 12) & 0x1ff == (vb >> 12) & 0x1ff)) by (bit_vector);
}

} // verus!
