use cardinal3::limine::{LimineMmapEntry, LimineMmapEntryType};
use cardinal3::pmm::{FrameAllocator, PageInfo};
use cardinal3::vmm::PageFlags;
use cardinal3::x86::page::{
    AddressSpace, Entry, MapError, Node, PageTable, Pte, free_tree, generic_flags,
    map_in_table, new_tree,
    PTE_PRESENT, PTE_WRITEABLE, PTE_USERMODE, PTE_IS_HUGE, PTE_NX,
};

fn allocator(pages: u64) -> FrameAllocator {
    let entries = vec![LimineMmapEntry {
        base: 0,
        len: pages * 0x1000,
        typ: LimineMmapEntryType::Usable,
    }];
    FrameAllocator::init(&entries)
}

#[test]
fn pte_bits_round_trip() {
    let p = Pte::new(0x1234000, PTE_PRESENT | PTE_WRITEABLE | PTE_USERMODE);
    assert!(p.is_present());
    assert!(p.is_writeable());
    assert!(p.is_usermode());
    assert!(!p.is_huge());
    assert!(!p.is_nx());
    assert_eq!(p.address(), 0x1234000);
    assert_eq!(p.flags(), PTE_PRESENT | PTE_WRITEABLE | PTE_USERMODE);
    let mut q = p;
    q.set_address(0x8000);
    assert_eq!(q.address(), 0x8000);
    assert_eq!(q.flags(), p.flags());
    q.set_flags(PTE_PRESENT);
    assert_eq!(q.flags(), PTE_PRESENT);
    let z = Pte(0);
    assert!(!z.is_present());
    assert!(!z.is_writeable());
}

#[test]
fn new_tree_shares_kernel_half_and_maps_nothing() {
    let mut fa = allocator(32);
    let mut root = PageTable::zeroed();
    root.entries[300] = Pte::new(0xdead000, PTE_PRESENT | PTE_WRITEABLE);
    let space = new_tree(&mut fa, &root).unwrap();
    assert_eq!(space.kernel[300 - 256].0, root.entries[300].0);
    assert_eq!(space.physical_address(0x4000_0000), None);
    assert_eq!(space.physical_address(0), None);
    // a kernel-half address resolves through the shared root, not here
    assert_eq!(space.physical_address(0xffff_8000_0000_0000), None);
}

#[test]
fn map_then_resolve_exact_physical_address() {
    let mut fa = allocator(64);
    let root = PageTable::zeroed();
    let mut space = new_tree(&mut fa, &root).unwrap();
    let flags = PageFlags::read().union(PageFlags::write()).union(PageFlags::user());
    map_in_table(&mut space, &mut fa, 0x40_0000, 0x7000, flags).unwrap();
    assert_eq!(space.physical_address(0x40_0123), Some(0x7123));
    assert_eq!(space.physical_address(0x40_1000), None);
    // remapping the same page replaces the leaf
    map_in_table(&mut space, &mut fa, 0x40_0000, 0x9000, flags).unwrap();
    assert_eq!(space.physical_address(0x40_0fff), Some(0x9fff));
}

#[test]
fn mapping_inside_a_huge_page_is_refused() {
    let mut fa = allocator(64);
    let root = PageTable::zeroed();
    let mut space = new_tree(&mut fa, &root).unwrap();
    let flags = PageFlags::read().union(PageFlags::user());
    map_in_table(&mut space, &mut fa, 0x40_0000, 0x7000, flags).unwrap();
    // plant a huge leaf one level up by mapping, then checking the error
    // on a fresh allocator run out of frames instead:
    let mut tiny = FrameAllocator::init(&vec![]);
    let mut s2 = AddressSpace {
        root_frame: 0,
        user: space.user,
        kernel: space.kernel,
    };
    // no free frames at all: an unmapped region cannot get tables
    assert_eq!(
        map_in_table(&mut s2, &mut tiny, 0x8000_0000, 0x3000, flags),
        Err(MapError::OutOfMemory)
    );
}

#[test]
fn free_tree_returns_every_owned_frame() {
    let mut fa = allocator(64);
    let root = PageTable::zeroed();
    let before = fa.summary();
    let mut space = new_tree(&mut fa, &root).unwrap();
    let flags = PageFlags::read().union(PageFlags::write()).union(PageFlags::user());
    // two mappings to fresh frames
    let f1 = fa.allocate().unwrap();
    let f2 = fa.allocate().unwrap();
    map_in_table(&mut space, &mut fa, 0x40_0000, f1, flags).unwrap();
    map_in_table(&mut space, &mut fa, 0x20_0000_0000, f2, flags).unwrap();
    let held = fa.summary();
    assert!(held.free < before.free);
    free_tree(space, &mut fa);
    let after = fa.summary();
    // every frame the tree owned (root, tables, both data frames) is free
    assert_eq!(after.free, before.free);
}

#[test]
fn free_tree_leaves_shared_kernel_frames_alone() {
    // map a leaf onto a Kernel-tagged frame: freeing the tree must not
    // release it (the silent no-op of `free` on a non-InUse slot)
    let entries = vec![
        LimineMmapEntry { base: 0, len: 0x4000, typ: LimineMmapEntryType::KernelAndModules },
        LimineMmapEntry { base: 0x4000, len: 0x40000, typ: LimineMmapEntryType::Usable },
    ];
    let mut fa = FrameAllocator::init(&entries);
    let root = PageTable::zeroed();
    let mut space = new_tree(&mut fa, &root).unwrap();
    let flags = PageFlags::read().union(PageFlags::user());
    map_in_table(&mut space, &mut fa, 0x40_0000, 0x1000, flags).unwrap();
    free_tree(space, &mut fa);
    assert_eq!(fa.table[1], PageInfo::Kernel);
    let s = fa.summary();
    assert_eq!(s.kernel, 4);
}

#[test]
fn mapping_under_an_existing_huge_leaf_is_a_hard_failure() {
    let mut fa = allocator(64);
    let root = PageTable::zeroed();
    let space = new_tree(&mut fa, &root).unwrap();
    // plant a 1 GiB leaf at the level-3 slot covering 0x4000_0000
    let mut l3: Vec<Entry> = Vec::new();
    for i in 0..512 {
        if i == 1 {
            l3.push(Entry::Leaf(Pte::new(0x4000_0000, PTE_PRESENT | PTE_IS_HUGE)));
        } else {
            l3.push(Entry::Empty);
        }
    }
    let mut user: Vec<Entry> = Vec::new();
    user.push(Entry::Table(Box::new(Node { frame: 0x9000, entries: l3 })));
    for _ in 1..256 {
        user.push(Entry::Empty);
    }
    let mut s = AddressSpace { root_frame: space.root_frame, user, kernel: space.kernel };
    let flags = PageFlags::read().union(PageFlags::user());
    // 0x4000_0000 has level-4 index 0 and level-3 index 1: inside the leaf
    assert_eq!(
        map_in_table(&mut s, &mut fa, 0x4000_0123 & !0xfff, 0x3000, flags),
        Err(MapError::HugePage)
    );
    // the huge mapping still resolves with its 1 GiB offset
    assert_eq!(s.physical_address(0x4000_0123), Some(0x4000_0123));
}

#[test]
fn generic_flags_follow_permissions() {
    let rw = generic_flags(PageFlags::read().union(PageFlags::write()));
    assert_ne!(rw & PTE_PRESENT, 0);
    assert_ne!(rw & PTE_WRITEABLE, 0);
    assert_ne!(rw & PTE_NX, 0);
    assert_eq!(rw & PTE_USERMODE, 0);
    let rx = generic_flags(PageFlags::read().union(PageFlags::execute()).union(PageFlags::user()));
    assert_eq!(rx & PTE_NX, 0);
    assert_ne!(rx & PTE_USERMODE, 0);
    assert_eq!(rx & PTE_WRITEABLE, 0);
    assert_eq!(rw & PTE_IS_HUGE, 0);
}
