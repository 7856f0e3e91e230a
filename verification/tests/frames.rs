use cardinal3::limine::{LimineMmapEntry, LimineMmapEntryType};
use cardinal3::pmm::{FrameAllocator, PageInfo};

fn small_map() -> Vec<LimineMmapEntry> {
    vec![
        LimineMmapEntry { base: 0, len: 0x4000, typ: LimineMmapEntryType::KernelAndModules },
        LimineMmapEntry { base: 0x4000, len: 0x10000, typ: LimineMmapEntryType::Usable },
        LimineMmapEntry { base: 0x14000, len: 0x2000, typ: LimineMmapEntryType::Reserved },
    ]
}

#[test]
fn init_tags_pages_from_memory_map() {
    let fa = FrameAllocator::init(&small_map());
    // top page is (0x14000 + 0x2000)/0x1000 only if that range sized the
    // table; Reserved does not, so the table ends at 0x14000.
    assert_eq!(fa.table.len(), 0x14);
    assert_eq!(fa.table[0], PageInfo::Kernel);
    assert_eq!(fa.table[3], PageInfo::Kernel);
    assert_eq!(fa.table[4], PageInfo::Free);
    assert_eq!(fa.table[0x13], PageInfo::Free);
}

#[test]
fn allocate_returns_first_free_page() {
    let mut fa = FrameAllocator::init(&small_map());
    let a = fa.allocate().unwrap();
    assert_eq!(a, 0x4000);
    assert_eq!(fa.table[4], PageInfo::InUse { refcount: 1 });
    let b = fa.allocate().unwrap();
    assert_eq!(b, 0x5000);
}

#[test]
fn allocator_round_trip_restores_free_set() {
    let mut fa = FrameAllocator::init(&small_map());
    let before = fa.summary();
    let a = fa.allocate().unwrap();
    let b = fa.allocate().unwrap();
    let mid = fa.summary();
    assert_eq!(mid.free, before.free - 2);
    fa.free(a);
    fa.free(b);
    let after = fa.summary();
    assert_eq!(after.free, before.free);
    assert_eq!(after.kernel, before.kernel);
    assert_eq!(after.reserved, before.reserved);
}

#[test]
fn free_of_non_in_use_page_is_a_no_op() {
    let mut fa = FrameAllocator::init(&small_map());
    fa.free(0x0000); // kernel page
    assert_eq!(fa.table[0], PageInfo::Kernel);
    fa.free(0x4000); // already free
    assert_eq!(fa.table[4], PageInfo::Free);
}

#[test]
fn alloc_contiguous_base_pages_were_all_free() {
    let mut fa = FrameAllocator::init(&small_map());
    let one = fa.allocate().unwrap();
    assert_eq!(one, 0x4000);
    let run = fa.alloc_contiguous(4).unwrap();
    assert_eq!(run, 0x5000);
    for page in 0..4u64 {
        assert_eq!(
            fa.table[(run / 0x1000 + page) as usize],
            PageInfo::InUse { refcount: 1 }
        );
    }
    // too large for what is left
    assert_eq!(fa.alloc_contiguous(100), None);
    assert_eq!(fa.alloc_contiguous(0), None);
}

#[test]
fn summary_counts_every_tag() {
    let fa = FrameAllocator::init(&small_map());
    let s = fa.summary();
    assert_eq!(s.kernel, 4);
    assert_eq!(s.free, 16);
    assert_eq!(s.reserved, 0);
    assert_eq!(s.leaked, 0);
}
