//! Physical-frame allocator: a page-grained typed state table covering all
//! of physical memory, sized from the boot memory map.
//!
//! Every page has one tag.  A frame backing a live mapping is `InUse` with a
//! positive refcount; `free` decrements the refcount and releases the page
//! when it reaches zero.  Freeing a page that is not `InUse` is a deliberate
//! no-op, because page-table intermediate frames may be reclaimed from more
//! than one path.

use vstd::prelude::*;
use vstd::pervasive::VecAdditionalExecFns;
use crate::limine::{LimineMmapEntry, LimineMmapEntryType};

verus! {

/// Bytes per physical page.
pub const PAGE_SIZE: u64 = 4096;

/// Upper bound on `base + len` of an accepted memory-map entry; it keeps the
/// page-state table small enough to index on any machine.
pub const MAX_PHYS_BYTES: u64 = 0x40_0000_0000;

/// The tag of one physical page.
#[derive(Copy, Clone, PartialEq, Eq, Structural, Debug)]
pub enum PageInfo {
    NoMemory,
    Free,
    Reserved,
    InUse { refcount: u16 },
    Kernel,
    Leaked,
}

/// The page type a memory-map entry assigns to the pages it covers.
pub open spec fn entry_page_info(t: LimineMmapEntryType) -> PageInfo {
    match t {
        LimineMmapEntryType::Usable => PageInfo::Free,
        LimineMmapEntryType::KernelAndModules => PageInfo::Kernel,
        _ => PageInfo::Reserved,
    }
}

/// Entry types that decide how far the page table reaches.
pub open spec fn entry_sizes_table(t: LimineMmapEntryType) -> bool {
    t == LimineMmapEntryType::Usable || t == LimineMmapEntryType::KernelAndModules
        || t == LimineMmapEntryType::BootloaderReclaimable
}

/// Whether `e` covers page number `page`.  A partial leading or trailing
/// page is not covered: the division floors both bounds.
pub open spec fn entry_covers(e: LimineMmapEntry, page: int) -> bool {
    e.base as int / PAGE_SIZE as int <= page < (e.base + e.len) as int / PAGE_SIZE as int
}

/// The tag page `page` ends with after the whole map is applied in order
/// (later entries overwrite earlier ones).
pub open spec fn page_info_at(entries: Seq<LimineMmapEntry>, page: int) -> PageInfo
    decreases entries.len(),
{
    if entries.len() == 0 {
        PageInfo::NoMemory
    } else if entry_covers(entries.last(), page) {
        entry_page_info(entries.last().typ)
    } else {
        page_info_at(entries.drop_last(), page)
    }
}

/// The memory map only ever assigns `NoMemory`, `Free`, `Kernel` or
/// `Reserved`; in particular no page starts out `InUse`.
pub proof fn lemma_page_info_no_refcount(entries: Seq<LimineMmapEntry>, page: int)
    ensures
        forall|rc: u16| page_info_at(entries, page) != (PageInfo::InUse { refcount: rc }),
    decreases entries.len(),
{
    if entries.len() > 0 {
        lemma_page_info_no_refcount(entries.drop_last(), page);
    }
}

/// Number of pages the table is sized for: one past the highest page of any
/// recognized entry.
pub open spec fn page_count_of(entries: Seq<LimineMmapEntry>) -> int
    decreases entries.len(),
{
    if entries.len() == 0 {
        0
    } else {
        let rest = page_count_of(entries.drop_last());
        let e = entries.last();
        let top = (e.base + e.len) as int / PAGE_SIZE as int;
        if entry_sizes_table(e.typ) && top > rest {
            top
        } else {
            rest
        }
    }
}

/// The tag a page steps to when it is freed once.
pub open spec fn free_one(p: PageInfo) -> PageInfo {
    match p {
        PageInfo::InUse { refcount } => if refcount == 1 {
            PageInfo::Free
        } else {
            PageInfo::InUse { refcount: (refcount - 1) as u16 }
        },
        other => other,
    }
}

/// Whether the `pages` pages starting at page `start` are all `Free`.
pub open spec fn free_run(s: Seq<PageInfo>, start: int, pages: int) -> bool {
    forall|k: int| start <= k < start + pages ==> s[k] == PageInfo::Free
}

/// The page numbers currently tagged `Free`.
pub open spec fn free_pages(s: Seq<PageInfo>) -> Set<int> {
    Set::new(|i: int| 0 <= i < s.len() && s[i] == PageInfo::Free)
}

/// Totals reported by `FrameAllocator::summary`.
#[derive(Copy, Clone, PartialEq, Eq, Structural, Debug)]
pub struct FrameSummary {
    pub free: u64,
    pub reserved: u64,
    pub kernel: u64,
    pub leaked: u64,
}

/// Count of pages in `s` equal to `tag`.
pub open spec fn count_tag(s: Seq<PageInfo>, tag: PageInfo) -> int
    decreases s.len(),
{
    if s.len() == 0 {
        0
    } else {
        count_tag(s.drop_last(), tag) + if s.last() == tag { 1int } else { 0int }
    }
}

/// The page-grained state table for all of physical memory.
pub struct FrameAllocator {
    pub table: Vec<PageInfo>,
}

impl FrameAllocator {
    /// The table is small enough that page-number arithmetic cannot
    /// overflow, and no page records a refcount of zero.
    pub open spec fn wf(self) -> bool {
        &&& self.table@.len() <= MAX_PHYS_BYTES as int / PAGE_SIZE as int
        &&& forall|i: int| 0 <= i < self.table@.len()
                ==> self.table@[i] != (PageInfo::InUse { refcount: 0u16 })
    }

    /// Build the table from the boot memory map: usable ranges become
    /// `Free`, kernel and module ranges `Kernel`, everything else that the
    /// map mentions `Reserved`.
    pub fn init(entries: &Vec<LimineMmapEntry>) -> (r: FrameAllocator)
        requires
            forall|k: int| 0 <= k < entries@.len()
                ==> (#[trigger] entries@[k]).base + entries@[k].len <= MAX_PHYS_BYTES,
        ensures
            r.wf(),
            r.table@.len() == page_count_of(entries@),
            forall|p: int| 0 <= p < r.table@.len() ==> r.table@[p] == page_info_at(entries@, p),
    {
        let mut page_count: u64 = 0;
        let mut i: usize = 0;
        while i < entries.len()
            invariant
                0 <= i <= entries@.len(),
                forall|k: int| 0 <= k < entries@.len()
                    ==> (#[trigger] entries@[k]).base + entries@[k].len <= MAX_PHYS_BYTES,
                page_count == page_count_of(entries@.take(i as int)),
                page_count <= MAX_PHYS_BYTES / PAGE_SIZE,
            decreases entries@.len() - i,
        {
            let e = entries[i];
            proof {
                assert(entries@.take(i + 1).drop_last() =~= entries@.take(i as int));
                assert(entries@.take(i + 1).last() == entries@[i as int]);
            }
            match e.typ {
                LimineMmapEntryType::Usable
                | LimineMmapEntryType::BootloaderReclaimable
                | LimineMmapEntryType::KernelAndModules => {
                    let top = (e.base + e.len) / PAGE_SIZE;
                    if top > page_count {
                        page_count = top;
                    }
                }
                _ => {}
            }
            i = i + 1;
        }
        proof {
            assert(entries@.take(entries@.len() as int) =~= entries@);
        }

        let mut table: Vec<PageInfo> = Vec::new();
        let mut p: usize = 0;
        let n = page_count as usize;
        while p < n
            invariant
                table@.len() == p,
                p <= n,
                n == page_count_of(entries@),
                forall|q: int| 0 <= q < p ==> table@[q] == PageInfo::NoMemory,
            decreases n - p,
        {
            table.push(PageInfo::NoMemory);
            p = p + 1;
        }

        let mut j: usize = 0;
        while j < entries.len()
            invariant
                0 <= j <= entries@.len(),
                forall|k: int| 0 <= k < entries@.len()
                    ==> (#[trigger] entries@[k]).base + entries@[k].len <= MAX_PHYS_BYTES,
                table@.len() == page_count_of(entries@),
                table@.len() <= MAX_PHYS_BYTES as int / PAGE_SIZE as int,
                forall|q: int| 0 <= q < table@.len()
                    ==> table@[q] == page_info_at(entries@.take(j as int), q),
            decreases entries@.len() - j,
        {
            let e = entries[j];
            let start_page = e.base / PAGE_SIZE;
            let end_page = (e.base + e.len) / PAGE_SIZE;
            let fill = match e.typ {
                LimineMmapEntryType::Usable => PageInfo::Free,
                LimineMmapEntryType::KernelAndModules => PageInfo::Kernel,
                _ => PageInfo::Reserved,
            };
            proof {
                assert(fill == entry_page_info(e.typ));
                assert(entries@.take(j + 1).drop_last() =~= entries@.take(j as int));
                assert(entries@.take(j + 1).last() == entries@[j as int]);
            }
            let mut page = start_page;
            let table_pages = table.len() as u64;
            while page < end_page && page < table_pages
                invariant
                    start_page <= page <= end_page,
                    end_page == (e.base + e.len) as int / PAGE_SIZE as int,
                    start_page == e.base as int / PAGE_SIZE as int,
                    fill == entry_page_info(e.typ),
                    e == entries@[j as int],
                    0 <= j < entries@.len(),
                    table@.len() <= MAX_PHYS_BYTES as int / PAGE_SIZE as int,
                    table@.len() == page_count_of(entries@),
                    forall|q: int| 0 <= q < table@.len() && !(start_page <= q < page)
                        ==> table@[q] == page_info_at(entries@.take(j as int), q),
                    forall|q: int| 0 <= q < table@.len() && start_page <= q < page
                        ==> table@[q] == fill,
                    table_pages == table@.len(),
                decreases end_page - page,
            {
                table.set(page as usize, fill);
                page = page + 1;
            }
            proof {
                assert forall|q: int| 0 <= q < table@.len()
                    implies table@[q] == page_info_at(entries@.take(j + 1), q) by {
                    if entry_covers(e, q) {
                        assert(start_page <= q < end_page);
                        assert(q < table@.len());
                        if q >= page {
                            assert(page <= q && (page >= end_page || page >= table_pages));
                        }
                        assert(table@[q] == fill);
                    } else {
                        assert(!(start_page <= q < end_page));
                    }
                }
            }
            j = j + 1;
        }
        proof {
            assert(entries@.take(entries@.len() as int) =~= entries@);
            assert forall|q: int| 0 <= q < table@.len()
                implies table@[q] != (PageInfo::InUse { refcount: 0u16 }) by {
                lemma_page_info_no_refcount(entries@, q);
            }
        }
        FrameAllocator { table }
    }

    /// First-fit single-page allocation: the lowest `Free` page becomes
    /// `InUse` with refcount 1 and its byte address is returned.  `None`
    /// exactly when no page is `Free`.
    pub fn allocate(&mut self) -> (r: Option<u64>)
        requires
            old(self).wf(),
        ensures
            final(self).wf(),
            match r {
                Some(addr) => {
                    let i = addr as int / PAGE_SIZE as int;
                    &&& addr % PAGE_SIZE == 0
                    &&& 0 <= i < old(self).table@.len()
                    &&& old(self).table@[i] == PageInfo::Free
                    &&& forall|k: int| 0 <= k < i ==> old(self).table@[k] != PageInfo::Free
                    &&& final(self).table@
                        == old(self).table@.update(i, PageInfo::InUse { refcount: 1u16 })
                },
                None => {
                    &&& *final(self) == *old(self)
                    &&& forall|k: int| 0 <= k < old(self).table@.len()
                            ==> old(self).table@[k] != PageInfo::Free
                },
            },
    {
        let mut i: usize = 0;
        while i < self.table.len()
            invariant
                self == old(self),
                self.wf(),
                0 <= i <= self.table@.len(),
                forall|k: int| 0 <= k < i ==> self.table@[k] != PageInfo::Free,
            decreases self.table@.len() - i,
        {
            if matches!(self.table[i], PageInfo::Free) {
                self.table.set(i, PageInfo::InUse { refcount: 1 });
                return Some(i as u64 * PAGE_SIZE);
            }
            i = i + 1;
        }
        None
    }

    /// Allocation whose page the caller will see zero-filled.  The zeroing
    /// itself happens where the page is first written through the direct
    /// map; the table transition is the one of `allocate`.
    pub fn alloc_zeroed(&mut self) -> (r: Option<u64>)
        requires
            old(self).wf(),
        ensures
            final(self).wf(),
            match r {
                Some(addr) => {
                    let i = addr as int / PAGE_SIZE as int;
                    &&& addr % PAGE_SIZE == 0
                    &&& 0 <= i < old(self).table@.len()
                    &&& old(self).table@[i] == PageInfo::Free
                    &&& forall|k: int| 0 <= k < i ==> old(self).table@[k] != PageInfo::Free
                    &&& final(self).table@
                        == old(self).table@.update(i, PageInfo::InUse { refcount: 1u16 })
                },
                None => {
                    &&& *final(self) == *old(self)
                    &&& forall|k: int| 0 <= k < old(self).table@.len()
                            ==> old(self).table@[k] != PageInfo::Free
                },
            },
    {
        self.allocate()
    }

    /// First-fit run allocation: returns the byte address of the first run
    /// of `pages` consecutive `Free` pages, all of which become `InUse`
    /// with refcount 1.  `None` when no such run exists (always for a
    /// zero-page request).
    pub fn alloc_contiguous(&mut self, pages: usize) -> (r: Option<u64>)
        requires
            old(self).wf(),
        ensures
            final(self).wf(),
            match r {
                Some(addr) => {
                    let s = addr as int / PAGE_SIZE as int;
                    &&& addr % PAGE_SIZE == 0
                    &&& pages >= 1
                    &&& 0 <= s && s + pages <= old(self).table@.len()
                    &&& free_run(old(self).table@, s, pages as int)
                    &&& forall|k: int| 0 <= k < old(self).table@.len()
                            ==> final(self).table@[k] == (if s <= k < s + pages {
                                PageInfo::InUse { refcount: 1u16 }
                            } else {
                                old(self).table@[k]
                            })
                    &&& final(self).table@.len() == old(self).table@.len()
                },
                None => {
                    &&& *final(self) == *old(self)
                    &&& pages >= 1 ==> forall|s: int|
                            0 <= s && s + pages <= old(self).table@.len()
                                ==> !(#[trigger] free_run(old(self).table@, s, pages as int))
                },
            },
    {
        if pages == 0 {
            return None;
        }
        let mut start: usize = 0;
        let mut count: usize = 0;
        let mut i: usize = 0;
        while i < self.table.len()
            invariant
                self == old(self),
                self.wf(),
                pages >= 1,
                0 <= i <= self.table@.len(),
                count < pages,
                count <= i,
                start == i - count,
                forall|k: int| start <= k < i ==> self.table@[k] == PageInfo::Free,
                forall|s: int| 0 <= s && s + pages <= self.table@.len() && s + pages <= i
                    ==> !(#[trigger] free_run(self.table@, s, pages as int)),
                forall|s: int| 0 <= s < start && s + pages <= self.table@.len()
                    ==> !(#[trigger] free_run(self.table@, s, pages as int)),
            decreases self.table@.len() - i,
        {
            if matches!(self.table[i], PageInfo::Free) {
                if count == 0 {
                    start = i;
                }
                count = count + 1;
                if count == pages {
                    let mut w: usize = start;
                    proof {
                        assert(forall|k: int| start <= k <= i
                            ==> self.table@[k] == PageInfo::Free);
                    }
                    while w < start + pages
                        invariant
                            start <= w <= start + pages,
                            start + pages <= self.table@.len(),
                            self.table@.len() == old(self).table@.len(),
                            self.wf(),
                            forall|k: int| 0 <= k < self.table@.len()
                                ==> self.table@[k] == (if start <= k < w {
                                    PageInfo::InUse { refcount: 1u16 }
                                } else {
                                    old(self).table@[k]
                                }),
                        decreases start + pages - w,
                    {
                        self.table.set(w, PageInfo::InUse { refcount: 1 });
                        w = w + 1;
                    }
                    return Some(start as u64 * PAGE_SIZE);
                }
            } else {
                count = 0;
                start = i + 1;
            }
            i = i + 1;
        }
        None
    }

    /// Drop one reference to the page holding byte address `page`.  An
    /// `InUse` page with refcount 1 becomes `Free`; a higher refcount is
    /// decremented; any other tag is deliberately left unchanged.
    pub fn free(&mut self, page: u64)
        requires
            old(self).wf(),
            (page as int / PAGE_SIZE as int) < old(self).table@.len(),
        ensures
            final(self).wf(),
            final(self).table@
                == old(self).table@.update(
                    page as int / PAGE_SIZE as int,
                    free_one(old(self).table@[page as int / PAGE_SIZE as int]),
                ),
    {
        let idx = (page / PAGE_SIZE) as usize;
        let new_tag = match self.table[idx] {
            PageInfo::InUse { refcount: 1 } => PageInfo::Free,
            PageInfo::InUse { refcount } => PageInfo::InUse { refcount: refcount - 1 },
            other => other,
        };
        self.table.set(idx, new_tag);
    }

    /// Count the pages of each reportable tag.
    pub fn summary(&self) -> (r: FrameSummary)
        requires
            self.wf(),
        ensures
            r.free == count_tag(self.table@, PageInfo::Free),
            r.reserved == count_tag(self.table@, PageInfo::Reserved),
            r.kernel == count_tag(self.table@, PageInfo::Kernel),
            r.leaked == count_tag(self.table@, PageInfo::Leaked),
    {
        let mut free: u64 = 0;
        let mut reserved: u64 = 0;
        let mut kernel: u64 = 0;
        let mut leaked: u64 = 0;
        let mut i: usize = 0;
        while i < self.table.len()
            invariant
                0 <= i <= self.table@.len(),
                self.table@.len() <= MAX_PHYS_BYTES as int / PAGE_SIZE as int,
                free == count_tag(self.table@.take(i as int), PageInfo::Free),
                reserved == count_tag(self.table@.take(i as int), PageInfo::Reserved),
                kernel == count_tag(self.table@.take(i as int), PageInfo::Kernel),
                leaked == count_tag(self.table@.take(i as int), PageInfo::Leaked),
                free <= i && reserved <= i && kernel <= i && leaked <= i,
            decreases self.table@.len() - i,
        {
            proof {
                assert(self.table@.take(i + 1).drop_last() =~= self.table@.take(i as int));
                assert(self.table@.take(i + 1).last() == self.table@[i as int]);
            }
            match self.table[i] {
                PageInfo::Free => { free = free + 1; }
                PageInfo::Reserved => { reserved = reserved + 1; }
                PageInfo::Kernel => { kernel = kernel + 1; }
                PageInfo::Leaked => { leaked = leaked + 1; }
                _ => {}
            }
            i = i + 1;
        }
        proof {
            assert(self.table@.take(self.table@.len() as int) =~= self.table@);
        }
        FrameSummary { free, reserved, kernel, leaked }
    }
}

/// Allocating removes exactly the returned page from the set of `Free`
/// pages; nothing else changes tag.
pub proof fn lemma_alloc_step(s: Seq<PageInfo>, i: int)
    requires
        0 <= i < s.len(),
        s[i] == PageInfo::Free,
    ensures
        free_pages(s.update(i, PageInfo::InUse { refcount: 1u16 })) == free_pages(s).remove(i),
{
    assert(free_pages(s.update(i, PageInfo::InUse { refcount: 1u16 }))
        =~= free_pages(s).remove(i));
}

/// Freeing a page whose refcount reaches zero adds exactly that page to the
/// set of `Free` pages; freeing any other page leaves the set unchanged.
pub proof fn lemma_free_step(s: Seq<PageInfo>, i: int)
    requires
        0 <= i < s.len(),
    ensures
        s[i] == (PageInfo::InUse { refcount: 1u16 })
            ==> free_pages(s.update(i, free_one(s[i]))) == free_pages(s).insert(i),
        s[i] != (PageInfo::InUse { refcount: 1u16 })
            ==> free_pages(s.update(i, free_one(s[i]))) == free_pages(s),
{
    if s[i] == (PageInfo::InUse { refcount: 1u16 }) {
        assert(free_pages(s.update(i, free_one(s[i]))) =~= free_pages(s).insert(i));
    } else {
        assert(free_pages(s.update(i, free_one(s[i]))) =~= free_pages(s));
    }
}

/// Allocator round trip: allocating a page and then freeing it restores the
/// table exactly, so the set of `Free` pages is the initial set minus the
/// pages currently held plus those whose refcount returned to zero.
pub proof fn lemma_alloc_free_round_trip(s: Seq<PageInfo>, i: int)
    requires
        0 <= i < s.len(),
        s[i] == PageInfo::Free,
    ensures
        s.update(i, PageInfo::InUse { refcount: 1u16 })
            .update(i, free_one(PageInfo::InUse { refcount: 1u16 })) == s,
{
    assert(s.update(i, PageInfo::InUse { refcount: 1u16 })
        .update(i, free_one(PageInfo::InUse { refcount: 1u16 })) =~= s);
}

/// Updating one slot adjusts the count of a tag by exactly the slot's
/// contribution.
pub proof fn lemma_count_tag_update(s: Seq<PageInfo>, i: int, x: PageInfo, tag: PageInfo)
    requires
        0 <= i < s.len(),
    ensures
        count_tag(s.update(i, x), tag) == count_tag(s, tag)
            - (if s[i] == tag { 1int } else { 0int })
            + (if x == tag { 1int } else { 0int }),
    decreases s.len(),
{
    if s.len() > 0 {
        if i == s.len() - 1 {
            assert(s.update(i, x).drop_last() =~= s.drop_last());
        } else {
            assert(s.update(i, x).drop_last() =~= s.drop_last().update(i, x));
            lemma_count_tag_update(s.drop_last(), i, x, tag);
        }
    }
}

/// A table with no slot of a tag counts zero of it.
pub proof fn lemma_count_tag_none(s: Seq<PageInfo>, tag: PageInfo)
    requires
        forall|i: int| 0 <= i < s.len() ==> s[i] != tag,
    ensures
        count_tag(s, tag) == 0,
    decreases s.len(),
{
    if s.len() > 0 {
        lemma_count_tag_none(s.drop_last(), tag);
    }
}

} // verus!
