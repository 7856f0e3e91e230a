//! Loading an executable image into a fresh address-space tree.
//!
//! The image is a standard executable-and-linker-format file held in
//! physically contiguous boot-module memory.  Parsing the file is done by
//! the `elf` crate behind trusted wrappers; everything the loader decides
//! from the parsed records is verified here.  Read-only segments are
//! mapped zero-copy onto the image's own frames; writable segments get
//! fresh frames whose contents the embedding program copies and
//! zero-fills as the returned actions direct.

use vstd::prelude::*;
use crate::pmm::FrameAllocator;
use crate::vmm::PageFlags;
use crate::x86::page::{AddressSpace, MapError, Pte, alloc_transition, lemma_lookup_same_page, lemma_no_huge_not_blocked, lemma_same_page_same_indices, map_in_table, no_huge, spec_generic_flags, spec_translate, spec_user_addr};

verus! {

/// Program-header type of a loadable segment.
pub const PT_LOAD: u32 = 1;

/// Segment permission bits: executable and writable.
pub const PF_X: u32 = 1;
pub const PF_W: u32 = 2;

/// One program header, as plain values.
#[derive(Copy, Clone, PartialEq, Eq, Structural, Debug)]
pub struct ElfSegment {
    pub p_type: u32,
    pub p_flags: u32,
    pub p_offset: u64,
    pub p_vaddr: u64,
    pub p_filesz: u64,
    pub p_memsz: u64,
}

/// The entry point recorded in an image's file header, where the image
/// parses; a function of the bytes alone.
pub uninterp spec fn elf_entry_of(data: Seq<u8>) -> Option<u64>;

/// The program headers recorded in an image, where the image parses and
/// has a segment table; a function of the bytes alone.
pub uninterp spec fn elf_segments_of(data: Seq<u8>) -> Option<Seq<ElfSegment>>;

/// Relies on `elf::ElfBytes::minimal_parse`: the `e_entry` field of the
/// file header, or `None` where the bytes are not a parseable file.
#[verifier::external_body]
pub fn elf_entry(data: &Vec<u8>) -> (r: Option<u64>)
    ensures
        r == elf_entry_of(data@),
{
    match elf::ElfBytes::<elf::endian::LittleEndian>::minimal_parse(data.as_slice()) {
        Ok(f) => Some(f.ehdr.e_entry),
        Err(_) => None,
    }
}

/// Relies on `elf::ElfBytes::segments`: the program-header table, one
/// plain record per header, or `None` where the file does not parse or
/// has no such table.
#[verifier::external_body]
pub fn elf_segments(data: &Vec<u8>) -> (r: Option<Vec<ElfSegment>>)
    ensures
        match r {
            Some(v) => elf_segments_of(data@) == Some(v@),
            None => elf_segments_of(data@) is None,
        },
{
    let f = match elf::ElfBytes::<elf::endian::LittleEndian>::minimal_parse(data.as_slice()) {
        Ok(f) => f,
        Err(_) => return None,
    };
    let segs = f.segments()?;
    Some(segs.iter().map(|ph| ElfSegment {
        p_type: ph.p_type,
        p_flags: ph.p_flags,
        p_offset: ph.p_offset,
        p_vaddr: ph.p_vaddr,
        p_filesz: ph.p_filesz,
        p_memsz: ph.p_memsz,
    }).collect())
}

/// How many pages a byte range `[base, base + len)` touches.
pub fn overlapping_pages(base: u64, len: u64) -> (r: u64)
    requires
        base + len + 0xfff <= u64::MAX,
    ensures
        r == ((base + len + 0xfff) / 0x1000) - (base / 0x1000),
{
    let bottom = base / 0x1000;
    let top = (base + len + 0xfff) / 0x1000;
    top - bottom
}

/// One copy the embedding program performs while loading: take `copy_len`
/// bytes at `image_off` in the image, place them at physical `dst_phys`,
/// and zero the following `zero_len` bytes.
#[derive(Copy, Clone, PartialEq, Eq, Structural, Debug)]
pub struct LoadAction {
    pub image_off: u64,
    pub dst_phys: u64,
    pub copy_len: u64,
    pub zero_len: u64,
}

/// Map one read-only (possibly executable) segment zero-copy: each page
/// of the segment maps the image's own frame at the matching offset.
/// On success every page of the segment translates to its image frame;
/// a tree without huge mappings stays without them, and with three free
/// frames per page success is owed.
pub fn create_ro_mapping(
    seg: &ElfSegment,
    image_base_phys: u64,
    space: &mut AddressSpace,
    fa: &mut FrameAllocator,
) -> (r: Result<(), MapError>)
    requires
        old(space).wf(),
        old(fa).wf(),
        seg.p_vaddr + seg.p_memsz + 0xfff <= u64::MAX,
        seg.p_vaddr + seg.p_memsz < 0x0000_8000_0000_0000,
        image_base_phys + seg.p_offset + seg.p_memsz + 0xfff <= u64::MAX,
    ensures
        final(space).wf(),
        final(fa).wf(),
        alloc_transition(old(fa).table@, final(fa).table@),
        no_huge(*old(space)) ==> no_huge(*final(space)),
        no_huge(*old(space))
            && crate::pmm::count_tag(old(fa).table@, crate::pmm::PageInfo::Free)
                >= 3 * (((seg.p_vaddr + seg.p_memsz + 0xfff) as u64 / 0x1000)
                    - (seg.p_vaddr / 0x1000))
            ==> r is Ok,
        crate::pmm::count_tag(final(fa).table@, crate::pmm::PageInfo::Free)
            >= crate::pmm::count_tag(old(fa).table@, crate::pmm::PageInfo::Free)
                - 3 * (((seg.p_vaddr + seg.p_memsz + 0xfff) as u64 / 0x1000)
                    - (seg.p_vaddr / 0x1000)),
        r is Ok ==> forall|k: int|
            0 <= k < ((seg.p_vaddr + seg.p_memsz + 0xfff) as u64 / 0x1000)
                - (seg.p_vaddr / 0x1000)
            ==> #[trigger] spec_translate(*final(space),
                    ((seg.p_vaddr & 0xffff_ffff_ffff_f000u64) + k * 0x1000) as u64)
                == Some((Pte(((((image_base_phys + seg.p_offset) as u64)
                        & 0xffff_ffff_ffff_f000u64) + k * 0x1000) as u64
                    | spec_generic_flags(spec_ro_flags(seg.p_flags))), 1int)),
        forall|va: u64| outside_segment(va, *seg)
            ==> #[trigger] spec_translate(*final(space), va)
                == spec_translate(*old(space), va),
{
    let flags = if seg.p_flags & PF_X != 0 {
        PageFlags::read().union(PageFlags::user()).union(PageFlags::execute())
    } else {
        PageFlags::read().union(PageFlags::user())
    };
    proof {
        assert(flags == spec_ro_flags(seg.p_flags));
    }
    let pages = overlapping_pages(seg.p_vaddr, seg.p_memsz);
    let vaddr_base = seg.p_vaddr & 0xffff_ffff_ffff_f000u64;
    let file_base = (image_base_phys + seg.p_offset) & 0xffff_ffff_ffff_f000u64;
    let ghost count0 = crate::pmm::count_tag(old(fa).table@, crate::pmm::PageInfo::Free);
    let mut i: u64 = 0;
    while i < pages
        invariant
            space.wf(),
            fa.wf(),
            alloc_transition(old(fa).table@, fa.table@),
            vaddr_base == seg.p_vaddr & 0xffff_ffff_ffff_f000u64,
            file_base == ((image_base_phys + seg.p_offset) as u64)
                & 0xffff_ffff_ffff_f000u64,
            pages == ((seg.p_vaddr + seg.p_memsz + 0xfff) as u64 / 0x1000)
                - (seg.p_vaddr / 0x1000),
            flags == spec_ro_flags(seg.p_flags),
            seg.p_vaddr + seg.p_memsz + 0xfff <= u64::MAX,
            seg.p_vaddr + seg.p_memsz < 0x0000_8000_0000_0000,
            image_base_phys + seg.p_offset + seg.p_memsz + 0xfff <= u64::MAX,
            count0 == crate::pmm::count_tag(old(fa).table@, crate::pmm::PageInfo::Free),
            i <= pages,
            crate::pmm::count_tag(fa.table@, crate::pmm::PageInfo::Free)
                >= count0 - 3 * i,
            no_huge(*old(space)) ==> no_huge(*space),
            forall|k: int| 0 <= k < i
                ==> #[trigger] spec_translate(*space,
                        (vaddr_base + k * 0x1000) as u64)
                    == Some((Pte(((file_base + k * 0x1000) as u64)
                        | spec_generic_flags(spec_ro_flags(seg.p_flags))), 1int)),
            forall|va: u64| outside_segment(va, *seg)
                ==> #[trigger] spec_translate(*space, va)
                    == spec_translate(*old(space), va),
        decreases pages - i,
    {
        proof {
            lemma_ro_rw_page_bounds(seg.p_vaddr, seg.p_memsz,
                (image_base_phys + seg.p_offset) as u64, i);
        }
        let user_page = vaddr_base + i * 0x1000;
        let file_page = file_base + i * 0x1000;
        proof {
            if no_huge(*old(space)) {
                lemma_no_huge_not_blocked(*space, user_page);
            }
        }
        let ghost space_pre = *space;
        match map_in_table(space, fa, user_page, file_page, flags) {
            Ok(_) => {}
            Err(e) => {
                proof {
                    if no_huge(*old(space)) && count0 >= 3 * pages {
                        assert(false);
                    }
                }
                return Err(e);
            }
        }
        proof {
            lemma_after_map(space_pre, *space, user_page, vaddr_base,
                i as int, pages as int);
            lemma_page_index(vaddr_base, i);
            assert forall|va: u64| outside_segment(va, *seg)
                implies #[trigger] spec_translate(*space, va)
                    == spec_translate(*old(space), va) by {
                assert(va >> 12 != user_page >> 12);
            }
        }
        i = i + 1;
    }
    Ok(())
}

/// Whether `va` lies in a page the segment does not cover.
pub open spec fn outside_segment(va: u64, seg: ElfSegment) -> bool {
    let vb = seg.p_vaddr & 0xffff_ffff_ffff_f000u64;
    let pages = ((seg.p_vaddr + seg.p_memsz + 0xfff) as u64 / 0x1000)
        - (seg.p_vaddr / 0x1000);
    (va >> 12) < (vb >> 12) || (va >> 12) >= (vb >> 12) + pages
}

/// Page `i` of an aligned base has page index base-index plus `i`.
proof fn lemma_page_index(vb: u64, i: u64)
    requires
        vb & 0xfffu64 == 0,
        vb + i * 0x1000 < 0x0000_8000_0000_0000,
    ensures
        ((vb + i * 0x1000) as u64) >> 12 == (vb >> 12) + i,
{
    assert(vb & 0xfffu64 == 0 && vb + i * 0x1000 < 0x0000_8000_0000_0000u64
        ==> ((vb + i * 0x1000) as u64) >> 12 == (vb >> 12) + i) by (bit_vector);
}

/// Two page-aligned addresses of the same page are the same address.
proof fn lemma_aligned_page_eq(x: u64, y: u64)
    requires
        x & 0xfffu64 == 0,
        y & 0xfffu64 == 0,
        x >> 12 == y >> 12,
    ensures
        x == y,
{
    assert(x & 0xfffu64 == 0 && y & 0xfffu64 == 0 && x >> 12 == y >> 12 ==> x == y)
        by (bit_vector);
}

/// A page offset from an aligned base stays aligned.
proof fn lemma_page_aligned(vb: u64, pg: u64)
    requires
        vb & 0xfffu64 == 0,
        vb + pg * 0x1000 <= u64::MAX,
    ensures
        ((vb + pg * 0x1000) as u64) & 0xfffu64 == 0,
{
    assert(vb & 0xfffu64 == 0 && vb + pg * 0x1000 <= 0xffff_ffff_ffff_ffffu64
        ==> ((vb + pg * 0x1000) as u64) & 0xfffu64 == 0) by (bit_vector);
}

/// The base of a segment within the loader's bounds is page-aligned and
/// each of its pages lies in the user half.
proof fn lemma_seg_page_facts(seg: ElfSegment, pg: u64)
    requires
        seg.p_vaddr <= 0x0000_7fff_0000_0000,
        seg.p_memsz <= 0x0000_0000_4000_0000,
        pg < seg_pages(seg),
    ensures
        (seg.p_vaddr & 0xffff_ffff_ffff_f000u64) & 0xfffu64 == 0,
        (seg.p_vaddr & 0xffff_ffff_ffff_f000u64) + pg * 0x1000 < 0x0000_8000_0000_0000,
        ((seg.p_vaddr & 0xffff_ffff_ffff_f000u64) + pg * 0x1000) as u64 & 0xfffu64 == 0,
        ((seg.p_vaddr & 0xffff_ffff_ffff_f000u64) + pg * 0x1000) as u64 >> 12
            == ((seg.p_vaddr & 0xffff_ffff_ffff_f000u64) >> 12) + pg,
{
    let v = seg.p_vaddr;
    let m = seg.p_memsz;
    assert((v & 0xffff_ffff_ffff_f000u64) & 0xfffu64 == 0) by (bit_vector);
    assert(v <= 0x0000_7fff_0000_0000u64 && m <= 0x0000_0000_4000_0000u64
        && pg < (v + m + 0xfff) / 0x1000 - v / 0x1000
        ==> (v & 0xffff_ffff_ffff_f000u64) + pg * 0x1000 < 0x0000_8000_0000_0000u64)
        by (bit_vector);
    lemma_page_aligned(v & 0xffff_ffff_ffff_f000u64, pg);
    lemma_page_index(v & 0xffff_ffff_ffff_f000u64, pg);
}

/// The permission set a read-only segment is mapped with.
pub open spec fn spec_ro_flags(p_flags: u32) -> PageFlags {
    if p_flags & PF_X != 0 {
        PageFlags::spec_read().spec_union(PageFlags::spec_user())
            .spec_union(PageFlags::spec_execute())
    } else {
        PageFlags::spec_read().spec_union(PageFlags::spec_user())
    }
}

/// Bounds for the page arithmetic of a segment-mapping step.
proof fn lemma_ro_rw_page_bounds(v: u64, m: u64, fb: u64, i: u64)
    requires
        v + m + 0xfff <= u64::MAX,
        v + m < 0x0000_8000_0000_0000,
        fb + m + 0xfff <= u64::MAX,
        i < ((v + m + 0xfff) as u64 / 0x1000) - (v / 0x1000),
    ensures
        (v & 0xffff_ffff_ffff_f000u64) + i * 0x1000 < 0x0000_8000_0000_0000,
        (fb & 0xffff_ffff_ffff_f000u64) + i * 0x1000 <= u64::MAX,
        (v & 0xffff_ffff_ffff_f000u64) & 0xfffu64 == 0,
{
    assert((v & 0xffff_ffff_ffff_f000u64) <= v) by (bit_vector);
    assert((v & 0xffff_ffff_ffff_f000u64) & 0xfffu64 == 0) by (bit_vector);
    assert((fb & 0xffff_ffff_ffff_f000u64) <= fb) by (bit_vector);
    assert(v + m < 0x0000_8000_0000_0000u64 && i < (v + m + 0xfff) / 0x1000 - v / 0x1000
        ==> (v & 0xffff_ffff_ffff_f000u64) + i * 0x1000 < 0x0000_8000_0000_0000u64)
        by (bit_vector);
    assert(fb + m + 0xfff <= 0xffff_ffff_ffff_ffffu64
        && i < (v + m + 0xfff) / 0x1000 - v / 0x1000
        && v + m + 0xfff <= 0xffff_ffff_ffff_ffffu64
        ==> (fb & 0xffff_ffff_ffff_f000u64) + i * 0x1000 <= 0xffff_ffff_ffff_ffffu64)
        by (bit_vector);
}

/// After mapping page `i` of a segment: the earlier pages still
/// translate as they did, and a tree without huge mappings stays
/// without them.
proof fn lemma_after_map(
    pre: AddressSpace,
    post: AddressSpace,
    user_page: u64,
    vaddr_base: u64,
    i: int,
    pages: int,
)
    requires
        0 <= i < pages,
        user_page == (vaddr_base + i * 0x1000) as u64,
        vaddr_base & 0xfffu64 == 0,
        vaddr_base + i * 0x1000 < 0x0000_8000_0000_0000,
        spec_translate(post, user_page) matches Some((p, l)) && l == 1,
        forall|va: u64| va >> 12 != user_page >> 12
            ==> spec_translate(post, va) == spec_translate(pre, va),
    ensures
        forall|k: int| 0 <= k < i
            ==> #[trigger] spec_translate(post, (vaddr_base + k * 0x1000) as u64)
                == spec_translate(pre, (vaddr_base + k * 0x1000) as u64),
        no_huge(pre) ==> no_huge(post),
{
    assert forall|k: int| 0 <= k < i
        implies #[trigger] spec_translate(post, (vaddr_base + k * 0x1000) as u64)
            == spec_translate(pre, (vaddr_base + k * 0x1000) as u64) by {
        let vb = vaddr_base;
        let x = k as u64;
        let y = i as u64;
        assert(vb & 0xfffu64 == 0 && x < y
            && vb + y * 0x1000 < 0x0000_8000_0000_0000u64
            ==> ((vb + x * 0x1000) as u64) >> 12 != ((vb + y * 0x1000) as u64) >> 12)
            by (bit_vector);
    }
    if no_huge(pre) {
        assert forall|va: u64| spec_user_addr(va)
            implies match #[trigger] spec_translate(post, va) {
                Some((p, l)) => l == 1,
                None => true,
            } by {
            if va >> 12 == user_page >> 12 {
                lemma_same_page_same_indices(va, user_page);
                lemma_lookup_same_page(post.user@, 4, va, user_page);
                assert(spec_user_addr(va) == spec_user_addr(user_page))
                    by (bit_vector)
                    requires va >> 12 == user_page >> 12;
                assert(spec_translate(post, va) == spec_translate(post, user_page));
            }
        }
    }
}

/// Map one writable segment: allocate a fresh frame per page, record the
/// copy the embedding program must perform (file bytes up to `p_filesz`,
/// zero-fill to the end of the page), and map it writable.  On success
/// every page of the segment translates to a 4 KiB leaf, one copy
/// record per page is appended with the exact copy and zero lengths,
/// and with four free frames per page success is owed.
pub fn create_rw_mapping(
    seg: &ElfSegment,
    image_base_phys: u64,
    space: &mut AddressSpace,
    fa: &mut FrameAllocator,
    actions: &mut Vec<LoadAction>,
) -> (r: Result<(), MapError>)
    requires
        old(space).wf(),
        old(fa).wf(),
        seg.p_vaddr + seg.p_memsz + 0xfff <= u64::MAX,
        seg.p_vaddr + seg.p_memsz < 0x0000_8000_0000_0000,
        seg.p_filesz <= seg.p_memsz,
        image_base_phys + seg.p_offset + seg.p_memsz + 0xfff <= u64::MAX,
    ensures
        final(space).wf(),
        final(fa).wf(),
        alloc_transition(old(fa).table@, final(fa).table@),
        no_huge(*old(space)) ==> no_huge(*final(space)),
        no_huge(*old(space))
            && crate::pmm::count_tag(old(fa).table@, crate::pmm::PageInfo::Free)
                >= 4 * (((seg.p_vaddr + seg.p_memsz + 0xfff) as u64 / 0x1000)
                    - (seg.p_vaddr / 0x1000))
            ==> r is Ok,
        crate::pmm::count_tag(final(fa).table@, crate::pmm::PageInfo::Free)
            >= crate::pmm::count_tag(old(fa).table@, crate::pmm::PageInfo::Free)
                - 4 * (((seg.p_vaddr + seg.p_memsz + 0xfff) as u64 / 0x1000)
                    - (seg.p_vaddr / 0x1000)),
        r is Ok ==> ({
            let pages = ((seg.p_vaddr + seg.p_memsz + 0xfff) as u64 / 0x1000)
                - (seg.p_vaddr / 0x1000);
            let vb = seg.p_vaddr & 0xffff_ffff_ffff_f000u64;
            &&& final(actions)@.len() == old(actions)@.len() + pages
            &&& (forall|k: int| 0 <= k < old(actions)@.len()
                    ==> #[trigger] final(actions)@[k] == old(actions)@[k])
            &&& (forall|k: int| 0 <= k < pages ==> {
                let rec = #[trigger] final(actions)@[old(actions)@.len() + k];
                let page = (vb + k * 0x1000) as u64;
                let cl: u64 = if seg.p_vaddr + seg.p_filesz > page {
                    if seg.p_vaddr + seg.p_filesz - page < 0x1000 {
                        (seg.p_vaddr + seg.p_filesz - page) as u64
                    } else {
                        0x1000u64
                    }
                } else {
                    0u64
                };
                &&& rec.copy_len == cl
                &&& rec.zero_len == 0x1000 - cl
            })
            &&& (forall|k: int| 0 <= k < pages
                    ==> ((#[trigger] spec_translate(*final(space),
                            (vb + k * 0x1000) as u64))
                        matches Some((p, l)) && l == 1))
        }),
        forall|va: u64| outside_segment(va, *seg)
            ==> #[trigger] spec_translate(*final(space), va)
                == spec_translate(*old(space), va),
{
    let flags = PageFlags::read().union(PageFlags::user()).union(PageFlags::write());
    let pages = overlapping_pages(seg.p_vaddr, seg.p_memsz);
    let vaddr_base = seg.p_vaddr & 0xffff_ffff_ffff_f000u64;
    let file_base = (image_base_phys + seg.p_offset) & 0xffff_ffff_ffff_f000u64;
    let copy_end = seg.p_vaddr + seg.p_filesz;
    let ghost count0 = crate::pmm::count_tag(old(fa).table@, crate::pmm::PageInfo::Free);
    let ghost actions0 = actions@;
    let mut i: u64 = 0;
    while i < pages
        invariant
            space.wf(),
            fa.wf(),
            alloc_transition(old(fa).table@, fa.table@),
            vaddr_base == seg.p_vaddr & 0xffff_ffff_ffff_f000u64,
            file_base == ((image_base_phys + seg.p_offset) as u64)
                & 0xffff_ffff_ffff_f000u64,
            copy_end == seg.p_vaddr + seg.p_filesz,
            pages == ((seg.p_vaddr + seg.p_memsz + 0xfff) as u64 / 0x1000)
                - (seg.p_vaddr / 0x1000),
            seg.p_vaddr + seg.p_memsz + 0xfff <= u64::MAX,
            seg.p_vaddr + seg.p_memsz < 0x0000_8000_0000_0000,
            seg.p_filesz <= seg.p_memsz,
            image_base_phys + seg.p_offset + seg.p_memsz + 0xfff <= u64::MAX,
            count0 == crate::pmm::count_tag(old(fa).table@, crate::pmm::PageInfo::Free),
            crate::pmm::count_tag(fa.table@, crate::pmm::PageInfo::Free)
                >= count0 - 4 * i,
            no_huge(*old(space)) ==> no_huge(*space),
            actions0 == old(actions)@,
            i <= pages,
            actions@.len() == actions0.len() + i,
            forall|va: u64| outside_segment(va, *seg)
                ==> #[trigger] spec_translate(*space, va)
                    == spec_translate(*old(space), va),
            forall|k: int| 0 <= k < actions0.len()
                ==> #[trigger] actions@[k] == actions0[k],
            forall|k: int| 0 <= k < i ==> {
                let rec = #[trigger] actions@[actions0.len() + k];
                let page = (vaddr_base + k * 0x1000) as u64;
                let cl: u64 = if seg.p_vaddr + seg.p_filesz > page {
                    if seg.p_vaddr + seg.p_filesz - page < 0x1000 {
                        (seg.p_vaddr + seg.p_filesz - page) as u64
                    } else {
                        0x1000u64
                    }
                } else {
                    0u64
                };
                &&& rec.copy_len == cl
                &&& rec.zero_len == 0x1000 - cl
            },
            forall|k: int| 0 <= k < i
                ==> ((#[trigger] spec_translate(*space,
                        (vaddr_base + k * 0x1000) as u64))
                    matches Some((p, l)) && l == 1),
        decreases pages - i,
    {
        proof {
            lemma_ro_rw_page_bounds(seg.p_vaddr, seg.p_memsz,
                (image_base_phys + seg.p_offset) as u64, i);
        }
        let user_page = vaddr_base + i * 0x1000;
        let file_page = file_base + i * 0x1000;
        let ghost table_pre = fa.table@;
        let copy_phy = match fa.allocate() {
            Some(f) => f,
            None => {
                proof {
                    crate::pmm::lemma_count_tag_none(fa.table@,
                        crate::pmm::PageInfo::Free);
                    if no_huge(*old(space)) && count0 >= 4 * pages {
                        assert(false);
                    }
                }
                return Err(MapError::OutOfMemory);
            }
        };
        proof {
            crate::pmm::lemma_count_tag_update(
                table_pre,
                copy_phy as int / crate::pmm::PAGE_SIZE as int,
                crate::pmm::PageInfo::InUse { refcount: 1u16 },
                crate::pmm::PageInfo::Free,
            );
        }
        let copy_len: u64 = if copy_end > user_page {
            let avail = copy_end - user_page;
            if avail < 0x1000 { avail } else { 0x1000 }
        } else {
            0
        };
        actions.push(LoadAction {
            image_off: file_page.wrapping_sub(image_base_phys),
            dst_phys: copy_phy,
            copy_len,
            zero_len: 0x1000 - copy_len,
        });
        proof {
            if no_huge(*old(space)) {
                lemma_no_huge_not_blocked(*space, user_page);
            }
        }
        let ghost space_pre = *space;
        match map_in_table(space, fa, user_page, copy_phy, flags) {
            Ok(_) => {}
            Err(e) => {
                proof {
                    if no_huge(*old(space)) && count0 >= 4 * pages {
                        assert(false);
                    }
                }
                return Err(e);
            }
        }
        proof {
            lemma_after_map(space_pre, *space, user_page, vaddr_base,
                i as int, pages as int);
            lemma_page_index(vaddr_base, i);
            assert forall|va: u64| outside_segment(va, *seg)
                implies #[trigger] spec_translate(*space, va)
                    == spec_translate(*old(space), va) by {
                assert(va >> 12 != user_page >> 12);
            }
        }
        i = i + 1;
    }
    Ok(())
}

/// Pages one segment covers.
pub open spec fn seg_pages(seg: ElfSegment) -> int {
    ((seg.p_vaddr + seg.p_memsz + 0xfff) as u64 / 0x1000) as int
        - (seg.p_vaddr / 0x1000) as int
}

/// Pages of the writable loadable segments, summed: the loader records
/// one copy action per such page.
pub open spec fn spec_rw_pages(segs: Seq<ElfSegment>) -> int
    decreases segs.len(),
{
    if segs.len() == 0 {
        0
    } else {
        spec_rw_pages(segs.drop_last()) + (if segs.last().p_type == PT_LOAD
                && segs.last().p_flags & PF_W != 0 {
            seg_pages(segs.last())
        } else {
            0int
        })
    }
}

/// The writable-page sum grows by each segment's own contribution.
pub proof fn lemma_rw_pages_take_succ(segs: Seq<ElfSegment>, i: int)
    requires
        0 <= i < segs.len(),
    ensures
        spec_rw_pages(segs.take(i + 1)) == spec_rw_pages(segs.take(i))
            + (if segs[i].p_type == PT_LOAD && segs[i].p_flags & PF_W != 0 {
                seg_pages(segs[i])
            } else {
                0int
            }),
{
    assert(segs.take(i + 1).last() == segs[i]);
    assert(segs.take(i + 1).drop_last() =~= segs.take(i));
}

/// Pages the loadable segments of `segs` cover, summed.
pub open spec fn spec_load_pages(segs: Seq<ElfSegment>) -> int
    decreases segs.len(),
{
    if segs.len() == 0 {
        0
    } else {
        spec_load_pages(segs.drop_last()) + (if segs.last().p_type == PT_LOAD {
            ((segs.last().p_vaddr + segs.last().p_memsz + 0xfff) as u64 / 0x1000) as int
                - (segs.last().p_vaddr / 0x1000) as int
        } else {
            0int
        })
    }
}

/// A loadable segment within the loader's accepted bounds: the start
/// inside the user half, and sizes and file offset small enough that
/// every page address computed while mapping (`base + offset + memsz`
/// rounded up) stays inside the user half and within u64.  The 1 GiB
/// caps are generous for a boot module and exist only so that this
/// arithmetic cannot wrap; a segment beyond them is refused, not
/// truncated.
pub open spec fn spec_seg_ok(seg: ElfSegment) -> bool {
    seg.p_type == PT_LOAD ==> {
        &&& seg.p_vaddr <= 0x0000_7fff_0000_0000
        &&& seg.p_memsz <= 0x0000_0000_4000_0000
        &&& seg.p_filesz <= seg.p_memsz
        &&& seg.p_offset <= 0x0000_0000_4000_0000
    }
}

/// The segment sum grows by each segment's own pages, which are never
/// negative for an in-bounds segment.
pub proof fn lemma_load_pages_take_succ(segs: Seq<ElfSegment>, i: int)
    requires
        0 <= i < segs.len(),
    ensures
        spec_load_pages(segs.take(i + 1)) == spec_load_pages(segs.take(i))
            + (if segs[i].p_type == PT_LOAD {
                ((segs[i].p_vaddr + segs[i].p_memsz + 0xfff) as u64 / 0x1000) as int
                    - (segs[i].p_vaddr / 0x1000) as int
            } else {
                0int
            }),
    decreases i,
{
    assert(segs.take(i + 1).last() == segs[i]);
    assert(segs.take(i + 1).drop_last() =~= segs.take(i));
}

/// Every in-bounds prefix sum is at most the whole sum, when every
/// segment is in bounds (each summand is then at least zero).
pub proof fn lemma_load_pages_prefix(segs: Seq<ElfSegment>, i: int)
    requires
        0 <= i <= segs.len(),
        forall|k: int| 0 <= k < segs.len() ==> spec_seg_ok(#[trigger] segs[k]),
    ensures
        spec_load_pages(segs.take(i)) <= spec_load_pages(segs),
        spec_load_pages(segs.take(i)) >= 0,
    decreases segs.len() - i,
{
    if i == segs.len() {
        assert(segs.take(i) =~= segs);
        lemma_load_pages_nonneg(segs);
    } else {
        lemma_load_pages_take_succ(segs, i);
        lemma_load_pages_prefix(segs, i + 1);
        let sg = segs[i];
        if sg.p_type == PT_LOAD {
            assert(((sg.p_vaddr + sg.p_memsz + 0xfff) as u64 / 0x1000) as int
                >= (sg.p_vaddr / 0x1000) as int);
        }
        lemma_load_pages_nonneg_take(segs, i);
    }
}

/// The sum over in-bounds segments is never negative.
pub proof fn lemma_load_pages_nonneg(segs: Seq<ElfSegment>)
    requires
        forall|k: int| 0 <= k < segs.len() ==> spec_seg_ok(#[trigger] segs[k]),
    ensures
        spec_load_pages(segs) >= 0,
    decreases segs.len(),
{
    if segs.len() > 0 {
        lemma_load_pages_nonneg(segs.drop_last());
        let sg = segs.last();
        if sg.p_type == PT_LOAD {
            assert(((sg.p_vaddr + sg.p_memsz + 0xfff) as u64 / 0x1000) as int
                >= (sg.p_vaddr / 0x1000) as int);
        }
    }
}

/// The sum over an in-bounds prefix is never negative.
pub proof fn lemma_load_pages_nonneg_take(segs: Seq<ElfSegment>, i: int)
    requires
        0 <= i <= segs.len(),
        forall|k: int| 0 <= k < segs.len() ==> spec_seg_ok(#[trigger] segs[k]),
    ensures
        spec_load_pages(segs.take(i)) >= 0,
{
    assert forall|k: int| 0 <= k < segs.take(i).len()
        implies spec_seg_ok(#[trigger] segs.take(i)[k]) by {
        assert(segs.take(i)[k] == segs[k]);
    }
    lemma_load_pages_nonneg(segs.take(i));
}

/// Map every loadable segment of the image into `space`, then the fixed
/// usermode stack (fresh zeroed frames).  Returns the copy actions the
/// embedding program must perform, or `None` where the image does not
/// parse, a segment is out of the loader's bounds, or memory runs out;
/// with a parseable image of in-bounds segments, a tree without huge
/// mappings and four free frames per loadable page plus sixteen for the
/// stack, success is owed.
pub fn map_elf_into_address_space(
    data: &Vec<u8>,
    image_base_phys: u64,
    space: &mut AddressSpace,
    fa: &mut FrameAllocator,
) -> (r: Option<Vec<LoadAction>>)
    requires
        old(space).wf(),
        old(fa).wf(),
    ensures
        final(space).wf(),
        final(fa).wf(),
        alloc_transition(old(fa).table@, final(fa).table@),
        r is Some ==> elf_segments_of(data@) is Some,
        no_huge(*old(space)) ==> no_huge(*final(space)),
        ({
            &&& elf_segments_of(data@) matches Some(segs)
            &&& forall|k: int| 0 <= k < segs.len() ==> spec_seg_ok(#[trigger] segs[k])
            &&& image_base_phys <= 0x0000_1000_0000_0000
            &&& no_huge(*old(space))
            &&& crate::pmm::count_tag(old(fa).table@, crate::pmm::PageInfo::Free)
                    >= 4 * spec_load_pages(segs) + 16
        }) ==> r is Some,
        // on success: one copy action per writable loadable page, every
        // page of every loadable segment mapped as a 4 KiB leaf, and the
        // four stack pages mapped
        (elf_segments_of(data@) matches Some(segs) && r matches Some(acts)) ==> ({
            let segs = elf_segments_of(data@).unwrap();
            &&& r.unwrap()@.len() == spec_rw_pages(segs)
            &&& (forall|k: int, pg: int|
                    #![trigger spec_translate(*final(space),
                        ((segs[k].p_vaddr & 0xffff_ffff_ffff_f000u64)
                            + pg * 0x1000) as u64)]
                    0 <= k < segs.len() && segs[k].p_type == PT_LOAD
                        && 0 <= pg < seg_pages(segs[k])
                ==> (spec_translate(*final(space),
                        ((segs[k].p_vaddr & 0xffff_ffff_ffff_f000u64)
                            + pg * 0x1000) as u64)
                    matches Some((p, l)) && l == 1))
            &&& (forall|st: int| 0 <= st < 4
                ==> ((#[trigger] spec_translate(*final(space),
                        (crate::x86::USER_STACK_BASE + st * 0x1000) as u64))
                    matches Some((p, l)) && l == 1))
        }),
{
    let segments = match elf_segments(data) {
        Some(s) => s,
        None => { return None; }
    };
    let ghost segs = segments@;
    let ghost count0 = crate::pmm::count_tag(old(fa).table@, crate::pmm::PageInfo::Free);
    let ghost owed = (forall|k: int| 0 <= k < segs.len()
            ==> spec_seg_ok(#[trigger] segs[k]))
        && image_base_phys <= 0x0000_1000_0000_0000
        && no_huge(*old(space))
        && count0 >= 4 * spec_load_pages(segs) + 16;
    let mut actions: Vec<LoadAction> = Vec::new();
    let mut i: usize = 0;
    proof {
        assert(segs.take(0) =~= Seq::<ElfSegment>::empty());
    }
    while i < segments.len()
        invariant
            space.wf(),
            fa.wf(),
            alloc_transition(old(fa).table@, fa.table@),
            i <= segs.len(),
            segs == segments@,
            elf_segments_of(data@) == Some(segs),
            count0 == crate::pmm::count_tag(old(fa).table@, crate::pmm::PageInfo::Free),
            owed == ((forall|k: int| 0 <= k < segs.len()
                    ==> spec_seg_ok(#[trigger] segs[k]))
                && image_base_phys <= 0x0000_1000_0000_0000
                && no_huge(*old(space))
                && count0 >= 4 * spec_load_pages(segs) + 16),
            no_huge(*old(space)) ==> no_huge(*space),
            owed ==> crate::pmm::count_tag(fa.table@, crate::pmm::PageInfo::Free)
                >= count0 - 4 * spec_load_pages(segs.take(i as int)),
            actions@.len() == spec_rw_pages(segs.take(i as int)),
            forall|k: int| 0 <= k < i && (#[trigger] segs[k]).p_type == PT_LOAD
                ==> segs[k].p_vaddr <= 0x0000_7fff_0000_0000
                    && segs[k].p_memsz <= 0x0000_0000_4000_0000,
            forall|k: int, pg: int|
                #![trigger spec_translate(*space,
                    ((segs[k].p_vaddr & 0xffff_ffff_ffff_f000u64)
                        + pg * 0x1000) as u64)]
                0 <= k < i && segs[k].p_type == PT_LOAD
                    && 0 <= pg < seg_pages(segs[k])
                ==> (spec_translate(*space,
                        ((segs[k].p_vaddr & 0xffff_ffff_ffff_f000u64)
                            + pg * 0x1000) as u64)
                    matches Some((p, l)) && l == 1),
        decreases segs.len() - i,
    {
        let seg = segments[i];
        proof {
            lemma_load_pages_take_succ(segs, i as int);
            lemma_rw_pages_take_succ(segs, i as int);
            if owed {
                lemma_load_pages_prefix(segs, i as int + 1);
                lemma_load_pages_nonneg_take(segs, i as int);
            }
        }
        if seg.p_type == PT_LOAD {
            if seg.p_vaddr > 0x0000_7fff_0000_0000
                || seg.p_memsz > 0x0000_0000_4000_0000
                || seg.p_filesz > seg.p_memsz
                || seg.p_offset > 0x0000_0000_4000_0000
                || image_base_phys > 0x0000_1000_0000_0000 {
                proof {
                    if owed {
                        assert(spec_seg_ok(segs[i as int]));
                        assert(false);
                    }
                }
                return None;
            }
            let ghost space_before = *space;
            let outcome = if seg.p_flags & PF_W != 0 {
                create_rw_mapping(&seg, image_base_phys, space, fa, &mut actions)
            } else {
                create_ro_mapping(&seg, image_base_phys, space, fa)
            };
            if outcome.is_err() {
                proof {
                    if owed {
                        assert(false);
                    }
                }
                return None;
            }
            proof {
                assert forall|k: int, pg: int|
                    #![trigger spec_translate(*space,
                        ((segs[k].p_vaddr & 0xffff_ffff_ffff_f000u64)
                            + pg * 0x1000) as u64)]
                    0 <= k < i + 1 && segs[k].p_type == PT_LOAD
                        && 0 <= pg < seg_pages(segs[k])
                    implies (spec_translate(*space,
                            ((segs[k].p_vaddr & 0xffff_ffff_ffff_f000u64)
                                + pg * 0x1000) as u64)
                        matches Some((p, l)) && l == 1) by {
                    lemma_seg_page_facts(segs[k], pg as u64);
                    let target = ((segs[k].p_vaddr & 0xffff_ffff_ffff_f000u64)
                        + pg * 0x1000) as u64;
                    if k < i {
                        if !outside_segment(target, seg) {
                            // the target page lies in this segment's own
                            // range: it was just re-mapped as a leaf
                            let vb = seg.p_vaddr & 0xffff_ffff_ffff_f000u64;
                            let m = (target >> 12) - (vb >> 12);
                            lemma_seg_page_facts(seg, m as u64);
                            lemma_aligned_page_eq(target,
                                (vb + m * 0x1000) as u64);
                            assert(spec_translate(*space,
                                (vb + m * 0x1000) as u64)
                                matches Some((p, l)) && l == 1);
                        }
                    }
                }
            }
        }
        i = i + 1;
    }
    proof {
        assert(segs.take(segs.len() as int) =~= segs);
    }
    let mut s: usize = 0;
    while s < crate::x86::USER_STACK_PAGES
        invariant
            space.wf(),
            fa.wf(),
            alloc_transition(old(fa).table@, fa.table@),
            s <= crate::x86::USER_STACK_PAGES,
            no_huge(*old(space)) ==> no_huge(*space),
            segs == segments@,
            elf_segments_of(data@) == Some(segs),
            count0 == crate::pmm::count_tag(old(fa).table@, crate::pmm::PageInfo::Free),
            owed == ((forall|k: int| 0 <= k < segs.len()
                    ==> spec_seg_ok(#[trigger] segs[k]))
                && image_base_phys <= 0x0000_1000_0000_0000
                && no_huge(*old(space))
                && count0 >= 4 * spec_load_pages(segs) + 16),
            owed ==> crate::pmm::count_tag(fa.table@, crate::pmm::PageInfo::Free)
                >= 16 - 4 * s,
            owed ==> no_huge(*old(space)),
            actions@.len() == spec_rw_pages(segs),
            forall|k: int| 0 <= k < segs.len() && (#[trigger] segs[k]).p_type == PT_LOAD
                ==> segs[k].p_vaddr <= 0x0000_7fff_0000_0000
                    && segs[k].p_memsz <= 0x0000_0000_4000_0000,
            forall|k: int, pg: int|
                #![trigger spec_translate(*space,
                    ((segs[k].p_vaddr & 0xffff_ffff_ffff_f000u64)
                        + pg * 0x1000) as u64)]
                0 <= k < segs.len() && segs[k].p_type == PT_LOAD
                    && 0 <= pg < seg_pages(segs[k])
                ==> (spec_translate(*space,
                        ((segs[k].p_vaddr & 0xffff_ffff_ffff_f000u64)
                            + pg * 0x1000) as u64)
                    matches Some((p, l)) && l == 1),
            forall|st: int| 0 <= st < s
                ==> ((#[trigger] spec_translate(*space,
                        (crate::x86::USER_STACK_BASE + st * 0x1000) as u64))
                    matches Some((p, l)) && l == 1),
        decreases crate::x86::USER_STACK_PAGES - s,
    {
        let ghost table_pre = fa.table@;
        let page_phy = match fa.alloc_zeroed() {
            Some(f) => f,
            None => {
                proof {
                    crate::pmm::lemma_count_tag_none(fa.table@,
                        crate::pmm::PageInfo::Free);
                    if owed {
                        assert(false);
                    }
                }
                return None;
            }
        };
        proof {
            crate::pmm::lemma_count_tag_update(
                table_pre,
                page_phy as int / crate::pmm::PAGE_SIZE as int,
                crate::pmm::PageInfo::InUse { refcount: 1u16 },
                crate::pmm::PageInfo::Free,
            );
        }
        let si = s as u64;
        let va = crate::x86::USER_STACK_BASE + si * 0x1000;
        proof {
            assert(si < 4 ==> 0x0000_7fff_feff_c000u64 + si * 0x1000
                < 0x0000_8000_0000_0000u64) by (bit_vector);
            assert(spec_user_addr(va));
            if no_huge(*old(space)) {
                lemma_no_huge_not_blocked(*space, va);
            }
        }
        let ghost space_pre = *space;
        let outcome = map_in_table(
            space,
            fa,
            va,
            page_phy,
            PageFlags::read().union(PageFlags::write()).union(PageFlags::user()),
        );
        if outcome.is_err() {
            proof {
                if owed {
                    assert(false);
                }
            }
            return None;
        }
        proof {
            assert(0x0000_7fff_feff_c000u64 & 0xfffu64 == 0) by (bit_vector);
            lemma_after_map(space_pre, *space, va,
                crate::x86::USER_STACK_BASE, si as int, 4);
            lemma_page_aligned(crate::x86::USER_STACK_BASE, si);
            assert forall|k: int, pg: int|
                #![trigger spec_translate(*space,
                    ((segs[k].p_vaddr & 0xffff_ffff_ffff_f000u64)
                        + pg * 0x1000) as u64)]
                0 <= k < segs.len() && segs[k].p_type == PT_LOAD
                    && 0 <= pg < seg_pages(segs[k])
                implies (spec_translate(*space,
                        ((segs[k].p_vaddr & 0xffff_ffff_ffff_f000u64)
                            + pg * 0x1000) as u64)
                    matches Some((p, l)) && l == 1) by {
                lemma_seg_page_facts(segs[k], pg as u64);
                let target = ((segs[k].p_vaddr & 0xffff_ffff_ffff_f000u64)
                    + pg * 0x1000) as u64;
                if target >> 12 == va >> 12 {
                    lemma_aligned_page_eq(target, va);
                }
            }
            assert forall|st: int| 0 <= st < s + 1
                implies ((#[trigger] spec_translate(*space,
                        (crate::x86::USER_STACK_BASE + st * 0x1000) as u64))
                    matches Some((p, l)) && l == 1) by {
                lemma_page_aligned(crate::x86::USER_STACK_BASE, st as u64);
                let target = (crate::x86::USER_STACK_BASE + st * 0x1000) as u64;
                if st < s {
                    if target >> 12 == va >> 12 {
                        lemma_aligned_page_eq(target, va);
                    }
                }
            }
        }
        s = s + 1;
    }
    Some(actions)
}

} // verus!
