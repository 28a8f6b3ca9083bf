//! Decisions the bootloader takes while loading the kernel: the bytes the
//! kernel segments and the trampoline are initialized with, the pages that
//! map the physical window, and the ranges handed back to physical memory

use vstd::prelude::*;

verus! {

/// Page table entry bit: present
pub const PAGE_PRESENT: u64 = 1 << 0;

/// Page table entry bit: writable
pub const PAGE_WRITE: u64 = 1 << 1;

/// Page table entry bit: the entry maps a large page
pub const PAGE_SIZE: u64 = 1 << 7;

/// CR0 write protect bit
pub const CR0_WP: u64 = 1 << 16;

/// The page sizes the physical window can be mapped with
#[derive(Debug, Clone, Copy, PartialEq, Eq, Structural)]
pub enum PageType {
    Page4K,
    Page2M,
    Page1G,
}

impl PageType {
    /// Size in bytes of a page of this type
    pub open spec fn spec_size(self) -> u64 {
        match self {
            PageType::Page4K => 0x1000,
            PageType::Page2M => 0x20_0000,
            PageType::Page1G => 0x4000_0000,
        }
    }

    /// Size in bytes of a page of this type
    pub fn size(&self) -> (s: u64)
        ensures
            s == self.spec_size(),
    {
        match self {
            PageType::Page4K => 0x1000,
            PageType::Page2M => 0x20_0000,
            PageType::Page1G => 0x4000_0000,
        }
    }
}

/// The largest page type the CPU supports for mapping the physical window:
/// 1 GiB pages, else 2 MiB ones, else 4 KiB ones
pub fn window_page_type(gbyte_pages: bool, pse: bool) -> (t: PageType)
    ensures
        t == (if gbyte_pages {
            PageType::Page1G
        } else if pse {
            PageType::Page2M
        } else {
            PageType::Page4K
        }),
{
    if gbyte_pages {
        PageType::Page1G
    } else if pse {
        PageType::Page2M
    } else {
        PageType::Page4K
    }
}

/// The raw page table entry bits mapping the physical window with pages of
/// type `page`: present, writable, and large when not 4 KiB
pub fn window_page_mask(page: PageType) -> (m: u64)
    ensures
        m == (if page == PageType::Page4K { 3u64 } else { 0x83u64 }),
{
    let large = match page {
        PageType::Page4K => 0,
        _ => PAGE_SIZE,
    };
    let m = PAGE_WRITE | PAGE_PRESENT | large;
    assert(PAGE_WRITE | PAGE_PRESENT | 0u64 == 3u64) by (bit_vector);
    assert(PAGE_WRITE | PAGE_PRESENT | PAGE_SIZE == 0x83u64) by (bit_vector);
    m
}

/// The byte at `mem_offset` of the memory of a segment whose file bytes
/// `bytes` start at `seg_offset`: zero before them and past their end
pub fn segment_byte(mem_offset: u64, seg_offset: u64, bytes: &[u8]) -> (b: u8)
    ensures
        b == (if mem_offset >= seg_offset && mem_offset - seg_offset < bytes@.len() {
            bytes@[mem_offset - seg_offset]
        } else {
            0u8
        }),
{
    if mem_offset >= seg_offset {
        let at = mem_offset - seg_offset;
        if at < bytes.len() as u64 {
            return bytes[at as usize];
        }
    }
    0
}

/// The byte at `offset` of an image, zero past its end
pub fn image_byte(offset: u64, image: &[u8]) -> (b: u8)
    ensures
        b == (if offset < image@.len() { image@[offset as int] } else { 0u8 }),
{
    if offset < image.len() as u64 {
        image[offset as usize]
    } else {
        0
    }
}

/// CR0 with write protection disabled
pub fn cr0_without_wp(cr0: u64) -> (r: u64)
    ensures
        r == cr0 & !CR0_WP,
{
    cr0 & !CR0_WP
}

/// The address of the last byte of the `size` bytes at `addr`, if the range
/// is not empty and does not wrap
pub fn range_end(addr: u64, size: u64) -> (r: Option<u64>)
    ensures
        r == (if size >= 1 && addr + (size - 1) <= u64::MAX {
            Some((addr + (size - 1)) as u64)
        } else {
            None::<u64>
        }),
{
    if size == 0 {
        return None;
    }
    addr.checked_add(size - 1)
}

/// Virtual address at which the kernel sees physical address 0
pub const KERNEL_PHYS_WINDOW_BASE: u64 = 0xffff_8000_0000_0000;

/// Bytes of physical memory the kernel's physical window covers
pub const KERNEL_PHYS_WINDOW_SIZE: u64 = 0x10_0000_0000;

/// Number of pages of type `page` mapping the physical window
pub fn window_page_count(page: PageType) -> (n: u64)
    ensures
        n * page.spec_size() == KERNEL_PHYS_WINDOW_SIZE,
{
    match page {
        PageType::Page4K => 0x100_0000,
        PageType::Page2M => 0x8000,
        PageType::Page1G => 0x40,
    }
}

/// The mapping of the `i`-th page of type `page` of the physical window: the
/// virtual address `KERNEL_PHYS_WINDOW_BASE + p` maps the physical address
/// `p = i * size` with the raw entry `p | mask`. Every page-aligned `p` below
/// the window size is the `p / size`-th page.
pub fn window_entry(page: PageType, i: u64) -> (r: (u64, u64))
    requires
        i * page.spec_size() < KERNEL_PHYS_WINDOW_SIZE,
    ensures
        r.0 == KERNEL_PHYS_WINDOW_BASE + i * page.spec_size(),
        r.1 == (i * page.spec_size()) as u64 | (if page == PageType::Page4K { 3u64 } else { 0x83u64 }),
{
    let size = page.size();
    let paddr = i * size;
    (KERNEL_PHYS_WINDOW_BASE + paddr, paddr | window_page_mask(page))
}

/// Every page-aligned physical address `p` below the window size is mapped
/// by one of the window's pages: the `p / size`-th, at `BASE + p`
pub proof fn lemma_window_covers(page: PageType, p: u64)
    requires
        p < KERNEL_PHYS_WINDOW_SIZE,
        p % page.spec_size() == 0,
    ensures
        (p / page.spec_size()) * page.spec_size() == p,
        p / page.spec_size() < KERNEL_PHYS_WINDOW_SIZE / page.spec_size(),
{
    let size = page.spec_size();
    assert((p / size) * size == p) by (nonlinear_arith)
        requires
            size > 0,
            p % size == 0,
    ;
    assert(p / size < KERNEL_PHYS_WINDOW_SIZE / size) by (nonlinear_arith)
        requires
            size > 0,
            p < KERNEL_PHYS_WINDOW_SIZE,
            KERNEL_PHYS_WINDOW_SIZE % size == 0,
            (p / size) * size == p,
    ;
}

} // verus!
