//! Address-space constants and the arithmetic on addresses and pages.

use vstd::prelude::*;

verus! {

/// Bytes in one page (and in one frame).
pub const PAGE_SIZE: u64 = 4096;

/// Number of pages in the 64-bit address space.
pub const PAGE_LIMIT: u64 = 0x10_0000_0000_0000;

/// First address of the upper half of the 64-bit address space.
pub const UPPER_HALF: u64 = 0x8000_0000_0000_0000;

/// Fixed virtual address at which the heap starts: entry 384 of the
/// top-level page table, deep in the upper half of the address space and
/// away from what the kernel image and the boot stage use.
pub const HEAP_BOTTOM: u64 = 0xFFFF_C000_0000_0000;

/// The page that contains `HEAP_BOTTOM`.
pub const HEAP_START_PAGE: u64 = HEAP_BOTTOM / PAGE_SIZE;

/// Bytes in one machine word.
pub const WORD_SIZE: u64 = 8;

/// Flags register a new thread starts with: interrupts enabled, nothing else.
pub const INITIAL_FLAGS: u64 = 0x200;

/// Pages in the stack of a new thread.
pub const STACK_PAGES: u64 = 1;

/// The least multiple of `align` that is not below `addr`.
pub open spec fn spec_align_up(addr: int, align: int) -> int
    recommends
        addr >= 0,
        align > 0,
{
    ((addr + align - 1) / align) * align
}

/// Number of the page that holds `addr`.
pub open spec fn page_of(addr: int) -> int {
    addr / 4096
}

/// First address of page `page`.
pub open spec fn page_start(page: int) -> int {
    page * 4096
}

/// `spec_align_up` is a multiple of the alignment, is not below the address,
/// is less than one alignment step above it, and leaves an aligned address
/// where it is.
pub proof fn lemma_align_up(addr: int, align: int)
    requires
        addr >= 0,
        align > 0,
    ensures
        spec_align_up(addr, align) % align == 0,
        addr <= spec_align_up(addr, align) < addr + align,
        addr % align == 0 ==> spec_align_up(addr, align) == addr,
        addr % align != 0 ==> spec_align_up(addr, align) == addr + align - addr % align,
{
    let q = addr / align;
    let m = addr % align;
    assert(addr == q * align + m && 0 <= m < align) by (nonlinear_arith)
        requires
            q == addr / align,
            m == addr % align,
            align > 0,
    ;
    if m == 0 {
        assert((addr + align - 1) / align == q) by (nonlinear_arith)
            requires
                addr == q * align,
                align > 0,
        ;
    } else {
        assert((addr + align - 1) / align == q + 1) by (nonlinear_arith)
            requires
                addr == q * align + m,
                0 < m < align,
        ;
        assert((q + 1) * align == q * align + align) by (nonlinear_arith);
    }
    assert((((addr + align - 1) / align) * align) % align == 0) by (nonlinear_arith)
        requires
            align > 0,
    ;
}

/// No multiple of `align` lies between `addr` and `spec_align_up(addr, align)`:
/// the result is the least aligned address from `addr` on.
pub proof fn lemma_align_up_least(addr: int, align: int, other: int)
    requires
        addr >= 0,
        align > 0,
        other >= addr,
        other % align == 0,
    ensures
        spec_align_up(addr, align) <= other,
{
    lemma_align_up(addr, align);
    let r = spec_align_up(addr, align);
    if other < r {
        assert(false) by (nonlinear_arith)
            requires
                r % align == 0,
                other % align == 0,
                align > 0,
                other < r,
                r < addr + align,
                addr <= other,
        ;
    }
}

/// The heap starts in the upper half of the address space, on a page
/// boundary, at the first address of its first page.
pub proof fn lemma_heap_bottom()
    ensures
        UPPER_HALF <= HEAP_BOTTOM,
        HEAP_BOTTOM % PAGE_SIZE == 0,
        HEAP_START_PAGE == page_of(HEAP_BOTTOM as int),
        page_start(HEAP_START_PAGE as int) == HEAP_BOTTOM,
        HEAP_START_PAGE < PAGE_LIMIT,
{
}

/// Rounds `addr` up to the next multiple of `align`.
pub fn align_up(addr: u64, align: u64) -> (r: u64)
    requires
        align > 0,
        spec_align_up(addr as int, align as int) <= u64::MAX,
    ensures
        r == spec_align_up(addr as int, align as int),
        r % align == 0,
        addr <= r < addr + align,
{
    proof {
        lemma_align_up(addr as int, align as int);
    }
    let rest: u64 = addr % align;
    if rest == 0 {
        addr
    } else {
        addr + (align - rest)
    }
}

/// Number of the page that holds `addr`.
pub fn page_containing(addr: u64) -> (page: u64)
    ensures
        page == page_of(addr as int),
        page < PAGE_LIMIT,
        page_start(page as int) <= addr < page_start(page as int) + PAGE_SIZE,
{
    addr / PAGE_SIZE
}

} // verus!
