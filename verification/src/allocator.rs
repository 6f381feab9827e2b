//! The bump heap: one contiguous region that only grows, with pages mapped
//! the first time the high-water mark reaches them.

use crate::frames::FrameSupply;
use crate::layout::{
    align_up, lemma_align_up, page_containing, page_of, page_start, spec_align_up, HEAP_BOTTOM,
    HEAP_START_PAGE, PAGE_LIMIT, UPPER_HALF,
};
use crate::error::MemoryError;
use crate::memory::Relocation;
use crate::paging::{
    lemma_mappable_run, mappable_run, mapped_after, run_error, Mapping, PageMapper,
};
use vstd::prelude::*;

verus! {

/// The heap allocator. It owns the page table and the frame supply that
/// its mappings are made from.
pub struct Allocator {
    heap_top: u64,
    last_mapped_page: u64,
    mapper: PageMapper,
    frames: FrameSupply,
}

/// Pages beyond `last_page` that a heap ending at `end` reaches into.
pub open spec fn pages_needed(last_page: int, end: int) -> nat {
    if page_of(end - 1) > last_page {
        (page_of(end - 1) - last_page) as nat
    } else {
        0
    }
}

impl Allocator {
    /// The high-water mark: first address above everything handed out.
    pub closed spec fn top(&self) -> u64 {
        self.heap_top
    }

    /// The highest heap page that the allocator has mapped.
    pub closed spec fn last_page(&self) -> u64 {
        self.last_mapped_page
    }

    /// The page table.
    pub closed spec fn table(&self) -> Map<u64, Mapping> {
        self.mapper@
    }

    /// The frames that are left.
    pub closed spec fn supply(&self) -> Seq<u64> {
        self.frames@
    }

    /// The heap starts at its fixed bottom, ends inside its last mapped page,
    /// and every page from the first one to that page is mapped writable and
    /// not executable.
    pub open spec fn wf(&self) -> bool {
        &&& HEAP_BOTTOM <= self.top()
        &&& HEAP_START_PAGE <= self.last_page() < PAGE_LIMIT
        &&& self.top() <= page_start(self.last_page() + 1)
        &&& forall|p: u64|
            HEAP_START_PAGE <= p <= self.last_page() ==> self.table().dom().contains(p)
                && self.table()[p].writable && !self.table()[p].executable
    }

    /// What a request for `size` bytes at alignment `align` does to the heap
    /// `before`, and what it returns.
    ///
    /// The block starts at the high-water mark rounded up to `align`. The
    /// pages it reaches beyond the last mapped one are mapped in ascending
    /// order. If all of them get mapped the mark moves to the block's end;
    /// if not, the mark and the last mapped page stay, and the error says
    /// what stopped the mapping.
    pub open spec fn allocation(
        before: Allocator,
        after: Allocator,
        size: u64,
        align: u64,
        r: Result<u64, MemoryError>,
    ) -> bool {
        let start = spec_align_up(before.top() as int, align as int);
        let end = start + size;
        let first = before.last_page() + 1;
        let need = pages_needed(before.last_page() as int, end);
        let run = mappable_run(before.table().dom(), first, need, before.supply().len());
        &&& after.table() == mapped_after(before.table(), before.supply(), first, run, true, false)
        &&& after.supply() == before.supply().take(before.supply().len() - run)
        &&& match r {
            Ok(address) => {
                &&& run == need
                &&& address == start
                &&& after.top() == end
                &&& after.last_page() == before.last_page() + need
            },
            Err(e) => {
                &&& run < need
                &&& e == run_error(before.table().dom(), first, run)
                &&& after.top() == before.top()
                &&& after.last_page() == before.last_page()
            },
        }
    }

    /// The heap as it is set up over the page table `table` and the frames
    /// `supply`: empty, with only its first page mapped, to the top frame.
    pub open spec fn initial(&self, table: Map<u64, Mapping>, supply: Seq<u64>) -> bool {
        &&& self.wf()
        &&& self.top() == HEAP_BOTTOM
        &&& self.last_page() == HEAP_START_PAGE
        &&& self.table() == table.insert(
            HEAP_START_PAGE,
            Mapping { frame: supply.last(), writable: true, executable: false },
        )
        &&& self.supply() == supply.drop_last()
    }

    /// A heap over `mapper` and `frames`, empty, with its first page mapped.
    /// Fails if that page is mapped already or no frame is left for it.
    pub fn new(mapper: PageMapper, frames: FrameSupply) -> (r: Result<Allocator, MemoryError>)
        ensures
            r.is_ok() <==> !mapper@.dom().contains(HEAP_START_PAGE) && frames@.len() > 0,
            r matches Ok(heap) ==> heap.initial(mapper@, frames@),
            r matches Err(e) ==> e == run_error(mapper@.dom(), HEAP_START_PAGE as int, 0),
    {
        let mut mapper = mapper;
        let mut frames = frames;
        match mapper.map(HEAP_START_PAGE, true, false, &mut frames) {
            Err(e) => Err(e),
            Ok(()) => Ok(
                Allocator {
                    heap_top: HEAP_BOTTOM,
                    last_mapped_page: HEAP_START_PAGE,
                    mapper,
                    frames,
                },
            ),
        }
    }

    /// The high-water mark.
    pub fn heap_top(&self) -> (top: u64)
        ensures
            top == self.top(),
    {
        self.heap_top
    }

    /// The highest heap page that is mapped.
    pub fn last_mapped_page(&self) -> (page: u64)
        ensures
            page == self.last_page(),
    {
        self.last_mapped_page
    }

    /// Number of frames left for further growth.
    pub fn frames_available(&self) -> (n: usize)
        ensures
            n == self.supply().len(),
    {
        self.frames.available()
    }

    /// What `page` is mapped to, if it is mapped.
    pub fn translate(&self, page: u64) -> (mapping: Option<Mapping>)
        ensures
            mapping == (if self.table().dom().contains(page) {
                Some(self.table()[page])
            } else {
                None
            }),
    {
        self.mapper.translate(page)
    }

    /// Whether a request for `size` bytes at alignment `align` is one that
    /// this heap can take: neither is zero, and the block ends within the
    /// address space.
    pub open spec fn admits_request(&self, size: u64, align: u64) -> bool {
        &&& size > 0
        &&& align > 0
        &&& spec_align_up(self.top() as int, align as int) + size <= u64::MAX
    }

    /// Whether a request for `size` bytes at alignment `align` is one that
    /// this heap can take.
    pub fn admits(&self, size: u64, align: u64) -> (ok: bool)
        ensures
            ok == self.admits_request(size, align),
    {
        if size == 0 || align == 0 {
            return false;
        }
        proof {
            lemma_align_up(self.heap_top as int, align as int);
        }
        let rest: u64 = self.heap_top % align;
        let gap: u64 = if rest == 0 {
            0
        } else {
            align - rest
        };
        if gap > u64::MAX - self.heap_top {
            return false;
        }
        size <= u64::MAX - (self.heap_top + gap)
    }

    /// Hands out `size` bytes at alignment `align` above everything handed
    /// out before, mapping the pages that the block is the first to reach.
    pub fn allocate(&mut self, size: u64, align: u64) -> (r: Result<u64, MemoryError>)
        requires
            old(self).wf(),
            old(self).admits_request(size, align),
        ensures
            final(self).wf(),
            Self::allocation(*old(self), *final(self), size, align, r),
            r matches Ok(address) ==> {
                &&& address % align == 0
                &&& HEAP_BOTTOM <= old(self).top() <= address
                &&& address + size == final(self).top()
                &&& forall|p: u64|
                    HEAP_START_PAGE <= p <= page_of(address + size - 1)
                        ==> final(self).table().dom().contains(p)
            },
    {
        proof {
            lemma_align_up(self.heap_top as int, align as int);
        }
        let start: u64 = align_up(self.heap_top, align);
        let end: u64 = start + size;
        let end_page: u64 = page_containing(end - 1);
        let ghost need = pages_needed(self.last_mapped_page as int, end as int);
        let ghost run = mappable_run(
            self.table().dom(),
            self.last_mapped_page + 1,
            need,
            self.supply().len(),
        );
        if end_page > self.last_mapped_page {
            let first: u64 = self.last_mapped_page + 1;
            let count: u64 = end_page - self.last_mapped_page;
            assert(count == need);
            match self.mapper.map_range(first, count, true, false, &mut self.frames) {
                Err(e) => {
                    proof {
                        lemma_mappable_run(
                            old(self).table().dom(),
                            first as int,
                            need,
                            old(self).supply().len(),
                        );
                    }
                    assert(run < need);
                    assert forall|p: u64| HEAP_START_PAGE <= p <= self.last_page() implies (
                    self.table().dom().contains(p) && self.table()[p] == old(self).table()[p]) by {
                        assert(old(self).table().dom().contains(p));
                    }
                    assert(self.table() == mapped_after(
                        old(self).table(),
                        old(self).supply(),
                        first as int,
                        run,
                        true,
                        false,
                    ));
                    return Err(e);
                },
                Ok(()) => {},
            }
            self.last_mapped_page = end_page;
            assert forall|p: u64| HEAP_START_PAGE <= p <= end_page implies (
            self.table().dom().contains(p) && self.table()[p].writable
                && !self.table()[p].executable) by {
                if p < first {
                    assert(old(self).table().dom().contains(p));
                    assert(self.table()[p] == old(self).table()[p]);
                }
            }
        } else {
            assert(need == 0 && run == 0);
            assert(self.table() =~= mapped_after(
                self.table(),
                self.supply(),
                self.last_mapped_page + 1,
                0,
                true,
                false,
            ));
            assert(self.supply() =~= self.supply().take(self.supply().len() - 0));
        }
        self.heap_top = end;
        Ok(start)
    }

    /// Moves a block to a fresh one of `size` bytes: allocates as `allocate`
    /// does, and names the copy of the old block's `old_size` bytes that the
    /// caller has to carry out. The old block is never used again.
    pub fn reallocate(&mut self, ptr: u64, old_size: u64, size: u64, align: u64) -> (r: Result<
        Relocation,
        MemoryError,
    >)
        requires
            old(self).wf(),
            old(self).admits_request(size, align),
        ensures
            final(self).wf(),
            Self::allocation(
                *old(self),
                *final(self),
                size,
                align,
                match r {
                    Ok(moved) => Ok(moved.address),
                    Err(e) => Err(e),
                },
            ),
            r matches Ok(moved) ==> {
                &&& moved.source == ptr
                &&& moved.length == old_size
                &&& moved.address % align == 0
                &&& old(self).top() <= moved.address
                &&& moved.address + size == final(self).top()
            },
    {
        match self.allocate(size, align) {
            Ok(address) => Ok(Relocation { address, source: ptr, length: old_size }),
            Err(e) => Err(e),
        }
    }

    /// Takes a block back. Nothing is reclaimed: the heap stays as it is.
    pub fn deallocate(&mut self, ptr: u64, old_size: u64, align: u64)
        ensures
            *final(self) == *old(self),
    {
    }
}

/// Link `k` of a run of allocations that all succeeded: request `k` took
/// the heap from state `k` to state `k + 1` and returned address `k`.
pub open spec fn chain_step(
    states: Seq<Allocator>,
    requests: Seq<(u64, u64)>,
    addresses: Seq<u64>,
    k: int,
) -> bool {
    &&& requests[k].0 > 0
    &&& requests[k].1 > 0
    &&& Allocator::allocation(
        states[k],
        states[k + 1],
        requests[k].0,
        requests[k].1,
        Ok(addresses[k]),
    )
}

/// A run of successful allocations, each a pair of size and alignment, that
/// starts from a well-formed heap.
pub open spec fn chain(
    states: Seq<Allocator>,
    requests: Seq<(u64, u64)>,
    addresses: Seq<u64>,
) -> bool {
    &&& states.len() == requests.len() + 1
    &&& addresses.len() == requests.len()
    &&& states[0].wf()
    &&& forall|k: int|
        0 <= k < requests.len() ==> #[trigger] chain_step(states, requests, addresses, k)
}

/// Over a run of successful allocations the high-water mark never moves down.
pub proof fn lemma_growth_is_monotonic(
    states: Seq<Allocator>,
    requests: Seq<(u64, u64)>,
    addresses: Seq<u64>,
    i: int,
    j: int,
)
    requires
        chain(states, requests, addresses),
        0 <= i <= j <= requests.len(),
    ensures
        states[i].top() <= states[j].top(),
    decreases j - i,
{
    if i < j {
        lemma_growth_is_monotonic(states, requests, addresses, i, j - 1);
        assert(chain_step(states, requests, addresses, j - 1));
        lemma_align_up(states[j - 1].top() as int, requests[j - 1].1 as int);
    }
}

/// Every block of a run of successful allocations starts at an address
/// that is aligned as asked and lies between the heap's bottom and the
/// high-water mark that its call left, which is the block's end.
pub proof fn lemma_block_lies_in_heap(
    states: Seq<Allocator>,
    requests: Seq<(u64, u64)>,
    addresses: Seq<u64>,
    i: int,
)
    requires
        chain(states, requests, addresses),
        0 <= i < requests.len(),
    ensures
        HEAP_BOTTOM <= states[i].top() <= addresses[i] < states[i + 1].top(),
        addresses[i] + requests[i].0 == states[i + 1].top(),
        addresses[i] % requests[i].1 == 0,
{
    lemma_growth_is_monotonic(states, requests, addresses, 0, i);
    assert(chain_step(states, requests, addresses, i));
    lemma_align_up(states[i].top() as int, requests[i].1 as int);
}

/// A block of a run of successful allocations lies wholly below every block
/// handed out after it.
pub proof fn lemma_blocks_never_overlap(
    states: Seq<Allocator>,
    requests: Seq<(u64, u64)>,
    addresses: Seq<u64>,
    i: int,
    j: int,
)
    requires
        chain(states, requests, addresses),
        0 <= i < j < requests.len(),
    ensures
        addresses[i] + requests[i].0 <= addresses[j],
{
    lemma_block_lies_in_heap(states, requests, addresses, i);
    lemma_block_lies_in_heap(states, requests, addresses, j);
    lemma_growth_is_monotonic(states, requests, addresses, i + 1, j);
}

/// A well-formed heap lies in the upper half of the address space.
pub proof fn lemma_heap_lies_in_upper_half(heap: Allocator)
    requires
        heap.wf(),
    ensures
        UPPER_HALF <= HEAP_BOTTOM <= heap.top(),
        page_start(HEAP_START_PAGE as int) == HEAP_BOTTOM,
{
}

/// In a well-formed heap every page from the first one to the page of the
/// last byte handed out is mapped.
pub proof fn lemma_heap_is_mapped(heap: Allocator, page: u64)
    requires
        heap.wf(),
        heap.top() > HEAP_BOTTOM,
        HEAP_START_PAGE <= page <= page_of(heap.top() - 1),
    ensures
        heap.table().dom().contains(page),
{
}

/// A block that was handed out earlier, whether or not it was given back, is
/// never handed out again: a later block starts above it.
pub proof fn lemma_freed_block_is_not_reused(
    before: Allocator,
    after: Allocator,
    size: u64,
    align: u64,
    address: u64,
    ptr: u64,
    old_size: u64,
)
    requires
        align > 0,
        Allocator::allocation(before, after, size, align, Ok(address)),
        ptr + old_size <= before.top(),
    ensures
        ptr + old_size <= address,
        before.top() <= after.top(),
{
    lemma_align_up(before.top() as int, align as int);
}

/// A request that reaches more new pages than there are frames left fails
/// and moves neither the high-water mark nor the last mapped page; where the
/// pages it had frames for and the one after them were all unmapped, the
/// error is `FrameExhaustion` and no frame is left.
pub proof fn lemma_exhaustion(
    before: Allocator,
    after: Allocator,
    size: u64,
    align: u64,
    r: Result<u64, MemoryError>,
)
    requires
        before.wf(),
        size > 0,
        align > 0,
        spec_align_up(before.top() as int, align as int) + size <= u64::MAX,
        Allocator::allocation(before, after, size, align, r),
        pages_needed(
            before.last_page() as int,
            spec_align_up(before.top() as int, align as int) + size,
        ) > before.supply().len(),
    ensures
        r.is_err(),
        after.top() == before.top(),
        after.last_page() == before.last_page(),
        after.wf(),
        (forall|p: u64|
            before.last_page() < p <= before.last_page() + before.supply().len() + 1
                ==> !before.table().dom().contains(p)) ==> r == Err::<u64, MemoryError>(
            MemoryError::FrameExhaustion,
        ) && after.supply().len() == 0,
{
    let end = spec_align_up(before.top() as int, align as int) + size;
    let need = pages_needed(before.last_page() as int, end);
    assert(before.last_page() + need == page_of(end - 1));
    lemma_mappable_run(
        before.table().dom(),
        before.last_page() + 1,
        need,
        before.supply().len(),
    );
    assert forall|p: u64| HEAP_START_PAGE <= p <= after.last_page() implies after.table().dom().contains(
        p,
    ) && after.table()[p] == before.table()[p] by {
        assert(before.table().dom().contains(p));
    }
}

} // verus!
