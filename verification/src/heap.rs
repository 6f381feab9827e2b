//! The kernel's one heap: a slot that is filled once and that every heap
//! operation goes through. Whoever holds the slot serialises the operations.

use crate::allocator::Allocator;
use crate::error::MemoryError;
use crate::frames::FrameSupply;
use crate::layout::HEAP_START_PAGE;
use crate::memory::Relocation;
use crate::paging::{run_error, Mapping, PageMapper};
use vstd::prelude::*;

verus! {

/// Sets the heap up over `mapper` and `frames`, with its first page mapped.
/// A slot that holds a heap already is left alone and the call fails; so
/// does one for whose first page no mapping can be made.
pub fn init(slot: &mut Option<Allocator>, mapper: PageMapper, frames: FrameSupply) -> (r: Result<
    (),
    MemoryError,
>)
    ensures
        old(slot).is_some() ==> *final(slot) == *old(slot) && r == Err::<(), MemoryError>(
            MemoryError::AlreadyInitialized,
        ),
        old(slot).is_none() ==> (r.is_ok() <==> !mapper@.dom().contains(HEAP_START_PAGE)
            && frames@.len() > 0),
        old(slot).is_none() && r.is_ok() ==> final(slot).is_some() && final(slot).unwrap().initial(
            mapper@,
            frames@,
        ),
        old(slot).is_none() && r.is_err() ==> final(slot).is_none() && r == Err::<(), MemoryError>(
            run_error(mapper@.dom(), HEAP_START_PAGE as int, 0),
        ),
{
    if slot.is_some() {
        return Err(MemoryError::AlreadyInitialized);
    }
    match Allocator::new(mapper, frames) {
        Ok(heap) => {
            *slot = Some(heap);
            Ok(())
        },
        Err(e) => Err(e),
    }
}

/// Allocates from the heap in `slot`; fails with `Uninitialized`, and leaves
/// the slot empty, where no heap was set up.
pub fn heap_allocate(slot: &mut Option<Allocator>, size: u64, align: u64) -> (r: Result<
    u64,
    MemoryError,
>)
    requires
        *old(slot) matches Some(heap) ==> heap.wf() && heap.admits_request(size, align),
    ensures
        old(slot).is_none() ==> final(slot).is_none() && r == Err::<u64, MemoryError>(
            MemoryError::Uninitialized,
        ),
        *old(slot) matches Some(before) ==> final(slot).is_some() && final(slot).unwrap().wf()
            && Allocator::allocation(before, final(slot).unwrap(), size, align, r),
{
    match slot.take() {
        None => Err(MemoryError::Uninitialized),
        Some(heap) => {
            let mut heap = heap;
            let r = heap.allocate(size, align);
            *slot = Some(heap);
            r
        },
    }
}

/// Moves a block of the heap in `slot` to a fresh one, as `reallocate` does;
/// fails with `Uninitialized`, and leaves the slot empty, where no heap was
/// set up.
pub fn heap_reallocate(
    slot: &mut Option<Allocator>,
    ptr: u64,
    old_size: u64,
    size: u64,
    align: u64,
) -> (r: Result<Relocation, MemoryError>)
    requires
        *old(slot) matches Some(heap) ==> heap.wf() && heap.admits_request(size, align),
    ensures
        old(slot).is_none() ==> final(slot).is_none() && r == Err::<Relocation, MemoryError>(
            MemoryError::Uninitialized,
        ),
        *old(slot) matches Some(before) ==> final(slot).is_some() && final(slot).unwrap().wf()
            && Allocator::allocation(
            before,
            final(slot).unwrap(),
            size,
            align,
            match r {
                Ok(moved) => Ok(moved.address),
                Err(e) => Err(e),
            },
        ),
        r matches Ok(moved) ==> moved.source == ptr && moved.length == old_size,
{
    match slot.take() {
        None => Err(MemoryError::Uninitialized),
        Some(heap) => {
            let mut heap = heap;
            let r = heap.reallocate(ptr, old_size, size, align);
            *slot = Some(heap);
            r
        },
    }
}

/// Returns a block to the heap in `slot`, which reclaims nothing: the slot
/// is unchanged. Fails with `Uninitialized` where no heap was set up.
pub fn heap_deallocate(slot: &mut Option<Allocator>, ptr: u64, old_size: u64, align: u64) -> (r:
    Result<(), MemoryError>)
    ensures
        *final(slot) == *old(slot),
        old(slot).is_none() <==> r == Err::<(), MemoryError>(MemoryError::Uninitialized),
        old(slot).is_some() <==> r.is_ok(),
{
    match slot.take() {
        None => Err(MemoryError::Uninitialized),
        Some(heap) => {
            let mut heap = heap;
            heap.deallocate(ptr, old_size, align);
            *slot = Some(heap);
            Ok(())
        },
    }
}

/// What `heap_try_allocate` and `heap_try_reallocate` refuse: a request
/// that the heap in the slot does not admit. On an empty slot nothing is
/// refused: every request there fails with `Uninitialized`.
pub open spec fn refused(slot: Option<Allocator>, size: u64, align: u64) -> bool {
    match slot {
        Some(heap) => !heap.admits_request(size, align),
        None => false,
    }
}

/// Allocates from the heap in `slot` as `heap_allocate` does, after testing
/// the request: one that is refused leaves the slot as it is and gives
/// `None`. An empty slot gives `Uninitialized` whatever is asked for.
pub fn heap_try_allocate(slot: &mut Option<Allocator>, size: u64, align: u64) -> (r: Option<
    Result<u64, MemoryError>,
>)
    requires
        *old(slot) matches Some(heap) ==> heap.wf(),
    ensures
        r.is_none() <==> refused(*old(slot), size, align),
        r.is_none() ==> *final(slot) == *old(slot),
        old(slot).is_none() ==> final(slot).is_none(),
        old(slot).is_none() && r.is_some() ==> r == Some(
            Err::<u64, MemoryError>(MemoryError::Uninitialized),
        ),
        *old(slot) matches Some(before) ==> final(slot).is_some() && final(slot).unwrap().wf(),
        (*old(slot) matches Some(before) && r matches Some(inner)) ==> Allocator::allocation(
            old(slot).unwrap(),
            final(slot).unwrap(),
            size,
            align,
            r.unwrap(),
        ),
{
    let admitted = match slot.take() {
        None => true,
        Some(heap) => {
            let ok = heap.admits(size, align);
            *slot = Some(heap);
            ok
        },
    };
    if admitted {
        Some(heap_allocate(slot, size, align))
    } else {
        None
    }
}

/// Moves a block of the heap in `slot` as `heap_reallocate` does, after
/// testing the request for the new block: one that is refused leaves the
/// slot as it is and gives `None`. An empty slot gives `Uninitialized`
/// whatever is asked for.
pub fn heap_try_reallocate(
    slot: &mut Option<Allocator>,
    ptr: u64,
    old_size: u64,
    size: u64,
    align: u64,
) -> (r: Option<Result<Relocation, MemoryError>>)
    requires
        *old(slot) matches Some(heap) ==> heap.wf(),
    ensures
        r.is_none() <==> refused(*old(slot), size, align),
        r.is_none() ==> *final(slot) == *old(slot),
        old(slot).is_none() ==> final(slot).is_none(),
        old(slot).is_none() && r.is_some() ==> r == Some(
            Err::<Relocation, MemoryError>(MemoryError::Uninitialized),
        ),
        *old(slot) matches Some(before) ==> final(slot).is_some() && final(slot).unwrap().wf(),
        (*old(slot) matches Some(before) && r matches Some(inner)) ==> Allocator::allocation(
            old(slot).unwrap(),
            final(slot).unwrap(),
            size,
            align,
            match r.unwrap() {
                Ok(moved) => Ok(moved.address),
                Err(e) => Err(e),
            },
        ),
        r matches Some(Ok(moved)) ==> moved.source == ptr && moved.length == old_size,
{
    let admitted = match slot.take() {
        None => true,
        Some(heap) => {
            let ok = heap.admits(size, align);
            *slot = Some(heap);
            ok
        },
    };
    if admitted {
        Some(heap_reallocate(slot, ptr, old_size, size, align))
    } else {
        None
    }
}

/// The high-water mark of the heap in `slot`, or `None` on an empty slot.
pub fn heap_top_in(slot: &Option<Allocator>) -> (top: Option<u64>)
    ensures
        top == (match *slot {
            Some(heap) => Some(heap.top()),
            None => None,
        }),
{
    match slot {
        None => None,
        Some(heap) => Some(heap.heap_top()),
    }
}

/// The last page that the heap in `slot` has mapped, or `None` on an empty
/// slot.
pub fn last_mapped_page_in(slot: &Option<Allocator>) -> (page: Option<u64>)
    ensures
        page == (match *slot {
            Some(heap) => Some(heap.last_page()),
            None => None,
        }),
{
    match slot {
        None => None,
        Some(heap) => Some(heap.last_mapped_page()),
    }
}

/// What the heap in `slot` has `page` mapped to; `None` on an empty slot and
/// for a page that the heap has no mapping for.
pub fn translate_in(slot: &Option<Allocator>, page: u64) -> (mapping: Option<Mapping>)
    ensures
        mapping == (match *slot {
            Some(heap) => if heap.table().dom().contains(page) {
                Some(heap.table()[page])
            } else {
                None
            },
            None => None,
        }),
{
    match slot {
        None => None,
        Some(heap) => heap.translate(page),
    }
}

} // verus!
