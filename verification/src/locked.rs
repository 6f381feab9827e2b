//! The kernel's one heap behind its lock: every operation takes the lock,
//! works on the heap, and gives the lock back, so that no two interleave.

use crate::allocator::Allocator;
use crate::error::MemoryError;
use crate::frames::FrameSupply;
use crate::heap::{
    heap_deallocate, heap_top_in, heap_try_allocate, heap_try_reallocate, init,
    last_mapped_page_in, translate_in,
};
use crate::layout::{lemma_align_up, HEAP_BOTTOM, HEAP_START_PAGE, PAGE_LIMIT};
use crate::memory::Relocation;
use crate::paging::{run_error, Mapping, PageMapper};
use vstd::prelude::*;

verus! {

/// `spin::mutex::Mutex`: a lock around a value, taken by spinning.
#[verifier::external_type_specification]
#[verifier::external_body]
#[verifier::reject_recursive_types(T)]
#[verifier::reject_recursive_types(R)]
pub struct ExMutex<T: ?Sized, R>(spin::mutex::Mutex<T, R>);

/// `spin::mutex::MutexGuard`: the lock while it is held; gives access to
/// the value and releases the lock when it is dropped.
#[verifier::external_type_specification]
#[verifier::external_body]
#[verifier::reject_recursive_types(T)]
pub struct ExMutexGuard<'a, T: 'a + ?Sized>(spin::mutex::MutexGuard<'a, T>);

/// `spin::relax::Spin`: the way a waiting `Mutex` passes its time.
#[verifier::external_type_specification]
#[verifier::external_body]
pub struct ExSpin(spin::relax::Spin);

/// A heap that is known to be well-formed wherever it comes from.
struct Sealed {
    heap: Allocator,
}

impl Sealed {
    #[verifier::type_invariant]
    spec fn inv(&self) -> bool {
        self.heap.wf()
    }
}

/// The slot for the kernel's heap, behind a lock.
pub struct LockedHeap {
    cell: spin::mutex::Mutex<Option<Sealed>, spin::relax::Spin>,
}

/// `spin::mutex::Mutex::new` on an empty slot. Nothing is claimed of the
/// result: what a lock holds is not visible from outside it.
#[verifier::external_body]
fn new_cell() -> (cell: spin::mutex::Mutex<Option<Sealed>, spin::relax::Spin>) {
    spin::mutex::Mutex::new(None)
}

/// `spin::mutex::Mutex::lock`: spins until the lock is free and takes it.
/// Nothing is claimed of the guard. The callers hold no guard of the same
/// lock when they call, so the wait ends once other holders are done.
#[verifier::external_body]
fn lock_cell<'a>(cell: &'a spin::mutex::Mutex<Option<Sealed>, spin::relax::Spin>) -> (guard:
    spin::mutex::MutexGuard<'a, Option<Sealed>>) {
    cell.lock()
}

/// `DerefMut::deref_mut` of `spin::mutex::MutexGuard`: the value that the
/// held lock protects. Nothing is claimed of what it holds.
#[verifier::external_body]
fn slot_of<'a, 'b>(guard: &'b mut spin::mutex::MutexGuard<'a, Option<Sealed>>) -> (slot: &'b mut Option<
    Sealed,
>) {
    &mut **guard
}

/// The heap that a slot holds, without its seal.
spec fn opened(slot: Option<Sealed>) -> Option<Allocator> {
    match slot {
        Some(sealed) => Some(sealed.heap),
        None => None,
    }
}

/// Takes the heap out of the slot and out of its seal; the slot is left
/// empty.
fn unseal(slot: &mut Option<Sealed>) -> (plain: Option<Allocator>)
    ensures
        *final(slot) == None::<Sealed>,
        plain == opened(*old(slot)),
        plain matches Some(heap) ==> heap.wf(),
{
    match slot.take() {
        None => None,
        Some(sealed) => {
            proof {
                use_type_invariant(&sealed);
            }
            Some(sealed.heap)
        },
    }
}

/// Puts a well-formed heap, or none, into the slot: the slot then holds
/// `plain` under a seal, whatever it held before.
fn seal(slot: &mut Option<Sealed>, plain: Option<Allocator>)
    requires
        plain matches Some(heap) ==> heap.wf(),
    ensures
        opened(*final(slot)) == plain,
{
    match plain {
        None => {
            *slot = None;
        },
        Some(heap) => {
            *slot = Some(Sealed { heap });
        },
    }
}

impl LockedHeap {
    /// A lock around an empty slot.
    pub fn new() -> (locked: LockedHeap) {
        LockedHeap { cell: new_cell() }
    }

    /// Sets the heap up under the lock, as `init` does on the slot. What
    /// the slot held is known only to the lock: the call fails on a slot
    /// that is filled, and on a first page that cannot be mapped.
    pub fn init(&self, mapper: PageMapper, frames: FrameSupply) -> (r: Result<(), MemoryError>)
        ensures
            mapper@.dom().contains(HEAP_START_PAGE) || frames@.len() == 0 ==> r.is_err(),
            r matches Err(e) ==> e == MemoryError::AlreadyInitialized || e == run_error(
                mapper@.dom(),
                HEAP_START_PAGE as int,
                0,
            ),
    {
        let mut guard = lock_cell(&self.cell);
        let slot = slot_of(&mut guard);
        let mut plain = unseal(slot);
        let r = init(&mut plain, mapper, frames);
        seal(slot, plain);
        r
    }

    /// Allocates under the lock, as `heap_try_allocate` does on the slot.
    /// Before the heap is set up every request fails with `Uninitialized`.
    /// After that the result is `None`, and the heap untouched, where the
    /// heap cannot take the request: a size or alignment of zero, or a
    /// block that would end beyond the address space. What else comes back
    /// depends on the heap that the lock holds.
    pub fn allocate(&self, size: u64, align: u64) -> (r: Option<Result<u64, MemoryError>>)
        ensures
            size == 0 || align == 0 ==> r.is_none() || r == Some(
                Err::<u64, MemoryError>(MemoryError::Uninitialized),
            ),
            r matches Some(Ok(address)) ==> address % align == 0 && HEAP_BOTTOM <= address
                && address + size <= u64::MAX,
            r matches Some(Err(e)) ==> e != MemoryError::AlreadyInitialized,
    {
        let mut guard = lock_cell(&self.cell);
        let slot = slot_of(&mut guard);
        let mut plain = unseal(slot);
        proof {
            if plain.is_some() && align > 0 {
                lemma_align_up(plain.unwrap().top() as int, align as int);
            }
        }
        let r = heap_try_allocate(&mut plain, size, align);
        seal(slot, plain);
        r
    }

    /// Moves a block under the lock, as `heap_try_reallocate` does on the
    /// slot. Before the heap is set up every request fails with
    /// `Uninitialized`. After that the result is `None`, and the heap
    /// untouched, where the heap cannot take the request for the new block.
    pub fn reallocate(&self, ptr: u64, old_size: u64, size: u64, align: u64) -> (r: Option<
        Result<Relocation, MemoryError>,
    >)
        ensures
            size == 0 || align == 0 ==> r.is_none() || r == Some(
                Err::<Relocation, MemoryError>(MemoryError::Uninitialized),
            ),
            r matches Some(Ok(moved)) ==> {
                &&& moved.source == ptr
                &&& moved.length == old_size
                &&& moved.address % align == 0
                &&& HEAP_BOTTOM <= moved.address
                &&& moved.address + size <= u64::MAX
            },
            r matches Some(Err(e)) ==> e != MemoryError::AlreadyInitialized,
    {
        let mut guard = lock_cell(&self.cell);
        let slot = slot_of(&mut guard);
        let mut plain = unseal(slot);
        proof {
            if plain.is_some() && align > 0 {
                lemma_align_up(plain.unwrap().top() as int, align as int);
            }
        }
        let r = heap_try_reallocate(&mut plain, ptr, old_size, size, align);
        seal(slot, plain);
        r
    }

    /// The high-water mark of the heap, as `heap_top_in` reads it from the
    /// slot: `None` where the heap was not set up.
    pub fn heap_top(&self) -> (top: Option<u64>)
        ensures
            top matches Some(t) ==> HEAP_BOTTOM <= t,
    {
        let mut guard = lock_cell(&self.cell);
        let slot = slot_of(&mut guard);
        let plain = unseal(slot);
        let top = heap_top_in(&plain);
        seal(slot, plain);
        top
    }

    /// The highest heap page that is mapped, as `last_mapped_page_in` reads
    /// it from the slot: `None` where the heap was not set up.
    pub fn last_mapped_page(&self) -> (page: Option<u64>)
        ensures
            page matches Some(p) ==> HEAP_START_PAGE <= p < PAGE_LIMIT,
    {
        let mut guard = lock_cell(&self.cell);
        let slot = slot_of(&mut guard);
        let plain = unseal(slot);
        let page = last_mapped_page_in(&plain);
        seal(slot, plain);
        page
    }

    /// What the heap has `page` mapped to, as `translate_in` reads it from
    /// the slot; `None` where the heap was not set up or has no mapping for
    /// the page. The heap's first page is never mapped otherwise than
    /// writable and not executable.
    pub fn translate(&self, page: u64) -> (mapping: Option<Mapping>)
        ensures
            page == HEAP_START_PAGE ==> (mapping matches Some(m) ==> m.writable && !m.executable),
    {
        let mut guard = lock_cell(&self.cell);
        let slot = slot_of(&mut guard);
        let plain = unseal(slot);
        let mapping = translate_in(&plain, page);
        seal(slot, plain);
        mapping
    }

    /// Takes a block back under the lock, as `heap_deallocate` does on the
    /// slot: the heap stays as it is.
    pub fn deallocate(&self, ptr: u64, old_size: u64, align: u64) -> (r: Result<(), MemoryError>)
        ensures
            r matches Err(e) ==> e == MemoryError::Uninitialized,
    {
        let mut guard = lock_cell(&self.cell);
        let slot = slot_of(&mut guard);
        let mut plain = unseal(slot);
        let r = heap_deallocate(&mut plain, ptr, old_size, align);
        seal(slot, plain);
        r
    }
}

} // verus!
