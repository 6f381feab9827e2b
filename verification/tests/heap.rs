use kernel_heap::allocator::Allocator;
use kernel_heap::error::MemoryError;
use kernel_heap::frames::FrameSupply;
use kernel_heap::heap::{
    heap_allocate, heap_deallocate, heap_reallocate, heap_top_in, heap_try_allocate,
    heap_try_reallocate, init, last_mapped_page_in, translate_in,
};
use kernel_heap::memory::{copy_block, Relocation};
use kernel_heap::layout::{
    align_up, page_containing, HEAP_BOTTOM, HEAP_START_PAGE, PAGE_SIZE, UPPER_HALF,
};
use kernel_heap::paging::{Mapping, PageMapper};

fn heap_with_frames(count: u64) -> Allocator {
    let frames: Vec<u64> = (100..100 + count).collect();
    Allocator::new(PageMapper::new(), FrameSupply::new(frames)).unwrap()
}

#[test]
fn align_up_keeps_aligned_addresses() {
    assert_eq!(align_up(0, 8), 0);
    assert_eq!(align_up(16, 8), 16);
    assert_eq!(align_up(0x2000, 0x1000), 0x2000);
    assert_eq!(align_up(7, 1), 7);
}

#[test]
fn align_up_rounds_to_next_multiple() {
    assert_eq!(align_up(17, 8), 24);
    assert_eq!(align_up(0x1001, 0x1000), 0x2000);
    assert_eq!(align_up(1, 64), 64);
    assert_eq!(align_up(5, 3), 6);
}

#[test]
fn heap_bottom_lies_at_start_of_its_page() {
    assert_eq!(HEAP_BOTTOM, 0xFFFF_C000_0000_0000);
    assert_eq!(HEAP_START_PAGE, 0xF_FFFC_0000_0000);
    assert_eq!(UPPER_HALF, 1 << 63);
    assert!(HEAP_BOTTOM >= UPPER_HALF);
    assert_eq!((HEAP_BOTTOM >> 39) & 0x1ff, 384);
    assert_eq!(page_containing(HEAP_BOTTOM), HEAP_START_PAGE);
    assert_eq!(HEAP_START_PAGE * PAGE_SIZE, HEAP_BOTTOM);
    assert_eq!(page_containing(HEAP_BOTTOM + 4095), HEAP_START_PAGE);
    assert_eq!(page_containing(HEAP_BOTTOM + 4096), HEAP_START_PAGE + 1);
}

#[test]
fn new_heap_maps_first_page_only() {
    let heap = heap_with_frames(3);
    assert_eq!(heap.heap_top(), HEAP_BOTTOM);
    assert_eq!(heap.last_mapped_page(), HEAP_START_PAGE);
    assert_eq!(heap.frames_available(), 2);
    assert_eq!(
        heap.translate(HEAP_START_PAGE),
        Some(Mapping { frame: 102, writable: true, executable: false })
    );
    assert_eq!(heap.translate(HEAP_START_PAGE + 1), None);
}

#[test]
fn new_heap_fails_without_frames() {
    let r = Allocator::new(PageMapper::new(), FrameSupply::new(Vec::new()));
    assert!(matches!(r, Err(MemoryError::FrameExhaustion)));
}

#[test]
fn new_heap_fails_when_first_page_is_mapped() {
    let mut mapper = PageMapper::new();
    let mut frames = FrameSupply::new(vec![1, 2, 3]);
    mapper.map(HEAP_START_PAGE, true, false, &mut frames).unwrap();
    let r = Allocator::new(mapper, frames);
    assert!(matches!(r, Err(MemoryError::AlreadyMapped)));
}

#[test]
fn first_allocation_starts_at_heap_bottom() {
    let mut heap = heap_with_frames(1);
    assert_eq!(heap.allocate(16, 8), Ok(HEAP_BOTTOM));
    assert_eq!(heap.heap_top(), HEAP_BOTTOM + 16);
    assert_eq!(heap.last_mapped_page(), HEAP_START_PAGE);
    assert_eq!(heap.frames_available(), 0);
}

#[test]
fn allocations_are_aligned_and_do_not_overlap() {
    let mut heap = heap_with_frames(8);
    let requests: [(u64, u64); 6] = [(3, 1), (8, 8), (1, 64), (5000, 16), (1, 4096), (7, 2)];
    let mut blocks: Vec<(u64, u64)> = Vec::new();
    let mut top = heap.heap_top();
    for (size, align) in requests {
        let address = heap.allocate(size, align).unwrap();
        assert_eq!(address % align, 0);
        assert!(address >= top);
        assert!(address >= HEAP_BOTTOM);
        assert_eq!(heap.heap_top(), address + size);
        for (start, len) in &blocks {
            assert!(start + len <= address);
        }
        blocks.push((address, size));
        top = heap.heap_top();
    }
    assert_eq!(blocks[0], (HEAP_BOTTOM, 3));
    assert_eq!(blocks[1], (HEAP_BOTTOM + 8, 8));
    assert_eq!(blocks[2], (HEAP_BOTTOM + 64, 1));
    assert_eq!(blocks[3], (HEAP_BOTTOM + 80, 5000));
    assert_eq!(blocks[4], (HEAP_BOTTOM + 8192, 1));
    assert_eq!(blocks[5], (HEAP_BOTTOM + 8194, 7));
}

#[test]
fn growth_maps_every_page_up_to_the_top() {
    let mut heap = heap_with_frames(6);
    heap.allocate(3 * PAGE_SIZE + 1, 8).unwrap();
    assert_eq!(heap.last_mapped_page(), HEAP_START_PAGE + 3);
    assert_eq!(heap.frames_available(), 2);
    let last = page_containing(heap.heap_top() - 1);
    for page in HEAP_START_PAGE..=last {
        let mapping = heap.translate(page).unwrap();
        assert!(mapping.writable);
        assert!(!mapping.executable);
    }
    assert_eq!(heap.translate(HEAP_START_PAGE + 1).unwrap().frame, 104);
    assert_eq!(heap.translate(HEAP_START_PAGE + 2).unwrap().frame, 103);
    assert_eq!(heap.translate(HEAP_START_PAGE + 3).unwrap().frame, 102);
    assert_eq!(heap.translate(HEAP_START_PAGE + 4), None);
}

#[test]
fn allocation_ending_on_a_page_boundary_maps_no_further_page() {
    let mut heap = heap_with_frames(1);
    assert_eq!(heap.allocate(PAGE_SIZE, 1), Ok(HEAP_BOTTOM));
    assert_eq!(heap.last_mapped_page(), HEAP_START_PAGE);
    assert_eq!(heap.allocate(1, 1), Err(MemoryError::FrameExhaustion));
}

#[test]
fn exhaustion_leaves_marks_unchanged() {
    // One frame goes to the first page; three are left, four pages are needed.
    let mut heap = heap_with_frames(4);
    heap.allocate(100, 4).unwrap();
    let top = heap.heap_top();
    let r = heap.allocate(4 * PAGE_SIZE, 8);
    assert_eq!(r, Err(MemoryError::FrameExhaustion));
    assert_eq!(heap.heap_top(), top);
    assert_eq!(heap.last_mapped_page(), HEAP_START_PAGE);
    assert_eq!(heap.frames_available(), 0);
}

#[test]
fn growth_after_partial_mapping_reports_already_mapped() {
    let mut heap = heap_with_frames(2);
    assert_eq!(heap.allocate(3 * PAGE_SIZE, 8), Err(MemoryError::FrameExhaustion));
    assert!(heap.translate(HEAP_START_PAGE + 1).is_some());
    assert_eq!(heap.allocate(PAGE_SIZE + 1, 8), Err(MemoryError::AlreadyMapped));
    assert_eq!(heap.heap_top(), HEAP_BOTTOM);
    assert_eq!(heap.last_mapped_page(), HEAP_START_PAGE);
}

#[test]
fn deallocate_changes_nothing_and_nothing_is_reused() {
    let mut heap = heap_with_frames(3);
    let first = heap.allocate(64, 8).unwrap();
    let top = heap.heap_top();
    let last = heap.last_mapped_page();
    let frames = heap.frames_available();
    heap.deallocate(first, 64, 8);
    assert_eq!(heap.heap_top(), top);
    assert_eq!(heap.last_mapped_page(), last);
    assert_eq!(heap.frames_available(), frames);
    let second = heap.allocate(32, 8).unwrap();
    assert_ne!(second, first);
    assert_eq!(second, first + 64);
}

#[test]
fn reallocate_names_the_copy_into_a_fresh_block() {
    let mut heap = heap_with_frames(3);
    let old = heap.allocate(10, 1).unwrap();
    let moved = heap.reallocate(old, 10, 20, 16).unwrap();
    assert_eq!(
        moved,
        Relocation { address: HEAP_BOTTOM + 16, source: HEAP_BOTTOM, length: 10 }
    );
    assert_eq!(heap.heap_top(), HEAP_BOTTOM + 36);
}

#[test]
fn reallocate_copy_preserves_content() {
    let mut heap = heap_with_frames(3);
    let old = heap.allocate(4, 1).unwrap();
    let mut memory: Vec<u8> = vec![0; 64];
    memory[0..4].copy_from_slice(&[9, 8, 7, 6]);
    let moved = heap.reallocate(old, 4, 12, 8).unwrap();
    assert_eq!(moved.address, HEAP_BOTTOM + 8);
    assert!(moved.carry_out(&mut memory, HEAP_BOTTOM));
    assert_eq!(&memory[8..12], &[9, 8, 7, 6]);
    assert_eq!(&memory[0..4], &[9, 8, 7, 6]);
    assert_eq!(&memory[4..8], &[0, 0, 0, 0]);
    assert_eq!(&memory[12..20], &[0; 8]);
}

#[test]
fn carry_out_refuses_blocks_outside_memory() {
    let mut memory: Vec<u8> = vec![1, 2, 3, 4, 5, 6, 7, 8];
    let beyond = Relocation { address: 104, source: 100, length: 5 };
    assert!(!beyond.carry_out(&mut memory, 100));
    let below = Relocation { address: 104, source: 99, length: 2 };
    assert!(!below.carry_out(&mut memory, 100));
    let target_below = Relocation { address: 99, source: 100, length: 2 };
    assert!(!target_below.carry_out(&mut memory, 100));
    assert_eq!(memory, vec![1, 2, 3, 4, 5, 6, 7, 8]);
    let fits = Relocation { address: 104, source: 100, length: 4 };
    assert!(fits.carry_out(&mut memory, 100));
    assert_eq!(memory, vec![1, 2, 3, 4, 1, 2, 3, 4]);
}

#[test]
fn copy_block_reads_before_it_writes() {
    let mut forward: Vec<u8> = vec![1, 2, 3, 4, 5, 6];
    copy_block(&mut forward, 2, 0, 4);
    assert_eq!(forward, vec![1, 2, 1, 2, 3, 4]);
    let mut backward: Vec<u8> = vec![1, 2, 3, 4, 5, 6];
    copy_block(&mut backward, 0, 2, 4);
    assert_eq!(backward, vec![3, 4, 5, 6, 5, 6]);
    let mut nothing: Vec<u8> = vec![1, 2, 3];
    copy_block(&mut nothing, 3, 0, 0);
    assert_eq!(nothing, vec![1, 2, 3]);
}

#[test]
fn reallocate_fails_as_allocate_does() {
    let mut heap = heap_with_frames(1);
    let old = heap.allocate(8, 8).unwrap();
    let r = heap.reallocate(old, 8, 2 * PAGE_SIZE, 8);
    assert_eq!(r, Err(MemoryError::FrameExhaustion));
    assert_eq!(heap.heap_top(), HEAP_BOTTOM + 8);
}

#[test]
fn init_fills_the_slot_once() {
    let mut slot: Option<Allocator> = None;
    let r = init(&mut slot, PageMapper::new(), FrameSupply::new(vec![5, 6]));
    assert_eq!(r, Ok(()));
    assert_eq!(slot.as_ref().unwrap().heap_top(), HEAP_BOTTOM);
    assert_eq!(heap_allocate(&mut slot, 24, 8), Ok(HEAP_BOTTOM));
    let again = init(&mut slot, PageMapper::new(), FrameSupply::new(vec![7]));
    assert_eq!(again, Err(MemoryError::AlreadyInitialized));
    assert_eq!(slot.as_ref().unwrap().heap_top(), HEAP_BOTTOM + 24);
    assert_eq!(slot.as_ref().unwrap().frames_available(), 1);
}

#[test]
fn init_without_frames_leaves_the_slot_empty() {
    let mut slot: Option<Allocator> = None;
    let r = init(&mut slot, PageMapper::new(), FrameSupply::new(Vec::new()));
    assert_eq!(r, Err(MemoryError::FrameExhaustion));
    assert!(slot.is_none());
}

#[test]
fn heap_operations_before_init_fail() {
    let mut slot: Option<Allocator> = None;
    assert_eq!(heap_allocate(&mut slot, 8, 8), Err(MemoryError::Uninitialized));
    assert_eq!(heap_allocate(&mut slot, 0, 0), Err(MemoryError::Uninitialized));
    assert_eq!(heap_deallocate(&mut slot, HEAP_BOTTOM, 8, 8), Err(MemoryError::Uninitialized));
    assert!(slot.is_none());
}

#[test]
fn heap_deallocate_keeps_the_heap() {
    let mut slot: Option<Allocator> = None;
    init(&mut slot, PageMapper::new(), FrameSupply::new(vec![1, 2, 3])).unwrap();
    let block = heap_allocate(&mut slot, 5000, 8).unwrap();
    assert_eq!(heap_deallocate(&mut slot, block, 5000, 8), Ok(()));
    let heap = slot.as_ref().unwrap();
    assert_eq!(heap.heap_top(), HEAP_BOTTOM + 5000);
    assert_eq!(heap.last_mapped_page(), HEAP_START_PAGE + 1);
    assert_eq!(heap.frames_available(), 1);
}

#[test]
fn admits_tells_which_requests_fit() {
    let heap = heap_with_frames(1);
    assert!(heap.admits(1, 1));
    assert!(heap.admits(4096, 4096));
    assert!(!heap.admits(0, 8));
    assert!(!heap.admits(8, 0));
    assert!(heap.admits(u64::MAX - HEAP_BOTTOM, 1));
    assert!(!heap.admits(u64::MAX - HEAP_BOTTOM + 1, 1));
    assert!(heap.admits(1, 1 << 46));
    assert!(!heap.admits(1, 1 << 63));
    assert!(!heap.admits(1, u64::MAX));
    assert!(!heap.admits(1 << 63, 1 << 63));
}

#[test]
fn heap_reallocate_goes_through_the_slot() {
    let mut slot: Option<Allocator> = None;
    assert_eq!(heap_reallocate(&mut slot, HEAP_BOTTOM, 4, 8, 8), Err(MemoryError::Uninitialized));
    init(&mut slot, PageMapper::new(), FrameSupply::new(vec![1, 2])).unwrap();
    let old = heap_allocate(&mut slot, 4, 4).unwrap();
    assert_eq!(
        heap_reallocate(&mut slot, old, 4, 8, 8),
        Ok(Relocation { address: HEAP_BOTTOM + 8, source: HEAP_BOTTOM, length: 4 })
    );
    assert_eq!(heap_top_in(&slot), Some(HEAP_BOTTOM + 16));
}

#[test]
fn try_allocate_tests_the_request_first() {
    let mut slot: Option<Allocator> = None;
    assert_eq!(heap_try_allocate(&mut slot, 0, 8), Some(Err(MemoryError::Uninitialized)));
    assert_eq!(heap_try_allocate(&mut slot, 8, 0), Some(Err(MemoryError::Uninitialized)));
    assert_eq!(heap_try_allocate(&mut slot, 8, 8), Some(Err(MemoryError::Uninitialized)));
    assert_eq!(heap_try_allocate(&mut slot, u64::MAX, 1), Some(Err(MemoryError::Uninitialized)));
    assert!(slot.is_none());
    init(&mut slot, PageMapper::new(), FrameSupply::new(vec![1, 2])).unwrap();
    assert_eq!(heap_try_allocate(&mut slot, 0, 8), None);
    assert_eq!(heap_try_allocate(&mut slot, 8, 0), None);
    assert_eq!(heap_try_allocate(&mut slot, u64::MAX - HEAP_BOTTOM + 1, 1), None);
    assert_eq!(heap_top_in(&slot), Some(HEAP_BOTTOM));
    assert_eq!(slot.as_ref().unwrap().frames_available(), 1);
    assert_eq!(heap_try_allocate(&mut slot, 24, 8), Some(Ok(HEAP_BOTTOM)));
    assert_eq!(heap_try_allocate(&mut slot, PAGE_SIZE, 64), Some(Ok(HEAP_BOTTOM + 64)));
    assert_eq!(
        heap_try_allocate(&mut slot, PAGE_SIZE, 1),
        Some(Err(MemoryError::FrameExhaustion))
    );
    assert_eq!(heap_top_in(&slot), Some(HEAP_BOTTOM + 64 + PAGE_SIZE));
}

#[test]
fn try_reallocate_tests_the_request_first() {
    let mut slot: Option<Allocator> = None;
    assert_eq!(
        heap_try_reallocate(&mut slot, HEAP_BOTTOM, 4, 0, 8),
        Some(Err(MemoryError::Uninitialized))
    );
    assert_eq!(
        heap_try_reallocate(&mut slot, HEAP_BOTTOM, 4, 8, 0),
        Some(Err(MemoryError::Uninitialized))
    );
    assert_eq!(
        heap_try_reallocate(&mut slot, HEAP_BOTTOM, 4, 8, 8),
        Some(Err(MemoryError::Uninitialized))
    );
    init(&mut slot, PageMapper::new(), FrameSupply::new(vec![1])).unwrap();
    let old = heap_try_allocate(&mut slot, 6, 2).unwrap().unwrap();
    assert_eq!(heap_try_reallocate(&mut slot, old, 6, 12, 0), None);
    assert_eq!(heap_try_reallocate(&mut slot, old, 6, u64::MAX, 1), None);
    assert_eq!(heap_top_in(&slot), Some(HEAP_BOTTOM + 6));
    assert_eq!(
        heap_try_reallocate(&mut slot, old, 6, 12, 4),
        Some(Ok(Relocation { address: HEAP_BOTTOM + 8, source: HEAP_BOTTOM, length: 6 }))
    );
    assert_eq!(
        heap_try_reallocate(&mut slot, old, 6, PAGE_SIZE, 4),
        Some(Err(MemoryError::FrameExhaustion))
    );
    assert_eq!(heap_top_in(&slot), Some(HEAP_BOTTOM + 20));
}

#[test]
fn slot_readers_follow_the_heap() {
    let mut slot: Option<Allocator> = None;
    assert_eq!(heap_top_in(&slot), None);
    assert_eq!(last_mapped_page_in(&slot), None);
    assert_eq!(translate_in(&slot, HEAP_START_PAGE), None);
    init(&mut slot, PageMapper::new(), FrameSupply::new(vec![3, 4, 5])).unwrap();
    assert_eq!(heap_top_in(&slot), Some(HEAP_BOTTOM));
    assert_eq!(last_mapped_page_in(&slot), Some(HEAP_START_PAGE));
    assert_eq!(
        translate_in(&slot, HEAP_START_PAGE),
        Some(Mapping { frame: 5, writable: true, executable: false })
    );
    assert_eq!(translate_in(&slot, HEAP_START_PAGE + 1), None);
    heap_allocate(&mut slot, PAGE_SIZE + 1, 1).unwrap();
    assert_eq!(heap_top_in(&slot), Some(HEAP_BOTTOM + PAGE_SIZE + 1));
    assert_eq!(last_mapped_page_in(&slot), Some(HEAP_START_PAGE + 1));
    assert_eq!(
        translate_in(&slot, HEAP_START_PAGE + 1),
        Some(Mapping { frame: 4, writable: true, executable: false })
    );
}
