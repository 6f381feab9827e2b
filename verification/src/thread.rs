//! Stacks for new threads: mapping a stack's pages, and writing the words
//! that the first switch to the thread pops.

use crate::error::MemoryError;
use crate::frames::FrameSupply;
use crate::layout::{page_start, INITIAL_FLAGS, PAGE_LIMIT, PAGE_SIZE, STACK_PAGES, WORD_SIZE};
use crate::paging::{lemma_mappable_run, mappable_run, mapped_after, run_error, Mapping, PageMapper};
use vstd::bytes::{spec_u64_to_le_bytes, u64_to_le_bytes};
use vstd::prelude::*;

verus! {

/// Hands out stack regions, one after the other, from a region of the
/// address space that is its own.
pub struct StackProvisioner {
    next_page: u64,
}

/// The stack of a thread that has not run yet: its bounds, the stack pointer
/// and the words written so far, which lie from the pointer up to the top.
pub struct ThreadStack {
    top: u64,
    bottom: u64,
    pointer: u64,
    words: Vec<u64>,
}

/// What mapping a stack of `count` pages at page `cursor` does to the page
/// table and the frame supply, and what it returns: the address just above
/// the stack if every page got mapped, else what stopped the mapping.
pub open spec fn provision(
    cursor: int,
    count: nat,
    table: Map<u64, Mapping>,
    supply: Seq<u64>,
    table_after: Map<u64, Mapping>,
    supply_after: Seq<u64>,
    r: Result<u64, MemoryError>,
) -> bool {
    let run = mappable_run(table.dom(), cursor, count, supply.len());
    &&& table_after == mapped_after(table, supply, cursor, run, true, false)
    &&& supply_after == supply.take(supply.len() - run)
    &&& match r {
        Ok(top) => run == count && top == page_start(cursor + count),
        Err(e) => run < count && e == run_error(table.dom(), cursor, run),
    }
}

impl StackProvisioner {
    /// The page at which the next stack starts.
    pub closed spec fn cursor(&self) -> u64 {
        self.next_page
    }

    /// A provisioner whose first stack starts at page `first_page`.
    pub fn new(first_page: u64) -> (stacks: StackProvisioner)
        ensures
            stacks.cursor() == first_page,
    {
        StackProvisioner { next_page: first_page }
    }

    /// The page at which the next stack starts.
    pub fn next_page(&self) -> (page: u64)
        ensures
            page == self.cursor(),
    {
        self.next_page
    }

    /// Maps a stack of `page_count` pages, writable and not executable, and
    /// returns the address just above it. The region is used up whether or
    /// not the mapping succeeds, so that no later stack overlaps it.
    pub fn alloc_stack(
        &mut self,
        page_count: u64,
        mapper: &mut PageMapper,
        frames: &mut FrameSupply,
    ) -> (r: Result<u64, MemoryError>)
        requires
            old(self).cursor() + page_count < PAGE_LIMIT,
        ensures
            final(self).cursor() == old(self).cursor() + page_count,
            provision(
                old(self).cursor() as int,
                page_count as nat,
                old(mapper)@,
                old(frames)@,
                final(mapper)@,
                final(frames)@,
                r,
            ),
    {
        let first: u64 = self.next_page;
        self.next_page = first + page_count;
        proof {
            lemma_mappable_run(
                mapper@.dom(),
                first as int,
                page_count as nat,
                frames@.len(),
            );
        }
        match mapper.map_range(first, page_count, true, false, frames) {
            Err(e) => Err(e),
            Ok(()) => Ok((first + page_count) * PAGE_SIZE),
        }
    }
}

impl ThreadStack {
    /// The address just above the stack.
    pub closed spec fn top(&self) -> u64 {
        self.top
    }

    /// The lowest address of the stack.
    pub closed spec fn bottom(&self) -> u64 {
        self.bottom
    }

    /// The stack pointer.
    pub closed spec fn pointer(&self) -> u64 {
        self.pointer
    }

    /// The words on the stack, from the stack pointer upwards.
    pub closed spec fn image(&self) -> Seq<u64> {
        self.words@
    }

    /// The stack pointer lies within the stack, and the words written fill
    /// the space from it to the top.
    pub open spec fn wf(&self) -> bool {
        &&& self.bottom() <= self.pointer() <= self.top()
        &&& self.pointer() + WORD_SIZE * self.image().len() == self.top()
    }

    /// The word stored at `addr`, a word-aligned address from the stack
    /// pointer up.
    pub open spec fn word_at(&self, addr: int) -> u64
        recommends
            self.pointer() <= addr < self.top(),
            (addr - self.pointer()) % 8 == 0,
    {
        self.image()[(addr - self.pointer()) / 8]
    }

    /// The byte that lies `offset` bytes above the stack pointer: each word
    /// is stored with its lowest byte first.
    pub open spec fn image_byte(&self, offset: int) -> u8
        recommends
            0 <= offset < 8 * self.image().len(),
    {
        spec_u64_to_le_bytes(self.image()[offset / 8])[offset % 8]
    }

    /// An empty stack of `size` bytes below `top`.
    pub fn new(top: u64, size: u64) -> (stack: ThreadStack)
        requires
            size <= top,
        ensures
            stack.wf(),
            stack.top() == top,
            stack.bottom() == top - size,
            stack.pointer() == top,
            stack.image() == Seq::<u64>::empty(),
    {
        ThreadStack { top, bottom: top - size, pointer: top, words: Vec::new() }
    }

    /// The stack pointer: what the scheduler is given.
    pub fn stack_pointer(&self) -> (sp: u64)
        ensures
            sp == self.pointer(),
    {
        self.pointer
    }

    /// The address just above the stack.
    pub fn stack_top(&self) -> (top: u64)
        ensures
            top == self.top(),
    {
        self.top
    }

    /// The lowest address of the stack.
    pub fn stack_bottom(&self) -> (bottom: u64)
        ensures
            bottom == self.bottom(),
    {
        self.bottom
    }

    /// Moves the stack pointer down by one word and stores `word` there.
    /// Where less than a word is left above the bottom, nothing is written
    /// and the result is `false`.
    pub fn push(&mut self, word: u64) -> (pushed: bool)
        requires
            old(self).wf(),
        ensures
            final(self).wf(),
            final(self).top() == old(self).top(),
            final(self).bottom() == old(self).bottom(),
            pushed <==> old(self).pointer() - old(self).bottom() >= WORD_SIZE,
            pushed ==> final(self).pointer() == old(self).pointer() - WORD_SIZE && final(self).image()
                == old(self).image().insert(0, word),
            !pushed ==> final(self).pointer() == old(self).pointer() && final(self).image()
                == old(self).image(),
    {
        if self.pointer - self.bottom < WORD_SIZE {
            return false;
        }
        self.pointer = self.pointer - WORD_SIZE;
        self.words.insert(0, word);
        true
    }

    /// Writes the words of the stack into `region`, the stack's memory from
    /// its bottom to its top. The bytes below the stack pointer stay as they
    /// are. A region of another length is no view of this stack: nothing is
    /// written to it and the result is `false`.
    pub fn write_image(&self, region: &mut [u8]) -> (done: bool)
        requires
            self.wf(),
        ensures
            done <==> old(region)@.len() == self.top() - self.bottom(),
            final(region)@.len() == old(region)@.len(),
            forall|i: int|
                0 <= i < old(region)@.len() ==> #[trigger] final(region)@[i] == (if done && i
                    >= self.pointer() - self.bottom() {
                    self.image_byte(i - (self.pointer() - self.bottom()))
                } else {
                    old(region)@[i]
                }),
    {
        let ghost before = region@;
        let size: usize = region.len();
        if size as u64 != self.top - self.bottom {
            return false;
        }
        let start: usize = (self.pointer - self.bottom) as usize;
        let count: usize = self.words.len();
        let mut k: usize = 0;
        while k < count
            invariant
                self.wf(),
                before == old(region)@,
                region@.len() == size,
                before.len() == size,
                size == self.top() - self.bottom(),
                start == self.pointer() - self.bottom(),
                count == self.words@.len(),
                count == self.image().len(),
                start + 8 * count == size,
                k <= count,
                forall|i: int|
                    0 <= i < size ==> #[trigger] region@[i] == (if start <= i < start + 8 * k {
                        self.image_byte(i - start)
                    } else {
                        before[i]
                    }),
            decreases count - k,
        {
            let bytes = u64_to_le_bytes(self.words[k]);
            let mut b: usize = 0;
            while b < 8
                invariant
                    before.len() == size,
                    region@.len() == size,
                    start + 8 * count == size,
                    count == self.image().len(),
                    k < count,
                    b <= 8,
                    bytes@ == spec_u64_to_le_bytes(self.image()[k as int]),
                    bytes@.len() == 8,
                    forall|i: int|
                        0 <= i < size ==> #[trigger] region@[i] == (if start <= i < start + 8 * k
                            + b {
                            self.image_byte(i - start)
                        } else {
                            before[i]
                        }),
                decreases 8 - b,
            {
                let byte: u8 = bytes[b];
                region[start + 8 * k + b] = byte;
                proof {
                    let at = (8 * k + b) as int;
                    assert(at / 8 == k && at % 8 == b);
                    assert(self.image_byte(at) == byte);
                }
                b = b + 1;
            }
            k = k + 1;
        }
        true
    }

    /// The word stored at `addr`, or `None` where `addr` is not the address
    /// of a word written to the stack.
    pub fn read_word(&self, addr: u64) -> (word: Option<u64>)
        requires
            self.wf(),
        ensures
            word.is_some() <==> self.pointer() <= addr < self.top() && (addr - self.pointer())
                % 8 == 0,
            word matches Some(w) ==> w == self.word_at(addr as int),
    {
        if addr < self.pointer || addr >= self.top {
            return None;
        }
        let offset: u64 = addr - self.pointer;
        if offset % WORD_SIZE != 0 {
            return None;
        }
        let index: u64 = offset / WORD_SIZE;
        let len: usize = self.words.len();
        assert(index < len);
        Some(self.words[index as usize])
    }
}

/// Sets up the stack of a thread that starts at `entry`: maps a fresh stack
/// and pushes the entry point, then the initial flags, so that a switch to
/// the thread pops the flags first and then jumps to the entry point.
pub fn create_thread(
    entry: u64,
    stacks: &mut StackProvisioner,
    mapper: &mut PageMapper,
    frames: &mut FrameSupply,
) -> (r: Result<ThreadStack, MemoryError>)
    requires
        old(stacks).cursor() + STACK_PAGES < PAGE_LIMIT,
    ensures
        final(stacks).cursor() == old(stacks).cursor() + STACK_PAGES,
        provision(
            old(stacks).cursor() as int,
            STACK_PAGES as nat,
            old(mapper)@,
            old(frames)@,
            final(mapper)@,
            final(frames)@,
            match r {
                Ok(stack) => Ok(stack.top()),
                Err(e) => Err(e),
            },
        ),
        r matches Ok(stack) ==> {
            &&& stack.wf()
            &&& stack.bottom() == page_start(old(stacks).cursor() as int)
            &&& stack.top() == page_start(old(stacks).cursor() + STACK_PAGES)
            &&& stack.pointer() == stack.top() - 2 * WORD_SIZE
            &&& stack.image() == seq![INITIAL_FLAGS, entry]
            &&& stack.word_at(stack.top() - 16) == INITIAL_FLAGS
            &&& stack.word_at(stack.top() - 8) == entry
            &&& forall|p: u64|
                old(stacks).cursor() <= p < old(stacks).cursor() + STACK_PAGES 
                    ==> final(mapper)@.dom().contains(p)
        },
{
    let top: u64 = match stacks.alloc_stack(STACK_PAGES, mapper, frames) {
        Ok(top) => top,
        Err(e) => {
            return Err(e);
        },
    };
    let mut stack = ThreadStack::new(top, STACK_PAGES * PAGE_SIZE);
    let first = stack.push(entry);
    let second = stack.push(INITIAL_FLAGS);
    assert(first && second);
    assert(stack.image() =~= seq![INITIAL_FLAGS, entry]);
    Ok(stack)
}

/// Two stacks that were set up one after the other by the same provisioner,
/// the first at page `cursor` and the second at a cursor that the first
/// call or a later one left, share no address.
pub proof fn lemma_stacks_are_disjoint(
    first: ThreadStack,
    second: ThreadStack,
    cursor: u64,
    later: u64,
)
    requires
        first.bottom() == page_start(cursor as int),
        first.top() == page_start(cursor + STACK_PAGES),
        second.bottom() == page_start(later as int),
        cursor + STACK_PAGES <= later,
    ensures
        first.bottom() < first.top() <= second.bottom(),
{
}

} // verus!
