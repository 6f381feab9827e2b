//! The page table as the allocator sees it: which virtual pages are mapped,
//! to which frame, and with which rights.

use crate::error::MemoryError;
use crate::frames::FrameSupply;
use crate::layout::PAGE_LIMIT;
use std::collections::HashMap;
use vstd::prelude::*;

verus! {

broadcast use vstd::std_specs::hash::group_hash_axioms;

/// What a mapped page points to.
#[derive(Clone, Copy, Debug, PartialEq, Eq, Structural)]
pub struct Mapping {
    pub frame: u64,
    pub writable: bool,
    pub executable: bool,
}

/// Number of pages that a request for `count` consecutive pages from `first`
/// gets mapped: pages are taken in ascending order, one frame each, until the
/// request is met, the frames run out, or a page turns out to be mapped.
pub open spec fn mappable_run(mapped: Set<u64>, first: int, count: nat, avail: nat) -> nat
    decreases count,
{
    if count == 0 || avail == 0 || mapped.contains(first as u64) {
        0
    } else {
        1 + mappable_run(mapped, first + 1, (count - 1) as nat, (avail - 1) as nat)
    }
}

/// The table after the `run` pages from `first` were mapped with the given
/// rights, page `first + i` to the frame `i` places below the top of `frames`.
pub open spec fn mapped_after(
    table: Map<u64, Mapping>,
    frames: Seq<u64>,
    first: int,
    run: nat,
    writable: bool,
    executable: bool,
) -> Map<u64, Mapping> {
    Map::new(
        |p: u64| table.dom().contains(p) || first <= p < first + run,
        |p: u64|
            if first <= p < first + run {
                Mapping { frame: frames[frames.len() - 1 - (p - first)], writable, executable }
            } else {
                table[p]
            },
    )
}

/// The error that ends a request which got only `run < count` pages mapped.
pub open spec fn run_error(mapped: Set<u64>, first: int, run: nat) -> MemoryError {
    if mapped.contains((first + run) as u64) {
        MemoryError::AlreadyMapped
    } else {
        MemoryError::FrameExhaustion
    }
}

/// What `mappable_run` stands for: the pages of the run were all unmapped, the
/// run is no longer than the request or the supply, and it stops short of the
/// request only at a mapped page or with the supply used up.
pub proof fn lemma_mappable_run(mapped: Set<u64>, first: int, count: nat, avail: nat)
    requires
        0 <= first,
        first + count <= u64::MAX,
    ensures
        mappable_run(mapped, first, count, avail) <= count,
        mappable_run(mapped, first, count, avail) <= avail,
        forall|p: u64|
            first <= p < first + mappable_run(mapped, first, count, avail) ==> !mapped.contains(p),
        mappable_run(mapped, first, count, avail) < count ==> mapped.contains(
            (first + mappable_run(mapped, first, count, avail)) as u64,
        ) || mappable_run(mapped, first, count, avail) == avail,
        (count <= avail && forall|p: u64| first <= p < first + count ==> !mapped.contains(p))
            ==> mappable_run(mapped, first, count, avail) == count,
    decreases count,
{
    if count == 0 || avail == 0 || mapped.contains(first as u64) {
    } else {
        lemma_mappable_run(mapped, first + 1, (count - 1) as nat, (avail - 1) as nat);
    }
}

/// Where no frame occurs twice in the supply, no two pages of a run share
/// a frame.
pub proof fn lemma_run_shares_no_frame(
    table: Map<u64, Mapping>,
    frames: Seq<u64>,
    first: int,
    run: nat,
    writable: bool,
    executable: bool,
    p: u64,
    q: u64,
)
    requires
        frames.no_duplicates(),
        run <= frames.len(),
        first <= p < first + run,
        first <= q < first + run,
        p != q,
    ensures
        mapped_after(table, frames, first, run, writable, executable)[p].frame != mapped_after(
            table,
            frames,
            first,
            run,
            writable,
            executable,
        )[q].frame,
{
}

/// The set of mapped pages with what each one points to.
pub struct PageMapper {
    table: HashMap<u64, Mapping>,
}

impl View for PageMapper {
    type V = Map<u64, Mapping>;

    closed spec fn view(&self) -> Map<u64, Mapping> {
        self.table@
    }
}

impl PageMapper {
    /// A table in which no page is mapped.
    pub fn new() -> (mapper: PageMapper)
        ensures
            mapper@ == Map::<u64, Mapping>::empty(),
    {
        PageMapper { table: HashMap::new() }
    }

    /// Whether `page` is mapped.
    pub fn is_mapped(&self, page: u64) -> (mapped: bool)
        ensures
            mapped == self@.dom().contains(page),
    {
        self.table.contains_key(&page)
    }

    /// What `page` is mapped to, if it is mapped.
    pub fn translate(&self, page: u64) -> (mapping: Option<Mapping>)
        ensures
            mapping == (if self@.dom().contains(page) {
                Some(self@[page])
            } else {
                None
            }),
    {
        match self.table.get(&page) {
            Some(m) => Some(*m),
            None => None,
        }
    }

    /// Maps `page` to the next frame of `frames` with the given rights. A page
    /// that is mapped already is refused before any frame is drawn; a failed
    /// call changes neither the table nor the supply.
    pub fn map(
        &mut self,
        page: u64,
        writable: bool,
        executable: bool,
        frames: &mut FrameSupply,
    ) -> (r: Result<(), MemoryError>)
        ensures
            old(self)@.dom().contains(page) ==> r == Err::<(), MemoryError>(MemoryError::AlreadyMapped),
            !old(self)@.dom().contains(page) && old(frames)@.len() == 0 ==> r == Err::<
                (),
                MemoryError,
            >(MemoryError::FrameExhaustion),
            !old(self)@.dom().contains(page) && old(frames)@.len() > 0 ==> r.is_ok(),
            r.is_err() ==> final(self)@ == old(self)@ && final(frames)@ == old(frames)@,
            r.is_ok() ==> final(self)@ == old(self)@.insert(
                page,
                Mapping { frame: old(frames)@.last(), writable, executable },
            ) && final(frames)@ == old(frames)@.drop_last(),
    {
        if self.table.contains_key(&page) {
            return Err(MemoryError::AlreadyMapped);
        }
        match frames.allocate_frame() {
            None => Err(MemoryError::FrameExhaustion),
            Some(frame) => {
                self.table.insert(page, Mapping { frame, writable, executable });
                Ok(())
            },
        }
    }

    /// Maps the `count` pages from `first` in ascending order, each to a frame
    /// of its own, and stops at the first page that cannot be mapped. The
    /// pages mapped before that one stay mapped and keep their frames.
    pub fn map_range(
        &mut self,
        first: u64,
        count: u64,
        writable: bool,
        executable: bool,
        frames: &mut FrameSupply,
    ) -> (r: Result<(), MemoryError>)
        requires
            first + count <= PAGE_LIMIT,
        ensures
            ({
                let run = mappable_run(
                    old(self)@.dom(),
                    first as int,
                    count as nat,
                    old(frames)@.len(),
                );
                &&& final(self)@ == mapped_after(
                    old(self)@,
                    old(frames)@,
                    first as int,
                    run,
                    writable,
                    executable,
                )
                &&& final(frames)@ == old(frames)@.take(old(frames)@.len() - run)
                &&& r.is_ok() <==> run == count
                &&& r.is_err() ==> r == Err::<(), MemoryError>(
                    run_error(old(self)@.dom(), first as int, run),
                )
            }),
    {
        let ghost table0 = self@;
        let ghost frames0 = frames@;
        let mut done: u64 = 0;
        while done < count
            invariant
                done <= count,
                first + count <= PAGE_LIMIT,
                table0 == old(self)@,
                frames0 == old(frames)@,
                done <= frames0.len(),
                self@ == mapped_after(table0, frames0, first as int, done as nat, writable, executable),
                frames@ == frames0.take(frames0.len() - done),
                mappable_run(table0.dom(), first as int, count as nat, frames0.len()) == done
                    + mappable_run(
                    table0.dom(),
                    first + done,
                    (count - done) as nat,
                    (frames0.len() - done) as nat,
                ),
            decreases count - done,
        {
            let page: u64 = first + done;
            let ghost before = self@;
            let ghost supply = frames@;
            match self.map(page, writable, executable, frames) {
                Err(e) => {
                    proof {
                        assert(before.dom().contains(page) == table0.dom().contains(page));
                        assert(supply.len() == frames0.len() - done);
                    }
                    return Err(e);
                },
                Ok(()) => {
                    proof {
                        assert(supply.len() == frames0.len() - done);
                        assert(self@ =~= mapped_after(
                            table0,
                            frames0,
                            first as int,
                            (done + 1) as nat,
                            writable,
                            executable,
                        ));
                        assert(frames@ =~= frames0.take(frames0.len() - (done + 1)));
                    }
                    done = done + 1;
                },
            }
        }
        Ok(())
    }
}

} // verus!
