//! Moving a block's content within a stretch of memory that is held as a
//! slice of bytes.

use vstd::prelude::*;

verus! {

/// The bytes after `length` of them were copied from offset `source` to
/// offset `target`, every byte read before any is written.
pub open spec fn copied(bytes: Seq<u8>, target: int, source: int, length: int) -> Seq<u8> {
    Seq::new(
        bytes.len(),
        |i: int|
            if target <= i < target + length {
                bytes[source + (i - target)]
            } else {
                bytes[i]
            },
    )
}

/// Copies `length` bytes from offset `source` to offset `target`. The two
/// blocks may overlap: the target gets what the source held before the call.
pub fn copy_block(memory: &mut [u8], target: usize, source: usize, length: usize)
    requires
        target + length <= old(memory)@.len(),
        source + length <= old(memory)@.len(),
    ensures
        final(memory)@ == copied(old(memory)@, target as int, source as int, length as int),
{
    let ghost before = memory@;
    let size: usize = memory.len();
    if target <= source {
        let mut i: usize = 0;
        while i < length
            invariant
                i <= length,
                target <= source,
                target + length <= before.len(),
                source + length <= before.len(),
                before == old(memory)@,
                before.len() == size,
                memory@.len() == before.len(),
                forall|k: int|
                    0 <= k < before.len() ==> #[trigger] memory@[k] == (if target <= k < target + i {
                        before[source + (k - target)]
                    } else {
                        before[k]
                    }),
            decreases length - i,
        {
            let byte: u8 = memory[source + i];
            memory[target + i] = byte;
            i = i + 1;
        }
    } else {
        let mut i: usize = length;
        while i > 0
            invariant
                i <= length,
                target > source,
                target + length <= before.len(),
                source + length <= before.len(),
                before == old(memory)@,
                before.len() == size,
                memory@.len() == before.len(),
                forall|k: int|
                    0 <= k < before.len() ==> #[trigger] memory@[k] == (if target + i <= k < target
                        + length {
                        before[source + (k - target)]
                    } else {
                        before[k]
                    }),
            decreases i,
        {
            i = i - 1;
            let byte: u8 = memory[source + i];
            memory[target + i] = byte;
        }
    }
    assert(memory@ =~= copied(before, target as int, source as int, length as int));
}

/// The copy that completes a reallocation: `length` bytes, from `source` to
/// `address`.
#[derive(Clone, Copy, Debug, PartialEq, Eq, Structural)]
pub struct Relocation {
    pub address: u64,
    pub source: u64,
    pub length: u64,
}

impl Relocation {
    /// Whether the old and the new block both lie within the `size` bytes
    /// of memory that start at address `base`.
    pub open spec fn within(self, base: int, size: int) -> bool {
        &&& base <= self.source
        &&& base <= self.address
        &&& self.source + self.length <= base + size
        &&& self.address + self.length <= base + size
    }

    /// Memory that starts at address `base`, after the copy.
    pub open spec fn apply(self, base: int, bytes: Seq<u8>) -> Seq<u8> {
        copied(bytes, self.address - base, self.source - base, self.length as int)
    }

    /// Carries the copy out in `memory`, which holds the bytes from address
    /// `base` on. Where a block reaches outside `memory` nothing is copied
    /// and the result is `false`.
    pub fn carry_out(&self, memory: &mut [u8], base: u64) -> (done: bool)
        ensures
            done <==> self.within(base as int, old(memory)@.len() as int),
            done ==> final(memory)@ == self.apply(base as int, old(memory)@),
            !done ==> final(memory)@ == old(memory)@,
    {
        let size: usize = memory.len();
        if self.source < base || self.address < base {
            return false;
        }
        let from: u64 = self.source - base;
        let to: u64 = self.address - base;
        let room: u64 = size as u64;
        if self.length > room || from > room - self.length || to > room - self.length {
            return false;
        }
        copy_block(memory, to as usize, from as usize, self.length as usize);
        true
    }
}

/// After the copy the new block holds, byte for byte, what the old block
/// held before it, and memory outside the new block is as it was.
pub proof fn lemma_relocation_preserves_content(
    moved: Relocation,
    base: int,
    bytes: Seq<u8>,
    i: int,
)
    requires
        moved.within(base, bytes.len() as int),
        0 <= i < bytes.len(),
    ensures
        moved.apply(base, bytes).len() == bytes.len(),
        i < moved.length ==> moved.apply(base, bytes)[moved.address - base + i] == bytes[moved.source
            - base + i],
        !(moved.address - base <= i < moved.address - base + moved.length) ==> moved.apply(
            base,
            bytes,
        )[i] == bytes[i],
{
}

} // verus!
