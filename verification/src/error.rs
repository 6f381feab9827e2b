//! The ways in which the memory core can fail.

use vstd::prelude::*;

verus! {

/// Why an operation of the memory core failed.
#[derive(Clone, Copy, Debug, PartialEq, Eq, Structural)]
pub enum MemoryError {
    /// A heap operation came before the heap was set up.
    Uninitialized,
    /// The heap was set up a second time.
    AlreadyInitialized,
    /// The frame supply had no frame left for a page that had to be mapped.
    FrameExhaustion,
    /// A page that had to be mapped was mapped already.
    AlreadyMapped,
}

} // verus!
