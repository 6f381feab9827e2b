//! Memory-management core of a small kernel: a frame-backed bump heap that
//! maps pages on demand, and the stack image a new thread starts from.

pub mod error;
pub mod layout;
pub mod memory;
pub mod frames;
pub mod paging;
pub mod allocator;
pub mod heap;
pub mod thread;
pub mod locked;
