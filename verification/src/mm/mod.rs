//! Physical frames, page tables and kernel stacks.

pub mod frame_alloc;
pub mod page;
pub mod stack;
pub mod types;
