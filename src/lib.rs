//! The arithmetic and size-header rules of a C-style heap allocator shim:
//! validated alignments with rounding, and the layout that a block carries
//! from allocation to release.

pub mod align;
pub mod block;
