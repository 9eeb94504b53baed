//! Pools of arena allocators.
//!
//! An [`pool::Allocator`] amortizes the cost of small allocations by carving
//! them out of bigger pages; an [`pool::AllocatorPool`] keeps idle allocators
//! around so that their pages can be reused.

pub mod error;
pub mod pool;

pub use error::{Error, Result};
