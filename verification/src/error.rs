use vstd::prelude::*;

verus! {

/// Why an allocation was refused.
#[derive(Debug, Clone, Copy, PartialEq, Eq, Structural)]
pub enum Error {
    /// The requested size is larger than the largest single allocation.
    Overflow(u64),
    /// A new page was needed, but the allocator's pages would then total more
    /// bytes than a `usize` counts.
    OutOfMemory,
}

/// The result type of the allocation functions.
pub type Result<T> = core::result::Result<T, Error>;

} // verus!
