//! Pools of allocators: when fetching an allocator, if there is no idle
//! allocator in the pool, a new allocator is created; otherwise an idle one is
//! reused.

use vstd::prelude::*;

pub mod allocator;
pub mod allocator_laws;
pub mod freeup;
pub mod handle;
pub mod pool_laws;
pub mod queue;
pub mod sync;

pub use allocator::{Allocator, Buffer};
pub use freeup::{FreeupAction, FreeupEvent, FreeupProcessor};

use crossbeam_queue::ArrayQueue;

use crate::error::{Error, Result};
use allocator::{fresh_state, reused_state, state_wf, MAX_ALLOC};
use queue::{queue_capacity, queue_is_full, queue_items, queue_len, queue_new, queue_pop, queue_push};

verus! {

/// A handle is used to abort the background task, if any.
pub trait Handle {
    /// Abort the handle
    fn abort(self);
}

impl Handle for () {
    fn abort(self) {
    }
}

/// The fetch count after one more fetch; the count wraps around.
pub open spec fn next_count(n: u64) -> u64 {
    if n == u64::MAX {
        0
    } else {
        (n + 1) as u64
    }
}

/// The idle allocators after a put of `a` into a pool of capacity `cap`:
/// appended where there is room, dropped otherwise.
pub open spec fn after_put(idle: Seq<Allocator>, cap: nat, a: Allocator) -> Seq<Allocator> {
    if idle.len() < cap {
        idle.push(a)
    } else {
        idle
    }
}

/// The idle allocators after the oldest one was taken out, if there was one.
pub open spec fn after_fetch(idle: Seq<Allocator>) -> Seq<Allocator> {
    if idle.len() > 0 {
        idle.drop_first()
    } else {
        idle
    }
}

/// A pool of idle allocators of bounded capacity.
///
/// When fetching an allocator, if there is no idle allocator in the pool, a
/// new allocator is created. Otherwise the oldest idle allocator is reused.
#[derive(Debug)]
pub struct AllocatorPool {
    queue: ArrayQueue<Allocator>,
    num_fetches: u64,
}

impl AllocatorPool {
    /// The idle allocators, oldest first.
    pub closed spec fn idle(&self) -> Seq<Allocator> {
        queue_items(self.queue)
    }

    /// The largest number of idle allocators the pool keeps.
    pub closed spec fn capacity(&self) -> nat {
        queue_capacity(self.queue)
    }

    /// The number of fetches so far, wrapping around.
    pub closed spec fn fetches(&self) -> u64 {
        self.num_fetches
    }


    /// Creates a new pool without auto free idle allocators
    pub fn new(cap: usize) -> (p: Self)
        requires
            0 < cap <= usize::MAX / 256,
        ensures
            p.idle() == Seq::<Allocator>::empty(),
            p.capacity() == cap,
            p.fetches() == 0,
    {
        AllocatorPool { queue: queue_new(cap), num_fetches: 0 }
    }

    /// Try to fetch an allocator, if there is no idle allocator in pool,
    /// then the function will create a new allocator.
    pub fn fetch(&mut self, size: usize, tag: &'static str) -> (r: Result<Allocator>)
        ensures
            final(self).capacity() == old(self).capacity(),
            final(self).fetches() == next_count(old(self).fetches()),
            final(self).idle() == after_fetch(old(self).idle()),
            old(self).idle().len() > 0 ==> {
                &&& r matches Ok(a) && state_wf(a@) && a.spec_tag() == tag && a@ == reused_state(
                    old(self).idle()[0]@,
                    tag@,
                )
            },
            old(self).idle().len() == 0 ==> {
                &&& r is Ok <==> size <= MAX_ALLOC
                &&& r matches Ok(a) ==> state_wf(a@) && a.spec_tag() == tag && a@ == fresh_state(
                    size as nat,
                    tag@,
                )
                &&& r matches Err(e) ==> e == Error::Overflow(size as u64)
            },
    {
        self.num_fetches = self.num_fetches.wrapping_add(1);
        match queue_pop(&mut self.queue) {
            Some(mut alloc) => {
                alloc.set_tag(tag);
                alloc.reset();
                Ok(alloc)
            },
            None => Allocator::new(size, tag),
        }
    }

    /// Put an allocator back into the pool. When the pool is full the
    /// allocator is released instead.
    pub fn put(&mut self, alloc: Allocator)
        ensures
            final(self).capacity() == old(self).capacity(),
            final(self).fetches() == old(self).fetches(),
            final(self).idle() == after_put(old(self).idle(), old(self).capacity(), alloc),
    {
        if !queue_is_full(&self.queue) && alloc.can_put_back() {
            match queue_push(&mut self.queue, alloc) {
                Ok(()) => {},
                Err(alloc) => alloc.release(),
            }
        }
    }

    /// Returns how many idle allocators in the pool.
    pub fn idles(&self) -> (r: usize)
        ensures
            r == self.idle().len(),
            r <= self.capacity(),
    {
        queue_len(&self.queue)
    }

    /// The number of fetches so far, wrapping around.
    pub fn num_fetches(&self) -> (r: u64)
        ensures
            r == self.fetches(),
    {
        self.num_fetches
    }

    /// Releases the oldest idle allocator, if there is one. Returns whether
    /// there was.
    pub fn release_idle(&mut self) -> (r: bool)
        ensures
            final(self).capacity() == old(self).capacity(),
            final(self).fetches() == old(self).fetches(),
            r == (old(self).idle().len() > 0),
            final(self).idle() == after_fetch(old(self).idle()),
    {
        match queue_pop(&mut self.queue) {
            Some(alloc) => {
                alloc.release();
                true
            },
            None => false,
        }
    }

    /// Releases every idle allocator.
    pub fn release_all(&mut self)
        ensures
            final(self).capacity() == old(self).capacity(),
            final(self).fetches() == old(self).fetches(),
            final(self).idle().len() == 0,
    {
        let mut more = true;
        while more
            invariant
                self.capacity() == old(self).capacity(),
                self.fetches() == old(self).fetches(),
                !more ==> self.idle().len() == 0,
            decreases self.idle().len() + if more { 1int } else { 0int },
        {
            more = self.release_idle();
        }
    }
}

} // verus!
