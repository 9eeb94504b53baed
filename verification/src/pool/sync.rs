//! A lock-free allocator pool over a bounded channel.
//!
//! When fetching an allocator, if there is no idle allocator in pool, a new
//! allocator is created. Otherwise, the idle allocator is reused.

use vstd::prelude::*;

use crossbeam_channel::{bounded, Receiver, Sender};

use super::allocator::{fresh_state, reused_state, state_wf, Allocator, MAX_ALLOC};
use super::{after_fetch, after_put, next_count};
use crate::error::{Error, Result};

verus! {

/// The two ends of a bounded channel of idle allocators. Both ends stay here,
/// so the channel is never disconnected while the pool lives.
#[verifier::external_body]
pub struct Inner {
    alloc_tx: Sender<Allocator>,
    alloc_rx: Receiver<Allocator>,
}

/// The allocators in the channel, oldest first.
pub uninterp spec fn channel_items(inner: Inner) -> Seq<Allocator>;

/// The capacity that the channel was made with.
pub uninterp spec fn channel_capacity(inner: Inner) -> nat;

/// What a send gives back: the value itself where it could not be sent.
pub type SendResult = core::result::Result<(), Allocator>;

impl Inner {
    /// `crossbeam_channel::bounded(cap)`: an empty channel of capacity `cap`;
    /// with `cap == 0` it holds nothing and is always full. It panics where the
    /// slot buffer would not be addressable (a slot takes less than 128 bytes).
    #[verifier::external_body]
    fn new(cap: usize) -> (r: Inner)
        requires
            cap <= usize::MAX / 256,
        ensures
            channel_items(r) == Seq::<Allocator>::empty(),
            channel_capacity(r) == cap,
    {
        let (alloc_tx, alloc_rx) = bounded(cap);
        Self { alloc_tx, alloc_rx }
    }

    /// `Receiver::try_recv`: takes the oldest allocator out of the channel, or
    /// gives `None` when there is none. A zero-capacity channel only hands
    /// over to a sender blocked at the same time, and no sender is: both ends
    /// are borrowed exclusively here. It does not panic.
    #[verifier::external_body]
    fn try_recv(&mut self) -> (r: Option<Allocator>)
        ensures
            channel_capacity(*final(self)) == channel_capacity(*old(self)),
            channel_items(*old(self)).len() == 0 ==> r is None && channel_items(*final(self))
                == channel_items(*old(self)),
            channel_items(*old(self)).len() > 0 ==> r == Some(channel_items(*old(self))[0])
                && channel_items(*final(self)) == channel_items(*old(self)).drop_first(),
        no_unwind
    {
        match self.alloc_rx.try_recv() {
            Ok(a) => Some(a),
            Err(_) => None,
        }
    }

    /// `Sender::is_full`: whether the channel holds as many allocators as its
    /// capacity (always, for a zero-capacity channel).
    #[verifier::external_body]
    fn is_full(&self) -> (r: bool)
        ensures
            r == (channel_items(*self).len() == channel_capacity(*self)),
    {
        self.alloc_tx.is_full()
    }

    /// `Sender::send` on a channel that is not full: the allocator is
    /// appended at once. `send` fails only on a disconnected channel, and the
    /// receiving end is held here, so it succeeds, without blocking and
    /// without panicking.
    #[verifier::external_body]
    fn send(&mut self, alloc: Allocator) -> (r: SendResult)
        requires
            channel_items(*old(self)).len() < channel_capacity(*old(self)),
        ensures
            channel_capacity(*final(self)) == channel_capacity(*old(self)),
            r is Ok,
            channel_items(*final(self)) == channel_items(*old(self)).push(alloc),
        no_unwind
    {
        match self.alloc_tx.send(alloc) {
            Ok(()) => Ok(()),
            Err(e) => Err(e.0),
        }
    }

    /// `Receiver::len`: the number of allocators in the channel.
    #[verifier::external_body]
    fn len(&self) -> (r: usize)
        ensures
            r == channel_items(*self).len(),
    {
        self.alloc_rx.len()
    }
}

/// Lock-free allocator pool.
///
/// When fetching an allocator, if there is no idle allocator in pool,
/// then will create a new allocator. Otherwise, it reuses the idle allocator.
pub struct AllocatorPool {
    num_fetches: u64,
    inner: Inner,
}

impl AllocatorPool {
    /// The idle allocators, oldest first.
    pub closed spec fn idle(&self) -> Seq<Allocator> {
        channel_items(self.inner)
    }

    /// The largest number of idle allocators the pool keeps.
    pub closed spec fn capacity(&self) -> nat {
        channel_capacity(self.inner)
    }

    /// The number of fetches so far, wrapping around.
    pub closed spec fn fetches(&self) -> u64 {
        self.num_fetches
    }

    /// A pool never holds more idle allocators than its capacity.
    #[verifier::type_invariant]
    closed spec fn within_capacity(self) -> bool {
        self.idle().len() <= self.capacity()
    }


    /// Creates a new pool without auto free idle allocators
    pub fn new(cap: usize) -> (p: Self)
        requires
            cap <= usize::MAX / 256,
        ensures
            p.idle() == Seq::<Allocator>::empty(),
            p.capacity() == cap,
            p.fetches() == 0,
    {
        AllocatorPool { num_fetches: 0, inner: Inner::new(cap) }
    }

    /// Try to fetch an allocator, if there is no idle allocator in pool,
    /// then the function will create a new allocator.
    pub fn fetch(&mut self, size: usize, tag: &'static str) -> (r: Result<Allocator>)
        ensures
            final(self).capacity() == old(self).capacity(),
            final(self).fetches() == next_count(old(self).fetches()),
            final(self).idle() == after_fetch(old(self).idle()),
            old(self).idle().len() > 0 ==> {
                &&& r matches Ok(a) && state_wf(a@) && a.spec_tag() == tag && a@ == reused_state(
                    old(self).idle()[0]@,
                    tag@,
                )
            },
            old(self).idle().len() == 0 ==> {
                &&& r is Ok <==> size <= MAX_ALLOC
                &&& r matches Ok(a) ==> state_wf(a@) && a.spec_tag() == tag && a@ == fresh_state(
                    size as nat,
                    tag@,
                )
                &&& r matches Err(e) ==> e == Error::Overflow(size as u64)
            },
    {
        proof {
            use_type_invariant(&*self);
        }
        self.num_fetches = self.num_fetches.wrapping_add(1);
        match self.inner.try_recv() {
            Some(mut a) => {
                a.reset();
                a.set_tag(tag);
                Ok(a)
            },
            None => Allocator::new(size, tag),
        }
    }

    /// Put an allocator back into the pool. When the pool is full the
    /// allocator is released instead.
    pub fn put(&mut self, alloc: Allocator)
        ensures
            final(self).capacity() == old(self).capacity(),
            final(self).fetches() == old(self).fetches(),
            final(self).idle() == after_put(old(self).idle(), old(self).capacity(), alloc),
    {
        proof {
            use_type_invariant(&*self);
        }
        if !self.inner.is_full() {
            if let Err(a) = self.inner.send(alloc) {
                a.release();
            }
        }
    }

    /// Returns how many idle allocators in the pool.
    pub fn idle_allocators(&self) -> (r: usize)
        ensures
            r == self.idle().len(),
            r <= self.capacity(),
    {
        proof {
            use_type_invariant(self);
        }
        self.inner.len()
    }

    /// The number of fetches so far, wrapping around.
    pub fn num_fetches(&self) -> (r: u64)
        ensures
            r == self.fetches(),
    {
        self.num_fetches
    }

    /// Releases the oldest idle allocator, if there is one. Returns whether
    /// there was.
    pub fn release_idle(&mut self) -> (r: bool)
        ensures
            final(self).capacity() == old(self).capacity(),
            final(self).fetches() == old(self).fetches(),
            r == (old(self).idle().len() > 0),
            final(self).idle() == after_fetch(old(self).idle()),
    {
        proof {
            use_type_invariant(&*self);
        }
        match self.inner.try_recv() {
            Some(a) => {
                a.release();
                true
            },
            None => false,
        }
    }

    /// Releases every idle allocator.
    pub fn release_all(&mut self)
        ensures
            final(self).capacity() == old(self).capacity(),
            final(self).fetches() == old(self).fetches(),
            final(self).idle().len() == 0,
    {
        let mut more = true;
        while more
            invariant
                self.capacity() == old(self).capacity(),
                self.fetches() == old(self).fetches(),
                !more ==> self.idle().len() == 0,
            decreases self.idle().len() + if more { 1int } else { 0int },
        {
            more = self.release_idle();
        }
    }
}

} // verus!
