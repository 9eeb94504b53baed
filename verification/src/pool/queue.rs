use vstd::prelude::*;

use crossbeam_queue::ArrayQueue;

use super::allocator::Allocator;

verus! {

/// `crossbeam_queue::ArrayQueue`, a bounded first-in first-out queue.
#[verifier::external_type_specification]
#[verifier::external_body]
#[verifier::reject_recursive_types(T)]
pub struct ExArrayQueue<T>(ArrayQueue<T>);

/// The allocators held by a queue, oldest first.
pub uninterp spec fn queue_items(q: ArrayQueue<Allocator>) -> Seq<Allocator>;

/// The capacity that a queue was made with.
pub uninterp spec fn queue_capacity(q: ArrayQueue<Allocator>) -> nat;

/// `ArrayQueue::new(cap)`: an empty queue of capacity `cap`. It panics when
/// `cap` is zero, or too large for the slot buffer to be addressable (a slot
/// of this queue takes less than 128 bytes).
#[verifier::external_body]
pub(crate) fn queue_new(cap: usize) -> (q: ArrayQueue<Allocator>)
    requires
        0 < cap <= usize::MAX / 256,
    ensures
        queue_items(q) == Seq::<Allocator>::empty(),
        queue_capacity(q) == cap,
{
    ArrayQueue::new(cap)
}

/// `ArrayQueue::pop`: takes the oldest item out of the queue, or gives `None`
/// when the queue is empty. With the queue borrowed exclusively, no other
/// thread pushes or pops meanwhile.
#[verifier::external_body]
pub(crate) fn queue_pop(q: &mut ArrayQueue<Allocator>) -> (r: Option<Allocator>)
    ensures
        queue_capacity(*final(q)) == queue_capacity(*old(q)),
        queue_items(*old(q)).len() == 0 ==> r is None && queue_items(*final(q)) == queue_items(
            *old(q),
        ),
        queue_items(*old(q)).len() > 0 ==> r == Some(queue_items(*old(q))[0]) && queue_items(
            *final(q),
        ) == queue_items(*old(q)).drop_first(),
{
    q.pop()
}

/// What a push gives back: the value itself when there was no room for it.
pub type PushResult = Result<(), Allocator>;

/// `ArrayQueue::push`: appends `value` when the queue holds fewer items than
/// its capacity, and hands it back as the error otherwise.
#[verifier::external_body]
pub(crate) fn queue_push(q: &mut ArrayQueue<Allocator>, value: Allocator) -> (r: PushResult)
    ensures
        queue_capacity(*final(q)) == queue_capacity(*old(q)),
        queue_items(*old(q)).len() < queue_capacity(*old(q)) ==> r is Ok && queue_items(*final(q))
            == queue_items(*old(q)).push(value),
        queue_items(*old(q)).len() >= queue_capacity(*old(q)) ==> r == PushResult::Err(value)
            && queue_items(*final(q)) == queue_items(*old(q)),
{
    q.push(value)
}

/// `ArrayQueue::is_full`: whether the queue holds as many items as its capacity.
#[verifier::external_body]
pub(crate) fn queue_is_full(q: &ArrayQueue<Allocator>) -> (r: bool)
    ensures
        r == (queue_items(*q).len() == queue_capacity(*q)),
{
    q.is_full()
}

/// `ArrayQueue::len`: the number of items in the queue, which is never more
/// than its capacity.
#[verifier::external_body]
pub(crate) fn queue_len(q: &ArrayQueue<Allocator>) -> (r: usize)
    ensures
        r == queue_items(*q).len(),
        r <= queue_capacity(*q),
{
    q.len()
}

} // verus!
