use vstd::prelude::*;

use super::allocator::{
    first_page_len, fresh_state, lemma_grow_ge, lemma_grow_tight, reused_state, state_wf, used, zeros,
    AllocState, MAX_ALLOC, MIN_PAGE_SIZE,
};
use super::freeup::{step_action, FreeupAction, FreeupEvent};
use super::{after_fetch, after_put, next_count, Allocator};

verus! {

/// The fetch count after `n` more fetches.
pub open spec fn count_after(f: u64, n: nat) -> u64
    decreases n,
{
    if n == 0 {
        f
    } else {
        next_count(count_after(f, (n - 1) as nat))
    }
}

/// A pool never holds more idle allocators than its capacity: a new pool
/// holds none, and puts and fetches (releases take out like fetches) keep
/// the bound.
pub proof fn law_pool_stays_within_capacity(idle: Seq<Allocator>, cap: nat, a: Allocator)
    requires
        idle.len() <= cap,
    ensures
        after_put(idle, cap, a).len() <= cap,
        after_fetch(idle).len() <= cap,
        idle.len() < cap ==> after_put(idle, cap, a).len() == idle.len() + 1,
        idle.len() == cap ==> after_put(idle, cap, a) == idle,
        idle.len() > 0 ==> after_fetch(idle).len() == idle.len() - 1,
{
}

/// The idle allocators after `k` fetches.
pub open spec fn fetch_n(idle: Seq<Allocator>, k: nat) -> Seq<Allocator>
    decreases k,
{
    if k == 0 {
        idle
    } else {
        after_fetch(fetch_n(idle, (k - 1) as nat))
    }
}

proof fn lemma_fetch_n(idle: Seq<Allocator>, k: nat)
    requires
        k <= idle.len(),
    ensures
        fetch_n(idle, k) == idle.skip(k as int),
    decreases k,
{
    if k > 0 {
        lemma_fetch_n(idle, (k - 1) as nat);
        assert(idle.skip(k - 1).drop_first() =~= idle.skip(k as int));
    } else {
        assert(idle.skip(0) =~= idle);
    }
}

/// The idle allocators leave a pool in the order they came in: after a put
/// of `a` into a pool with room, the fetches that follow hand out the
/// allocators that were idle before, oldest first, and then `a`.
pub proof fn law_put_then_fetch_in_order(idle: Seq<Allocator>, cap: nat, a: Allocator)
    requires
        idle.len() < cap,
    ensures
        forall|i: nat| i < idle.len() ==> #[trigger] fetch_n(after_put(idle, cap, a), i)[0] == idle[i as int],
        fetch_n(after_put(idle, cap, a), idle.len()) == seq![a],
{
    let q = after_put(idle, cap, a);
    assert forall|i: nat| i < idle.len() implies #[trigger] fetch_n(q, i)[0] == idle[i as int] by {
        lemma_fetch_n(q, i);
    }
    lemma_fetch_n(q, idle.len());
    assert(q.skip(idle.len() as int) =~= seq![a]);
}

/// The idle allocators after `k` ticks of the background task that all see
/// the fetch count `f` (no fetch happens meanwhile), starting from a task that
/// last saw `last`: each tick that the task answers with a release takes out
/// the oldest idle allocator.
pub open spec fn quiet_ticks(idle: Seq<Allocator>, last: u64, awaits: bool, f: u64, k: nat) -> Seq<
    Allocator,
>
    decreases k,
{
    if k == 0 {
        idle
    } else {
        let prev = quiet_ticks(idle, last, awaits, f, (k - 1) as nat);
        let seen = if k == 1 {
            last
        } else {
            f
        };
        match step_action(seen, awaits, FreeupEvent::Tick(f)) {
            FreeupAction::Wait => prev,
            _ => after_fetch(prev),
        }
    }
}

/// A pool whose fetch count no longer changes, and into which nothing is put,
/// is emptied by the background task within one tick more than it has idle
/// allocators: the first tick may still see fetches made before, and every
/// later tick releases one.
pub proof fn law_quiet_pool_drains(idle: Seq<Allocator>, last: u64, awaits: bool, f: u64)
    ensures
        quiet_ticks(idle, last, awaits, f, idle.len() + 1).len() == 0,
{
    lemma_quiet_ticks(idle, last, awaits, f, idle.len() + 1);
}

proof fn lemma_quiet_ticks(idle: Seq<Allocator>, last: u64, awaits: bool, f: u64, k: nat)
    requires
        k >= 1,
    ensures
        quiet_ticks(idle, last, awaits, f, k).len() <= if idle.len() + 1 >= k {
            idle.len() + 1 - k
        } else {
            0
        },
    decreases k,
{
    let prev = quiet_ticks(idle, last, awaits, f, (k - 1) as nat);
    if k > 1 {
        lemma_quiet_ticks(idle, last, awaits, f, (k - 1) as nat);
        assert(step_action(f, awaits, FreeupEvent::Tick(f)) != FreeupAction::Wait);
        assert(quiet_ticks(idle, last, awaits, f, k) == after_fetch(prev));
    } else {
        assert(prev == idle);
    }
}

/// An allocator that a pool hands out again, under a new tag, reports no
/// allocation yet and keeps every page it had, so its memory is reused.
pub proof fn law_reused_allocator_is_empty(s: AllocState, tag: Seq<char>)
    requires
        state_wf(s),
    ensures
        state_wf(reused_state(s, tag)),
        used(reused_state(s, tag)) == 0,
        reused_state(s, tag).pages == s.pages,
        reused_state(s, tag).tag == tag,
{
}

/// A new allocator made for `size` bytes reports no allocation yet, and its
/// first page holds at least `size` bytes.
pub proof fn law_fresh_allocator_is_empty(size: nat, tag: Seq<char>)
    requires
        size <= MAX_ALLOC,
    ensures
        used(fresh_state(size, tag)) == 0,
        fresh_state(size, tag).pages.len() == 1,
        fresh_state(size, tag).pages[0] == zeros(first_page_len(size)),
        size <= first_page_len(size) <= MAX_ALLOC,
        MIN_PAGE_SIZE <= first_page_len(size),
        first_page_len(size) == MIN_PAGE_SIZE || first_page_len(size) < 2 * size,
{
    lemma_grow_ge(MIN_PAGE_SIZE as nat, size);
    lemma_grow_tight(MIN_PAGE_SIZE as nat, size);
}

/// The fetch count after `n` more fetches is the count before plus `n`,
/// modulo 2^64.
pub proof fn law_count_after_wraps(f: u64, n: nat)
    ensures
        count_after(f, n) as int == (f as int + n) % 0x1_0000_0000_0000_0000,
    decreases n,
{
    if n > 0 {
        law_count_after_wraps(f, (n - 1) as nat);
    }
}

/// A tick that comes after fetches (between 1 and 2^64 - 1 of them) since the
/// tick before holds back; a tick that comes after none releases.
pub proof fn law_busy_tick_holds_back(last: u64, awaits: bool, n: nat)
    requires
        n < 0x1_0000_0000_0000_0000,
    ensures
        n > 0 ==> step_action(last, awaits, FreeupEvent::Tick(count_after(last, n)))
            == FreeupAction::Wait,
        n == 0 ==> step_action(last, awaits, FreeupEvent::Tick(count_after(last, n)))
            != FreeupAction::Wait,
        step_action(last, awaits, FreeupEvent::Closed) == FreeupAction::ReleaseAllAndStop,
{
    if n > 0 {
        law_fetches_are_seen(last, n);
    }
}

/// Between 1 and 2^64 - 1 fetches always change the fetch count, so the
/// background task sees them and holds back its release.
pub proof fn law_fetches_are_seen(f: u64, n: nat)
    requires
        0 < n < 0x1_0000_0000_0000_0000,
    ensures
        count_after(f, n) != f,
{
    law_count_after_wraps(f, n);
}

} // verus!
