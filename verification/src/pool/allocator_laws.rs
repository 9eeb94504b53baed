use vstd::prelude::*;

use super::allocator::{
    aligned_allocated, alloc_buffer, alloc_offset, alloc_page, allocated, can_allocate, capacity,
    contents, copied, fits, in_bounds, is_nop, kept_pages, lemma_align_up,
    lemma_allocation_in_bounds, lemma_first_fit, lemma_grow_ge, lemma_grow_tight, lemma_sum_lens_mono,
    lemma_sum_lens_prefix, lemma_sum_lens_push, min_nat, new_page_len, reset_state, state_wf,
    sum_lens, truncated, used, write_pages, zeros, AllocState, Buffer, ALIGNMENT, MAX_ALLOC,
};

verus! {

/// Whether byte `off` of page `page` is taken: it lies before the allocation point.
pub open spec fn taken(s: AllocState, page: nat, off: nat) -> bool {
    page < s.cur || (page == s.cur && off < s.pos)
}

/// Whether two buffers share no byte.
pub open spec fn disjoint(b1: Buffer, b2: Buffer) -> bool {
    b1.len == 0 || b2.len == 0 || b1.page != b2.page || b1.offset + b1.len <= b2.offset || b2.offset
        + b2.len <= b1.offset
}

/// An operation of an allocator that may change it, other than `reset`,
/// `truncate` and `release`.
pub enum AllocOp {
    /// `allocate(n)` (also `allocate_unchecked`).
    Allocate(nat),
    /// `allocate_aligned(n)` (also `allocate_aligned_unchecked`).
    AllocateAligned(nat),
    /// `copy_from(data)`.
    CopyFrom(Seq<u8>),
    /// `write(buf, data)`.
    Write(Buffer, Seq<u8>),
    /// `set_tag(tag)`.
    SetTag(Seq<char>),
}

/// Whether an operation succeeds: a refused one leaves the allocator unchanged.
pub open spec fn op_ok(s: AllocState, op: AllocOp) -> bool {
    match op {
        AllocOp::Allocate(n) => can_allocate(s, n, false),
        AllocOp::AllocateAligned(n) => can_allocate(s, n, true),
        AllocOp::CopyFrom(d) => can_allocate(s, d.len(), false),
        AllocOp::Write(b, d) => in_bounds(s, b) && d.len() == b.len,
        AllocOp::SetTag(_) => true,
    }
}

/// The state after an operation, as the contract of its function gives it.
pub open spec fn apply_op(s: AllocState, op: AllocOp) -> AllocState {
    if !op_ok(s, op) {
        s
    } else {
        match op {
            AllocOp::Allocate(n) => allocated(s, n, false),
            AllocOp::AllocateAligned(n) => aligned_allocated(s, n),
            AllocOp::CopyFrom(d) => copied(s, d),
            AllocOp::Write(b, d) => AllocState {
                pages: write_pages(s.pages, b.page as nat, b.offset as nat, d),
                ..s
            },
            AllocOp::SetTag(t) => AllocState { tag: t, ..s },
        }
    }
}

/// The state after the operations `ops`, in order.
pub open spec fn after_ops(s: AllocState, ops: Seq<AllocOp>) -> AllocState
    decreases ops.len(),
{
    if ops.len() == 0 {
        s
    } else {
        apply_op(after_ops(s, ops.drop_last()), ops.last())
    }
}

/// A write inside the memory keeps the allocator well formed and every page
/// length.
proof fn lemma_write_keeps_wf(s: AllocState, page: nat, off: nat, data: Seq<u8>)
    requires
        state_wf(s),
        page < s.pages.len(),
        off + data.len() <= s.pages[page as int].len(),
    ensures
        ({
            let w = AllocState { pages: write_pages(s.pages, page, off, data), ..s };
            &&& state_wf(w)
            &&& forall|i: int| 0 <= i < s.pages.len() ==> #[trigger] w.pages[i].len() == s.pages[i].len()
        }),
{
    let w = AllocState { pages: write_pages(s.pages, page, off, data), ..s };
    assert forall|i: int| 0 <= i < s.pages.len() implies #[trigger] w.pages[i].len() == s.pages[i].len() by {}
    lemma_sum_lens_prefix(w.pages, s.pages, s.pages.len());
}

/// Every operation keeps the allocator well formed and every taken byte taken.
pub proof fn law_op_keeps_taken(s: AllocState, op: AllocOp)
    requires
        state_wf(s),
    ensures
        state_wf(apply_op(s, op)),
        forall|p: nat, o: nat| taken(s, p, o) ==> #[trigger] taken(apply_op(s, op), p, o),
{
    if op_ok(s, op) {
        match op {
            AllocOp::Allocate(n) => {
                law_allocation_is_fresh(s, n, false);
            },
            AllocOp::AllocateAligned(n) => {
                law_allocation_is_fresh(s, n, true);
                if n > 0 {
                    lemma_allocation_in_bounds(s, n, true);
                    lemma_write_keeps_wf(allocated(s, n, true), alloc_page(s, n, true), alloc_offset(s, n, true), zeros(n));
                }
            },
            AllocOp::CopyFrom(d) => {
                law_allocation_is_fresh(s, d.len(), false);
                if d.len() > 0 {
                    lemma_allocation_in_bounds(s, d.len(), false);
                    lemma_write_keeps_wf(
                        allocated(s, d.len(), false),
                        alloc_page(s, d.len(), false),
                        alloc_offset(s, d.len(), false),
                        d,
                    );
                }
            },
            AllocOp::Write(b, d) => {
                lemma_write_keeps_wf(s, b.page as nat, b.offset as nat, d);
            },
            AllocOp::SetTag(_) => {},
        }
        let t = apply_op(s, op);
        assert forall|p: nat, o: nat| taken(s, p, o) implies #[trigger] taken(t, p, o) by {
            match op {
                AllocOp::Allocate(n) => {
                    assert(taken(allocated(s, n, false), p, o));
                },
                AllocOp::AllocateAligned(n) => {
                    assert(taken(allocated(s, n, true), p, o));
                },
                AllocOp::CopyFrom(d) => {
                    assert(taken(allocated(s, d.len(), false), p, o));
                },
                _ => {},
            }
        }
    }
}

/// Bytes once taken stay taken through any run of operations other than
/// `reset`, `truncate` and `release`, and the allocator stays well formed.
pub proof fn law_taken_persists(s: AllocState, ops: Seq<AllocOp>)
    requires
        state_wf(s),
    ensures
        state_wf(after_ops(s, ops)),
        forall|p: nat, o: nat| taken(s, p, o) ==> #[trigger] taken(after_ops(s, ops), p, o),
    decreases ops.len(),
{
    if ops.len() > 0 {
        law_taken_persists(s, ops.drop_last());
        law_op_keeps_taken(after_ops(s, ops.drop_last()), ops.last());
    }
}

/// An allocation hands out bytes that were not taken before it, takes them,
/// and keeps every byte that was taken taken.
pub proof fn law_allocation_is_fresh(s: AllocState, sz: nat, al: bool)
    requires
        state_wf(s),
        can_allocate(s, sz, al),
    ensures
        state_wf(allocated(s, sz, al)),
        forall|o: nat|
            alloc_offset(s, sz, al) <= o < alloc_offset(s, sz, al) + sz ==> !taken(
                s,
                alloc_page(s, sz, al),
                o,
            ) && #[trigger] taken(allocated(s, sz, al), alloc_page(s, sz, al), o),
        forall|p: nat, o: nat| taken(s, p, o) ==> #[trigger] taken(allocated(s, sz, al), p, o),
{
    if !is_nop(sz, al) {
        lemma_first_fit(s, sz, s.cur, al);
        lemma_allocation_in_bounds(s, sz, al);
        if al {
            lemma_align_up(s.pos);
        }
    }
}

/// Until the next reset or truncation, the buffers that an allocator hands
/// out never overlap: a buffer handed out (by `allocate`, `allocate_aligned`
/// or `copy_from`) before any run of further operations other than `reset`,
/// `truncate` and `release` (allocations, copies, writes, tag changes) shares
/// no byte with the one handed out after them.
pub proof fn law_buffers_never_overlap(
    s: AllocState,
    sz1: nat,
    al1: bool,
    b1: Buffer,
    mid: Seq<AllocOp>,
    sz2: nat,
    al2: bool,
    b2: Buffer,
)
    requires
        state_wf(s),
        can_allocate(s, sz1, al1),
        alloc_buffer(s, sz1, al1, b1),
        can_allocate(after_ops(allocated(s, sz1, al1), mid), sz2, al2),
        alloc_buffer(after_ops(allocated(s, sz1, al1), mid), sz2, al2, b2),
    ensures
        disjoint(b1, b2),
{
    let s1 = allocated(s, sz1, al1);
    let s2 = after_ops(s1, mid);
    law_allocation_is_fresh(s, sz1, al1);
    law_taken_persists(s1, mid);
    law_allocation_is_fresh(s2, sz2, al2);
    if !disjoint(b1, b2) {
        let o: nat = if b1.offset <= b2.offset {
            b2.offset as nat
        } else {
            b1.offset as nat
        };
        let p1 = alloc_page(s, sz1, al1);
        let p2 = alloc_page(s2, sz2, al2);
        assert(taken(allocated(s, sz1, al1), p1, o));
        assert(taken(s2, p1, o));
        assert(taken(allocated(s2, sz2, al2), p2, o));
        assert(!taken(s2, p2, o));
    }
}

/// Writing into a buffer keeps the bytes of every buffer that does not
/// overlap it.
pub proof fn law_write_keeps_other_buffers(s: AllocState, b1: Buffer, data: Seq<u8>, b2: Buffer)
    requires
        in_bounds(s, b1),
        in_bounds(s, b2),
        data.len() == b1.len,
        disjoint(b1, b2),
    ensures
        ({
            let w = AllocState { pages: write_pages(s.pages, b1.page as nat, b1.offset as nat, data), ..s };
            in_bounds(w, b2) && contents(w, b2) == contents(s, b2)
        }),
{
    let w = AllocState { pages: write_pages(s.pages, b1.page as nat, b1.offset as nat, data), ..s };
    assert(contents(w, b2) =~= contents(s, b2));
}

/// An allocation keeps the bytes of every buffer that lay inside the memory before it.
pub proof fn law_allocation_keeps_contents(s: AllocState, sz: nat, al: bool, b: Buffer)
    requires
        state_wf(s),
        can_allocate(s, sz, al),
        in_bounds(s, b),
    ensures
        in_bounds(allocated(s, sz, al), b),
        contents(allocated(s, sz, al), b) == contents(s, b),
{
}

/// An allocation of `sz` bytes raises the size of the allocations by at least
/// `sz`, and by exactly `sz` where an unaligned allocation fits at the
/// allocation point.
pub proof fn law_allocation_grows_size(s: AllocState, sz: nat, al: bool)
    requires
        state_wf(s),
        can_allocate(s, sz, al),
    ensures
        used(allocated(s, sz, al)) >= used(s) + sz,
        !al && s.cur < s.pages.len() && s.pos + sz <= s.pages[s.cur as int].len() ==> used(
            allocated(s, sz, al),
        ) == used(s) + sz,
{
    if !is_nop(sz, al) {
        lemma_first_fit(s, sz, s.cur, al);
        let s1 = allocated(s, sz, al);
        let j = alloc_page(s, sz, al);
        if al {
            lemma_align_up(s.pos);
        }
        if j < s.pages.len() {
            assert(s1.pages == s.pages);
        } else {
            lemma_sum_lens_push(s.pages, zeros(new_page_len(s, sz)));
        }
        if j > s.cur {
            lemma_sum_lens_mono(s1.pages, s.cur + 1, j);
            assert(sum_lens(s1.pages, s.cur + 1) == sum_lens(s.pages, s.cur) + s.pages[s.cur as int].len());
        }
    }
}

/// Every allocation of at most `MAX_ALLOC` bytes succeeds while the pages
/// total at most `usize::MAX - MAX_ALLOC` bytes.
pub proof fn law_allocation_succeeds(s: AllocState, sz: nat, al: bool)
    requires
        state_wf(s),
        sz <= MAX_ALLOC,
        capacity(s) + MAX_ALLOC <= usize::MAX,
    ensures
        can_allocate(s, sz, al),
{
}

/// A page that is added for `sz` bytes holds them, is at most `MAX_ALLOC`
/// bytes, and is at least twice the last page (the first page's length for
/// an allocator without pages) unless that would pass `MAX_ALLOC`.
pub proof fn law_page_growth(s: AllocState, sz: nat)
    requires
        state_wf(s),
        sz <= MAX_ALLOC,
    ensures
        sz <= new_page_len(s, sz) <= MAX_ALLOC,
        s.pages.len() > 0 ==> new_page_len(s, sz) >= min_nat(2 * s.pages.last().len(), MAX_ALLOC as nat),
        s.pages.len() == 0 ==> new_page_len(s, sz) >= s.first_page_len,
        s.pages.len() > 0 ==> new_page_len(s, sz) <= 2 * s.pages.last().len() || new_page_len(s, sz)
            < 2 * sz,
        s.pages.len() == 0 ==> new_page_len(s, sz) <= s.first_page_len || new_page_len(s, sz) < 2
            * sz,
{
    let base = if s.pages.len() == 0 {
        s.first_page_len
    } else {
        2 * s.pages.last().len()
    };
    if s.pages.len() > 0 {
        assert(s.pages.last() == s.pages[s.pages.len() - 1]);
    }
    lemma_grow_ge(base, sz);
    lemma_grow_tight(base, sz);
}

/// After a reset the size of the allocations is zero, and the pages are kept
/// for reuse.
pub proof fn law_reset_empties(s: AllocState)
    requires
        state_wf(s),
    ensures
        state_wf(reset_state(s)),
        used(reset_state(s)) == 0,
        reset_state(s).pages == s.pages,
{
}

/// What a write puts into a buffer is what a read of it gives back, and the
/// other pages are left alone.
pub proof fn law_read_after_write(s: AllocState, b: Buffer, data: Seq<u8>)
    requires
        in_bounds(s, b),
        data.len() == b.len,
    ensures
        ({
            let w = AllocState { pages: write_pages(s.pages, b.page as nat, b.offset as nat, data), ..s };
            &&& in_bounds(w, b)
            &&& contents(w, b) == data
            &&& forall|i: int| 0 <= i < s.pages.len() && i != b.page ==> #[trigger] w.pages[i] == s.pages[i]
        }),
{
    let w = AllocState { pages: write_pages(s.pages, b.page as nat, b.offset as nat, data), ..s };
    assert(contents(w, b) =~= data);
}

/// The buffer that `copy_from(data)` hands out holds `data`.
pub proof fn law_copy_from_holds_data(s: AllocState, data: Seq<u8>, b: Buffer)
    requires
        state_wf(s),
        can_allocate(s, data.len(), false),
        alloc_buffer(s, data.len(), false, b),
    ensures
        data.len() > 0 ==> in_bounds(copied(s, data), b),
        contents(copied(s, data), b) == data,
{
    if data.len() > 0 {
        lemma_allocation_in_bounds(s, data.len(), false);
        law_read_after_write(allocated(s, data.len(), false), b, data);
    } else {
        assert(contents(copied(s, data), b) =~= data);
    }
}

/// The buffer that `allocate_aligned(size)` hands out starts at a multiple
/// of `ALIGNMENT`, lies inside the memory, and holds zeros.
pub proof fn law_aligned_allocation(s: AllocState, size: nat, b: Buffer)
    requires
        state_wf(s),
        can_allocate(s, size, true),
        alloc_buffer(s, size, true, b),
    ensures
        b.offset % ALIGNMENT == 0usize,
        in_bounds(aligned_allocated(s, size), b),
        contents(aligned_allocated(s, size), b) == zeros(size),
{
    lemma_allocation_in_bounds(s, size, true);
    lemma_first_fit(s, size, s.cur, true);
    if alloc_page(s, size, true) < s.pages.len() {
        lemma_align_up(if alloc_page(s, size, true) == s.cur { s.pos } else { 0 });
    }
    if size > 0 {
        law_read_after_write(allocated(s, size, true), b, zeros(size));
    } else {
        assert(contents(aligned_allocated(s, size), b) =~= zeros(size));
    }
}

/// Truncating to `max` keeps a prefix of the pages whose total length is
/// below `max` (or no page at all), frees a page only when keeping it would
/// have reached `max`, and never raises the size of the allocations or the
/// memory held.
pub proof fn law_truncate_bounds_memory(s: AllocState, max: nat)
    requires
        state_wf(s),
    ensures
        ({
            let t = truncated(s, max);
            let k = t.pages.len();
            &&& state_wf(t)
            &&& t.pages == s.pages.take(k as int)
            &&& t.tag == s.tag
            &&& (k == 0 || capacity(t) < max)
            &&& (k < s.pages.len() ==> sum_lens(s.pages, k + 1) >= max)
            &&& capacity(t) <= capacity(s)
            &&& used(t) <= used(s)
        }),
{
    let k = kept_pages(s.pages, max, 0);
    lemma_kept_pages(s.pages, max, 0);
    let t = truncated(s, max);
    assert(t.pages.len() == k);
    lemma_sum_lens_prefix(t.pages, s.pages, k);
    lemma_sum_lens_mono(s.pages, k, s.pages.len());
    assert(t.pages =~= s.pages.take(k as int));
    if k > 0 {
        let i = (k - 1) as nat;
        assert(sum_lens(s.pages, i + 1) < max);
    }
    if s.cur < k {
        lemma_sum_lens_prefix(t.pages, s.pages, s.cur);
    } else {
        lemma_sum_lens_mono(s.pages, k, s.cur);
    }
}

/// After truncating to `max` (and after a reset that follows), every
/// allocation of at most `MAX_ALLOC` bytes succeeds, as long as `max` leaves
/// room for one more page in a `usize`.
pub proof fn law_truncate_then_allocate(s: AllocState, max: nat, sz: nat, al: bool)
    requires
        state_wf(s),
        sz <= MAX_ALLOC,
        max + MAX_ALLOC <= usize::MAX,
    ensures
        can_allocate(truncated(s, max), sz, al),
        can_allocate(reset_state(truncated(s, max)), sz, al),
{
    law_truncate_bounds_memory(s, max);
    let t = truncated(s, max);
    if t.pages.len() == 0 {
        assert(capacity(t) == 0);
    }
    law_allocation_succeeds(t, sz, al);
    law_allocation_succeeds(reset_state(t), sz, al);
}

/// Whether page `j` has room for `sz` bytes from where an allocation in it
/// would start: the allocation point in the current page, the start of any
/// later page, rounded up to a multiple of 8 for an aligned allocation.
pub open spec fn page_has_room(s: AllocState, j: nat, sz: nat, al: bool) -> bool {
    let o: int = if j == s.cur {
        s.pos as int
    } else {
        0
    };
    let st: int = if al {
        o + (8 - o % 8) % 8
    } else {
        o
    };
    j < s.pages.len() && st + sz <= s.pages[j as int].len()
}

/// An allocation (aligned or not) goes to the first page, from the allocation
/// point on, that has room for it, and starts where an allocation in that
/// page starts; a page is added only when no page from the allocation point
/// on has room. So the pages that a reset makes free again are reused before
/// memory grows.
pub proof fn law_allocation_takes_first_page_with_room(s: AllocState, sz: nat, al: bool)
    requires
        state_wf(s),
        can_allocate(s, sz, al),
    ensures
        s.cur <= alloc_page(s, sz, al) <= s.pages.len(),
        forall|j: nat|
            s.cur <= j && #[trigger] page_has_room(s, j, sz, al) ==> alloc_page(s, sz, al) <= j,
        alloc_page(s, sz, al) < s.pages.len() ==> allocated(s, sz, al).pages == s.pages,
        !(sz == 0 && !al) && alloc_page(s, sz, al) == s.pages.len() ==> allocated(
            s,
            sz,
            al,
        ).pages == s.pages.push(Seq::new(new_page_len(s, sz), |i: int| 0u8)) && forall|j: nat|
            s.cur <= j ==> !#[trigger] page_has_room(s, j, sz, al),
        !(sz == 0 && !al) && alloc_page(s, sz, al) < s.pages.len() ==> page_has_room(
            s,
            alloc_page(s, sz, al),
            sz,
            al,
        ) && alloc_offset(s, sz, al) == (if alloc_page(s, sz, al) == s.cur {
            s.pos
        } else {
            0
        }) + (if al {
            (8 - (if alloc_page(s, sz, al) == s.cur {
                s.pos
            } else {
                0
            }) % 8) % 8
        } else {
            0
        }),
        allocated(s, sz, al).cur == alloc_page(s, sz, al),
        allocated(s, sz, al).pos == alloc_offset(s, sz, al) + sz,
{
    if !is_nop(sz, al) {
        lemma_first_fit(s, sz, s.cur, al);
        assert forall|j: nat| s.cur <= j && #[trigger] page_has_room(s, j, sz, al) implies alloc_page(
            s,
            sz,
            al,
        ) <= j by {
            if j < alloc_page(s, sz, al) {
                assert(fits(s, j, sz, al));
            }
        }
        if alloc_page(s, sz, al) < s.pages.len() {
            assert(fits(s, alloc_page(s, sz, al), sz, al));
        } else {
            assert forall|j: nat| s.cur <= j implies !#[trigger] page_has_room(s, j, sz, al) by {
                if j < s.pages.len() {
                    assert(!fits(s, j, sz, al));
                }
            }
        }
    } else {
        assert forall|j: nat| s.cur <= j && #[trigger] page_has_room(s, j, sz, al) implies alloc_page(
            s,
            sz,
            al,
        ) <= j by {}
    }
}

/// Truncation frees only the pages past the budget: where the page of the
/// allocation point is kept, the allocation point stays where it was and so
/// does the size of the allocations; the kept pages are unchanged.
pub proof fn law_truncate_keeps_allocation_point(s: AllocState, max: nat)
    requires
        state_wf(s),
    ensures
        ({
            let t = truncated(s, max);
            &&& t.pages == s.pages.take(t.pages.len() as int)
            &&& t.tag == s.tag
            &&& s.cur < t.pages.len() ==> t.cur == s.cur && t.pos == s.pos && used(t) == used(s)
            &&& s.cur >= t.pages.len() ==> t.cur == t.pages.len() && t.pos == 0
            &&& (t.pages.len() < s.pages.len() ==> sum_lens(s.pages, t.pages.len() + 1) >= max)
            &&& (forall|i: nat| i < t.pages.len() ==> #[trigger] sum_lens(s.pages, i + 1) < max)
        }),
{
    law_truncate_bounds_memory(s, max);
    let k = kept_pages(s.pages, max, 0);
    lemma_kept_pages(s.pages, max, 0);
    let t = truncated(s, max);
    if s.cur < k {
        lemma_sum_lens_prefix(t.pages, s.pages, s.cur);
    }
}

proof fn lemma_kept_pages(pages: Seq<Seq<u8>>, max: nat, j: nat)
    requires
        j <= pages.len(),
    ensures
        j <= kept_pages(pages, max, j) <= pages.len(),
        forall|i: nat| j <= i < kept_pages(pages, max, j) ==> #[trigger] sum_lens(pages, i + 1) < max,
        kept_pages(pages, max, j) < pages.len() ==> sum_lens(pages, kept_pages(pages, max, j) + 1)
            >= max,
    decreases pages.len() - j,
{
    if j < pages.len() && sum_lens(pages, j + 1) < max {
        lemma_kept_pages(pages, max, j + 1);
    }
}

} // verus!
