use vstd::prelude::*;

use crate::error::{Error, Result};

verus! {

/// The largest size of a single allocation, and of a single page.
pub const MAX_ALLOC: usize = 1073741824;

/// The smallest first page of an allocator.
pub const MIN_PAGE_SIZE: usize = 512;

/// The alignment, in bytes, of the buffers handed out by `allocate_aligned`.
pub const ALIGNMENT: usize = 8;

/// The abstract state of an allocator.
///
/// Memory is a sequence of pages. Allocations are carved, in order, out of
/// page `cur` starting at offset `pos`; every byte of the pages before `cur`,
/// and of page `cur` before `pos`, is taken.
pub struct AllocState {
    pub tag: Seq<char>,
    pub pages: Seq<Seq<u8>>,
    pub cur: nat,
    pub pos: nat,
    pub first_page_len: nat,
}

/// A region of an allocator's memory: `len` bytes of page `page` from `offset` on.
#[derive(Debug, Clone, Copy, PartialEq, Eq, Structural)]
pub struct Buffer {
    pub page: usize,
    pub offset: usize,
    pub len: usize,
}

impl Buffer {
    /// The number of bytes of the buffer.
    pub fn len(&self) -> (r: usize)
        ensures
            r == self.len,
    {
        self.len
    }

    /// Whether the buffer holds no byte.
    pub fn is_empty(&self) -> (r: bool)
        ensures
            r == (self.len == 0),
    {
        self.len == 0
    }
}

/// The well-formedness of an allocator's state.
pub open spec fn state_wf(s: AllocState) -> bool {
    &&& forall|i: int| 0 <= i < s.pages.len() ==> 0 < #[trigger] s.pages[i].len() <= MAX_ALLOC
    &&& MIN_PAGE_SIZE <= s.first_page_len <= MAX_ALLOC
    &&& s.cur <= s.pages.len()
    &&& s.cur < s.pages.len() ==> s.pos <= s.pages[s.cur as int].len()
    &&& s.cur == s.pages.len() ==> s.pos == 0
    &&& capacity(s) <= usize::MAX
}

/// The total length of the first `n` pages.
pub open spec fn sum_lens(pages: Seq<Seq<u8>>, n: nat) -> nat
    decreases n,
{
    if n == 0 || n > pages.len() {
        0
    } else {
        sum_lens(pages, (n - 1) as nat) + pages[n - 1].len()
    }
}

/// The number of bytes taken so far: every byte before the allocation point.
pub open spec fn used(s: AllocState) -> nat {
    sum_lens(s.pages, s.cur) + s.pos
}

/// Doubles `n` until it reaches `sz`.
pub open spec fn grow(n: nat, sz: nat) -> nat
    decreases (if n >= sz {
        0
    } else {
        sz - n
    }),
{
    if n == 0 || n >= sz {
        n
    } else {
        grow(2 * n, sz)
    }
}

/// The smaller of two numbers.
pub open spec fn min_nat(a: nat, b: nat) -> nat {
    if a <= b {
        a
    } else {
        b
    }
}

/// The length of the first page of an allocator made for `size` bytes: the
/// smallest power of two that is at least `size` and at least `MIN_PAGE_SIZE`.
pub open spec fn first_page_len(size: nat) -> nat {
    min_nat(grow(MIN_PAGE_SIZE as nat, size), MAX_ALLOC as nat)
}

/// The state of a new allocator made for `size` bytes: one zeroed page of
/// `first_page_len(size)` bytes, nothing taken yet.
pub open spec fn fresh_state(size: nat, tag: Seq<char>) -> AllocState {
    AllocState {
        tag,
        pages: seq![zeros(first_page_len(size))],
        cur: 0,
        pos: 0,
        first_page_len: first_page_len(size),
    }
}

/// The state of an allocator taken back from a pool under a new tag: it is
/// reset, and keeps its pages.
pub open spec fn reused_state(s: AllocState, tag: Seq<char>) -> AllocState {
    AllocState { tag, cur: 0, pos: 0, ..s }
}

/// `off` rounded up to a multiple of `ALIGNMENT`.
pub open spec fn align_up(off: nat) -> nat {
    let a = ALIGNMENT as int;
    let o = off as int;
    (o + (a - o % a) % a) as nat
}

/// The offset at which an allocation in page `j` would start: the
/// allocation point in the current page, the start of any later page, rounded
/// up to a multiple of `ALIGNMENT` for an aligned allocation (`al`).
pub open spec fn start_in(s: AllocState, j: nat, al: bool) -> nat {
    let o = if j == s.cur {
        s.pos
    } else {
        0
    };
    if al {
        align_up(o)
    } else {
        o
    }
}

/// Whether `sz` bytes fit in page `j` from its start point on.
pub open spec fn fits(s: AllocState, j: nat, sz: nat, al: bool) -> bool {
    j < s.pages.len() && start_in(s, j, al) + sz <= s.pages[j as int].len()
}

/// The first page from `j` on in which `sz` bytes fit, or the number of pages
/// where there is none.
pub open spec fn first_fit(s: AllocState, sz: nat, j: nat, al: bool) -> nat
    decreases s.pages.len() - j,
{
    if j >= s.pages.len() {
        s.pages.len()
    } else if fits(s, j, sz, al) {
        j
    } else {
        first_fit(s, sz, j + 1, al)
    }
}

/// The length of the page that is added when no page has room for `sz` bytes:
/// twice the last page, doubled until `sz` fits, and at most `MAX_ALLOC`.
pub open spec fn new_page_len(s: AllocState, sz: nat) -> nat {
    let base = if s.pages.len() == 0 {
        s.first_page_len
    } else {
        2 * s.pages.last().len()
    };
    min_nat(grow(base, sz), MAX_ALLOC as nat)
}

pub open spec fn zeros(n: nat) -> Seq<u8> {
    Seq::new(n, |i: int| 0u8)
}

/// Whether the allocation hands out an empty buffer at the allocation point
/// and changes nothing: an unaligned allocation of zero bytes.
pub open spec fn is_nop(sz: nat, al: bool) -> bool {
    sz == 0 && !al
}

/// The page that an allocation of `sz` bytes goes to (`al`: aligned).
pub open spec fn alloc_page(s: AllocState, sz: nat, al: bool) -> nat {
    if is_nop(sz, al) {
        s.cur
    } else {
        first_fit(s, sz, s.cur, al)
    }
}

/// The offset at which an allocation of `sz` bytes starts.
pub open spec fn alloc_offset(s: AllocState, sz: nat, al: bool) -> nat {
    if is_nop(sz, al) {
        s.pos
    } else if alloc_page(s, sz, al) < s.pages.len() {
        start_in(s, alloc_page(s, sz, al), al)
    } else {
        0
    }
}

/// The total length of all pages.
pub open spec fn capacity(s: AllocState) -> nat {
    sum_lens(s.pages, s.pages.len())
}

/// Whether another page of `n` bytes may be added: the total length of the
/// pages must stay countable in a `usize`.
pub open spec fn room_for_page(s: AllocState, n: nat) -> bool {
    capacity(s) + n <= usize::MAX
}

/// Whether an allocation of `sz` bytes succeeds: at most `MAX_ALLOC` bytes,
/// and, where a page must be added, memory that stays countable.
pub open spec fn can_allocate(s: AllocState, sz: nat, al: bool) -> bool {
    sz <= MAX_ALLOC && (is_nop(sz, al) || alloc_page(s, sz, al) < s.pages.len() || room_for_page(
        s,
        new_page_len(s, sz),
    ))
}

/// The state after an allocation of `sz` bytes: the allocation point moves
/// to its end, and a zeroed page is added where no page had room.
pub open spec fn allocated(s: AllocState, sz: nat, al: bool) -> AllocState {
    if is_nop(sz, al) {
        s
    } else {
        let j = alloc_page(s, sz, al);
        AllocState {
            pages: if j < s.pages.len() {
                s.pages
            } else {
                s.pages.push(zeros(new_page_len(s, sz)))
            },
            cur: j,
            pos: alloc_offset(s, sz, al) + sz,
            ..s
        }
    }
}

/// The buffer that an allocation of `sz` bytes hands out.
pub open spec fn alloc_buffer(s: AllocState, sz: nat, al: bool, b: Buffer) -> bool {
    b.page == alloc_page(s, sz, al) && b.offset == alloc_offset(s, sz, al) && b.len == sz
}

/// The error of a refused allocation of `sz` bytes.
pub open spec fn alloc_error(sz: nat) -> Error {
    if sz > MAX_ALLOC {
        Error::Overflow(sz as u64)
    } else {
        Error::OutOfMemory
    }
}

/// Whether a buffer lies inside the allocator's memory.
pub open spec fn in_bounds(s: AllocState, b: Buffer) -> bool {
    b.page < s.pages.len() && b.offset + b.len <= s.pages[b.page as int].len()
}

/// The bytes of a buffer.
pub open spec fn contents(s: AllocState, b: Buffer) -> Seq<u8> {
    s.pages[b.page as int].subrange(b.offset as int, b.offset + b.len)
}

/// The pages after `data` was written at `offset` of page `page`.
pub open spec fn write_pages(pages: Seq<Seq<u8>>, page: nat, offset: nat, data: Seq<u8>) -> Seq<
    Seq<u8>,
> {
    pages.update(
        page as int,
        pages[page as int].take(offset as int) + data + pages[page as int].skip((offset + data.len()) as int),
    )
}

/// The state after `data` was copied into a fresh allocation.
pub open spec fn copied(s: AllocState, data: Seq<u8>) -> AllocState {
    let a = allocated(s, data.len(), false);
    if data.len() == 0 {
        a
    } else {
        AllocState {
            pages: write_pages(
                a.pages,
                alloc_page(s, data.len(), false),
                alloc_offset(s, data.len(), false),
                data,
            ),
            ..a
        }
    }
}

/// The state after an aligned allocation of `size` bytes: its bytes are zeroed.
pub open spec fn aligned_allocated(s: AllocState, size: nat) -> AllocState {
    let a = allocated(s, size, true);
    if size == 0 {
        a
    } else {
        AllocState {
            pages: write_pages(a.pages, alloc_page(s, size, true), alloc_offset(s, size, true), zeros(size)),
            ..a
        }
    }
}

/// The state after the allocation point went back to the start.
pub open spec fn reset_state(s: AllocState) -> AllocState {
    AllocState { cur: 0, pos: 0, ..s }
}

/// The number of leading pages that `truncate(max)` keeps: those whose
/// running total, themselves included, stays below `max`.
pub open spec fn kept_pages(pages: Seq<Seq<u8>>, max: nat, k: nat) -> nat
    decreases pages.len() - k,
{
    if k >= pages.len() {
        pages.len()
    } else if sum_lens(pages, k + 1) >= max {
        k
    } else {
        kept_pages(pages, max, k + 1)
    }
}

/// The state after `truncate(max)`.
pub open spec fn truncated(s: AllocState, max: nat) -> AllocState {
    let k = kept_pages(s.pages, max, 0);
    AllocState {
        pages: s.pages.take(k as int),
        cur: if s.cur >= k {
            k
        } else {
            s.cur
        },
        pos: if s.cur >= k {
            0
        } else {
            s.pos
        },
        ..s
    }
}

/// The pages and allocation point of an allocator.
#[derive(Debug)]
struct Arena {
    tag: &'static str,
    pages: Vec<Vec<u8>>,
    cur: usize,
    pos: usize,
    first_page_len: usize,
    total: usize,
}

impl View for Arena {
    type V = AllocState;

    closed spec fn view(&self) -> AllocState {
        AllocState {
            tag: self.tag@,
            pages: self.pages@.map_values(|p: Vec<u8>| p@),
            cur: self.cur as nat,
            pos: self.pos as nat,
            first_page_len: self.first_page_len as nat,
        }
    }
}

impl Arena {
    /// The tag the allocator was given, as a spec value.
    spec fn spec_tag(&self) -> &'static str {
        self.tag
    }

    /// Whether the allocator's state is well formed.
    spec fn wf(&self) -> bool {
        state_wf(self@) && self.total_is_capacity()
    }

    /// The recorded total length of the pages is their total length.
    spec fn total_is_capacity(&self) -> bool {
        self.total == capacity(self@)
    }


    /// Creates an allocator whose first page holds at least `size` bytes.
    fn new_in(size: usize, tag: &'static str) -> (r: Result<Arena>)
        ensures
            r is Ok <==> size <= MAX_ALLOC,
            r matches Ok(a) ==> a.wf() && a.spec_tag() == tag && a@ == fresh_state(size as nat, tag@),
            r matches Err(e) ==> e == Error::Overflow(size as u64),
    {
        if size > MAX_ALLOC {
            return Err(Error::Overflow(size as u64));
        }
        let mut n: usize = MIN_PAGE_SIZE;
        while n < size
            invariant
                0 < n <= 2 * MAX_ALLOC,
                size <= MAX_ALLOC,
                grow(n as nat, size as nat) == grow(MIN_PAGE_SIZE as nat, size as nat),
            decreases 2 * MAX_ALLOC - n,
        {
            n = n * 2;
        }
        let first: usize = if n > MAX_ALLOC {
            MAX_ALLOC
        } else {
            n
        };
        let page = zeroed_page(first);
        let mut pages: Vec<Vec<u8>> = Vec::new();
        pages.push(page);
        let a = Arena { tag, pages, cur: 0, pos: 0, first_page_len: first, total: first };
        assert(grow(n as nat, size as nat) == n);
        assert(a@.pages =~= seq![zeros(first as nat)]);
        assert(a@ =~= fresh_state(size as nat, tag@));
        assert(sum_lens(a@.pages, 0) == 0);
        assert(capacity(a@) == first);
        Ok(a)
    }
}


impl Arena {
    /// An arena without pages, that has taken nothing.
    fn empty() -> (r: Arena)
        ensures
            r.wf(),
    {
        let r = Arena { tag: "", pages: Vec::new(), cur: 0, pos: 0, first_page_len: MIN_PAGE_SIZE, total: 0 };
        proof {
            assert(r@.pages =~= Seq::<Seq<u8>>::empty());
        }
        r
    }

    /// Get the tag of the allocator
    fn get_tag(&self) -> (r: &'static str)
        ensures
            r == self.spec_tag(),
            r@ == self@.tag,
    {
        self.tag
    }

    /// Set the tag for this allocator
    fn set_tag(&mut self, tag: &'static str)
        requires
            old(self).wf(),
        ensures
            final(self).wf(),
            final(self).spec_tag() == tag,
            final(self)@ == (AllocState { tag: tag@, ..old(self)@ }),
    {
        self.tag = tag;
    }

    /// Reset the allocator: later allocations reuse its pages from the start.
    fn reset(&mut self)
        requires
            old(self).wf(),
        ensures
            final(self).wf(),
            final(self).spec_tag() == old(self).spec_tag(),
            final(self)@ == reset_state(old(self)@),
    {
        self.cur = 0;
        self.pos = 0;
    }

    /// Returns the size of the allocations so far.
    fn size(&self) -> (r: usize)
        requires
            self.wf(),
        ensures
            r == used(self@),
    {
        let ghost s = self@;
        let mut total: usize = 0;
        let mut i: usize = 0;
        while i < self.cur
            invariant
                self.wf(),
                s == self@,
                i <= self.cur,
                total == sum_lens(s.pages, i as nat),
            decreases self.cur - i,
        {
            proof {
                lemma_sum_lens_mono(s.pages, (i + 1) as nat, s.pages.len());
            }
            total = total + self.pages[i].len();
            i = i + 1;
        }
        proof {
            lemma_used_le_capacity(s);
        }
        total + self.pos
    }



    /// The length of the page to add for an allocation of `sz` bytes.
    fn next_page_len(&self, sz: usize) -> (r: usize)
        requires
            self.wf(),
            sz <= MAX_ALLOC,
        ensures
            r == new_page_len(self@, sz as nat),
            sz <= r <= MAX_ALLOC,
            0 < r,
    {
        let n_pages = self.pages.len();
        let mut n: usize = if n_pages == 0 {
            self.first_page_len
        } else {
            2 * self.pages[n_pages - 1].len()
        };
        let ghost base = n as nat;
        proof {
            lemma_grow_ge(base, sz as nat);
        }
        while n < sz
            invariant
                0 < n <= 2 * MAX_ALLOC,
                sz <= MAX_ALLOC,
                grow(n as nat, sz as nat) == grow(base, sz as nat),
            decreases 2 * MAX_ALLOC - n,
        {
            n = n * 2;
        }
        if n > MAX_ALLOC {
            MAX_ALLOC
        } else {
            n
        }
    }

    /// The offset at which an allocation in page `j` would start.
    fn start_at(&self, j: usize, al: bool) -> (r: usize)
        requires
            self.wf(),
            j < self@.pages.len(),
        ensures
            r == start_in(self@, j as nat, al),
            r <= self@.pages[j as int].len() + ALIGNMENT,
    {
        let o = if j == self.cur {
            self.pos
        } else {
            0
        };
        if al {
            let r = o + (ALIGNMENT - o % ALIGNMENT) % ALIGNMENT;
            proof {
                lemma_align_up(o as nat);
            }
            r
        } else {
            o
        }
    }

    /// The first page from the allocation point on in which `sz` bytes fit,
    /// or the number of pages where there is none.
    fn find_page(&self, sz: usize, al: bool) -> (r: usize)
        requires
            self.wf(),
        ensures
            r == first_fit(self@, sz as nat, self@.cur, al),
    {
        let ghost s = self@;
        let n_pages = self.pages.len();
        let mut j = self.cur;
        while j < n_pages
            invariant_except_break
                self.wf(),
                s == self@,
                n_pages == s.pages.len(),
                s.cur <= j <= n_pages,
                first_fit(s, sz as nat, j as nat, al) == first_fit(s, sz as nat, s.cur, al),
            ensures
                j == first_fit(s, sz as nat, s.cur, al),
            decreases n_pages - j,
        {
            let start = self.start_at(j, al);
            let len = self.pages[j].len();
            if sz <= len && start <= len - sz {
                break;
            }
            j = j + 1;
        }
        j
    }

    /// Allocates `sz` bytes, at an aligned offset where `al`.
    fn allocate_in(&mut self, sz: usize, al: bool) -> (r: Result<Buffer>)
        requires
            old(self).wf(),
            sz <= MAX_ALLOC,
        ensures
            final(self).wf(),
            final(self).spec_tag() == old(self).spec_tag(),
            r is Ok <==> can_allocate(old(self)@, sz as nat, al),
            r matches Ok(b) ==> alloc_buffer(old(self)@, sz as nat, al, b) && final(self)@
                == allocated(old(self)@, sz as nat, al),
            r matches Err(e) ==> e == Error::OutOfMemory && final(self)@ == old(self)@,
    {
        if sz == 0 && !al {
            return Ok(Buffer { page: self.cur, offset: self.pos, len: 0 });
        }
        let ghost s = self@;
        let n_pages = self.pages.len();
        let j = self.find_page(sz, al);
        proof {
            lemma_first_fit(s, sz as nat, s.cur, al);
        }
        let off: usize;
        if j == n_pages {
            let plen = self.next_page_len(sz);
            if plen > usize::MAX - self.total {
                return Err(Error::OutOfMemory);
            }
            let page = zeroed_page(plen);
            self.pages.push(page);
            self.total = self.total + plen;
            off = 0;
            proof {
                lemma_sum_lens_push(s.pages, zeros(plen as nat));
                assert(self@.pages =~= s.pages.push(zeros(plen as nat)));
            }
        } else {
            off = self.start_at(j, al);
        }
        self.cur = j;
        self.pos = off + sz;
        proof {
            assert(self@ =~= allocated(s, sz as nat, al));
        }
        Ok(Buffer { page: j, offset: off, len: sz })
    }

    /// Allocate a buffer with according to `size`
    fn allocate(&mut self, size: u64) -> (r: Result<Buffer>)
        requires
            old(self).wf(),
        ensures
            final(self).wf(),
            final(self).spec_tag() == old(self).spec_tag(),
            r is Ok <==> can_allocate(old(self)@, size as nat, false),
            r matches Ok(b) ==> alloc_buffer(old(self)@, size as nat, false, b) && final(self)@
                == allocated(old(self)@, size as nat, false),
            r matches Err(e) ==> e == alloc_error(size as nat) && final(self)@ == old(self)@,
    {
        if size > MAX_ALLOC as u64 {
            return Err(Error::Overflow(size));
        }
        self.allocate_in(size as usize, false)
    }
}

impl Arena {
    /// Writes `data` at `offset` of page `page`.
    fn write_bytes(&mut self, page: usize, offset: usize, data: &[u8])
        requires
            old(self).wf(),
            page < old(self)@.pages.len(),
            offset + data@.len() <= old(self)@.pages[page as int].len(),
        ensures
            final(self).wf(),
            final(self).spec_tag() == old(self).spec_tag(),
            final(self)@ == (AllocState {
                pages: write_pages(old(self)@.pages, page as nat, offset as nat, data@),
                ..old(self)@
            }),
    {
        let ghost s = self@;
        let n = data.len();
        let mut i: usize = 0;
        while i < n
            invariant
                n == data@.len(),
                i <= n,
                state_wf(s),
                page < self.pages@.len(),
                self.pages@.len() == s.pages.len(),
                offset + n <= s.pages[page as int].len(),
                self.tag == old(self).tag,
                self.cur == s.cur,
                self.pos == s.pos,
                self.first_page_len == s.first_page_len,
                self.total == old(self).total,
                forall|k: int|
                    0 <= k < s.pages.len() && k != page ==> #[trigger] self.pages@[k]@ == s.pages[k],
                self.pages@[page as int]@.len() == s.pages[page as int].len(),
                forall|k: int|
                    0 <= k < s.pages[page as int].len() ==> #[trigger] self.pages@[page as int]@[k]
                        == if offset <= k < offset + i {
                        data@[k - offset]
                    } else {
                        s.pages[page as int][k]
                    },
            decreases n - i,
        {
            self.pages[page].set(offset + i, data[i]);
            i = i + 1;
        }
        proof {
            let w = write_pages(s.pages, page as nat, offset as nat, data@);
            assert(w[page as int] =~= self.pages@[page as int]@);
            assert(self@.pages =~= w);
            lemma_sum_lens_prefix(self@.pages, s.pages, s.pages.len());
        }
    }

    /// The bytes of `buf`, or `None` where it does not lie inside the allocator's memory.
    fn read(&self, buf: &Buffer) -> (r: Option<Vec<u8>>)
        requires
            self.wf(),
        ensures
            r is Some <==> in_bounds(self@, *buf),
            r matches Some(v) ==> v@ == contents(self@, *buf),
    {
        if buf.page >= self.pages.len() {
            return None;
        }
        let page = &self.pages[buf.page];
        if buf.offset > page.len() || buf.len > page.len() - buf.offset {
            return None;
        }
        let mut out: Vec<u8> = Vec::new();
        let mut i: usize = 0;
        while i < buf.len
            invariant
                i <= buf.len,
                buf.offset + buf.len <= page.len(),
                out@ =~= page@.subrange(buf.offset as int, buf.offset + i),
            decreases buf.len - i,
        {
            out.push(page[buf.offset + i]);
            i = i + 1;
        }
        assert(page@ == self@.pages[buf.page as int]);
        Some(out)
    }

    /// Writes `data` into `buf`. Returns whether it did: `buf` must lie inside
    /// the allocator's memory and be as long as `data`.
    fn write(&mut self, buf: &Buffer, data: &[u8]) -> (r: bool)
        requires
            old(self).wf(),
        ensures
            final(self).wf(),
            final(self).spec_tag() == old(self).spec_tag(),
            r <==> in_bounds(old(self)@, *buf) && data@.len() == buf.len,
            r ==> final(self)@ == (AllocState {
                pages: write_pages(old(self)@.pages, buf.page as nat, buf.offset as nat, data@),
                ..old(self)@
            }),
            !r ==> final(self)@ == old(self)@,
    {
        if buf.page >= self.pages.len() || data.len() != buf.len {
            return false;
        }
        let plen = self.pages[buf.page].len();
        if buf.offset > plen || buf.len > plen - buf.offset {
            return false;
        }
        self.write_bytes(buf.page, buf.offset, data);
        true
    }

    /// Allocate a buffer with the same length of `buf`, and copy the contents of buf to the [`Buffer`].
    fn copy_from(&mut self, buf: &[u8]) -> (r: Result<Buffer>)
        requires
            old(self).wf(),
        ensures
            final(self).wf(),
            final(self).spec_tag() == old(self).spec_tag(),
            r is Ok <==> can_allocate(old(self)@, buf@.len(), false),
            r matches Ok(b) ==> alloc_buffer(old(self)@, buf@.len(), false, b) && final(self)@ == copied(
                old(self)@,
                buf@,
            ),
            r matches Err(e) ==> e == alloc_error(buf@.len()) && final(self)@ == old(self)@,
    {
        let ghost s = self@;
        let b = self.allocate(buf.len() as u64)?;
        if buf.len() > 0 {
            proof {
                lemma_allocation_in_bounds(s, buf@.len(), false);
            }
            self.write_bytes(b.page, b.offset, buf);
        }
        Ok(b)
    }

}

impl Arena {

    /// Allocate a buffer with according to `size` (well-aligned): it starts
    /// at an offset of its page that is a multiple of `ALIGNMENT`, and its
    /// bytes are zero. A buffer is a place in the allocator's pages, not an
    /// address: its alignment is relative to the start of its page.
    fn allocate_aligned(&mut self, size: u64) -> (r: Result<Buffer>)
        requires
            old(self).wf(),
        ensures
            final(self).wf(),
            final(self).spec_tag() == old(self).spec_tag(),
            r is Ok <==> can_allocate(old(self)@, size as nat, true),
            r matches Ok(b) ==> alloc_buffer(old(self)@, size as nat, true, b) && final(self)@
                == aligned_allocated(old(self)@, size as nat),
            r matches Err(e) ==> e == alloc_error(size as nat) && final(self)@ == old(self)@,
    {
        if size > MAX_ALLOC as u64 {
            return Err(Error::Overflow(size));
        }
        let ghost s = self@;
        let b = match self.allocate_in(size as usize, true) {
            Ok(b) => b,
            Err(e) => {
                return Err(e);
            },
        };
        if b.len > 0 {
            proof {
                lemma_allocation_in_bounds(s, size as nat, true);
            }
            let zero = zeroed_page(b.len);
            self.write_bytes(b.page, b.offset, zero.as_slice());
        }
        Ok(b)
    }


    /// Truncate the allocator to new size: keeps the leading pages whose
    /// running total, themselves included, stays below `max`, and frees the rest.
    fn truncate(&mut self, max: u64)
        requires
            old(self).wf(),
        ensures
            final(self).wf(),
            final(self).spec_tag() == old(self).spec_tag(),
            final(self)@ == truncated(old(self)@, max as nat),
    {
        let ghost s = self@;
        let n_pages = self.pages.len();
        let mut acc: usize = 0;
        let mut k: usize = 0;
        while k < n_pages
            invariant_except_break
                self.wf(),
                s == self@,
                n_pages == s.pages.len(),
                k <= n_pages,
                acc == sum_lens(s.pages, k as nat),
                kept_pages(s.pages, max as nat, k as nat) == kept_pages(s.pages, max as nat, 0),
            ensures
                k <= n_pages,
                acc == sum_lens(s.pages, k as nat),
                k == kept_pages(s.pages, max as nat, 0),
            decreases n_pages - k,
        {
            proof {
                lemma_sum_lens_mono(s.pages, (k + 1) as nat, s.pages.len());
            }
            let next = acc + self.pages[k].len();
            if next as u64 >= max {
                break;
            }
            acc = next;
            k = k + 1;
        }
        self.pages.truncate(k);
        self.total = acc;
        if self.cur >= k {
            self.cur = k;
            self.pos = 0;
        }
        proof {
            let t = truncated(s, max as nat);
            assert(self@.pages =~= t.pages);
            lemma_sum_lens_prefix(t.pages, s.pages, k as nat);
            assert(self@ =~= t);
            if s.cur < k {
                lemma_sum_lens_prefix(t.pages, s.pages, s.cur);
            }
        }
    }
}

/// Amortizes the cost of small allocations by allocating memory in bigger chunks.
#[derive(Debug)]
pub struct Allocator {
    arena: Arena,
}

impl View for Allocator {
    type V = AllocState;

    closed spec fn view(&self) -> AllocState {
        self.arena@
    }
}

impl Allocator {
    /// Every allocator is well formed.
    #[verifier::type_invariant]
    closed spec fn inv(self) -> bool {
        self.arena.wf()
    }

    /// The tag the allocator was given, as a spec value.
    pub closed spec fn spec_tag(&self) -> &'static str {
        self.arena.tag
    }

    /// Takes the arena out, leaving an empty one in its place.
    fn take_arena(&mut self) -> (r: Arena)
        ensures
            r.wf(),
            r@ == old(self)@,
            r.tag == old(self).spec_tag(),
    {
        proof {
            use_type_invariant(&*self);
        }
        let mut arena = Arena::empty();
        core::mem::swap(&mut arena, &mut self.arena);
        arena
    }

    /// Creates an allocator whose first page holds at least `size` bytes.
    pub fn new(size: usize, tag: &'static str) -> (r: Result<Allocator>)
        ensures
            r is Ok <==> size <= MAX_ALLOC,
            r matches Ok(a) ==> state_wf(a@) && a.spec_tag() == tag && a@ == fresh_state(size as nat, tag@),
            r matches Err(e) ==> e == Error::Overflow(size as u64),
    {
        Self::new_in(size, tag)
    }

    /// Creates an allocator whose first page holds at least `size` bytes.
    pub fn new_in(size: usize, tag: &'static str) -> (r: Result<Allocator>)
        ensures
            r is Ok <==> size <= MAX_ALLOC,
            r matches Ok(a) ==> state_wf(a@) && a.spec_tag() == tag && a@ == fresh_state(size as nat, tag@),
            r matches Err(e) ==> e == Error::Overflow(size as u64),
    {
        match Arena::new_in(size, tag) {
            Ok(arena) => Ok(Allocator { arena }),
            Err(e) => Err(e),
        }
    }

    /// Get the tag of the allocator
    pub fn get_tag(&self) -> (r: &'static str)
        ensures
            r == self.spec_tag(),
            r@ == self@.tag,
    {
        self.arena.get_tag()
    }

    /// Set the tag for this allocator
    pub fn set_tag(&mut self, tag: &'static str)
        ensures
            state_wf(final(self)@),
            final(self).spec_tag() == tag,
            final(self)@ == (AllocState { tag: tag@, ..old(self)@ }),
    {
        let mut arena = self.take_arena();
        arena.set_tag(tag);
        self.arena = arena;
    }

    /// Reset the allocator: later allocations reuse its pages from the start.
    pub fn reset(&mut self)
        ensures
            state_wf(final(self)@),
            final(self).spec_tag() == old(self).spec_tag(),
            final(self)@ == reset_state(old(self)@),
    {
        let mut arena = self.take_arena();
        arena.reset();
        self.arena = arena;
    }

    /// Returns the size of the allocations so far.
    pub fn size(&self) -> (r: usize)
        ensures
            r == used(self@),
    {
        proof {
            use_type_invariant(self);
        }
        self.arena.size()
    }

    /// Release would release the allocator.
    pub fn release(self) {
    }

    /// Whether the allocator may go back to a pool. An allocator of this
    /// library has a single owner, and nothing else refers to its pages, so
    /// it always may.
    pub fn can_put_back(&self) -> (r: bool)
        ensures
            r,
    {
        true
    }

    /// Allocate a buffer with according to `size`
    pub fn allocate(&mut self, size: u64) -> (r: Result<Buffer>)
        ensures
            state_wf(final(self)@),
            final(self).spec_tag() == old(self).spec_tag(),
            r is Ok <==> can_allocate(old(self)@, size as nat, false),
            r matches Ok(b) ==> alloc_buffer(old(self)@, size as nat, false, b) && final(self)@
                == allocated(old(self)@, size as nat, false),
            r matches Err(e) ==> e == alloc_error(size as nat) && final(self)@ == old(self)@,
    {
        let mut arena = self.take_arena();
        let r = arena.allocate(size);
        self.arena = arena;
        r
    }

    /// Allocate a buffer with according to `size` without checking size:
    /// the caller must ask for at most `MAX_ALLOC` bytes, and leave room in
    /// memory for a new page where one is needed.
    pub fn allocate_unchecked(&mut self, size: u64) -> (r: Buffer)
        requires
            can_allocate(old(self)@, size as nat, false),
        ensures
            state_wf(final(self)@),
            final(self).spec_tag() == old(self).spec_tag(),
            alloc_buffer(old(self)@, size as nat, false, r),
            final(self)@ == allocated(old(self)@, size as nat, false),
    {
        match self.allocate(size) {
            Ok(b) => b,
            Err(_) => {
                assert(false);
                Buffer { page: 0, offset: 0, len: 0 }
            },
        }
    }

    /// Allocate a buffer with according to `size` (well-aligned): it starts
    /// at an offset of its page that is a multiple of `ALIGNMENT`, and its
    /// bytes are zero. A buffer is a place in the allocator's pages, not an
    /// address: its alignment is relative to the start of its page.
    pub fn allocate_aligned(&mut self, size: u64) -> (r: Result<Buffer>)
        ensures
            state_wf(final(self)@),
            final(self).spec_tag() == old(self).spec_tag(),
            r is Ok <==> can_allocate(old(self)@, size as nat, true),
            r matches Ok(b) ==> alloc_buffer(old(self)@, size as nat, true, b) && final(self)@
                == aligned_allocated(old(self)@, size as nat),
            r matches Err(e) ==> e == alloc_error(size as nat) && final(self)@ == old(self)@,
    {
        let mut arena = self.take_arena();
        let r = arena.allocate_aligned(size);
        self.arena = arena;
        r
    }

    /// Allocate a buffer with according to `size` (well-aligned) without
    /// checking size: the caller must ask for at most `MAX_ALLOC` bytes, and
    /// leave room in memory for a new page where one is needed.
    pub fn allocate_aligned_unchecked(&mut self, size: u64) -> (r: Buffer)
        requires
            can_allocate(old(self)@, size as nat, true),
        ensures
            state_wf(final(self)@),
            final(self).spec_tag() == old(self).spec_tag(),
            alloc_buffer(old(self)@, size as nat, true, r),
            final(self)@ == aligned_allocated(old(self)@, size as nat),
    {
        match self.allocate_aligned(size) {
            Ok(b) => b,
            Err(_) => {
                assert(false);
                Buffer { page: 0, offset: 0, len: 0 }
            },
        }
    }

    /// Allocate a buffer with the same length of `buf`, and copy the contents of buf to the [`Buffer`].
    pub fn copy_from(&mut self, buf: &[u8]) -> (r: Result<Buffer>)
        ensures
            state_wf(final(self)@),
            final(self).spec_tag() == old(self).spec_tag(),
            r is Ok <==> can_allocate(old(self)@, buf@.len(), false),
            r matches Ok(b) ==> alloc_buffer(old(self)@, buf@.len(), false, b) && final(self)@ == copied(
                old(self)@,
                buf@,
            ),
            r matches Err(e) ==> e == alloc_error(buf@.len()) && final(self)@ == old(self)@,
    {
        let mut arena = self.take_arena();
        let r = arena.copy_from(buf);
        self.arena = arena;
        r
    }

    /// The bytes of `buf`, or `None` where it does not lie inside the allocator's memory.
    pub fn read(&self, buf: &Buffer) -> (r: Option<Vec<u8>>)
        ensures
            r is Some <==> in_bounds(self@, *buf),
            r matches Some(v) ==> v@ == contents(self@, *buf),
    {
        proof {
            use_type_invariant(self);
        }
        self.arena.read(buf)
    }

    /// Writes `data` into `buf`. Returns whether it did: `buf` must lie inside
    /// the allocator's memory and be as long as `data`.
    pub fn write(&mut self, buf: &Buffer, data: &[u8]) -> (r: bool)
        ensures
            state_wf(final(self)@),
            final(self).spec_tag() == old(self).spec_tag(),
            r <==> in_bounds(old(self)@, *buf) && data@.len() == buf.len,
            r ==> final(self)@ == (AllocState {
                pages: write_pages(old(self)@.pages, buf.page as nat, buf.offset as nat, data@),
                ..old(self)@
            }),
            !r ==> final(self)@ == old(self)@,
    {
        let mut arena = self.take_arena();
        let r = arena.write(buf, data);
        self.arena = arena;
        r
    }

    /// Truncate the allocator to new size: keeps the leading pages whose
    /// running total, themselves included, stays below `max`, and frees the rest.
    pub fn truncate(&mut self, max: u64)
        ensures
            state_wf(final(self)@),
            final(self).spec_tag() == old(self).spec_tag(),
            final(self)@ == truncated(old(self)@, max as nat),
    {
        let mut arena = self.take_arena();
        arena.truncate(max);
        self.arena = arena;
    }
}

/// An allocation lies inside the memory of the allocator after it, and the
/// allocator stays well formed.
pub proof fn lemma_allocation_in_bounds(s: AllocState, sz: nat, al: bool)
    requires
        state_wf(s),
        can_allocate(s, sz, al),
        !is_nop(sz, al),
    ensures
        alloc_page(s, sz, al) < allocated(s, sz, al).pages.len(),
        alloc_offset(s, sz, al) + sz <= allocated(s, sz, al).pages[alloc_page(s, sz, al) as int].len(),
        state_wf(allocated(s, sz, al)),
{
    lemma_first_fit(s, sz, s.cur, al);
    if alloc_page(s, sz, al) == s.pages.len() {
        let base = if s.pages.len() == 0 {
            s.first_page_len
        } else {
            2 * s.pages.last().len()
        };
        lemma_grow_ge(base, sz);
        lemma_sum_lens_push(s.pages, zeros(new_page_len(s, sz)));
    } else if al {
        lemma_align_up(if alloc_page(s, sz, al) == s.cur { s.pos } else { 0 });
    }
}

/// Facts about `align_up`.
pub proof fn lemma_align_up(off: nat)
    ensures
        align_up(off) % (ALIGNMENT as nat) == 0,
        off <= align_up(off) <= off + ALIGNMENT - 1,
{
    let a = ALIGNMENT as int;
    let o = off as int;
    assert((o + (a - o % a) % a) % a == 0) by (nonlinear_arith)
        requires
            a == 8,
            o >= 0,
    ;
}

/// Facts about `grow`.
pub proof fn lemma_grow_ge(n: nat, sz: nat)
    requires
        n > 0,
    ensures
        grow(n, sz) >= sz,
        grow(n, sz) >= n,
    decreases (if n >= sz {
        0
    } else {
        sz - n
    }),
{
    if n < sz {
        lemma_grow_ge(2 * n, sz);
    }
}

/// `grow` doubles no further than needed: it gives its start, or less than
/// twice the target.
pub proof fn lemma_grow_tight(n: nat, sz: nat)
    requires
        n > 0,
    ensures
        grow(n, sz) == n || grow(n, sz) < 2 * sz,
    decreases (if n >= sz {
        0
    } else {
        sz - n
    }),
{
    if n < sz {
        lemma_grow_tight(2 * n, sz);
    }
}

/// `first_fit` finds the first page that fits.
pub proof fn lemma_first_fit(s: AllocState, sz: nat, j: nat, al: bool)
    requires
        j <= s.pages.len(),
    ensures
        j <= first_fit(s, sz, j, al) <= s.pages.len(),
        first_fit(s, sz, j, al) < s.pages.len() ==> fits(s, first_fit(s, sz, j, al), sz, al),
        forall|k: nat| j <= k < first_fit(s, sz, j, al) ==> !fits(s, k, sz, al),
    decreases s.pages.len() - j,
{
    if j < s.pages.len() && !fits(s, j, sz, al) {
        lemma_first_fit(s, sz, j + 1, al);
    }
}

/// The running total of page lengths grows with the number of pages.
pub proof fn lemma_sum_lens_mono(pages: Seq<Seq<u8>>, n: nat, m: nat)
    requires
        n <= m <= pages.len(),
    ensures
        sum_lens(pages, n) <= sum_lens(pages, m),
    decreases m - n,
{
    if n < m {
        lemma_sum_lens_mono(pages, n, (m - 1) as nat);
    }
}

/// Adding a page leaves the running totals of the others unchanged.
pub proof fn lemma_sum_lens_push(pages: Seq<Seq<u8>>, p: Seq<u8>)
    ensures
        forall|n: nat| n <= pages.len() ==> #[trigger] sum_lens(pages.push(p), n) == sum_lens(pages, n),
        sum_lens(pages.push(p), pages.len() + 1) == sum_lens(pages, pages.len()) + p.len(),
{
    assert forall|n: nat| n <= pages.len() implies #[trigger] sum_lens(pages.push(p), n) == sum_lens(pages, n) by {
        lemma_sum_lens_prefix(pages, pages.push(p), n);
    }
    assert(sum_lens(pages.push(p), pages.len()) == sum_lens(pages, pages.len()));
}

/// Two page sequences whose first `n` pages have the same lengths have the
/// same running total there.
pub proof fn lemma_sum_lens_prefix(a: Seq<Seq<u8>>, b: Seq<Seq<u8>>, n: nat)
    requires
        n <= a.len(),
        n <= b.len(),
        forall|i: int| 0 <= i < n ==> #[trigger] a[i].len() == #[trigger] b[i].len(),
    ensures
        sum_lens(a, n) == sum_lens(b, n),
    decreases n,
{
    if n > 0 {
        lemma_sum_lens_prefix(a, b, (n - 1) as nat);
    }
}

/// What is used of a well-formed allocator fits in its pages.
pub proof fn lemma_used_le_capacity(s: AllocState)
    requires
        state_wf(s),
    ensures
        used(s) <= capacity(s),
{
    if s.cur < s.pages.len() {
        lemma_sum_lens_mono(s.pages, s.cur + 1, s.pages.len());
    }
}

/// A page of `n` zero bytes.
fn zeroed_page(n: usize) -> (r: Vec<u8>)
    ensures
        r@ == zeros(n as nat),
{
    let r = vec![0u8; n];
    assert(r@ =~= zeros(n as nat));
    r
}

} // verus!
