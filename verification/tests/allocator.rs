use zallocator::pool::allocator::{ALIGNMENT, MAX_ALLOC};
use zallocator::pool::{Allocator, Buffer};
use zallocator::Error;

#[test]
fn allocator_new_and_tag() {
    let mut a = Allocator::new(1024, "test").unwrap();
    assert_eq!(a.get_tag(), "test");
    assert_eq!(a.size(), 0);
    a.set_tag("other");
    assert_eq!(a.get_tag(), "other");
    assert!(a.can_put_back());
    a.release();
}

#[test]
fn allocator_new_too_large() {
    let r = Allocator::new(MAX_ALLOC + 1, "big");
    assert_eq!(r.unwrap_err(), Error::Overflow(1073741825));
    let r = Allocator::new_in(MAX_ALLOC, "max");
    assert!(r.is_ok());
}

#[test]
fn allocator_allocate_one_byte() {
    let mut a = Allocator::new(15, "test").unwrap();
    let buf = a.allocate(1).unwrap();
    assert_eq!(buf.len(), 1);
    assert!(!buf.is_empty());
    assert_eq!(a.size(), 1);
}

#[test]
fn allocator_pages_grow_and_reset_reuses() {
    let mut a = Allocator::new(1024, "t").unwrap();
    let b1 = a.allocate(100).unwrap();
    assert_eq!(b1, Buffer { page: 0, offset: 0, len: 100 });
    assert_eq!(a.size(), 100);
    // 1000 more bytes do not fit in the first page of 1024 bytes: a page of
    // 2048 bytes is added.
    let b2 = a.allocate(1000).unwrap();
    assert_eq!(b2, Buffer { page: 1, offset: 0, len: 1000 });
    assert_eq!(a.size(), 1024 + 1000);

    a.reset();
    assert_eq!(a.size(), 0);
    let b3 = a.allocate(1000).unwrap();
    assert_eq!(b3, Buffer { page: 0, offset: 0, len: 1000 });
    let b4 = a.allocate(100).unwrap();
    assert_eq!(b4, Buffer { page: 1, offset: 0, len: 100 });
    assert_eq!(a.size(), 1124);
}

#[test]
fn allocator_small_first_page_is_min_page() {
    let mut a = Allocator::new(10, "t").unwrap();
    let b = a.allocate(512).unwrap();
    assert_eq!(b, Buffer { page: 0, offset: 0, len: 512 });
    let b = a.allocate(1).unwrap();
    assert_eq!(b, Buffer { page: 1, offset: 0, len: 1 });
    assert_eq!(a.size(), 513);
}

#[test]
fn allocator_zero_and_oversized_allocations() {
    let mut a = Allocator::new(512, "t").unwrap();
    a.allocate(7).unwrap();
    let b = a.allocate(0).unwrap();
    assert_eq!(b, Buffer { page: 0, offset: 7, len: 0 });
    assert!(b.is_empty());
    assert_eq!(a.size(), 7);
    let e = a.allocate((MAX_ALLOC as u64) + 1).unwrap_err();
    assert_eq!(e, Error::Overflow(1073741825));
    assert_eq!(a.size(), 7);
}

#[test]
fn allocator_allocations_do_not_overlap() {
    let mut a = Allocator::new(512, "t").unwrap();
    let mut bufs = Vec::new();
    for i in 0..40u64 {
        bufs.push(a.allocate(i * 13 + 1).unwrap());
    }
    for (i, x) in bufs.iter().enumerate() {
        for y in bufs.iter().skip(i + 1) {
            assert!(x.page != y.page || x.offset + x.len <= y.offset || y.offset + y.len <= x.offset);
        }
    }
}

#[test]
fn allocator_copy_from_then_read() {
    let mut a = Allocator::new(512, "t").unwrap();
    let b = a.copy_from(b"hello").unwrap();
    assert_eq!(b.len(), 5);
    assert_eq!(a.read(&b).unwrap(), b"hello".to_vec());
    let c = a.copy_from(b"world!").unwrap();
    assert_eq!(c, Buffer { page: 0, offset: 5, len: 6 });
    assert_eq!(a.read(&c).unwrap(), b"world!".to_vec());
    // The first buffer is untouched by the second.
    assert_eq!(a.read(&b).unwrap(), b"hello".to_vec());
    let empty = a.copy_from(&[]).unwrap();
    assert_eq!(empty.len(), 0);
    assert_eq!(a.read(&empty).unwrap(), Vec::<u8>::new());
}

#[test]
fn allocator_write_then_read() {
    let mut a = Allocator::new(512, "t").unwrap();
    let b = a.allocate(4).unwrap();
    assert_eq!(a.read(&b).unwrap(), vec![0, 0, 0, 0]);
    assert!(a.write(&b, &[1, 2, 3, 4]));
    assert_eq!(a.read(&b).unwrap(), vec![1, 2, 3, 4]);
    // Wrong length, or outside the memory: refused.
    assert!(!a.write(&b, &[1, 2, 3]));
    let outside = Buffer { page: 3, offset: 0, len: 1 };
    assert!(!a.write(&outside, &[9]));
    assert_eq!(a.read(&outside), None);
    let past_end = Buffer { page: 0, offset: 510, len: 3 };
    assert_eq!(a.read(&past_end), None);
}

#[test]
fn allocator_aligned_allocation() {
    let mut a = Allocator::new(1024, "t").unwrap();
    a.allocate(3).unwrap();
    let w = Buffer { page: 0, offset: 0, len: 3 };
    assert!(a.write(&w, &[7, 7, 7]));
    let b = a.allocate_aligned(16).unwrap();
    assert_eq!(b, Buffer { page: 0, offset: 8, len: 16 });
    assert_eq!(b.offset % ALIGNMENT, 0);
    assert_eq!(a.read(&b).unwrap(), vec![0u8; 16]);
    // The five bytes skipped for alignment count as taken.
    assert_eq!(a.size(), 8 + 16);
    let e = a.allocate_aligned((MAX_ALLOC as u64) + 1).unwrap_err();
    assert_eq!(e, Error::Overflow(1073741825));
    let c = a.allocate_aligned_unchecked(5);
    assert_eq!(c, Buffer { page: 0, offset: 24, len: 5 });
    let d = a.allocate_aligned(0).unwrap();
    assert_eq!(d, Buffer { page: 0, offset: 32, len: 0 });
    // An aligned buffer that does not fit goes to the start of a new page.
    let f = a.allocate_aligned(1000).unwrap();
    assert_eq!(f, Buffer { page: 1, offset: 0, len: 1000 });
}

#[test]
fn allocator_aligned_allocation_reuses_dirty_memory_zeroed() {
    let mut a = Allocator::new(512, "t").unwrap();
    let b = a.copy_from(&[0xff; 64]).unwrap();
    assert_eq!(b.len(), 64);
    a.reset();
    let z = a.allocate_aligned(32).unwrap();
    assert_eq!(z, Buffer { page: 0, offset: 0, len: 32 });
    assert_eq!(a.read(&z).unwrap(), vec![0u8; 32]);
}

#[test]
fn allocator_unchecked_allocation() {
    let mut a = Allocator::new(512, "t").unwrap();
    let b = a.allocate_unchecked(10);
    assert_eq!(b, Buffer { page: 0, offset: 0, len: 10 });
    assert_eq!(a.size(), 10);
}

#[test]
fn allocator_truncate_frees_trailing_pages() {
    let mut a = Allocator::new(512, "t").unwrap();
    a.allocate(512).unwrap();
    let b = a.allocate(600).unwrap();
    assert_eq!(b.page, 1);
    let c = a.allocate(1024).unwrap();
    assert_eq!(c.page, 2);
    assert_eq!(a.size(), 512 + 1024 + 1024);
    // Pages of 512, 1024 and 2048 bytes: the first two stay below 2000.
    a.truncate(2000);
    assert_eq!(a.size(), 1536);
    assert_eq!(a.read(&c), None);
    let d = a.allocate(10).unwrap();
    assert_eq!(d, Buffer { page: 2, offset: 0, len: 10 });
    assert_eq!(a.size(), 1546);
}

#[test]
fn allocator_truncate_to_zero_keeps_working() {
    let mut a = Allocator::new(512, "t").unwrap();
    a.allocate(20).unwrap();
    a.truncate(0);
    assert_eq!(a.size(), 0);
    let b = a.allocate(5).unwrap();
    assert_eq!(b, Buffer { page: 0, offset: 0, len: 5 });
    assert_eq!(a.size(), 5);
}

#[test]
fn allocator_truncate_above_capacity_keeps_all() {
    let mut a = Allocator::new(512, "t").unwrap();
    a.allocate(20).unwrap();
    a.truncate(10_000);
    assert_eq!(a.size(), 20);
}

#[test]
fn allocator_buffers_never_overlap_and_writes_stay_apart() {
    let mut a = Allocator::new(512, "t").unwrap();
    let first = a.copy_from(&[1; 100]).unwrap();
    let mut others = Vec::new();
    for i in 0..20u64 {
        others.push(a.allocate(i * 37 + 5).unwrap());
        others.push(a.allocate_aligned(i * 11).unwrap());
    }
    let last = a.allocate(300).unwrap();
    assert!(first.page != last.page || first.offset + first.len <= last.offset);
    assert!(a.write(&last, &[9; 300]));
    for b in others.iter() {
        if b.len > 0 {
            assert!(a.write(b, &vec![7; b.len]));
        }
    }
    assert_eq!(a.read(&first).unwrap(), vec![1; 100]);
    assert_eq!(a.read(&last).unwrap(), vec![9; 300]);
}

#[test]
fn allocator_pages_double() {
    let mut a = Allocator::new(512, "t").unwrap();
    // Each allocation too big for the last page adds a page twice as long.
    let b = a.allocate(512).unwrap();
    assert_eq!(b.page, 0);
    let b = a.allocate(1024).unwrap();
    assert_eq!(b, Buffer { page: 1, offset: 0, len: 1024 });
    let b = a.allocate(2048).unwrap();
    assert_eq!(b, Buffer { page: 2, offset: 0, len: 2048 });
    // A request larger than twice the last page gets a page that holds it.
    let b = a.allocate(10000).unwrap();
    assert_eq!(b, Buffer { page: 3, offset: 0, len: 10000 });
    assert_eq!(a.size(), 512 + 1024 + 2048 + 10000);
    let b = a.allocate(6384).unwrap();
    assert_eq!(b, Buffer { page: 3, offset: 10000, len: 6384 });
}
