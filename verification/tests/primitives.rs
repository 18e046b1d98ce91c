use async_runtime::{BitMap, BitMap4096, BitMap64, IndexAllocator, RingBuffer};

#[test]
fn allocator_hands_out_lowest_free_index() {
    let mut a = IndexAllocator::new(3);
    assert_eq!(a.allocate(), Some(0));
    assert_eq!(a.allocate(), Some(1));
    assert_eq!(a.allocate(), Some(2));
    assert_eq!(a.allocate(), None);
}

#[test]
fn allocator_recycles_released_indices() {
    let mut a = IndexAllocator::new(4);
    a.allocate();
    a.allocate();
    a.allocate();
    a.release(1);
    // the freed index is the lowest free one and comes back next
    assert_eq!(a.allocate(), Some(1));
    assert_eq!(a.allocate(), Some(3));
}

#[test]
fn allocator_release_is_idempotent() {
    let mut a = IndexAllocator::new(2);
    assert_eq!(a.allocate(), Some(0));
    a.release(0);
    a.release(0);
    assert!(!a.is_used(0));
    assert_eq!(a.allocate(), Some(0));
    assert!(a.is_used(0));
}

#[test]
fn bitmap64_set_get_clear() {
    let mut m = BitMap64::new();
    assert!(m.empty());
    m.set(5);
    assert!(m.get(5));
    assert!(!m.get(4));
    assert!(!m.empty());
    m.clear(5);
    assert!(!m.get(5));
    assert!(m.empty());
}

#[test]
fn bitmap64_scans_from_the_lowest_position() {
    let mut m = BitMap64::new();
    assert_eq!(m.find_first_one(), 64);
    m.set(9);
    m.set(3);
    m.set(63);
    assert_eq!(m.find_first_one(), 3);
    m.clear(3);
    assert_eq!(m.find_first_one(), 9);
    assert_eq!(m.find_first_zero(), 0);
    m.set(0);
    m.set(1);
    assert_eq!(m.find_first_zero(), 2);
}

#[test]
fn bitmap4096_covers_both_levels() {
    let mut m = BitMap4096::new();
    assert!(m.empty());
    assert_eq!(m.find_first_one(), 4096);
    m.set(100);
    m.set(4095);
    assert!(m.get(100));
    assert!(m.get(4095));
    assert!(!m.get(99));
    assert_eq!(m.find_first_one(), 100);
    m.clear(100);
    assert_eq!(m.find_first_one(), 4095);
    m.clear(4095);
    assert!(m.empty());
}

#[test]
fn bitmap4096_fetch_pops_lowest_set_positions() {
    let mut m = BitMap4096::new();
    m.set(70);
    m.set(7);
    m.set(4000);
    assert_eq!(m.fetch(), Some(7));
    assert_eq!(m.fetch(), Some(70));
    assert_eq!(m.fetch(), Some(4000));
    assert_eq!(m.fetch(), None);
}

#[test]
fn bitmap4096_finds_first_zero() {
    let mut m = BitMap4096::new();
    assert_eq!(m.find_first_zero(), 0);
    for i in 0..66 {
        m.set(i);
    }
    assert_eq!(m.find_first_zero(), 66);
}

#[test]
fn ring_buffer_rejects_pushes_when_full() {
    let mut rb: RingBuffer<u32> = RingBuffer::new(2, 0);
    assert!(rb.empty());
    assert_eq!(rb.push(&1), Ok(()));
    assert_eq!(rb.push(&2), Ok(()));
    assert!(rb.full());
    // a full buffer fails without overwriting anything
    assert_eq!(rb.push(&3), Err(()));
    assert_eq!(rb.size(), 2);
    assert_eq!(rb.pop(), Some(1));
    assert_eq!(rb.pop(), Some(2));
    assert_eq!(rb.pop(), None);
}

#[test]
fn ring_buffer_keeps_fifo_order_across_wraparound() {
    let mut rb: RingBuffer<u8> = RingBuffer::new(3, 0);
    rb.push(&1).unwrap();
    rb.push(&2).unwrap();
    assert_eq!(rb.pop(), Some(1));
    rb.push(&3).unwrap();
    rb.push(&4).unwrap();
    assert!(rb.full());
    assert_eq!(rb.pop(), Some(2));
    assert_eq!(rb.pop(), Some(3));
    assert_eq!(rb.pop(), Some(4));
    assert!(rb.empty());
}

#[test]
fn ring_buffer_size_tracks_pushes_and_pops() {
    let mut rb: RingBuffer<u16> = RingBuffer::new(4, 0);
    assert_eq!(rb.size(), 0);
    rb.push(&10).unwrap();
    rb.push(&11).unwrap();
    assert_eq!(rb.size(), 2);
    rb.pop();
    assert_eq!(rb.size(), 1);
}

#[test]
fn zero_capacity_ring_buffer_is_always_full() {
    let mut rb: RingBuffer<u8> = RingBuffer::new(0, 0);
    assert!(rb.empty());
    assert!(rb.full());
    assert_eq!(rb.push(&1), Err(()));
    assert_eq!(rb.pop(), None);
}
