use dbos::allocator::bump::BumpAllocator;
use dbos::allocator::fixed_size_block::FixedSizeBlockAllocator;
use dbos::allocator::linked_list::LinkedListAllocator;
use dbos::allocator::{Dummy, KernelHeap, Strategy, HEAP_SIZE, HEAP_START};

#[test]
fn facade_refuses_requests_before_init() {
    let mut heap = KernelHeap::new(Strategy::Bump(BumpAllocator::new()));
    assert_eq!(heap.allocate(8, 1), None);
    let mut heap = KernelHeap::new(Strategy::LinkedList(LinkedListAllocator::new()));
    assert_eq!(heap.allocate(8, 1), None);
    let mut heap = KernelHeap::new(Strategy::FixedSizeBlock(FixedSizeBlockAllocator::new()));
    assert_eq!(heap.allocate(8, 1), None);
}

#[test]
fn facade_serves_aligned_blocks_inside_the_window() {
    let mut heap = KernelHeap::new(Strategy::FixedSizeBlock(FixedSizeBlockAllocator::new()));
    heap.init(HEAP_START, HEAP_SIZE);
    let p = heap.allocate(100, 64).unwrap();
    assert_eq!(p % 64, 0);
    assert!(HEAP_START <= p && p + 100 <= HEAP_START + HEAP_SIZE);
}

#[test]
fn facade_bump_round_trip() {
    let mut heap = KernelHeap::new(Strategy::Bump(BumpAllocator::new()));
    heap.init(HEAP_START, HEAP_SIZE);
    let p = heap.allocate(1024, 8).unwrap();
    assert_eq!(p, HEAP_START);
    heap.deallocate(p, 1024, 8);
    assert_eq!(heap.allocate(HEAP_SIZE, 1), Some(HEAP_START));
}

#[test]
fn facade_linked_list_reuse() {
    let mut heap = KernelHeap::new(Strategy::LinkedList(LinkedListAllocator::new()));
    heap.init(HEAP_START, HEAP_SIZE);
    let p = heap.allocate(256, 16).unwrap();
    heap.deallocate(p, 256, 16);
    assert_eq!(heap.allocate(256, 16), Some(p));
}

#[test]
fn facade_fixed_size_block_classes() {
    let mut heap = KernelHeap::new(Strategy::FixedSizeBlock(FixedSizeBlockAllocator::new()));
    heap.init(HEAP_START, HEAP_SIZE);
    let p = heap.allocate(8, 1).unwrap();
    heap.deallocate(p, 8, 1);
    assert_eq!(heap.allocate(5, 1), Some(p));
}

#[test]
fn facade_exhaustion_fails_cleanly() {
    let mut heap = KernelHeap::new(Strategy::LinkedList(LinkedListAllocator::new()));
    heap.init(HEAP_START, HEAP_SIZE);
    assert_eq!(heap.allocate(HEAP_SIZE + 1, 1), None);
    assert_eq!(heap.allocate(HEAP_SIZE, 1), Some(HEAP_START));
    assert_eq!(heap.allocate(1, 1), None);
}

#[test]
fn facade_zero_size_requests_are_served() {
    let mut heap = KernelHeap::new(Strategy::FixedSizeBlock(FixedSizeBlockAllocator::new()));
    heap.init(HEAP_START, HEAP_SIZE);
    // A zero-size request still draws from its class like any other.
    let p = heap.allocate(0, 1).unwrap();
    assert_eq!(p, HEAP_START);
    assert!(heap.can_deallocate(p, 0, 1));
    heap.deallocate(p, 0, 1);
    assert_eq!(heap.allocate(0, 1), Some(p));
}

#[test]
fn dummy_strategy_always_fails() {
    let dummy = Dummy;
    assert_eq!(dummy.allocate(1, 1), None);
    assert_eq!(dummy.allocate(0, 1), None);
}
