use dbos::allocator::linked_list::LinkedListAllocator;

#[test]
fn list_scenario_first_fit_reuses_freed_region() {
    // 64-byte heap: two 16-byte allocations fill the front, the first is
    // freed, and an 8-byte request reuses the freed region at the base
    // because the scan is first-fit and freed regions go to the front.
    let base: u64 = 0x100;
    let mut list = LinkedListAllocator::new();
    list.init(base, 64);
    assert_eq!(list.allocate(16, 1), Some(base));
    assert_eq!(list.allocate(16, 1), Some(base + 16));
    list.deallocate(base, 16, 1);
    assert_eq!(list.allocate(8, 1), Some(base));
}

#[test]
fn list_round_trip_returns_same_address() {
    // Allocate, free, allocate again with the same layout: same address.
    let base: u64 = 0x200;
    let mut list = LinkedListAllocator::new();
    list.init(base, 64);
    let p = list.allocate(20, 4).unwrap();
    assert_eq!(p, base);
    list.deallocate(p, 20, 4);
    assert_eq!(list.allocate(20, 4), Some(p));
}

#[test]
fn list_oversize_request_fails_despite_total() {
    // Two free 16-byte regions hold 32 bytes together, yet a 24-byte
    // request fails: fragmentation is observable, not hidden.
    let base: u64 = 0x300;
    let mut list = LinkedListAllocator::new();
    list.init(base, 64);
    let a = list.allocate(16, 1).unwrap();
    let _b = list.allocate(16, 1).unwrap();
    let c = list.allocate(16, 1).unwrap();
    let _d = list.allocate(16, 1).unwrap();
    list.deallocate(a, 16, 1);
    list.deallocate(c, 16, 1);
    assert_eq!(list.allocate(24, 1), None);
    assert_eq!(list.allocate(16, 1), Some(c));
}

#[test]
fn list_no_coalescing_of_adjacent_regions() {
    // Freeing two adjacent 16-byte blocks does not merge them: a 32-byte
    // request still fails.
    let base: u64 = 0x400;
    let mut list = LinkedListAllocator::new();
    list.init(base, 32);
    let a = list.allocate(16, 1).unwrap();
    let b = list.allocate(16, 1).unwrap();
    assert_eq!((a, b), (base, base + 16));
    list.deallocate(a, 16, 1);
    list.deallocate(b, 16, 1);
    assert_eq!(list.allocate(32, 1), None);
}

#[test]
fn list_small_trailing_remainder_is_folded() {
    // Taking 56 bytes from a 64-byte region leaves 8, too little for a
    // node's own bookkeeping: the remainder is lost to the allocation and
    // even a tiny request finds no region.
    let base: u64 = 0x500;
    let mut list = LinkedListAllocator::new();
    list.init(base, 64);
    assert_eq!(list.allocate(56, 1), Some(base));
    assert_eq!(list.allocate(8, 1), None);
}

#[test]
fn list_alignment_gap_is_registered() {
    // A region whose start must be rounded up far enough leaves a leading
    // gap big enough for a node, which stays allocatable.
    let base: u64 = 0x610;
    let mut list = LinkedListAllocator::new();
    list.init(base, 112);
    // Rounding 0x610 up to 64 gives 0x640: a 48-byte leading gap.
    let p = list.allocate(16, 64).unwrap();
    assert_eq!(p, 0x640);
    assert_eq!(list.allocate(48, 1), Some(base));
}
