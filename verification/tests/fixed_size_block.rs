use dbos::allocator::fixed_size_block::FixedSizeBlockAllocator;

const BASE: u64 = 0x1000;

#[test]
fn class_scenario_small_requests_share_smallest_class() {
    // Requests of size 3 and size 8 both land in the 8-byte class: each
    // carves one 8-byte block from the fallback, back to back.
    let mut fsb = FixedSizeBlockAllocator::new();
    fsb.init(BASE, 4096);
    assert_eq!(fsb.allocate(3, 1), Some(BASE));
    assert_eq!(fsb.allocate(8, 1), Some(BASE + 8));
}

#[test]
fn class_scenario_freed_block_is_reused_without_fallback() {
    // Freeing the 8-byte block and asking for 5 bytes returns exactly that
    // block from the class stack; the fallback cursor has not moved, as the
    // next carve shows.
    let mut fsb = FixedSizeBlockAllocator::new();
    fsb.init(BASE, 4096);
    let first = fsb.allocate(3, 1).unwrap();
    let second = fsb.allocate(8, 1).unwrap();
    assert_eq!((first, second), (BASE, BASE + 8));
    fsb.deallocate(second, 8, 1);
    assert_eq!(fsb.allocate(5, 1), Some(second));
    assert_eq!(fsb.allocate(6, 1), Some(BASE + 16));
}

#[test]
fn oversize_request_goes_to_fallback() {
    // 3000 bytes exceed the largest class: the request is served by the
    // fallback allocator's first-fit rule, straight from the heap base.
    let mut fsb = FixedSizeBlockAllocator::new();
    fsb.init(BASE, 8192);
    let big = fsb.allocate(3000, 1).unwrap();
    assert_eq!(big, BASE);
    // The class-sized carve continues behind it.
    assert_eq!(fsb.allocate(8, 1), Some(BASE + 3000));
    // Freeing the oversize block hands it back to the fallback, where the
    // next oversize request finds it again, front first.
    fsb.deallocate(big, 3000, 1);
    assert_eq!(fsb.allocate(3000, 1), Some(big));
}

#[test]
fn class_is_selected_by_size_and_alignment() {
    // An 8-byte request with 64-byte alignment needs the 64-byte class.
    let mut fsb = FixedSizeBlockAllocator::new();
    fsb.init(BASE, 4096);
    let p = fsb.allocate(8, 64).unwrap();
    assert_eq!(p % 64, 0);
    // Freeing with the same layout and asking again returns the same block.
    fsb.deallocate(p, 8, 64);
    assert_eq!(fsb.allocate(8, 64), Some(p));
}

#[test]
fn classes_keep_their_own_blocks() {
    // Blocks freed to one class never serve another class's requests.
    let mut fsb = FixedSizeBlockAllocator::new();
    fsb.init(BASE, 4096);
    let small = fsb.allocate(8, 1).unwrap();
    let medium = fsb.allocate(128, 1).unwrap();
    fsb.deallocate(small, 8, 1);
    fsb.deallocate(medium, 128, 1);
    assert_eq!(fsb.allocate(100, 1), Some(medium));
    assert_eq!(fsb.allocate(2, 1), Some(small));
}
