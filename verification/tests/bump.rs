use dbos::allocator::bump::BumpAllocator;

const BASE: u64 = 0x1000;

#[test]
fn bump_scenario_fill_free_refill() {
    // 4096-byte heap: a 100-byte allocation lands at the start of the heap,
    // a 4000-byte one no longer fits, and after the single deallocation the
    // whole heap is reclaimed at once, so the 4000-byte request succeeds.
    let mut bump = BumpAllocator::new();
    bump.init(BASE, 4096);
    let first = bump.allocate(100, 1);
    assert_eq!(first, Some(BASE));
    assert_eq!(bump.allocate(4000, 1), None);
    bump.deallocate(BASE, 100, 1);
    assert_eq!(bump.allocate(4000, 1), Some(BASE));
}

#[test]
fn bump_quiescence_resets_cursor() {
    // Three allocations followed by three deallocations, freed out of order:
    // the cursor is back at the start, so a heap-sized request fits again.
    let mut bump = BumpAllocator::new();
    bump.init(BASE, 4096);
    let a = bump.allocate(64, 8).unwrap();
    let b = bump.allocate(64, 8).unwrap();
    let c = bump.allocate(64, 8).unwrap();
    bump.deallocate(b, 64, 8);
    bump.deallocate(a, 64, 8);
    bump.deallocate(c, 64, 8);
    assert_eq!(bump.allocate(4096, 1), Some(BASE));
}

#[test]
fn bump_respects_alignment() {
    let mut bump = BumpAllocator::new();
    bump.init(BASE + 1, 4095);
    let p = bump.allocate(16, 64).unwrap();
    assert_eq!(p % 64, 0);
    assert!(p >= BASE + 1);
}

#[test]
fn bump_no_reuse_before_quiescence() {
    // Freeing one of two live allocations recovers nothing.
    let mut bump = BumpAllocator::new();
    bump.init(BASE, 128);
    let a = bump.allocate(64, 1).unwrap();
    let b = bump.allocate(64, 1).unwrap();
    assert_eq!(a, BASE);
    assert_eq!(b, BASE + 64);
    bump.deallocate(a, 64, 1);
    assert_eq!(bump.allocate(64, 1), None);
}

#[test]
fn bump_zero_size_allocations_succeed() {
    // Zero-size requests succeed at the aligned cursor and occupy no bytes.
    let mut bump = BumpAllocator::new();
    bump.init(BASE, 64);
    assert_eq!(bump.allocate(0, 1), Some(BASE));
    assert_eq!(bump.allocate(64, 1), Some(BASE));
}
