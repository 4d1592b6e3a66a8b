use dbos::allocator::{align_up, HEAP_SIZE, HEAP_START};

#[test]
fn align_up_identity_on_aligned() {
    assert_eq!(align_up(0, 1), 0);
    assert_eq!(align_up(8, 8), 8);
    assert_eq!(align_up(4096, 4096), 4096);
    assert_eq!(align_up(HEAP_START, 4096), HEAP_START);
}

#[test]
fn align_up_rounds_to_next_multiple() {
    assert_eq!(align_up(5, 1), 5);
    assert_eq!(align_up(5, 8), 8);
    assert_eq!(align_up(9, 8), 16);
    assert_eq!(align_up(1, 4096), 4096);
    assert_eq!(align_up(4097, 4096), 8192);
}

#[test]
fn align_up_near_the_top_of_the_address_space() {
    assert_eq!(align_up(u64::MAX - 7, 8), u64::MAX - 7);
    assert_eq!(align_up(u64::MAX - 8, 8), u64::MAX - 7);
}

#[test]
fn heap_window_constants() {
    assert_eq!(HEAP_START, 0x4444_4444_0000);
    assert_eq!(HEAP_SIZE, 100 * 1024);
}
