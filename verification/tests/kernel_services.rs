use dbos::driver::keyboard::{should_render, ScancodeStream, SCANCODE_QUEUE_CAPACITY};
use dbos::driver::pci::{PciDeviceInfo, PciScanner};
use dbos::interrupts::{init_idt, HandlerKind, InterruptIndex, PIC_1_OFFSET, PIC_2_OFFSET};
use dbos::memory::{get_physical_memory_capacity, EmptyFrameAllocator, MemoryRegion,
    MemoryRegionKind};
use dbos::task::simple_executor::SimpleExecutor;
use dbos::task::{Task, TaskId};
use dbos::QemuExitCode;

#[test]
fn qemu_exit_codes() {
    assert_eq!(QemuExitCode::Success.code(), 0x10);
    assert_eq!(QemuExitCode::Failed.code(), 0x11);
}

#[test]
fn interrupt_vectors_are_offset_past_exceptions() {
    assert_eq!(PIC_1_OFFSET, 32);
    assert_eq!(PIC_2_OFFSET, 40);
    assert_eq!(InterruptIndex::Timer.as_u8(), 32);
    assert_eq!(InterruptIndex::Keyboard.as_u8(), 33);
    assert_eq!(InterruptIndex::Timer.as_usize(), 32);
    assert_eq!(InterruptIndex::Keyboard.as_usize(), 33);
}

#[test]
fn idt_layout_assigns_every_handler() {
    let table = init_idt();
    assert_eq!(table.len(), 5);
    assert_eq!(table[0].vector, 3);
    assert_eq!(table[0].handler, HandlerKind::Breakpoint);
    assert!(!table[0].uses_fault_stack);
    assert_eq!(table[1].vector, 8);
    assert_eq!(table[1].handler, HandlerKind::DoubleFault);
    assert!(table[1].uses_fault_stack);
    assert_eq!(table[2].vector, 14);
    assert_eq!(table[2].handler, HandlerKind::PageFault);
    assert_eq!(table[3].vector, 32);
    assert_eq!(table[3].handler, HandlerKind::Timer);
    assert_eq!(table[4].vector, 33);
    assert_eq!(table[4].handler, HandlerKind::Keyboard);
}

#[test]
fn memory_capacity_counts_by_region_kind() {
    let map = vec![
        MemoryRegion { start: 0, end: 0x1000, kind: MemoryRegionKind::Usable },
        MemoryRegion { start: 0x1000, end: 0x2000, kind: MemoryRegionKind::Kernel },
        MemoryRegion { start: 0x2000, end: 0x3000, kind: MemoryRegionKind::Other },
        MemoryRegion { start: 0x3000, end: 0x4000, kind: MemoryRegionKind::Usable },
        MemoryRegion { start: 0x4000, end: 0x5000, kind: MemoryRegionKind::InUse },
    ];
    let (free, capacity) = get_physical_memory_capacity(&map);
    assert_eq!(free, 2048);
    assert_eq!(capacity, 4096);
}

#[test]
fn memory_capacity_of_empty_map() {
    let map: Vec<MemoryRegion> = Vec::new();
    assert_eq!(get_physical_memory_capacity(&map), (0, 0));
}

#[test]
fn empty_frame_allocator_has_nothing() {
    let mut frames = EmptyFrameAllocator;
    assert_eq!(frames.allocate_frame(), None);
    assert_eq!(frames.allocate_frame(), None);
}

#[test]
fn pci_scan_picks_matching_classes_in_order() {
    let devices = vec![
        PciDeviceInfo { bus: 0, device: 0, full_class: 0x0600 },
        PciDeviceInfo { bus: 0, device: 1, full_class: 0x0300 },
        PciDeviceInfo { bus: 0, device: 2, full_class: 0x0600 },
        PciDeviceInfo { bus: 1, device: 0, full_class: 0x0101 },
    ];
    let scanner = PciScanner::new(devices);
    let bridges = scanner.scan_for_type(0x0600);
    assert_eq!(bridges.len(), 2);
    assert_eq!((bridges[0].bus, bridges[0].device), (0, 0));
    assert_eq!((bridges[1].bus, bridges[1].device), (0, 2));
    assert!(scanner.scan_for_type(0x0c03).is_empty());
}

#[test]
fn scancode_queue_is_bounded_and_ordered() {
    let mut stream = ScancodeStream::new();
    assert_eq!(stream.poll_next(), None);
    for i in 0..SCANCODE_QUEUE_CAPACITY {
        assert!(stream.add_scancode(i as u8));
    }
    assert!(!stream.add_scancode(0xaa));
    assert_eq!(stream.poll_next(), Some(0));
    assert_eq!(stream.poll_next(), Some(1));
    assert!(stream.add_scancode(0xbb));
}

#[test]
fn backspace_scancode_is_not_rendered() {
    assert!(!should_render(0x0e));
    assert!(should_render(0x1e));
    assert!(should_render(0x9e));
}

#[test]
fn task_ids_are_unique_and_sequential() {
    let mut counter: u64 = 0;
    let a = TaskId::new(&mut counter);
    let b = TaskId::new(&mut counter);
    assert_eq!(counter, 2);
    assert_ne!(a, b);
    let t1 = Task::new(&mut counter);
    let t2 = Task::new(&mut counter);
    assert_eq!(counter, 4);
    assert_ne!(t1.id(), t2.id());
}

#[test]
fn simple_executor_round_robin() {
    let mut counter: u64 = 0;
    let mut executor = SimpleExecutor::new();
    let t1 = Task::new(&mut counter);
    let t2 = Task::new(&mut counter);
    let id1 = t1.id();
    let id2 = t2.id();
    executor.spawn(t1);
    executor.spawn(t2);
    let first = executor.next_task().unwrap();
    assert_eq!(first.id(), id1);
    executor.requeue(first);
    assert_eq!(executor.next_task().unwrap().id(), id2);
    assert_eq!(executor.next_task().unwrap().id(), id1);
    assert!(executor.next_task().is_none());
}
