//! What the heaps promise of every block, on chosen values.

use systemless::bus::MacMemoryBus;
use systemless::cells::{SharedCells, SharedProcessValue};
use systemless::classic_heap::{
    ClassicAllocationPlanSource, ClassicHeapAllocatorState, CLASSIC_HEAP_BASE,
};
use systemless::guest_memory::GuestAddressSpace;
use systemless::memory_manager::{ManagerCells, ProcessNativeMemoryManager};
use systemless::memory_model::{
    MEM_FULL_ERR, MEM_PUR_ERR, MEM_WZ_ERR, NIL_HANDLE_ERR, NO_ERR, PARAM_ERR,
};
use systemless::native_heap::{ProcessHandleRecord, ProcessNativeHeapState};

const LIMIT: u32 = CLASSIC_HEAP_BASE + 0x1_0000;
const NATIVE_BASE: u32 = 0x0300_0000;

fn native_manager(cells: &mut ManagerCells, heap_limit: u32) -> ProcessNativeMemoryManager {
    let mut manager = ProcessNativeMemoryManager::new(cells);
    manager.publish_native_allocator(
        cells,
        ProcessNativeHeapState {
            heap_base: NATIVE_BASE,
            heap_cursor: NATIVE_BASE,
            heap_limit,
            last_mem_error: 0,
            heap_maximized: false,
            master_pointer_blocks_requested: 0,
        },
        &[],
        &[],
        &[],
    );
    manager
}

fn last_error(manager: &ProcessNativeMemoryManager) -> i16 {
    manager.native_heap_state().unwrap().last_mem_error
}

#[test]
fn blocks_of_the_classic_heap_never_overlap() {
    let mut heap = ClassicHeapAllocatorState::new();
    let first = heap.allocate(10, 4, LIMIT);
    let second = heap.allocate(4, 4, LIMIT);
    let third = heap.allocate(33, 16, LIMIT);
    assert_eq!(first, CLASSIC_HEAP_BASE);
    assert_eq!(second, CLASSIC_HEAP_BASE + 12);
    assert_eq!(third, CLASSIC_HEAP_BASE + 16);
    assert_eq!(heap.allocation_capacity(first), Some(12));
    assert_eq!(heap.allocation_capacity(third), Some(36));
    assert_eq!(heap.heap_bump_ptr(), third + 36);

    // A released block is handed out again, and keeps its room.
    heap.free(third);
    assert_eq!(heap.allocation_size(third), None);
    assert_eq!(heap.allocate(20, 4, LIMIT), third);
    assert_eq!(heap.allocation_size(third), Some(20));
    assert_eq!(heap.allocation_capacity(third), Some(36));

    // A block that shrinks keeps its capacity.
    heap.set_allocation_size(third, 3);
    assert_eq!(heap.allocation_size(third), Some(3));
    assert_eq!(heap.allocation_capacity(third), Some(36));
}

#[test]
fn a_refused_request_leaves_the_classic_heap_alone() {
    let mut heap = ClassicHeapAllocatorState::new();
    assert_eq!(heap.allocate(8, 4, LIMIT), CLASSIC_HEAP_BASE);
    let cursor = heap.heap_bump_ptr();
    assert!(heap.allocation_plan(0x2_0000, 4, LIMIT).is_none());
    assert_eq!(heap.allocate(0x2_0000, 4, LIMIT), 0);
    assert_eq!(heap.allocate(u32::MAX, 4, LIMIT), 0);
    assert_eq!(heap.heap_bump_ptr(), cursor);
    assert_eq!(heap.allocation_size(CLASSIC_HEAP_BASE), Some(8));
}

#[test]
fn planned_blocks_step_over_reserved_spans() {
    let mut heap = ClassicHeapAllocatorState::new();
    heap.reserve_range(CLASSIC_HEAP_BASE + 8, CLASSIC_HEAP_BASE + 0x20);
    let plan = heap.allocation_plan(16, 4, LIMIT).unwrap();
    assert_eq!(plan.address, CLASSIC_HEAP_BASE + 0x20);
    assert!(matches!(
        plan.source,
        ClassicAllocationPlanSource::Bump { .. }
    ));
    assert_eq!(heap.allocation_size(plan.address), None);
    assert!(heap.commit_allocation_plan(plan));
    assert_eq!(heap.allocation_size(CLASSIC_HEAP_BASE + 0x20), Some(16));
    // The same plan is stale now.
    assert!(!heap.commit_allocation_plan(plan));

    heap.reserve_until(CLASSIC_HEAP_BASE + 0x100);
    assert_eq!(heap.allocate(4, 4, LIMIT), CLASSIC_HEAP_BASE + 0x100);
}

#[test]
fn buckets_are_whole_words() {
    for (size, bucket) in [(0, 4), (1, 4), (4, 4), (5, 8), (30, 32), (33, 36)] {
        assert_eq!(ClassicHeapAllocatorState::allocation_bucket_size(size), bucket);
    }
}

#[test]
fn blocks_of_the_native_heap_never_overlap() {
    let mut cells = ManagerCells::new();
    let mut manager = native_manager(&mut cells, NATIVE_BASE + 0x1000);
    let mut memory = GuestAddressSpace::new();

    let first = manager.new_native_ptr(&cells, &mut memory, 20, true);
    let second = manager.new_native_ptr(&cells, &mut memory, 1, true);
    assert_eq!((first, second), (NATIVE_BASE, NATIVE_BASE + 32));
    assert_eq!(memory.read_bytes(first, 32), Some(vec![0; 32]));
    assert_eq!(manager.native_ptr_size(&cells, first), 20);

    memory.write_bytes(first, b"first").unwrap();
    memory.write_bytes(second, b"s").unwrap();
    assert!(manager.dispose_native_ptr(&cells, first).is_some());
    // The released block is recycled, and its neighbour is not touched.
    assert_eq!(
        manager.new_native_ptr(&cells, &mut memory, 30, true),
        first
    );
    assert_eq!(memory.read_bytes(first, 5), Some(vec![0; 5]));
    assert_eq!(memory.read_bytes(second, 1), Some(b"s".to_vec()));

    // A block in the middle cannot grow; the last block can.
    assert_eq!(
        manager.set_native_ptr_size(&cells, &mut memory, first, 64),
        MEM_FULL_ERR
    );
    assert_eq!(
        manager.set_native_ptr_size(&cells, &mut memory, second, 64),
        NO_ERR
    );
    assert_eq!(manager.native_heap_state().unwrap().heap_cursor, second + 64);
    assert_eq!(
        manager.set_native_ptr_size(&cells, &mut memory, 0x1234, 8),
        MEM_WZ_ERR
    );
    assert_eq!(last_error(&manager), MEM_WZ_ERR);
}

#[test]
fn a_reallocated_block_keeps_its_bytes() {
    let mut cells = ManagerCells::new();
    let mut manager = native_manager(&mut cells, NATIVE_BASE + 0x1000);
    let mut memory = GuestAddressSpace::new();
    let block = manager.new_native_ptr(&cells, &mut memory, 16, true);
    manager.new_native_ptr(&cells, &mut memory, 16, true);
    memory.write_bytes(block, b"sixteen byte blk").unwrap();

    let moved = manager.reallocate_native_ptr(&cells, &mut memory, block, 40);
    assert_eq!(moved, NATIVE_BASE + 32);
    assert_eq!(
        memory.read_bytes(moved, 16),
        Some(b"sixteen byte blk".to_vec())
    );
    assert_eq!(
        manager.reallocate_native_ptr(&cells, &mut memory, moved, 0x2000),
        0
    );
    assert_eq!(manager.native_ptr_size(&cells, moved), 40);
}

#[test]
fn native_handles_lead_to_their_bytes() {
    let mut cells = ManagerCells::new();
    let mut manager = native_manager(&mut cells, NATIVE_BASE + 0x1000);
    let mut memory = GuestAddressSpace::new();

    let handle = manager.copy_bytes_to_new_native_handle(&mut cells, &mut memory, b"contents");
    let record = manager.native_allocation(&cells, handle).unwrap();
    assert_eq!(
        record,
        ProcessHandleRecord {
            handle: NATIVE_BASE,
            ptr: NATIVE_BASE + 16,
            size: 8,
            capacity: 8,
        }
    );
    assert_eq!(memory.read_u32_be(handle), Some(record.ptr));
    assert_eq!(memory.read_bytes(record.ptr, 8), Some(b"contents".to_vec()));
    assert_eq!(manager.handle_for_ptr(&cells, record.ptr), Some(handle));
    assert_eq!(manager.handle_state(&cells, handle), 0);

    let other = manager.copy_bytes_to_new_native_handle(&mut cells, &mut memory, b"other");
    let other_ptr = memory.read_u32_be(other).unwrap();

    // Growing moves the block, and the bytes go with it.
    assert_eq!(
        manager.set_native_handle_size(&mut cells, &mut memory, handle, 100),
        NO_ERR
    );
    let grown = memory.read_u32_be(handle).unwrap();
    assert_ne!(grown, record.ptr);
    assert_eq!(memory.read_bytes(grown, 8), Some(b"contents".to_vec()));
    assert_eq!(memory.read_bytes(grown + 8, 92), Some(vec![0; 92]));
    assert_eq!(manager.handle_for_ptr(&cells, grown), Some(handle));
    assert_eq!(manager.handle_for_ptr(&cells, record.ptr), None);

    // Appended bytes follow what was there.
    assert_eq!(
        manager.set_native_handle_size(&mut cells, &mut memory, handle, 4),
        NO_ERR
    );
    assert_eq!(
        manager.append_bytes_to_native_handle(&mut cells, &mut memory, handle, b"ext"),
        NO_ERR
    );
    let appended = memory.read_u32_be(handle).unwrap();
    assert_eq!(memory.read_bytes(appended, 7), Some(b"context".to_vec()));
    assert_eq!(memory.read_bytes(other_ptr, 5), Some(b"other".to_vec()));

    assert_eq!(
        manager.set_native_handle_size(&mut cells, &mut memory, 0x1234, 4),
        NIL_HANDLE_ERR
    );
    assert_eq!(
        manager.set_native_handle_size(&mut cells, &mut memory, handle, 0x4000),
        MEM_FULL_ERR
    );
    assert_eq!(memory.read_u32_be(handle), Some(appended));
    assert_eq!(memory.read_bytes(appended, 7), Some(b"context".to_vec()));

    assert!(manager
        .dispose_native_handle(&mut cells, &mut memory, handle)
        .is_some());
    assert_eq!(manager.native_allocation(&cells, handle), None);
    assert_eq!(manager.handle_for_ptr(&cells, appended), None);
}

#[test]
fn locked_native_handles_cannot_be_emptied() {
    let mut cells = ManagerCells::new();
    let mut manager = native_manager(&mut cells, NATIVE_BASE + 0x1000);
    let mut memory = GuestAddressSpace::new();
    let handle = manager.new_native_handle(&mut cells, &mut memory, 8, true);
    manager.lock_process_handle(&mut cells, handle, false);
    assert_eq!(
        manager.empty_native_handle(&mut cells, &mut memory, handle),
        MEM_PUR_ERR
    );
    manager.unlock_process_handle(&mut cells, handle);
    assert_eq!(
        manager.empty_native_handle(&mut cells, &mut memory, handle),
        NO_ERR
    );
    assert_eq!(memory.read_u32_be(handle), Some(0));
    // An emptied handle gets a block again.
    assert_eq!(
        manager.set_native_handle_size(&mut cells, &mut memory, handle, 24),
        NO_ERR
    );
    assert_ne!(memory.read_u32_be(handle), Some(0));
}

#[test]
fn written_bytes_of_an_address_space_are_read_back() {
    let mut memory = GuestAddressSpace::new();
    memory.add_region(0x1000, vec![1; 0x10]);
    memory.add_readonly_region(0x1010, vec![2; 0x10]);

    memory.write_u32_be(0x1004, 0xCAFE_F00D).unwrap();
    assert_eq!(memory.read_u32_be(0x1004), Some(0xCAFE_F00D));
    assert_eq!(memory.read_u8(0x1003), Some(1));
    assert_eq!(memory.read_u8(0x1008), Some(1));

    // A write that meets a read-only byte changes nothing.
    assert_eq!(memory.write_bytes(0x100E, b"over"), None);
    assert_eq!(memory.read_bytes(0x100E, 4), Some(vec![1, 1, 2, 2]));
    assert!(memory.is_mapped(0x1000, 0x20));
    assert!(!memory.is_mapped(0x1000, 0x21));
    assert!(memory.preflight_writable_range(0x1000, 0x10));
    assert!(!memory.preflight_writable_range(0x1000, 0x11));
    assert_eq!(memory.read_u32_be(0x101E), None);
}

/// A manager whose classic heap lies in the RAM of a bus.
fn classic_manager(
    cells: &mut ManagerCells,
    ram_size: u32,
) -> (ProcessNativeMemoryManager, MacMemoryBus) {
    let mut manager = ProcessNativeMemoryManager::new(cells);
    let mut bus = MacMemoryBus::new(cells, ram_size);
    manager.attach_classic_memory_bus(cells, &mut bus);
    (manager, bus)
}

#[test]
fn classic_handles_keep_their_bytes_when_they_are_resized() {
    let mut cells = ManagerCells::new();
    let mut spaces = SharedCells::new();
    let (mut manager, mut bus) = classic_manager(&mut cells, 0x40_0000);

    let (handle, ptr) = manager
        .copy_bytes_to_new_classic_handle(&mut cells, &mut spaces, &mut bus, b"contents!!")
        .unwrap();
    assert_eq!((ptr, handle), (CLASSIC_HEAP_BASE, CLASSIC_HEAP_BASE + 12));
    assert_eq!(bus.read_long(&spaces, handle), ptr);
    assert_eq!(
        manager.process_handle_bytes(&cells, &spaces, &bus, handle),
        Ok(b"contents!!".to_vec())
    );

    // Within the same bucket the block stays, and what is cut off is cleared.
    assert_eq!(
        manager.set_process_handle_size(&mut cells, &mut spaces, &mut bus, handle, 9),
        NO_ERR
    );
    assert_eq!(bus.read_long(&spaces, handle), ptr);
    assert_eq!(
        manager.process_handle_bytes(&cells, &spaces, &bus, handle),
        Ok(b"contents!".to_vec())
    );
    assert_eq!(bus.read_byte(&spaces, ptr + 9), 0);

    // A larger block is another one.
    assert_eq!(
        manager.set_process_handle_size(&mut cells, &mut spaces, &mut bus, handle, 40),
        NO_ERR
    );
    let moved = bus.read_long(&spaces, handle);
    assert_ne!(moved, ptr);
    assert_eq!(bus.read_bytes(&spaces, moved, 9), b"contents!".to_vec());
    assert_eq!(manager.classic_allocation_size(&cells, ptr), None);
    assert_eq!(manager.classic_allocation_size(&cells, moved), Some(40));

    assert_eq!(
        manager.set_process_handle_size(&mut cells, &mut spaces, &mut bus, handle, 0x80_0000),
        MEM_FULL_ERR
    );
    assert_eq!(bus.read_long(&spaces, handle), moved);
    assert_eq!(
        manager.set_process_handle_size(&mut cells, &mut spaces, &mut bus, 0, 4),
        NIL_HANDLE_ERR
    );
    assert_eq!(
        manager.process_handle_bytes(&cells, &spaces, &bus, 0),
        Err(NIL_HANDLE_ERR)
    );
    // The master pointer of an unknown handle leads nowhere.
    bus.write_long(&mut spaces, 0x1000, 0x2000);
    assert_eq!(
        manager.process_handle_bytes(&cells, &spaces, &bus, 0x1000),
        Err(MEM_WZ_ERR)
    );
}

#[test]
fn native_handles_keep_their_bytes_through_the_bus() {
    let mut cells = ManagerCells::new();
    let mut spaces = SharedCells::new();
    let mut manager = native_manager(&mut cells, NATIVE_BASE + 0x1000);
    let mut memory = GuestAddressSpace::new();
    memory.add_region(NATIVE_BASE, vec![0; 0x1000]);
    let handle = manager.copy_bytes_to_new_native_handle(&mut cells, &mut memory, b"contents");
    let shared = SharedProcessValue::from_value(&mut spaces, memory);
    let mut bus = MacMemoryBus::new(&mut cells, 0x2000);
    bus.attach_guest_address_space(&shared);

    assert_eq!(
        manager.set_process_handle_size(&mut cells, &mut spaces, &mut bus, handle, 20),
        NO_ERR
    );
    assert_eq!(
        manager.process_handle_bytes(&cells, &spaces, &bus, handle),
        Ok(b"contents\0\0\0\0\0\0\0\0\0\0\0\0".to_vec())
    );
    assert_eq!(
        manager.set_process_handle_size(&mut cells, &mut spaces, &mut bus, handle, 3),
        NO_ERR
    );
    assert_eq!(
        manager.process_handle_bytes(&cells, &spaces, &bus, handle),
        Ok(b"con".to_vec())
    );
    assert_eq!(
        manager.set_process_handle_size(&mut cells, &mut spaces, &mut bus, handle, 0x4000),
        MEM_FULL_ERR
    );
    assert_eq!(
        manager.process_handle_bytes(&cells, &spaces, &bus, handle),
        Ok(b"con".to_vec())
    );
}

/// A classic handle of `bytes` that native imports see in an address space of
/// their own.
fn imported_handle(
    cells: &mut ManagerCells,
    bytes: &[u8],
) -> (ProcessNativeMemoryManager, GuestAddressSpace, u32) {
    let mut spaces = SharedCells::new();
    let (mut manager, mut bus) = classic_manager(cells, 0x40_0000);
    let (handle, ptr) = manager
        .copy_bytes_to_new_classic_handle(cells, &mut spaces, &mut bus, bytes)
        .unwrap();
    let mut memory = GuestAddressSpace::new();
    memory.add_region(CLASSIC_HEAP_BASE, vec![0; 0x1000]);
    memory.write_bytes(ptr, bytes).unwrap();
    memory.write_u32_be(handle, ptr).unwrap();
    (manager, memory, handle)
}

#[test]
fn imports_copy_classic_handles() {
    let mut cells = ManagerCells::new();
    let (mut manager, mut memory, handle) = imported_handle(&mut cells, b"contents");
    let ptr = memory.read_u32_be(handle).unwrap();

    let copy = manager
        .copy_process_handle_from_native_import(&mut cells, &mut memory, handle)
        .unwrap();
    assert_ne!(copy, handle);
    let copy_ptr = memory.read_u32_be(copy).unwrap();
    assert_ne!(copy_ptr, ptr);
    assert_eq!(memory.read_bytes(copy_ptr, 8), Some(b"contents".to_vec()));
    assert_eq!(
        manager.process_handle_size_from_master_pointer(&cells, copy, copy_ptr),
        Some(8)
    );
    assert_eq!(
        manager.process_handle_size_from_master_pointer(&cells, copy, 0),
        None
    );

    assert_eq!(
        manager.copy_process_handle_from_native_import(&mut cells, &mut memory, 0),
        Err(NIL_HANDLE_ERR)
    );
    // A master pointer that does not lead to its block is refused.
    memory.write_u32_be(copy, ptr).unwrap();
    assert_eq!(
        manager.copy_process_handle_from_native_import(&mut cells, &mut memory, copy),
        Err(MEM_WZ_ERR)
    );
}

#[test]
fn imports_resize_classic_handles() {
    let mut cells = ManagerCells::new();
    let (mut manager, mut memory, handle) = imported_handle(&mut cells, b"contents");
    let ptr = memory.read_u32_be(handle).unwrap();

    // What is cut off is cleared, and the block keeps its place and its room.
    assert_eq!(
        manager.set_process_handle_size_from_native_import(&mut cells, &mut memory, handle, 3),
        NO_ERR
    );
    assert_eq!(memory.read_u32_be(handle), Some(ptr));
    assert_eq!(
        memory.read_bytes(ptr, 8),
        Some(b"con\0\0\0\0\0".to_vec())
    );
    assert_eq!(
        manager.set_process_handle_size_from_native_import(&mut cells, &mut memory, handle, 8),
        NO_ERR
    );
    assert_eq!(memory.read_u32_be(handle), Some(ptr));

    // A locked block does not move.
    manager.lock_process_handle(&mut cells, handle, false);
    assert_eq!(
        manager.set_process_handle_size_from_native_import(&mut cells, &mut memory, handle, 40),
        MEM_FULL_ERR
    );
    manager.unlock_process_handle(&mut cells, handle);
    assert_eq!(
        manager.set_process_handle_size_from_native_import(&mut cells, &mut memory, handle, 40),
        NO_ERR
    );
    let moved = memory.read_u32_be(handle).unwrap();
    assert_ne!(moved, ptr);
    assert_eq!(memory.read_bytes(moved, 3), Some(b"con".to_vec()));
    assert_eq!(manager.classic_allocation_size(&cells, ptr), None);
    assert_eq!(manager.classic_allocation_size(&cells, moved), Some(40));
    assert_eq!(manager.handle_for_ptr(&cells, moved), Some(handle));

    // The address space ends before a block of this size would.
    assert_eq!(
        manager.set_process_handle_size_from_native_import(&mut cells, &mut memory, handle, 0x2000),
        PARAM_ERR
    );
    assert_eq!(
        manager.set_process_handle_size_from_native_import(
            &mut cells,
            &mut memory,
            handle,
            u32::MAX
        ),
        MEM_FULL_ERR
    );
    assert_eq!(
        manager.set_process_handle_size_from_native_import(&mut cells, &mut memory, 0x1234, 4),
        NIL_HANDLE_ERR
    );
    assert_eq!(memory.read_u32_be(handle), Some(moved));
}

#[test]
fn imports_empty_and_dispose_of_classic_handles() {
    let mut cells = ManagerCells::new();
    let (mut manager, mut memory, handle) = imported_handle(&mut cells, b"contents");
    let ptr = memory.read_u32_be(handle).unwrap();

    manager.lock_process_handle(&mut cells, handle, false);
    assert_eq!(
        manager.empty_process_handle_from_native_import(&mut cells, &mut memory, handle),
        MEM_PUR_ERR
    );
    manager.unlock_process_handle(&mut cells, handle);
    manager.set_process_handle_resource(&mut cells, handle, true);
    assert_eq!(
        manager.empty_process_handle_from_native_import(&mut cells, &mut memory, handle),
        NIL_HANDLE_ERR
    );
    manager.set_process_handle_resource(&mut cells, handle, false);
    assert_eq!(
        manager.empty_process_handle_from_native_import(&mut cells, &mut memory, handle),
        NO_ERR
    );
    assert_eq!(memory.read_u32_be(handle), Some(0));
    assert_eq!(manager.classic_allocation_size(&cells, ptr), None);

    assert!(manager.dispose_process_handle_from_native_import(&mut cells, &mut memory, handle));
    assert_eq!(manager.classic_allocation_size(&cells, handle), None);
    assert!(!manager.dispose_process_handle_from_native_import(&mut cells, &mut memory, handle));
    assert_eq!(
        manager.empty_process_handle_from_native_import(&mut cells, &mut memory, handle),
        NIL_HANDLE_ERR
    );
}

#[test]
fn imports_resize_and_dispose_of_classic_ptrs() {
    let mut cells = ManagerCells::new();
    let (mut manager, bus) = classic_manager(&mut cells, 0x40_0000);
    let ptr = manager.new_classic_ptr(&mut cells, &bus, 10);
    let mut memory = GuestAddressSpace::new();
    memory.add_region(ptr, b"0123456789".to_vec());

    assert_eq!(manager.process_ptr_size_for_native_import(&cells, ptr), 10);
    assert_eq!(
        manager.set_process_ptr_size_for_native_import(&mut cells, &mut memory, ptr, 4),
        NO_ERR
    );
    assert_eq!(
        memory.read_bytes(ptr, 10),
        Some(b"0123\0\0\0\0\0\0".to_vec())
    );
    assert_eq!(
        manager.set_process_ptr_size_for_native_import(&mut cells, &mut memory, ptr, 12),
        NO_ERR
    );
    // The tail of the block is not mapped.
    assert_eq!(
        manager.set_process_ptr_size_for_native_import(&mut cells, &mut memory, ptr, 4),
        PARAM_ERR
    );
    assert_eq!(
        manager.set_process_ptr_size_for_native_import(&mut cells, &mut memory, ptr, 13),
        MEM_FULL_ERR
    );
    assert_eq!(
        manager.set_process_ptr_size_for_native_import(&mut cells, &mut memory, 0x1234, 4),
        MEM_WZ_ERR
    );

    assert!(manager.dispose_classic_ptr_from_native_import(&mut cells, ptr));
    assert!(!manager.dispose_classic_ptr_from_native_import(&mut cells, ptr));
    assert_eq!(manager.process_ptr_size_for_native_import(&cells, ptr), 0);
}

#[test]
fn a_restored_copy_is_the_original() {
    let mut cells = ManagerCells::new();
    let mut manager = native_manager(&mut cells, NATIVE_BASE + 0x1000);
    let mut memory = GuestAddressSpace::new();
    let handle = manager.copy_bytes_to_new_native_handle(&mut cells, &mut memory, b"kept");
    let before = manager.native_allocator_snapshot();
    let copy = manager.detached_clone(&mut cells);

    let later = manager.copy_bytes_to_new_native_handle(&mut cells, &mut memory, b"dropped");
    // The copy does not see what happens to the original.
    assert_eq!(copy.native_allocation(&cells, later), None);
    manager.restore_native_snapshot(&mut cells, copy);

    assert_eq!(manager.native_allocator_snapshot(), before);
    assert_eq!(manager.native_allocation(&cells, later), None);
    assert_eq!(manager.native_allocation(&cells, handle).unwrap().size, 4);
    assert_eq!(manager.state_for_handle(&cells, later), None);
}

#[test]
fn classic_handles_are_copied_joined_and_replaced() {
    let mut cells = ManagerCells::new();
    let mut spaces = SharedCells::new();
    let (mut manager, mut bus) = classic_manager(&mut cells, 0x40_0000);
    let (first, _) = manager
        .copy_bytes_to_new_classic_handle(&mut cells, &mut spaces, &mut bus, b"left")
        .unwrap();

    let (copy, _) = manager
        .copy_process_handle(&mut cells, &mut spaces, &mut bus, first)
        .unwrap();
    assert_ne!(copy, first);
    assert_eq!(
        manager.copy_process_handle(&mut cells, &mut spaces, &mut bus, 0),
        Err(NIL_HANDLE_ERR)
    );
    assert_eq!(
        manager.append_process_handle(&mut cells, &mut spaces, &mut bus, copy, first),
        NO_ERR
    );
    assert_eq!(
        manager.process_handle_bytes(&cells, &spaces, &bus, first),
        Ok(b"leftleft".to_vec())
    );
    assert_eq!(
        manager.process_handle_bytes(&cells, &spaces, &bus, copy),
        Ok(b"left".to_vec())
    );
    assert_eq!(
        manager.replace_process_handle_bytes(&mut cells, &mut spaces, &mut bus, copy, b"right"),
        NO_ERR
    );
    assert_eq!(
        manager.append_bytes_to_process_handle(&mut cells, &mut spaces, &mut bus, copy, b"!"),
        NO_ERR
    );
    assert_eq!(
        manager.process_handle_bytes(&cells, &spaces, &bus, copy),
        Ok(b"right!".to_vec())
    );
    assert_eq!(
        manager.process_handle_size(&cells, &spaces, &bus, copy),
        Some(6)
    );
    assert_eq!(manager.process_handle_size(&cells, &spaces, &bus, 0), None);
}

#[test]
fn classic_handles_are_emptied_and_reallocated() {
    let mut cells = ManagerCells::new();
    let mut spaces = SharedCells::new();
    let (mut manager, mut bus) = classic_manager(&mut cells, 0x40_0000);
    let (handle, ptr) = manager
        .new_classic_handle(&mut cells, &mut spaces, &mut bus, 12)
        .unwrap();

    manager.lock_process_handle(&mut cells, handle, false);
    assert_eq!(
        manager.empty_process_handle(&mut cells, &mut spaces, &mut bus, handle),
        MEM_PUR_ERR
    );
    manager.unlock_process_handle(&mut cells, handle);
    assert_eq!(
        manager.empty_process_handle(&mut cells, &mut spaces, &mut bus, handle),
        NO_ERR
    );
    assert_eq!(bus.read_long(&spaces, handle), 0);
    assert_eq!(manager.classic_allocation_size(&cells, ptr), None);
    assert_eq!(manager.handle_for_ptr(&cells, ptr), None);
    assert_eq!(
        manager.empty_process_handle(&mut cells, &mut spaces, &mut bus, 0x1234),
        MEM_WZ_ERR
    );

    let (old_ptr, new_ptr) = manager
        .reallocate_process_handle(&mut cells, &mut spaces, &mut bus, handle, 8)
        .unwrap();
    assert_eq!(old_ptr, 0);
    assert_eq!(bus.read_long(&spaces, handle), new_ptr);
    assert_eq!(bus.read_bytes(&spaces, new_ptr, 8), vec![0xA5; 8]);
    assert_eq!(
        manager.reallocate_process_handle(&mut cells, &mut spaces, &mut bus, handle, u32::MAX),
        Err(MEM_FULL_ERR)
    );
    assert_eq!(
        manager.reallocate_process_handle(&mut cells, &mut spaces, &mut bus, 0x1234, 8),
        Err(MEM_WZ_ERR)
    );

    let empty = manager
        .new_empty_classic_handle(&mut cells, &mut spaces, &mut bus)
        .unwrap();
    assert_eq!(bus.read_long(&spaces, empty), 0);
    manager.dispose_classic_handle(&mut cells, &spaces, &bus, handle, true);
    assert_eq!(manager.classic_allocation_size(&cells, handle), None);
    assert_eq!(manager.classic_allocation_size(&cells, new_ptr), None);
}

#[test]
fn resource_handles_are_resized_through_their_owner() {
    let mut cells = ManagerCells::new();
    let mut spaces = SharedCells::new();
    let (mut manager, mut bus) = classic_manager(&mut cells, 0x40_0000);
    let (handle, ptr) = manager
        .copy_bytes_to_new_classic_handle(&mut cells, &mut spaces, &mut bus, b"resource")
        .unwrap();
    let (old_ptr, new_ptr) = manager
        .resize_process_resource_handle(&mut cells, &mut spaces, &mut bus, handle, ptr, 40)
        .unwrap();
    assert_eq!(old_ptr, ptr);
    assert_eq!(bus.read_long(&spaces, handle), new_ptr);
    assert_eq!(bus.read_bytes(&spaces, new_ptr, 8), b"resource".to_vec());
    assert_eq!(
        manager.process_handle_size(&cells, &spaces, &bus, handle),
        Some(40)
    );
    assert_eq!(
        manager.resize_process_resource_handle(&mut cells, &mut spaces, &mut bus, 0, 0, 4),
        Err(NIL_HANDLE_ERR)
    );
    assert_eq!(
        manager.resize_process_resource_handle(&mut cells, &mut spaces, &mut bus, 0x1234, 0, 4),
        Err(MEM_WZ_ERR)
    );
}

#[test]
fn handles_are_recovered_while_their_master_pointer_agrees() {
    let mut cells = ManagerCells::new();
    let mut manager = ProcessNativeMemoryManager::new(&mut cells);
    manager.track_handle_ptr(&mut cells, 0x2000, 0x1000);
    assert_eq!(
        manager.recover_handle_from_master_pointer(&mut cells, 0x2000, |_| Some(0x2000)),
        Some(0x1000)
    );
    assert_eq!(
        manager.recover_handle_from_master_pointer(&mut cells, 0x2000, |_| Some(0x3000)),
        None
    );
    // The stale entry was dropped.
    assert_eq!(manager.handle_for_ptr(&cells, 0x2000), None);
    assert_eq!(
        manager.recover_handle_from_master_pointer(&mut cells, 0x2000, |_| Some(0x2000)),
        None
    );
}

#[test]
fn scratch_leaves_the_error_and_the_cursor_alone() {
    let mut cells = ManagerCells::new();
    let mut manager = native_manager(&mut cells, NATIVE_BASE + 0x1000);
    let mut memory = GuestAddressSpace::new();
    manager.set_native_mem_error(&cells, PARAM_ERR);

    assert_eq!(
        manager.native_scratch_bytes(&cells, &mut memory, 0x20, true),
        NATIVE_BASE
    );
    assert_eq!(manager.native_heap_state().unwrap().heap_cursor, NATIVE_BASE);
    let scratch = manager.new_native_scratch(&cells, &mut memory, 0x20);
    assert_eq!(scratch, NATIVE_BASE);
    assert_eq!(last_error(&manager), PARAM_ERR);
    manager.release_native_scratch(&cells, scratch);
    assert_eq!(last_error(&manager), PARAM_ERR);
    assert_eq!(manager.native_ptr_records().len(), 0);

    let cursor = manager.native_heap_state().unwrap().heap_cursor;
    assert!(!manager.commit_native_heap_cursor_with(&cells, cursor + 1, cursor + 16, || true));
    assert!(!manager.commit_native_heap_cursor_with(&cells, cursor, cursor + 16, || false));
    assert!(!manager.commit_native_heap_cursor_with(
        &cells,
        cursor,
        NATIVE_BASE + 0x1000,
        || true
    ));
    assert!(manager.commit_native_heap_cursor_with(&cells, cursor, cursor + 16, || true));
    assert_eq!(
        manager.native_heap_state().unwrap().heap_cursor,
        cursor + 16
    );
}
