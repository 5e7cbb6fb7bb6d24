//! Memory Manager behaviour: the classic heap, the native heap and the handles
//! that both CPU adapters see.

use systemless::bus::MacMemoryBus;
use systemless::cells::{SharedCells, SharedProcessValue};
use systemless::guest_memory::GuestAddressSpace;
use systemless::memory_manager::{ManagerCells, ProcessNativeMemoryManager};
use systemless::memory_model::{
    MEM_FULL_ERR, MEM_PUR_ERR, NIL_HANDLE_ERR, NO_ERR, PARAM_ERR,
};
use systemless::native_heap::{
    ProcessHandleRecord, ProcessNativeHeapState, ProcessPtrRecord,
};

const HEAP_BASE: u32 = 0x0300_0000;

fn native_heap_state(heap_cursor: u32, heap_limit: u32) -> ProcessNativeHeapState {
    ProcessNativeHeapState {
        heap_base: 0x0300_0000,
        heap_cursor,
        heap_limit,
        last_mem_error: 0,
        heap_maximized: false,
        master_pointer_blocks_requested: 0,
    }
}

/// A manager with an empty native heap between `heap_cursor` and `heap_limit`.
fn native_manager(
    cells: &mut ManagerCells,
    heap_cursor: u32,
    heap_limit: u32,
) -> ProcessNativeMemoryManager {
    let mut manager = ProcessNativeMemoryManager::new(cells);
    manager.publish_native_allocator(
        cells,
        native_heap_state(heap_cursor, heap_limit),
        &[],
        &[],
        &[],
    );
    manager
}

fn shared_space(
    spaces: &mut SharedCells<GuestAddressSpace>,
    native: GuestAddressSpace,
) -> SharedProcessValue<GuestAddressSpace> {
    SharedProcessValue::from_value(spaces, native)
}

#[test]
fn detached_process_memory_manager_snapshots_application_heap_limit() {
    const NATIVE_HEAP_CEILING: u32 = HEAP_BASE + 0x20_000;
    const APPLICATION_HEAP_LIMIT: u32 = HEAP_BASE + 0x10_000;

    let mut cells = ManagerCells::new();
    let mut manager = native_manager(&mut cells, HEAP_BASE + 0x100, NATIVE_HEAP_CEILING);
    manager.set_application_heap_limit(&cells, APPLICATION_HEAP_LIMIT);

    let detached = manager.detached_clone(&mut cells);
    assert_eq!(detached.application_heap_limit(0), APPLICATION_HEAP_LIMIT);
    assert_eq!(
        detached.native_heap_state().unwrap().heap_limit,
        NATIVE_HEAP_CEILING,
        "detached application-limit state must not rewrite the native allocator ceiling"
    );

    manager.set_application_heap_limit(&cells, HEAP_BASE + 0x18_000);
    manager.restore_native_snapshot(&mut cells, detached);
    assert_eq!(
        manager.application_heap_limit(0),
        APPLICATION_HEAP_LIMIT,
        "transaction restore must roll back the canonical application limit"
    );
    assert_eq!(
        manager.native_heap_state().unwrap().heap_limit,
        NATIVE_HEAP_CEILING
    );
}

#[test]
fn native_attachment_replaces_an_incompatible_prior_application_limit() {
    const NATIVE_CURSOR: u32 = HEAP_BASE + 0x100;
    const NATIVE_HEAP_CEILING: u32 = HEAP_BASE + 0x2000;
    const NATIVE_APPLICATION_LIMIT: u32 = HEAP_BASE + 0x1000;

    let mut cells = ManagerCells::new();
    let mut target = ProcessNativeMemoryManager::new(&mut cells);
    target.set_application_heap_limit(&cells, HEAP_BASE - 0x100);

    let mut source = native_manager(&mut cells, NATIVE_CURSOR, NATIVE_HEAP_CEILING);
    source.set_application_heap_limit(&cells, NATIVE_APPLICATION_LIMIT);

    target.adopt_process_memory_manager(&mut cells, &mut source);

    assert_eq!(
        target.application_heap_limit(0),
        NATIVE_APPLICATION_LIMIT,
        "native attachment must retain an allocation-valid process boundary"
    );
    assert_eq!(source.application_heap_limit(0), 0);
}

#[test]
fn adoption_takes_the_classic_limit_with_the_classic_heap() {
    let mut cells = ManagerCells::new();
    let mut source = ProcessNativeMemoryManager::new(&mut cells);
    assert!(!source.native_allocator_dirty);
    assert_eq!(source.application_heap_limit(0), 0);
    assert_eq!(source.classic_heap_limit, None);
    let mut bus = MacMemoryBus::new(&mut cells, 8 * 1024 * 1024);
    source.attach_classic_memory_bus(&mut cells, &mut bus);
    let limit = source.classic_heap_limit;
    assert_eq!(limit, Some(8 * 1024 * 1024 - 0x9_0000));

    let mut target = ProcessNativeMemoryManager::new(&mut cells);
    target.adopt_process_memory_manager(&mut cells, &mut source);

    assert_eq!(target.classic_heap_limit, limit);
    assert_eq!(source.classic_heap_limit, None);
    assert!(source.classic_allocator.is_none());
}

#[test]
fn native_heap_operations_update_canonical_state_directly() {
    let mut cells = ManagerCells::new();
    let mut manager = native_manager(&mut cells, HEAP_BASE, HEAP_BASE + 0x1000);

    manager.maximize_native_heap(&cells);
    manager.request_native_master_pointers(&cells);
    manager.set_native_mem_error(&cells, PARAM_ERR);
    let mut memory = GuestAddressSpace::new();
    memory.add_region(HEAP_BASE, vec![0; 0x1000]);
    assert_eq!(
        manager.reserve_native_bytes(&cells, &mut memory, 0x20, true),
        HEAP_BASE
    );

    let heap = manager.native_heap_state().unwrap();
    assert_eq!(heap.heap_cursor, HEAP_BASE + 0x20);
    assert_eq!(heap.last_mem_error, PARAM_ERR);
    assert!(heap.heap_maximized);
    assert_eq!(heap.master_pointer_blocks_requested, 1);
}

#[test]
fn native_allocator_attachment_transfers_the_populated_owner() {
    let mut cells = ManagerCells::new();
    let mut target = native_manager(&mut cells, HEAP_BASE, HEAP_BASE + 0x1000);
    let mut source = native_manager(&mut cells, HEAP_BASE + 0x80, HEAP_BASE + 0x2000);
    if let Some(allocator) = source.native_allocator.as_mut() {
        allocator.heap.heap_cursor += 0x20;
        allocator.ptrs.push(ProcessPtrRecord {
            ptr: HEAP_BASE + 0x80,
            size: 0x20,
        });
    }
    source.native_allocator_dirty = true;
    let expected = source.native_allocator_snapshot();

    target.adopt_process_memory_manager(&mut cells, &mut source);

    assert_eq!(target.native_allocator_snapshot(), expected);
    assert!(source.native_allocator.is_none());
    assert!(source.native_handle_records().is_empty());
}

#[test]
fn native_allocator_attachment_retains_a_populated_target() {
    let mut cells = ManagerCells::new();
    let mut target = native_manager(&mut cells, HEAP_BASE, HEAP_BASE + 0x2000);
    if let Some(allocator) = target.native_allocator.as_mut() {
        allocator.heap.heap_limit -= 0x100;
        allocator.heap.last_mem_error = PARAM_ERR;
    }
    target.native_allocator_dirty = true;
    let expected = target.native_allocator_snapshot();
    let mut source = native_manager(&mut cells, HEAP_BASE + 0x80, HEAP_BASE + 0x3000);

    target.adopt_process_memory_manager(&mut cells, &mut source);

    assert_eq!(target.native_allocator_snapshot(), expected);
    assert!(source.native_allocator.is_none());
}

#[test]
fn native_allocator_attachment_moves_a_pristine_source_into_an_empty_target() {
    let mut cells = ManagerCells::new();
    let mut target = ProcessNativeMemoryManager::new(&mut cells);
    let heap = native_heap_state(HEAP_BASE + 0x80, HEAP_BASE + 0x2000);
    let mut source = ProcessNativeMemoryManager::new(&mut cells);
    source.publish_native_allocator(&cells, heap, &[], &[], &[]);

    target.adopt_process_memory_manager(&mut cells, &mut source);

    assert_eq!(target.native_heap_state(), Some(heap));
    assert!(source.native_allocator.is_none());
}

#[test]
fn native_allocator_attachment_retains_the_target_when_both_are_pristine() {
    let mut cells = ManagerCells::new();
    let target_heap = native_heap_state(HEAP_BASE, HEAP_BASE + 0x1000);
    let source_heap = native_heap_state(HEAP_BASE + 0x80, HEAP_BASE + 0x2000);
    let mut target = ProcessNativeMemoryManager::new(&mut cells);
    target.publish_native_allocator(&cells, target_heap, &[], &[], &[]);
    let mut source = ProcessNativeMemoryManager::new(&mut cells);
    source.publish_native_allocator(&cells, source_heap, &[], &[], &[]);

    target.adopt_process_memory_manager(&mut cells, &mut source);

    assert_eq!(target.native_heap_state(), Some(target_heap));
    assert!(source.native_allocator.is_none());
}

#[test]
fn process_memory_manager_relocates_native_handle_immediately_through_68k_bus() {
    let handle = HEAP_BASE;
    let old_ptr = HEAP_BASE + 0x10;
    let heap_cursor = HEAP_BASE + 0x40;
    let mut native = GuestAddressSpace::new();
    native.add_region(HEAP_BASE, vec![0; 0x1000]);
    native.write_u32_be(handle, old_ptr).unwrap();
    native.write_bytes(old_ptr, b"original").unwrap();

    let mut cells = ManagerCells::new();
    let mut spaces = SharedCells::new();
    let mut manager = native_manager(&mut cells, heap_cursor, HEAP_BASE + 0x1000);
    manager.register_native_handle_records(
        &mut cells,
        &[(
            ProcessHandleRecord {
                handle,
                ptr: old_ptr,
                size: 8,
                capacity: 16,
            },
            0,
        )],
    );

    let mut bus = MacMemoryBus::new(&mut cells, 0x2000);
    let shared = shared_space(&mut spaces, native);
    bus.attach_guest_address_space(&shared);
    let replacement = vec![0x5a; 48];
    let relocated = manager
        .replace_native_handle_bytes(
            &mut cells,
            &mut spaces,
            &mut bus,
            handle,
            old_ptr,
            &replacement,
        )
        .unwrap();

    assert_eq!(relocated, (old_ptr, heap_cursor));
    assert_eq!(bus.read_long(&spaces, handle), heap_cursor);
    assert_eq!(
        bus.read_bytes(&spaces, heap_cursor, replacement.len() as u32),
        replacement
    );
    assert_eq!(
        manager.native_allocation(&cells, handle),
        Some(ProcessHandleRecord {
            handle,
            ptr: heap_cursor,
            size: 48,
            capacity: 48,
        })
    );
    assert_eq!(
        manager
            .native_allocator_update()
            .map(|allocator| allocator.heap.heap_cursor),
        Some(heap_cursor + 48)
    );
}

#[test]
fn process_handle_resize_updates_native_allocation_through_68k_bus() {
    let handle = HEAP_BASE;
    let old_ptr = HEAP_BASE + 0x10;
    let heap_cursor = HEAP_BASE + 0x40;
    let mut native = GuestAddressSpace::new();
    native.add_region(HEAP_BASE, vec![0; 0x1000]);
    native.write_u32_be(handle, old_ptr).unwrap();
    native.write_bytes(old_ptr, b"original").unwrap();

    let mut cells = ManagerCells::new();
    let mut spaces = SharedCells::new();
    let mut manager = native_manager(&mut cells, heap_cursor, HEAP_BASE + 0x1000);
    manager.register_native_handle_records(
        &mut cells,
        &[(
            ProcessHandleRecord {
                handle,
                ptr: old_ptr,
                size: 8,
                capacity: 16,
            },
            0,
        )],
    );

    let mut bus = MacMemoryBus::new(&mut cells, 0x2000);
    let shared = shared_space(&mut spaces, native);
    bus.attach_guest_address_space(&shared);
    manager.attach_classic_memory_bus(&mut cells, &mut bus);

    assert_eq!(
        manager.set_process_handle_size(&mut cells, &mut spaces, &mut bus, handle, 48),
        NO_ERR
    );
    assert_eq!(bus.read_long(&spaces, handle), heap_cursor);
    assert_eq!(bus.read_bytes(&spaces, heap_cursor, 8), b"original");
    assert_eq!(bus.read_bytes(&spaces, heap_cursor + 8, 40), vec![0; 40]);
    assert_eq!(
        manager.native_allocation(&cells, handle),
        Some(ProcessHandleRecord {
            handle,
            ptr: heap_cursor,
            size: 48,
            capacity: 48,
        })
    );
    assert_eq!(manager.recover_handle(&cells, heap_cursor), Some(handle));
    assert_eq!(manager.recover_handle(&cells, old_ptr), None);
}

#[test]
fn process_handle_disposal_is_atomic_when_native_master_pointer_is_readonly() {
    let handle = HEAP_BASE;
    let ptr = HEAP_BASE + 0x20;
    let record = ProcessHandleRecord {
        handle,
        ptr,
        size: 8,
        capacity: 16,
    };
    let mut native = GuestAddressSpace::new();
    native.add_readonly_region(handle, ptr.to_be_bytes().to_vec());
    native.add_region(ptr, b"original".to_vec());

    let mut cells = ManagerCells::new();
    let mut spaces = SharedCells::new();
    let mut manager = native_manager(&mut cells, HEAP_BASE + 0x100, HEAP_BASE + 0x1000);
    manager.register_native_handle_records(&mut cells, &[(record, 0xE0)]);

    let mut bus = MacMemoryBus::new(&mut cells, 0x2000);
    let shared = shared_space(&mut spaces, native);
    bus.attach_guest_address_space(&shared);
    manager.attach_classic_memory_bus(&mut cells, &mut bus);

    assert_eq!(
        manager.dispose_process_handle(&mut cells, &mut spaces, &mut bus, handle, true),
        Err(NIL_HANDLE_ERR)
    );
    assert_eq!(bus.read_long(&spaces, handle), ptr);
    assert_eq!(manager.native_allocation(&cells, handle), Some(record));
    assert_eq!(manager.recover_handle(&cells, ptr), Some(handle));
    assert_eq!(manager.state_for_handle(&cells, handle), Some(0xE0));
    assert!(manager
        .native_allocator
        .as_ref()
        .is_some_and(|allocator| allocator.free_handle_blocks.is_empty()));
    assert_eq!(
        manager
            .native_allocator_update()
            .map(|allocator| allocator.heap.last_mem_error),
        Some(NIL_HANDLE_ERR)
    );
}

#[test]
fn process_memory_manager_preserves_native_handle_when_growth_exhausts_heap() {
    let handle = HEAP_BASE;
    let old_ptr = HEAP_BASE + 0x10;
    let heap_cursor = HEAP_BASE + 0x40;
    let mut native = GuestAddressSpace::new();
    native.add_region(HEAP_BASE, vec![0; 0x100]);
    native.write_u32_be(handle, old_ptr).unwrap();
    native.write_bytes(old_ptr, b"original").unwrap();

    let mut cells = ManagerCells::new();
    let mut spaces = SharedCells::new();
    let mut manager = native_manager(&mut cells, heap_cursor, heap_cursor);
    let original = ProcessHandleRecord {
        handle,
        ptr: old_ptr,
        size: 8,
        capacity: 16,
    };
    manager.register_native_handle_records(&mut cells, &[(original, 0)]);

    let mut bus = MacMemoryBus::new(&mut cells, 0x2000);
    let shared = shared_space(&mut spaces, native);
    bus.attach_guest_address_space(&shared);
    assert_eq!(
        manager.replace_native_handle_bytes(
            &mut cells,
            &mut spaces,
            &mut bus,
            handle,
            old_ptr,
            &[0x5a; 48],
        ),
        Err(MEM_FULL_ERR)
    );
    assert_eq!(bus.read_long(&spaces, handle), old_ptr);
    assert_eq!(bus.read_bytes(&spaces, old_ptr, 8), b"original");
    assert_eq!(manager.native_allocation(&cells, handle), Some(original));
    assert_eq!(
        manager
            .native_allocator_update()
            .map(|allocator| allocator.heap.last_mem_error),
        Some(MEM_FULL_ERR)
    );
}

#[test]
fn process_handle_reallocation_failure_preserves_native_process_state() {
    let handle = HEAP_BASE;
    let old_ptr = HEAP_BASE + 0x10;
    let heap_cursor = HEAP_BASE + 0x40;
    let mut native = GuestAddressSpace::new();
    native.add_region(HEAP_BASE, vec![0; 0x100]);
    native.write_u32_be(handle, old_ptr).unwrap();
    native.write_bytes(old_ptr, b"original").unwrap();

    let mut cells = ManagerCells::new();
    let mut spaces = SharedCells::new();
    let mut manager = native_manager(&mut cells, heap_cursor, heap_cursor);
    let original = ProcessHandleRecord {
        handle,
        ptr: old_ptr,
        size: 8,
        capacity: 16,
    };
    manager.register_native_handle_records(&mut cells, &[(original, 0xE0)]);

    let mut bus = MacMemoryBus::new(&mut cells, 0x2000);
    let shared = shared_space(&mut spaces, native);
    bus.attach_guest_address_space(&shared);
    manager.attach_classic_memory_bus(&mut cells, &mut bus);

    assert_eq!(
        manager.reallocate_process_handle(&mut cells, &mut spaces, &mut bus, handle, 32),
        Err(MEM_FULL_ERR)
    );
    assert_eq!(bus.read_long(&spaces, handle), old_ptr);
    assert_eq!(bus.read_bytes(&spaces, old_ptr, 8), b"original");
    assert_eq!(manager.native_allocation(&cells, handle), Some(original));
    assert_eq!(manager.recover_handle(&cells, old_ptr), Some(handle));
    assert_eq!(manager.state_for_handle(&cells, handle), Some(0xE0));
    assert_eq!(
        manager
            .native_allocator_update()
            .map(|allocator| allocator.heap.last_mem_error),
        Some(MEM_FULL_ERR)
    );
}

#[test]
fn native_empty_handle_is_atomic_and_reallocates_through_classic_bus() {
    let handle = HEAP_BASE;
    let old_ptr = HEAP_BASE + 0x20;
    let heap_cursor = HEAP_BASE + 0x100;
    let mut native = GuestAddressSpace::new();
    native.add_region(HEAP_BASE, vec![0; 0x1000]);
    native.write_u32_be(handle, old_ptr).unwrap();
    native.write_bytes(old_ptr, b"process-owned").unwrap();

    let mut cells = ManagerCells::new();
    let mut spaces = SharedCells::new();
    let mut manager = native_manager(&mut cells, heap_cursor, HEAP_BASE + 0x1000);
    let original = ProcessHandleRecord {
        handle,
        ptr: old_ptr,
        size: 13,
        capacity: 64,
    };
    manager.register_native_handle_records(&mut cells, &[(original, 0xE0)]);

    assert_eq!(
        manager.empty_native_handle(&mut cells, &mut native, handle),
        MEM_PUR_ERR
    );
    assert_eq!(native.read_u32_be(handle), Some(old_ptr));
    assert_eq!(manager.native_allocation(&cells, handle), Some(original));
    assert_eq!(manager.state_for_handle(&cells, handle), Some(0xE0));

    manager.set_state_for_handle(&mut cells, handle, 0x60);
    assert_eq!(
        manager.empty_native_handle(&mut cells, &mut native, handle),
        NO_ERR
    );
    assert_eq!(native.read_u32_be(handle), Some(0));
    assert_eq!(
        manager.native_allocation(&cells, handle),
        Some(ProcessHandleRecord {
            handle,
            ptr: 0,
            size: 0,
            capacity: 0,
        })
    );
    assert_eq!(manager.recover_handle(&cells, old_ptr), None);
    assert_eq!(manager.state_for_handle(&cells, handle), Some(0x60));
    assert_eq!(
        manager
            .native_allocator
            .as_ref()
            .and_then(|allocator| allocator.free_ptr_blocks.last())
            .copied(),
        Some(ProcessPtrRecord {
            ptr: old_ptr,
            size: 64,
        })
    );

    let mut bus = MacMemoryBus::new(&mut cells, 0x2000);
    let shared = shared_space(&mut spaces, native);
    bus.attach_guest_address_space(&shared);
    manager.attach_classic_memory_bus(&mut cells, &mut bus);
    assert_eq!(
        manager.reallocate_process_handle(&mut cells, &mut spaces, &mut bus, handle, 17),
        Ok((0, old_ptr))
    );
    assert_eq!(bus.read_long(&spaces, handle), old_ptr);
    assert_eq!(bus.read_bytes(&spaces, old_ptr, 17), vec![0xA5; 17]);
    assert_eq!(manager.recover_handle(&cells, old_ptr), Some(handle));
    assert_eq!(manager.state_for_handle(&cells, handle), Some(0x20));
    assert!(manager
        .native_allocator
        .as_ref()
        .is_some_and(|allocator| allocator.free_ptr_blocks.is_empty()));
}

#[test]
fn process_memory_manager_allocates_native_ptrs_around_readonly_mappings() {
    let mut native = GuestAddressSpace::new();
    native.add_readonly_region(HEAP_BASE, vec![0xcc; 0x30]);
    native
        .add_readonly_allocation_exclusion(HEAP_BASE, 0x30)
        .unwrap();
    native.add_region(HEAP_BASE + 0x30, vec![0x5a; 0x100]);
    let mut cells = ManagerCells::new();
    let mut manager = native_manager(&mut cells, HEAP_BASE, HEAP_BASE + 0x130);

    let ptr = manager.new_native_ptr(&cells, &mut native, 20, true);

    assert_eq!(ptr, HEAP_BASE + 0x30);
    assert_eq!(native.read_u8(HEAP_BASE), Some(0xcc));
    assert!((0..32).all(|offset| native.read_u8(ptr + offset) == Some(0)));
    assert_eq!(
        manager
            .native_allocator
            .as_ref()
            .map(|allocator| allocator.ptrs.as_slice()),
        Some([ProcessPtrRecord { ptr, size: 20 }].as_slice())
    );
    assert_eq!(manager.native_ptr_size(&cells, ptr), 20);
    assert_eq!(
        manager.dispose_native_ptr(&cells, ptr),
        Some(ProcessPtrRecord { ptr, size: 20 })
    );
    let allocator = manager.native_allocator.as_ref().unwrap();
    assert!(allocator.ptrs.is_empty());
    assert_eq!(
        allocator.free_ptr_blocks,
        vec![ProcessPtrRecord { ptr, size: 20 }]
    );
}

#[test]
fn native_handle_copy_rejects_readonly_heap_storage_before_commit() {
    let mut native = GuestAddressSpace::new();
    native.add_readonly_region(HEAP_BASE, vec![0xcc; 0x100]);
    let mut cells = ManagerCells::new();
    let mut manager = native_manager(&mut cells, HEAP_BASE, HEAP_BASE + 0x100);

    assert_eq!(
        manager.copy_bytes_to_new_native_handle(&mut cells, &mut native, b"copy"),
        0
    );
    assert_eq!(native.read_u8(HEAP_BASE), Some(0xcc));
    assert!(manager.native_handle_records().is_empty());
    let allocator = manager.native_allocator.as_ref().unwrap();
    assert_eq!(allocator.heap.heap_cursor, HEAP_BASE);
    assert!(allocator.free_ptr_blocks.is_empty());
    assert!(allocator.free_handle_blocks.is_empty());
    assert_eq!(allocator.heap.last_mem_error, MEM_FULL_ERR);
}

#[test]
fn process_memory_manager_reallocates_native_ptrs_atomically() {
    let mut native = GuestAddressSpace::new();
    native.add_region(HEAP_BASE, vec![0; 0x100]);
    let mut cells = ManagerCells::new();
    let mut manager = native_manager(&mut cells, HEAP_BASE, HEAP_BASE + 0x100);
    let original = manager.new_native_ptr(&cells, &mut native, 8, false);
    native.write_bytes(original, b"payload!").unwrap();
    let detached = manager.detached_clone(&mut cells);

    assert_eq!(
        manager.reallocate_native_ptr(&cells, &mut native, original, u32::MAX),
        0
    );
    assert_eq!(
        (0..8)
            .map(|offset| native.read_u8(original + offset))
            .collect::<Option<Vec<_>>>(),
        Some(b"payload!".to_vec())
    );
    assert!(manager
        .native_allocator
        .as_ref()
        .unwrap()
        .ptrs
        .iter()
        .any(|record| record.ptr == original));

    let replacement = manager.reallocate_native_ptr(&cells, &mut native, original, 24);

    assert_ne!(replacement, 0);
    assert_ne!(replacement, original);
    assert_eq!(
        (0..8)
            .map(|offset| native.read_u8(replacement + offset))
            .collect::<Option<Vec<_>>>(),
        Some(b"payload!".to_vec())
    );
    let allocator = manager.native_allocator.as_ref().unwrap();
    assert_eq!(
        allocator.ptrs,
        vec![ProcessPtrRecord {
            ptr: replacement,
            size: 24,
        }]
    );
    assert_eq!(
        allocator.free_ptr_blocks,
        vec![ProcessPtrRecord {
            ptr: original,
            size: 8,
        }]
    );
    assert_eq!(
        detached.native_allocator.as_ref().unwrap().ptrs,
        vec![ProcessPtrRecord {
            ptr: original,
            size: 8,
        }]
    );
}

#[test]
fn process_ptr_disposal_leaves_detached_allocator_independent() {
    let ptr = HEAP_BASE + 0x20;
    let record = ProcessPtrRecord { ptr, size: 24 };
    let mut cells = ManagerCells::new();
    let mut manager = ProcessNativeMemoryManager::new(&mut cells);
    manager.publish_native_allocator(
        &cells,
        native_heap_state(HEAP_BASE + 0x100, HEAP_BASE + 0x1000),
        &[record],
        &[],
        &[],
    );
    let detached = manager.detached_clone(&mut cells);
    let mut bus = MacMemoryBus::new(&mut cells, 0x20_0000);
    manager.attach_classic_memory_bus(&mut cells, &mut bus);

    assert_eq!(manager.dispose_process_ptr(&mut cells, &bus, ptr), Some(record));
    assert_eq!(manager.process_ptr_size(&cells, &bus, ptr), None);
    assert_eq!(detached.native_allocator.as_ref().unwrap().ptrs, vec![record]);
    assert!(detached
        .native_allocator
        .as_ref()
        .unwrap()
        .free_ptr_blocks
        .is_empty());
}

#[test]
fn process_heap_tail_reclamation_preserves_unrelated_and_detached_allocations() {
    let retained_ptr = ProcessPtrRecord {
        ptr: HEAP_BASE + 0x20,
        size: 16,
    };
    let reclaimed_handle = ProcessHandleRecord {
        handle: HEAP_BASE + 0x60,
        ptr: HEAP_BASE + 0x70,
        size: 8,
        capacity: 16,
    };
    let reclaimed_ptr = ProcessPtrRecord {
        ptr: HEAP_BASE + 0x80,
        size: 128,
    };
    let unrelated_free = ProcessPtrRecord {
        ptr: HEAP_BASE + 0x10,
        size: 8,
    };
    let reclaimed_free = ProcessPtrRecord {
        ptr: HEAP_BASE + 0xf0,
        size: 8,
    };
    let mut cells = ManagerCells::new();
    let mut manager = ProcessNativeMemoryManager::new(&mut cells);
    let mut heap = native_heap_state(HEAP_BASE + 0x100, HEAP_BASE + 0x1000);
    heap.last_mem_error = -108;
    manager.publish_native_allocator(
        &cells,
        heap,
        &[retained_ptr, reclaimed_ptr],
        &[unrelated_free, reclaimed_free],
        &[reclaimed_handle],
    );
    let detached = manager.detached_clone(&mut cells);

    assert!(manager.reclaim_native_heap_tail(
        &cells,
        reclaimed_handle.handle,
        &[reclaimed_ptr.ptr],
        Some(reclaimed_handle.handle),
    ));

    let allocator = manager.native_allocator.as_ref().unwrap();
    assert_eq!(allocator.heap.heap_cursor, reclaimed_handle.handle);
    assert_eq!(allocator.heap.last_mem_error, NO_ERR);
    assert_eq!(allocator.ptrs, vec![retained_ptr]);
    assert_eq!(allocator.free_ptr_blocks, vec![unrelated_free]);
    assert!(allocator.free_handle_blocks.is_empty());

    let detached_allocator = detached.native_allocator.as_ref().unwrap();
    assert_eq!(detached_allocator.heap.heap_cursor, HEAP_BASE + 0x100);
    assert_eq!(detached_allocator.ptrs, vec![retained_ptr, reclaimed_ptr]);
    assert_eq!(
        detached_allocator.free_ptr_blocks,
        vec![unrelated_free, reclaimed_free]
    );
    assert_eq!(
        detached_allocator.free_handle_blocks,
        vec![reclaimed_handle]
    );
}

#[test]
fn native_transaction_restore_preserves_shared_indexes() {
    let ptr = ProcessPtrRecord {
        ptr: HEAP_BASE + 0x20,
        size: 24,
    };
    let handle = ProcessHandleRecord {
        handle: HEAP_BASE + 0x40,
        ptr: HEAP_BASE + 0x50,
        size: 16,
        capacity: 16,
    };
    let mut cells = ManagerCells::new();
    let mut manager = ProcessNativeMemoryManager::new(&mut cells);
    manager.publish_native_allocator(
        &cells,
        native_heap_state(HEAP_BASE + 0x80, HEAP_BASE + 0x1000),
        &[ptr],
        &[],
        &[],
    );
    manager.register_native_handle_records(&mut cells, &[(handle, 0x40)]);
    let shared_reverse_index = manager.ptr_to_handle.shared_handle();
    let shared_state_index = manager.handle_state_bits.shared_handle();
    let snapshot = manager.detached_clone(&mut cells);

    manager.dispose_native_ptr(&cells, ptr.ptr);
    manager.set_state_for_handle(&mut cells, handle.handle, 0x80);
    manager.restore_native_snapshot(&mut cells, snapshot);

    assert_eq!(
        shared_reverse_index.get(&cells.handles, handle.ptr),
        Some(handle.handle)
    );
    assert_eq!(
        shared_state_index.get(&cells.states, handle.handle),
        Some(0x40)
    );
    assert_eq!(manager.native_allocator.as_ref().unwrap().ptrs, vec![ptr]);
    assert!(manager
        .native_allocator
        .as_ref()
        .unwrap()
        .free_ptr_blocks
        .is_empty());
}

#[test]
fn transaction_restore_preserves_attached_classic_allocator_state() {
    let mut cells = ManagerCells::new();
    let mut manager = ProcessNativeMemoryManager::new(&mut cells);
    let mut bus = MacMemoryBus::new(&mut cells, 8 * 1024 * 1024);
    manager.attach_classic_memory_bus(&mut cells, &mut bus);
    let original = manager.new_classic_ptr(&mut cells, &bus, 24);
    let snapshot = manager.detached_clone(&mut cells);

    manager.dispose_process_ptr(&mut cells, &bus, original);
    let replacement = manager.new_classic_ptr(&mut cells, &bus, 16);
    assert_eq!(replacement, original);
    manager.restore_native_snapshot(&mut cells, snapshot);

    assert_eq!(manager.classic_allocation_size(&cells, original), Some(24));
    assert_eq!(bus.get_alloc_size(&cells, original), Some(24));
    let next = manager.new_classic_ptr(&mut cells, &bus, 16);
    assert_eq!(next, original + 24);
}

#[test]
fn process_memory_manager_native_allocations_are_immediately_cross_isa_visible() {
    let mut native = GuestAddressSpace::new();
    native.add_region(HEAP_BASE, vec![0; 0x1000]);
    let mut cells = ManagerCells::new();
    let mut spaces = SharedCells::new();
    let mut manager = native_manager(&mut cells, HEAP_BASE, HEAP_BASE + 0x1000);
    let mut bus = MacMemoryBus::new(&mut cells, 0x2000);
    let shared = shared_space(&mut spaces, native);
    bus.attach_guest_address_space(&shared);

    let handle = manager.new_native_handle(&mut cells, spaces.get_mut(&shared), 24, true);
    let record = manager.native_allocation(&cells, handle).unwrap();
    spaces
        .get_mut(&shared)
        .write_bytes(record.ptr, b"native")
        .unwrap();

    assert_eq!(bus.read_long(&spaces, handle), record.ptr);
    assert_eq!(bus.read_bytes(&spaces, record.ptr, 6), b"native");
    bus.write_byte(&mut spaces, record.ptr + 6, b'!');
    assert_eq!(spaces.get(&shared).read_u8(record.ptr + 6), Some(b'!'));
}

#[test]
fn process_memory_manager_copies_and_appends_native_handle_bytes_cross_isa() {
    let mut native = GuestAddressSpace::new();
    native.add_region(HEAP_BASE, vec![0; 0x1000]);
    let mut cells = ManagerCells::new();
    let mut spaces = SharedCells::new();
    let mut manager = native_manager(&mut cells, HEAP_BASE, HEAP_BASE + 0x1000);
    let mut bus = MacMemoryBus::new(&mut cells, 0x2000);
    let shared = shared_space(&mut spaces, native);
    bus.attach_guest_address_space(&shared);

    let handle =
        manager.copy_bytes_to_new_native_handle(&mut cells, spaces.get_mut(&shared), b"native");
    let original = manager.native_allocation(&cells, handle).unwrap();
    assert_eq!(bus.read_bytes(&spaces, original.ptr, 6), b"native");

    let blocking_ptr = manager.new_native_ptr(&cells, spaces.get_mut(&shared), 16, false);
    assert_ne!(blocking_ptr, 0);
    assert_eq!(
        manager.append_bytes_to_native_handle(
            &mut cells,
            spaces.get_mut(&shared),
            handle,
            b" process memory manager",
        ),
        NO_ERR
    );

    let appended = manager.native_allocation(&cells, handle).unwrap();
    assert_ne!(appended.ptr, original.ptr);
    assert_eq!(bus.read_long(&spaces, handle), appended.ptr);
    assert_eq!(
        bus.read_bytes(&spaces, appended.ptr, appended.size),
        b"native process memory manager"
    );
    bus.write_byte(&mut spaces, appended.ptr + appended.size - 1, b'!');
    assert_eq!(
        spaces.get(&shared).read_u8(appended.ptr + appended.size - 1),
        Some(b'!')
    );
}

#[test]
fn process_memory_manager_materializes_native_resources_immediately() {
    let mut native = GuestAddressSpace::new();
    native.add_region(HEAP_BASE, vec![0; 0x1000]);
    let mut cells = ManagerCells::new();
    let mut spaces = SharedCells::new();
    let mut manager = native_manager(&mut cells, HEAP_BASE, HEAP_BASE + 0x1000);
    let mut bus = MacMemoryBus::new(&mut cells, 0x2000);
    let shared = shared_space(&mut spaces, native);
    bus.attach_guest_address_space(&shared);

    let unloaded = manager.new_native_resource_handle(&mut cells, spaces.get_mut(&shared), None);
    assert_ne!(unloaded, 0);
    assert_eq!(bus.read_long(&spaces, unloaded), 0);
    assert_eq!(manager.state_for_handle(&cells, unloaded), Some(0x60));
    let recycled_ptr = manager.native_allocator.as_ref().unwrap().free_ptr_blocks[0].ptr;
    let cursor_before_load = manager.native_heap_state().unwrap().heap_cursor;
    let detached = manager.detached_clone(&mut cells);

    assert_eq!(
        manager.load_native_resource_handle(
            &mut cells,
            spaces.get_mut(&shared),
            unloaded,
            b"resource",
        ),
        NO_ERR
    );
    let loaded = manager.native_allocation(&cells, unloaded).unwrap();
    assert_eq!(loaded.ptr, recycled_ptr);
    assert_eq!(
        manager.native_heap_state().unwrap().heap_cursor,
        cursor_before_load
    );
    assert_eq!(manager.recover_handle(&cells, loaded.ptr), Some(unloaded));
    assert_eq!(
        bus.read_bytes(&spaces, loaded.ptr, loaded.size),
        b"resource"
    );
    assert_eq!(manager.state_for_handle(&cells, unloaded), Some(0x60));

    let second = manager.new_native_resource_handle(
        &mut cells,
        spaces.get_mut(&shared),
        Some(b"second".as_slice()),
    );
    assert_ne!(second, 0);
    assert_ne!(second, unloaded);
    assert_eq!(manager.state_for_handle(&cells, second), Some(0x60));
    assert_eq!(manager.native_handle_records().len(), 2);

    assert_eq!(
        detached.native_allocation(&cells, unloaded),
        Some(ProcessHandleRecord {
            handle: unloaded,
            ptr: 0,
            size: 0,
            capacity: 0,
        })
    );
    assert_eq!(detached.native_allocation(&cells, second), None);
    assert_eq!(detached.state_for_handle(&cells, unloaded), Some(0x60));
}

#[test]
fn native_handle_registration_tracks_relocation_without_discarding_classic_handles() {
    let mut cells = ManagerCells::new();
    let mut manager = ProcessNativeMemoryManager::new(&mut cells);
    manager.track_handle_ptr(&mut cells, 0x2200, 0x1100);

    manager.register_native_handle_records(
        &mut cells,
        &[
            (
                ProcessHandleRecord {
                    handle: 0x3300,
                    ptr: 0x4400,
                    size: 16,
                    capacity: 32,
                },
                0x80,
            ),
            (
                ProcessHandleRecord {
                    handle: 0x5500,
                    ptr: 0x6600,
                    size: 48,
                    capacity: 64,
                },
                0x40,
            ),
            (
                ProcessHandleRecord {
                    handle: 0x8800,
                    ptr: 0,
                    size: 0,
                    capacity: 0,
                },
                0x40,
            ),
        ],
    );
    assert_eq!(manager.handle_for_ptr(&cells, 0x2200), Some(0x1100));
    assert_eq!(manager.handle_for_ptr(&cells, 0x4400), Some(0x3300));
    assert_eq!(manager.handle_for_ptr(&cells, 0x6600), Some(0x5500));
    assert_eq!(manager.handle_state(&cells, 0x3300), 0x80);
    assert_eq!(manager.handle_state(&cells, 0x5500), 0x40);
    assert_eq!(manager.native_allocation(&cells, 0x3300).unwrap().size, 16);
    assert_eq!(manager.native_allocation(&cells, 0x8800).unwrap().ptr, 0);
    assert_eq!(manager.handle_state(&cells, 0x8800), 0x40);

    manager.register_native_handle_records(
        &mut cells,
        &[(
            ProcessHandleRecord {
                handle: 0x3300,
                ptr: 0x7700,
                size: 80,
                capacity: 96,
            },
            0xc0,
        )],
    );
    assert_eq!(manager.handle_for_ptr(&cells, 0x2200), Some(0x1100));
    assert_eq!(manager.handle_for_ptr(&cells, 0x4400), None);
    assert_eq!(manager.handle_for_ptr(&cells, 0x6600), None);
    assert_eq!(manager.handle_for_ptr(&cells, 0x7700), Some(0x3300));
    assert_eq!(manager.handle_state(&cells, 0x3300), 0xc0);
    assert_eq!(manager.handle_state(&cells, 0x5500), 0);
    assert_eq!(manager.native_allocation(&cells, 0x3300).unwrap().size, 80);
    assert_eq!(manager.native_allocation(&cells, 0x5500), None);
}
