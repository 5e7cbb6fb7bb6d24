//! The owner of a process's state and the adapters that attach to it.

use systemless::adoption::MigratedServiceConflict;
use systemless::bus::MacMemoryBus;
use systemless::cells::{SharedCells, SharedProcessValue};
use systemless::cursor::CursorImage;
use systemless::events::QueuedEvent;
use systemless::execution::{
    ExecutionMenuViews, GuestCallTarget, ProcessMenuTrackingState, SharedGuestCallStack,
};
use systemless::guest_memory::GuestAddressSpace;
use systemless::memory_model::{MEM_FULL_ERR, NO_ERR};
use systemless::menu_selection::SharedNativeMenuSelection;
use systemless::process_context::{
    CfmConnection, CfmLibraryFragment, CfmState, ProcessCells, ProcessContext, ProcessDefaults,
};
use systemless::tasks::{CallbackTaskArchitecture, SharedProcessMixedModeM68kState};
use systemless::ticks::SharedProcessTickState;

fn defaults() -> ProcessDefaults {
    ProcessDefaults {
        colors: [[0xFFFF; 3]; 256],
        gamma: [[7; 256]; 3],
        arrow: CursorImage::mono([0xAA; 32], [0xFF; 32], 1, 1),
    }
}

fn new_context(cells: &mut ProcessCells) -> ProcessContext {
    ProcessContext::new(cells, &defaults())
}

fn begin_test_call(cells: &mut ProcessCells, calls: &SharedGuestCallStack, entry: u32) {
    calls.begin_call(
        &mut cells.executions,
        GuestCallTarget {
            architecture: CallbackTaskArchitecture::M68k,
            entry,
            rtoc: 0,
        },
        entry.wrapping_add(2),
        0x3000,
    );
}

fn test_menu_tracking(menu_handle: u32) -> ProcessMenuTrackingState {
    ProcessMenuTrackingState {
        menu_handle,
        highlighted_item: 0,
        flash_tick: None,
    }
}

fn write_long(
    buses: &mut SharedCells<MacMemoryBus>,
    bus: &SharedProcessValue<MacMemoryBus>,
    address: u32,
    value: u32,
) {
    let mut spaces = SharedCells::new();
    buses.get_mut(bus).write_long(&mut spaces, address, value);
}

fn read_long(
    buses: &SharedCells<MacMemoryBus>,
    bus: &SharedProcessValue<MacMemoryBus>,
    address: u32,
) -> u32 {
    buses.get(bus).read_long(&SharedCells::new(), address)
}

fn new_classic_ptr(
    cells: &mut ProcessCells,
    context: &ProcessContext,
    bus: &MacMemoryBus,
    size: u32,
) -> u32 {
    cells
        .managers
        .get_mut(&context.memory_manager.manager)
        .new_classic_ptr(&mut cells.memory, bus, size)
}

fn dispose_process_ptr(
    cells: &mut ProcessCells,
    context: &ProcessContext,
    bus: &MacMemoryBus,
    ptr: u32,
) {
    cells
        .managers
        .get_mut(&context.memory_manager.manager)
        .dispose_process_ptr(&mut cells.memory, bus, ptr);
}

fn classic_allocation_size(
    cells: &ProcessCells,
    context: &ProcessContext,
    ptr: u32,
) -> Option<u32> {
    cells
        .managers
        .get(&context.memory_manager.manager)
        .classic_allocation_size(&cells.memory, ptr)
}

#[test]
fn migrated_handles_are_scoped_views_of_the_process_owners() {
    let mut cells = ProcessCells::new();
    let context = new_context(&mut cells);
    let first = context.migrated_handles();
    let second = context.migrated_handles();

    assert!(first.ticks.ptr_eq(&second.ticks));
    assert!(first.execution.ptr_eq(&second.execution));
    assert!(context.menu_tracking.is_view_of(&first.execution));
    first.ticks.set_tick(&mut cells.ticks, 17);
    begin_test_call(&mut cells, &first.execution, 0x1000);
    assert_eq!(second.ticks.current_tick(&cells.ticks), 17);
    assert_eq!(second.execution.len(&cells.executions), 1);
}

#[test]
fn adapters_transfer_pending_state_and_share_one_process_owner() {
    let mut cells = ProcessCells::new();
    let context = new_context(&mut cells);

    let mut classic_selection = SharedNativeMenuSelection::new(&mut cells.menu_selections);
    assert!(classic_selection.stage(&mut cells.menu_selections, (128, 2)));
    let mut native_selection = SharedNativeMenuSelection::new(&mut cells.menu_selections);
    context.attach_native_menu_selection(&mut cells, &mut classic_selection);
    context.attach_native_menu_selection(&mut cells, &mut native_selection);
    assert_eq!(
        native_selection.take(&mut cells.menu_selections),
        Some((128, 2))
    );
    assert!(classic_selection.is_none(&cells.menu_selections));

    let mut classic_execution = ExecutionMenuViews::detached(&mut cells.executions);
    classic_execution.calls().begin_call(
        &mut cells.executions,
        GuestCallTarget {
            architecture: CallbackTaskArchitecture::M68k,
            entry: 0x1000,
            rtoc: 0,
        },
        0x2000,
        0x3000,
    );
    let mut classic_tick = SharedProcessTickState::new(&mut cells.ticks);
    let plan = context
        .preflight_migrated_adoption(&cells, &classic_tick, &classic_execution, 0)
        .ok()
        .unwrap();
    context.commit_migrated_adoption(&mut cells, plan, &mut classic_tick, &mut classic_execution);
    let mut native_tick = SharedProcessTickState::new(&mut cells.ticks);
    let mut native_execution = ExecutionMenuViews::detached(&mut cells.executions);
    let plan = context
        .preflight_migrated_adoption(&cells, &native_tick, &native_execution, 0)
        .ok()
        .unwrap();
    context.commit_migrated_adoption(&mut cells, plan, &mut native_tick, &mut native_execution);
    assert_eq!(native_execution.calls().len(&cells.executions), 1);
    assert!(!classic_execution.calls().is_empty(&cells.executions));
    assert!(native_execution.calls().ptr_eq(classic_execution.calls()));
    let call = &cells.executions.get(&native_execution.calls().cell).calls[0];
    assert_eq!(call.target.entry, 0x1000);
    assert_eq!(call.return_address, 0x2000);
    assert_eq!(call.stack_pointer, 0x3000);
    let calls = native_execution.calls();
    assert!(!calls.complete_call(&mut cells.executions, 0x2000, 0x3000));
    assert!(!calls.complete_call(&mut cells.executions, 0x2002, 0x3004));
    assert!(calls.complete_call(&mut cells.executions, 0x2002, 0x3000));
    assert!(!calls.complete_call(&mut cells.executions, 0x2002, 0x3000));
    assert!(classic_execution.calls().is_empty(&cells.executions));
}

#[test]
fn pending_selections_are_staged_once_and_detach_with_clone() {
    let mut cells = ProcessCells::new();
    let context = new_context(&mut cells);
    let process = context.pending_native_menu_selection.shared_handle();
    assert!(process.is_none(&cells.menu_selections));
    assert!(process.stage(&mut cells.menu_selections, (128, 1)));
    assert!(!process.stage(&mut cells.menu_selections, (129, 2)));
    let copy = process.detached_clone(&mut cells.menu_selections);
    assert!(!process.ptr_eq(&copy));

    let mut adapter = SharedNativeMenuSelection::new(&mut cells.menu_selections);
    assert!(adapter.is_pristine(&cells.menu_selections));
    context.attach_native_menu_selection(&mut cells, &mut adapter);
    assert!(adapter.ptr_eq(&process));
    assert_eq!(adapter.take(&mut cells.menu_selections), Some((128, 1)));
    assert_eq!(process.take(&mut cells.menu_selections), None);
    assert!(process.stage(&mut cells.menu_selections, (129, 2)));
    assert_eq!(copy.take(&mut cells.menu_selections), Some((128, 1)));
    assert_eq!(adapter.take(&mut cells.menu_selections), Some((129, 2)));
}

#[test]
fn migrated_adoption_accepts_populated_shared_execution_and_tick_sync() {
    let mut cells = ProcessCells::new();
    let context = new_context(&mut cells);
    let handles = context.migrated_handles();
    handles.ticks.set_tick(&mut cells.ticks, 7);
    begin_test_call(&mut cells, &handles.execution, 0x1000);
    let mut adapter_tick = handles.ticks.shared_handle();
    let mut adapter_execution = ExecutionMenuViews::shared_from(&handles.execution);

    let plan = context
        .preflight_migrated_adoption(&cells, &adapter_tick, &adapter_execution, 42)
        .ok()
        .unwrap();
    handles.ticks.set_tick(&mut cells.ticks, 42);
    assert!(context.adoption_is_current(&cells, &plan, &adapter_tick, &adapter_execution));
    context.commit_migrated_adoption(&mut cells, plan, &mut adapter_tick, &mut adapter_execution);

    assert!(adapter_tick.ptr_eq(&handles.ticks));
    assert_eq!(adapter_tick.current_tick(&cells.ticks), 42);
    assert!(adapter_execution.calls().ptr_eq(&handles.execution));
    assert!(adapter_execution.is_coherent());
    assert_eq!(adapter_execution.calls().len(&cells.executions), 1);
}

#[test]
fn migrated_adoption_moves_one_detached_execution_menu_and_tick_seed() {
    let mut cells = ProcessCells::new();
    let context = new_context(&mut cells);
    let handles = context.migrated_handles();
    let mut adapter_tick = SharedProcessTickState::from_value(&mut cells.ticks, 41);
    let mut adapter_execution = ExecutionMenuViews::detached(&mut cells.executions);
    adapter_execution
        .menu()
        .set(&mut cells.executions, Some(test_menu_tracking(0x1234)));

    let plan = context
        .preflight_migrated_adoption(&cells, &adapter_tick, &adapter_execution, 0)
        .ok()
        .unwrap();
    context.commit_migrated_adoption(&mut cells, plan, &mut adapter_tick, &mut adapter_execution);

    assert!(adapter_tick.ptr_eq(&handles.ticks));
    assert_eq!(handles.ticks.current_tick(&cells.ticks), 41);
    assert!(adapter_execution.calls().ptr_eq(&handles.execution));
    assert!(adapter_execution.is_coherent());
    assert_eq!(
        adapter_execution.menu().menu_handle(&cells.executions),
        Some(0x1234)
    );
    assert_eq!(
        handles
            .execution
            .menu_tracking_view()
            .menu_handle(&cells.executions),
        Some(0x1234)
    );
}

#[test]
fn migrated_adoption_binds_a_pristine_detached_pair_to_populated_process_state() {
    let mut cells = ProcessCells::new();
    let context = new_context(&mut cells);
    let handles = context.migrated_handles();
    handles.ticks.set_tick(&mut cells.ticks, 23);
    begin_test_call(&mut cells, &handles.execution, 0x1000);
    let mut adapter_tick = SharedProcessTickState::from_value(&mut cells.ticks, 23);
    let mut adapter_execution = ExecutionMenuViews::detached(&mut cells.executions);

    let plan = context
        .preflight_migrated_adoption(&cells, &adapter_tick, &adapter_execution, 23)
        .ok()
        .unwrap();
    context.commit_migrated_adoption(&mut cells, plan, &mut adapter_tick, &mut adapter_execution);

    assert!(adapter_tick.ptr_eq(&handles.ticks));
    assert!(adapter_execution.calls().ptr_eq(&handles.execution));
    assert!(adapter_execution.is_coherent());
    assert_eq!(adapter_execution.calls().len(&cells.executions), 1);
}

#[test]
fn migrated_adoption_conflicts_preserve_both_selected_services() {
    let mut cells = ProcessCells::new();
    let context = new_context(&mut cells);
    let handles = context.migrated_handles();
    handles.ticks.set_tick(&mut cells.ticks, 41);
    begin_test_call(&mut cells, &handles.execution, 0x1000);
    let adapter_tick = SharedProcessTickState::from_value(&mut cells.ticks, 42);
    let adapter_execution = ExecutionMenuViews::detached(&mut cells.executions);
    begin_test_call(&mut cells, adapter_execution.calls(), 0x2000);

    assert!(matches!(
        context.preflight_migrated_adoption(&cells, &adapter_tick, &adapter_execution, 41),
        Err(MigratedServiceConflict::Ticks)
    ));
    assert_eq!(handles.ticks.current_tick(&cells.ticks), 41);
    assert_eq!(adapter_tick.current_tick(&cells.ticks), 42);
    assert!(!adapter_tick.ptr_eq(&handles.ticks));
    assert_eq!(handles.execution.len(&cells.executions), 1);
    assert_eq!(adapter_execution.calls().len(&cells.executions), 1);
    assert!(!adapter_execution.calls().ptr_eq(&handles.execution));

    let adapter_tick = SharedProcessTickState::from_value(&mut cells.ticks, 41);
    assert!(matches!(
        context.preflight_migrated_adoption(&cells, &adapter_tick, &adapter_execution, 41),
        Err(MigratedServiceConflict::Execution)
    ));
    assert!(!adapter_tick.ptr_eq(&handles.ticks));
    assert!(!adapter_execution.calls().ptr_eq(&handles.execution));
}

/// A plan that was overtaken is recognised before either service changes.
#[test]
fn migrated_adoption_revalidates_all_facts_before_either_service_mutates() {
    let mut cells = ProcessCells::new();
    let context = new_context(&mut cells);
    let handles = context.migrated_handles();
    let adapter_tick = SharedProcessTickState::from_value(&mut cells.ticks, 41);
    let adapter_execution = ExecutionMenuViews::detached(&mut cells.executions);
    begin_test_call(&mut cells, adapter_execution.calls(), 0x1000);
    let plan = context
        .preflight_migrated_adoption(&cells, &adapter_tick, &adapter_execution, 0)
        .ok()
        .unwrap();
    assert!(context.adoption_is_current(&cells, &plan, &adapter_tick, &adapter_execution));
    adapter_tick.set_tick(&mut cells.ticks, 42);
    assert!(!context.adoption_is_current(&cells, &plan, &adapter_tick, &adapter_execution));
    assert_eq!(handles.ticks.current_tick(&cells.ticks), 0);
    assert!(handles.execution.is_pristine(&cells.executions));
    assert!(!adapter_tick.ptr_eq(&handles.ticks));
    assert!(!adapter_execution.calls().ptr_eq(&handles.execution));

    let context = new_context(&mut cells);
    let handles = context.migrated_handles();
    let adapter_tick = SharedProcessTickState::from_value(&mut cells.ticks, 41);
    let adapter_execution = ExecutionMenuViews::detached(&mut cells.executions);
    let plan = context
        .preflight_migrated_adoption(&cells, &adapter_tick, &adapter_execution, 0)
        .ok()
        .unwrap();
    begin_test_call(&mut cells, adapter_execution.calls(), 0x2000);
    assert!(!context.adoption_is_current(&cells, &plan, &adapter_tick, &adapter_execution));
    assert_eq!(handles.ticks.current_tick(&cells.ticks), 0);
    assert!(handles.execution.is_pristine(&cells.executions));
    assert!(!adapter_tick.ptr_eq(&handles.ticks));
    assert!(!adapter_execution.calls().ptr_eq(&handles.execution));
}

#[test]
fn cfm_seed_installation_moves_one_owner_and_refuses_conflicts() {
    let mut cells = ProcessCells::new();
    let mut context = new_context(&mut cells);
    let mut seed = Some(CfmState {
        connections: vec![CfmConnection {
            id: 7,
            library_name: "seed".into(),
            main_addr: 0x2000,
            init_addr: 0,
            term_addr: 0,
        }],
        library_fragments: vec![CfmLibraryFragment {
            name: "library".into(),
            bytes: vec![1, 2],
        }],
        next_connection_id: 8,
    });
    let expected = seed.clone().unwrap();
    assert!(context.install_cfm_seed(&mut seed));
    assert!(seed.is_none());
    assert_eq!(context.cfm, expected);
    assert!(!context.install_cfm_seed(&mut seed));
    assert_eq!(context.cfm, expected);
    let mut conflict = Some(expected.clone());
    assert!(!context.install_cfm_seed(&mut conflict));
    assert_eq!(conflict, Some(expected.clone()));
    assert_eq!(context.cfm, expected);
    let mut empty = Some(CfmState::new());
    assert!(context.install_cfm_seed(&mut empty));
    assert!(empty.is_none());
    assert_eq!(context.cfm, expected);
    context.cfm.next_connection_id = 9;
    assert_eq!(context.cfm.next_connection_id, 9);
    context.reset_cfm_for_launch();
    assert!(context.cfm.is_pristine());
}

#[test]
fn process_context_owns_the_classic_heap_allocator() {
    let mut cells = ProcessCells::new();
    let context = new_context(&mut cells);
    let mut primary = MacMemoryBus::new(&mut cells.memory, 8 * 1024 * 1024);
    context.attach_classic_memory_bus(&mut cells, &mut primary);

    let ptr = new_classic_ptr(&mut cells, &context, &primary, 37);
    assert_ne!(ptr, 0);
    assert_eq!(classic_allocation_size(&cells, &context, ptr), Some(37));

    let mut second_adapter = MacMemoryBus::new(&mut cells.memory, 8 * 1024 * 1024);
    context.attach_classic_memory_bus(&mut cells, &mut second_adapter);
    assert_eq!(second_adapter.get_alloc_size(&cells.memory, ptr), Some(37));
    dispose_process_ptr(&mut cells, &context, &second_adapter, ptr);
    assert_eq!(primary.get_alloc_size(&cells.memory, ptr), None);
    assert_eq!(classic_allocation_size(&cells, &context, ptr), None);

    let recycled = primary.allocate_block(&mut cells.memory, 21);
    assert_eq!(recycled, ptr);
    assert_eq!(
        second_adapter.get_alloc_size(&cells.memory, recycled),
        Some(21)
    );
}

#[test]
fn detached_classic_heap_allocators_remain_independent() {
    let mut cells = ProcessCells::new();
    let mut attached = MacMemoryBus::new(&mut cells.memory, 8 * 1024 * 1024);
    let detached = MacMemoryBus::new(&mut cells.memory, 8 * 1024 * 1024);
    let context = new_context(&mut cells);
    context.attach_classic_memory_bus(&mut cells, &mut attached);

    let attached_ptr = attached.allocate_block(&mut cells.memory, 24);
    let detached_ptr = detached.allocate_block(&mut cells.memory, 24);
    assert_eq!(attached_ptr, detached_ptr);
    attached.free(&mut cells.memory, attached_ptr);

    assert_eq!(classic_allocation_size(&cells, &context, attached_ptr), None);
    assert_eq!(
        detached.get_alloc_size(&cells.memory, detached_ptr),
        Some(24)
    );
    assert_eq!(
        attached.allocate_block(&mut cells.memory, 16),
        attached_ptr
    );
    assert_eq!(
        detached.allocate_block(&mut cells.memory, 16),
        detached_ptr + 24
    );
    assert_eq!(detached.heap_bump_ptr(&cells.memory), 0x20_0000 + 40);
}

#[test]
fn detached_process_memory_manager_snapshots_classic_allocator_state() {
    let mut cells = ProcessCells::new();
    let context = new_context(&mut cells);
    let mut attached_bus = MacMemoryBus::new(&mut cells.memory, 8 * 1024 * 1024);
    context.attach_classic_memory_bus(&mut cells, &mut attached_bus);
    let manager = context.memory_manager.shared_handle();
    let original_ptr = new_classic_ptr(&mut cells, &context, &attached_bus, 24);
    assert_ne!(original_ptr, 0);

    let detached_manager = manager.detached_clone(&mut cells.managers, &mut cells.memory);
    assert!(!manager.ptr_eq(&detached_manager));
    let mut detached_bus = MacMemoryBus::new(&mut cells.memory, 8 * 1024 * 1024);
    cells
        .managers
        .get_mut(&detached_manager.manager)
        .attach_classic_memory_bus(&mut cells.memory, &mut detached_bus);
    assert_eq!(
        cells
            .managers
            .get(&detached_manager.manager)
            .classic_allocation_size(&cells.memory, original_ptr),
        Some(24)
    );

    dispose_process_ptr(&mut cells, &context, &attached_bus, original_ptr);
    let attached_reuse = new_classic_ptr(&mut cells, &context, &attached_bus, 16);
    let detached_next = cells
        .managers
        .get_mut(&detached_manager.manager)
        .new_classic_ptr(&mut cells.memory, &detached_bus, 16);

    assert_eq!(attached_reuse, original_ptr);
    assert_eq!(detached_next, original_ptr + 24);
    assert_eq!(
        classic_allocation_size(&cells, &context, original_ptr),
        Some(16)
    );
    assert_eq!(
        cells
            .managers
            .get(&detached_manager.manager)
            .classic_allocation_size(&cells.memory, original_ptr),
        Some(24)
    );
}

#[test]
fn populated_process_allocator_attaches_a_pristine_bus() {
    let mut cells = ProcessCells::new();
    let context = new_context(&mut cells);
    let mut attached_bus = MacMemoryBus::new(&mut cells.memory, 8 * 1024 * 1024);
    context.attach_classic_memory_bus(&mut cells, &mut attached_bus);
    let ptr = new_classic_ptr(&mut cells, &context, &attached_bus, 24);
    let process_allocator = attached_bus.shared_classic_heap_allocator();
    let process_owner = process_allocator.owner_id(&cells.memory);

    let mut pristine_bus = MacMemoryBus::new(&mut cells.memory, 8 * 1024 * 1024);
    context.attach_classic_memory_bus(&mut cells, &mut pristine_bus);

    assert!(
        process_allocator.ptr_eq(&pristine_bus.shared_classic_heap_allocator()),
        "successful attachment must share the process allocator"
    );
    assert_eq!(
        pristine_bus
            .shared_classic_heap_allocator()
            .owner_id(&cells.memory),
        process_owner
    );
    assert_eq!(pristine_bus.get_alloc_size(&cells.memory, ptr), Some(24));
}

#[test]
fn pristine_process_allocator_adopts_the_only_populated_bus() {
    let mut cells = ProcessCells::new();
    let context = new_context(&mut cells);
    let mut first_adapter = MacMemoryBus::new(&mut cells.memory, 8 * 1024 * 1024);
    context.attach_classic_memory_bus(&mut cells, &mut first_adapter);
    let process_allocator = first_adapter.shared_classic_heap_allocator();
    let process_owner = process_allocator.owner_id(&cells.memory);

    let mut populated = MacMemoryBus::new(&mut cells.memory, 8 * 1024 * 1024);
    let ptr = populated.allocate_block(&mut cells.memory, 24);
    assert_ne!(ptr, 0);

    context.attach_classic_memory_bus(&mut cells, &mut populated);

    assert_eq!(classic_allocation_size(&cells, &context, ptr), Some(24));
    assert!(
        process_allocator.ptr_eq(&populated.shared_classic_heap_allocator()),
        "successful adoption must retain the process allocator identity"
    );
    assert_eq!(
        populated
            .shared_classic_heap_allocator()
            .owner_id(&cells.memory),
        process_owner
    );
    assert_eq!(first_adapter.get_alloc_size(&cells.memory, ptr), Some(24));
    dispose_process_ptr(&mut cells, &context, &first_adapter, ptr);
    assert_eq!(populated.get_alloc_size(&cells.memory, ptr), None);
}

#[test]
fn process_owned_reservations_are_visible_to_every_attached_bus() {
    let mut cells = ProcessCells::new();
    let context = new_context(&mut cells);
    let mut first = MacMemoryBus::new(&mut cells.memory, 8 * 1024 * 1024);
    let mut second = MacMemoryBus::new(&mut cells.memory, 8 * 1024 * 1024);
    context.attach_classic_memory_bus(&mut cells, &mut first);
    context.attach_classic_memory_bus(&mut cells, &mut second);
    context.reserve_classic_heap_range(&mut cells, 0x20_0040, 0x20_0080);

    assert_eq!(second.allocate_block(&mut cells.memory, 64), 0x20_0000);
    assert_eq!(first.allocate_block(&mut cells.memory, 4), 0x20_0080);
}

#[test]
fn a_bus_leaves_its_heap_behind_claimed_by_the_process() {
    let mut cells = ProcessCells::new();
    let context = new_context(&mut cells);
    let mut first = MacMemoryBus::new(&mut cells.memory, 8 * 1024 * 1024);
    context.attach_classic_memory_bus(&mut cells, &mut first);
    let process_owner = first.shared_classic_heap_allocator().owner_id(&cells.memory);
    assert!(process_owner.is_some());

    let mut second = MacMemoryBus::new(&mut cells.memory, 8 * 1024 * 1024);
    second.allocate_block(&mut cells.memory, 24);
    let left_behind = second.shared_classic_heap_allocator();
    assert_eq!(left_behind.owner_id(&cells.memory), None);
    context.attach_classic_memory_bus(&mut cells, &mut second);

    assert!(!left_behind.ptr_eq(&second.shared_classic_heap_allocator()));
    assert_eq!(left_behind.owner_id(&cells.memory), process_owner);
    assert!(!left_behind.is_pristine(&cells.memory));
}

#[test]
fn heap_reservations_reach_the_last_word_of_the_address_space() {
    for size in [0xFFDF_FFF9u32, 0xFFDF_FFFA, 0xFFDF_FFFB, 0xFFDF_FFFC] {
        let mut cells = ProcessCells::new();
        let context = new_context(&mut cells);
        let mut bus = MacMemoryBus::new(&mut cells.memory, 8 * 1024 * 1024);
        context.attach_classic_memory_bus(&mut cells, &mut bus);
        context.reserve_classic_heap(&mut cells, size);
        assert_eq!(context.classic_heap_bump_ptr(&cells), 0xFFFF_FFFC);
        assert_eq!(new_classic_ptr(&mut cells, &context, &bus, 4), 0);
    }
}

#[test]
fn classic_ptr_resize_retains_reused_bucket_capacity() {
    let mut cells = ProcessCells::new();
    let mut spaces = systemless::cells::SharedCells::new();
    let context = new_context(&mut cells);
    let mut bus = MacMemoryBus::new(&mut cells.memory, 8 * 1024 * 1024);
    context.attach_classic_memory_bus(&mut cells, &mut bus);

    let original = new_classic_ptr(&mut cells, &context, &bus, 64);
    dispose_process_ptr(&mut cells, &context, &bus, original);
    let reused = new_classic_ptr(&mut cells, &context, &bus, 16);
    assert_eq!(reused, original);
    let cursor = context.classic_heap_bump_ptr(&cells);
    let detached = cells
        .managers
        .get(&context.memory_manager.manager)
        .detached_clone(&mut cells.memory);

    assert_eq!(
        cells
            .managers
            .get_mut(&context.memory_manager.manager)
            .set_process_ptr_size(&mut cells.memory, &mut spaces, &mut bus, reused, 48),
        NO_ERR
    );
    assert_eq!(context.classic_heap_bump_ptr(&cells), cursor);
    assert_eq!(classic_allocation_size(&cells, &context, reused), Some(48));
    assert_eq!(
        detached.classic_allocation_size(&cells.memory, reused),
        Some(16)
    );

    assert_eq!(
        cells
            .managers
            .get_mut(&context.memory_manager.manager)
            .set_process_ptr_size(&mut cells.memory, &mut spaces, &mut bus, reused, 65),
        MEM_FULL_ERR
    );
    assert_eq!(context.classic_heap_bump_ptr(&cells), cursor);
    assert_eq!(classic_allocation_size(&cells, &context, reused), Some(48));
}

#[test]
fn failed_classic_handle_master_pointer_allocation_rolls_back_data() {
    let mut cells = ProcessCells::new();
    let mut spaces = systemless::cells::SharedCells::new();
    let context = new_context(&mut cells);
    let mut bus = MacMemoryBus::new(&mut cells.memory, 0x29_0008);
    context.attach_classic_memory_bus(&mut cells, &mut bus);

    assert_eq!(
        cells
            .managers
            .get_mut(&context.memory_manager.manager)
            .new_classic_handle(&mut cells.memory, &mut spaces, &mut bus, 4),
        Err(MEM_FULL_ERR)
    );
    assert_eq!(context.classic_heap_bump_ptr(&cells), 0x20_0004);
    assert_eq!(bus.get_alloc_size(&cells.memory, 0x20_0000), None);
    assert_eq!(new_classic_ptr(&mut cells, &context, &bus, 4), 0x20_0000);
}

#[test]
fn process_context_owns_canonical_event_queue() {
    let mut cells = ProcessCells::new();
    let context = new_context(&mut cells);
    assert!(context.event_queue.is_empty(&cells.event_queues));
    context.event_queue.push_back(
        &mut cells.event_queues,
        QueuedEvent {
            what: 1,
            message: 0x1234,
            when: 0,
            where_v: 10,
            where_h: 20,
            modifiers: 0,
        },
    );
    assert_eq!(context.event_queue.len(&cells.event_queues), 1);
    assert_eq!(
        context
            .event_queue
            .front(&cells.event_queues)
            .unwrap()
            .message,
        0x1234
    );
}

#[test]
fn process_context_owns_canonical_menu_tracking() {
    let mut cells = ProcessCells::new();
    let context = new_context(&mut cells);
    assert!(context.menu_tracking.is_none(&cells.executions));

    context
        .menu_tracking
        .set(&mut cells.executions, Some(test_menu_tracking(0x0012_3456)));
    assert_eq!(
        context.menu_tracking.menu_handle(&cells.executions),
        Some(0x0012_3456)
    );

    context
        .menu_tracking
        .with_tracking_mut(&mut cells.executions, |tracking| {
            tracking.highlighted_item = 3
        });
    assert_eq!(
        context
            .menu_tracking
            .snapshot(&cells.executions)
            .map(|t| (t.menu_handle, t.highlighted_item)),
        Some((0x0012_3456, 3))
    );

    let taken = context.menu_tracking.take(&mut cells.executions);
    assert_eq!(taken.map(|t| t.menu_handle), Some(0x0012_3456));
    assert!(context.menu_tracking.is_none(&cells.executions));

    context.event_queue.push_back(
        &mut cells.event_queues,
        QueuedEvent {
            what: 2,
            message: 0x5678,
            when: 0,
            where_v: 0,
            where_h: 0,
            modifiers: 0,
        },
    );
    context
        .menu_tracking
        .set(&mut cells.executions, Some(test_menu_tracking(0x0065_4321)));
    assert_eq!(context.event_queue.len(&cells.event_queues), 1);
    assert_eq!(
        context.menu_tracking.menu_handle(&cells.executions),
        Some(0x0065_4321)
    );
}

#[test]
fn menu_presentation_tick_reaches_only_an_active_menu() {
    let mut cells = ProcessCells::new();
    let context = new_context(&mut cells);
    context.set_menu_presentation_tick(&mut cells, 9);
    assert!(context.menu_tracking.is_none(&cells.executions));

    context
        .menu_tracking
        .set(&mut cells.executions, Some(test_menu_tracking(0x1000)));
    context.set_menu_presentation_tick(&mut cells, 9);
    assert_eq!(context.menu_tracking.flash_tick(&cells.executions), Some(9));
    assert_eq!(
        context.menu_tracking.menu_handle(&cells.executions),
        Some(0x1000)
    );
}

#[test]
fn mixed_mode_state_shares_as_one_pair_and_detaches_with_clone() {
    let mut cells = ProcessCells::new();
    let context = new_context(&mut cells);
    let mut first = SharedProcessMixedModeM68kState::new(&mut cells.mixed_modes);
    let mut second = SharedProcessMixedModeM68kState::new(&mut cells.mixed_modes);

    context.attach_mixed_mode_m68k_state(&mut cells, &mut first);
    first.set_storage(&mut cells.mixed_modes, 0x1000, 0x20_0000);
    context.attach_mixed_mode_m68k_state(&mut cells, &mut second);

    assert!(first.ptr_eq(&second));
    assert_eq!(
        second.storage_pair(&cells.mixed_modes),
        (0x1000, 0x20_0000)
    );

    let detached = first.detached_clone(&mut cells.mixed_modes);
    detached.set_storage(&mut cells.mixed_modes, 0x3000, 0x30_0000);
    assert!(!first.ptr_eq(&detached));
    assert_eq!(first.storage_pair(&cells.mixed_modes), (0x1000, 0x20_0000));
}

#[test]
fn adopting_two_active_menu_continuations_is_always_rejected() {
    let mut cells = ProcessCells::new();
    let context = new_context(&mut cells);
    context
        .menu_tracking
        .set(&mut cells.executions, Some(test_menu_tracking(0x1000)));
    let adapter_tick = SharedProcessTickState::new(&mut cells.ticks);
    let adapter_execution = ExecutionMenuViews::detached(&mut cells.executions);
    adapter_execution
        .menu()
        .set(&mut cells.executions, Some(test_menu_tracking(0x2000)));
    assert!(matches!(
        context.preflight_migrated_adoption(&cells, &adapter_tick, &adapter_execution, 0),
        Err(MigratedServiceConflict::Execution)
    ));
    assert_eq!(
        context.menu_tracking.menu_handle(&cells.executions),
        Some(0x1000)
    );
    assert_eq!(
        adapter_execution.menu().menu_handle(&cells.executions),
        Some(0x2000)
    );
}

#[test]
fn attaching_two_active_guest_call_stacks_is_always_rejected() {
    let mut cells = ProcessCells::new();
    let context = new_context(&mut cells);
    let handles = context.migrated_handles();
    begin_test_call(&mut cells, &handles.execution, 0x1000);
    let adapter_tick = SharedProcessTickState::new(&mut cells.ticks);
    let adapter_execution = ExecutionMenuViews::detached(&mut cells.executions);
    begin_test_call(&mut cells, adapter_execution.calls(), 0x2000);
    assert!(matches!(
        context.preflight_migrated_adoption(&cells, &adapter_tick, &adapter_execution, 0),
        Err(MigratedServiceConflict::Execution)
    ));
    assert_eq!(handles.execution.len(&cells.executions), 1);
    assert_eq!(adapter_execution.calls().len(&cells.executions), 1);
}

#[test]
fn memory_ranges_are_owned_once_and_never_overlap() {
    let mut cells = ProcessCells::new();
    let mut context = new_context(&mut cells);
    let mut buses = SharedCells::new();
    let bus = buses.allocate(MacMemoryBus::new(&mut cells.memory, 0x5000));
    let region = |start: u32, len: usize| {
        MacMemoryBus::shared_ram_region(&buses, &bus, start, len).unwrap()
    };
    let mut space = GuestAddressSpace::new();
    context.attach_memory(0, region(0, 0x1000), &mut space);
    context.attach_memory(0x3000, region(0x3000, 0x1000), &mut space);
    context.attach_memory(0, region(0x1000, 0x1000), &mut space);
    assert_eq!(
        context.memory_ranges(),
        vec![(0, 0x1000), (0x3000, 0x1000)]
    );
    assert!(context.can_attach_memory(0x1000, 0x2000));
    assert!(!context.can_attach_memory(0x0FFF, 2));
    assert!(!context.can_attach_memory(0x2FFF, 2));
    assert!(!context.can_attach_memory(0, 0x0800));
}

#[test]
fn process_context_owns_the_memory_mapping_for_cpu_adapters() {
    let mut cells = ProcessCells::new();
    let mut context = new_context(&mut cells);
    let mut buses = SharedCells::new();
    let bus = buses.allocate(MacMemoryBus::new(&mut cells.memory, 0x2000));
    write_long(&mut buses, &bus, 0x100, 0x1234_5678);
    let region = MacMemoryBus::shared_ram_region(&buses, &bus, 0, 0x1000).unwrap();
    let mut native = GuestAddressSpace::new();

    context.attach_memory(0, region, &mut native);

    assert_eq!(context.memory_ranges(), vec![(0, 0x1000)]);
    assert_eq!(native.read_seen_u32_be(&buses, 0x100), Some(0x1234_5678));
    native
        .write_seen_u32_be(&mut buses, 0x100, 0x89ab_cdef)
        .unwrap();
    assert_eq!(read_long(&buses, &bus, 0x100), 0x89ab_cdef);
}

#[test]
fn process_context_owns_multiple_regions_and_clones_detach_from_all_of_them() {
    let mut cells = ProcessCells::new();
    let mut context = new_context(&mut cells);
    let mut buses = SharedCells::new();
    let bus = buses.allocate(MacMemoryBus::new(&mut cells.memory, 0x5000));
    write_long(&mut buses, &bus, 0x100, 0x1122_3344);
    write_long(&mut buses, &bus, 0x3100, 0x5566_7788);
    let low = MacMemoryBus::shared_ram_region(&buses, &bus, 0, 0x1000).unwrap();
    let high = MacMemoryBus::shared_ram_region(&buses, &bus, 0x3000, 0x1000).unwrap();
    let mut native = GuestAddressSpace::new();

    context.attach_memory(0, low, &mut native);
    context.attach_memory(0x3000, high, &mut native);
    assert_eq!(
        context.memory_ranges(),
        vec![(0, 0x1000), (0x3000, 0x1000)]
    );

    let mut detached = native.detached_clone(&buses);
    native
        .write_seen_u32_be(&mut buses, 0x100, 0x99aa_bbcc)
        .unwrap();
    native
        .write_seen_u32_be(&mut buses, 0x3100, 0xddee_ff00)
        .unwrap();
    assert_eq!(read_long(&buses, &bus, 0x100), 0x99aa_bbcc);
    assert_eq!(read_long(&buses, &bus, 0x3100), 0xddee_ff00);
    assert_eq!(detached.read_u32_be(0x100), Some(0x1122_3344));
    assert_eq!(detached.read_u32_be(0x3100), Some(0x5566_7788));

    detached.write_u32_be(0x100, 0x0102_0304).unwrap();
    detached.write_u32_be(0x3100, 0x0506_0708).unwrap();
    assert_eq!(read_long(&buses, &bus, 0x100), 0x99aa_bbcc);
    assert_eq!(read_long(&buses, &bus, 0x3100), 0xddee_ff00);
}

#[test]
fn a_known_range_maps_the_memory_that_the_process_has() {
    let mut cells = ProcessCells::new();
    let mut context = new_context(&mut cells);
    let mut buses = SharedCells::new();
    let first = buses.allocate(MacMemoryBus::new(&mut cells.memory, 0x1000));
    let second = buses.allocate(MacMemoryBus::new(&mut cells.memory, 0x1000));
    write_long(&mut buses, &first, 0x10, 1);
    write_long(&mut buses, &second, 0x10, 2);
    let mut native = GuestAddressSpace::new();
    let mut other = GuestAddressSpace::new();
    let region = MacMemoryBus::shared_ram_region(&buses, &first, 0, 0x1000).unwrap();
    context.attach_memory(0x8000, region, &mut native);
    let region = MacMemoryBus::shared_ram_region(&buses, &second, 0, 0x1000).unwrap();
    context.attach_memory(0x8000, region, &mut other);

    assert_eq!(other.read_seen_u32_be(&buses, 0x8010), Some(1));
    other.write_seen_u32_be(&mut buses, 0x8010, 3).unwrap();
    assert_eq!(native.read_seen_u32_be(&buses, 0x8010), Some(3));
    assert_eq!(read_long(&buses, &first, 0x10), 3);
    assert_eq!(read_long(&buses, &second, 0x10), 2);
}

#[test]
fn windows_give_way_to_own_mappings_and_end_with_their_range() {
    let mut cells = ProcessCells::new();
    let mut buses = SharedCells::new();
    let bus = buses.allocate(MacMemoryBus::new(&mut cells.memory, 0x100));
    assert!(MacMemoryBus::shared_ram_region(&buses, &bus, 0xf0, 0x11).is_none());
    assert!(MacMemoryBus::shared_ram_region(&buses, &bus, 0x101, 0).is_none());
    assert!(MacMemoryBus::shared_ram_region(&buses, &bus, 0x100, 0).is_some());
    let region = MacMemoryBus::shared_ram_region(&buses, &bus, 0x10, 0x20).unwrap();
    let mut space = GuestAddressSpace::new();
    space.add_region(0x1000, vec![7; 4]);
    space.add_shared_region(0x1000, region);
    assert_eq!(space.windows().len(), 1);

    assert_eq!(space.write_seen_bytes(&mut buses, 0x1002, &[1, 2, 3, 4]), Some(()));
    assert_eq!(
        space.read_seen_bytes(&buses, 0x1000, 7),
        Some(vec![7, 7, 1, 2, 3, 4, 0])
    );
    assert_eq!(space.read_u8(0x1003), Some(2));
    assert_eq!(space.read_u8(0x1004), None);
    assert_eq!(buses.get(&bus).ram[0x12..0x17], [0, 0, 3, 4, 0]);

    // Beyond the window nothing is mapped, and such a run changes nothing.
    assert_eq!(space.write_seen_bytes(&mut buses, 0x101e, &[9, 9, 9]), None);
    assert_eq!(space.read_seen_bytes(&buses, 0x101e, 2), Some(vec![0, 0]));
    assert_eq!(space.read_seen_bytes(&buses, 0x101e, 3), None);
    assert_eq!(space.write_seen_u8(&mut buses, 0x101f, 5), Some(()));
    assert_eq!(space.write_seen_u8(&mut buses, 0x1020, 5), None);
    assert_eq!(space.read_seen_u8(&buses, 0x101f), Some(5));
    assert_eq!(buses.get(&bus).ram[0x2f], 5);
    assert_eq!(space.read_seen_u32_be(&buses, 0x101d), None);
}

#[test]
fn launch_resets_the_apple_event_one_shot() {
    let mut cells = ProcessCells::new();
    let context = new_context(&mut cells);
    context.reset_apple_event_launch_state_for_launch(&mut cells, true);
    let launch = context.apple_event_launch_state.shared_handle();
    assert!(launch.claim_open_application_event(&mut cells.launch_states));
    assert!(!launch.claim_open_application_event(&mut cells.launch_states));
    context.reset_apple_event_launch_state_for_launch(&mut cells, true);
    assert!(launch.claim_open_application_event(&mut cells.launch_states));
}

#[test]
fn memory_manager_attachment_installs_the_process_owner_once() {
    let mut cells = ProcessCells::new();
    let context = new_context(&mut cells);
    let mut adapter = None;
    context.attach_memory_manager(&mut adapter);
    assert!(adapter.as_ref().unwrap().ptr_eq(&context.memory_manager));
    context.attach_memory_manager(&mut adapter);
    assert!(adapter.as_ref().unwrap().ptr_eq(&context.memory_manager));
}
