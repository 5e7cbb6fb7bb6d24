//! The toolbox state that the adapters of a process share.

use systemless::apple_events::{
    copy_descriptor, GuestProcedure, ProcessAeDescriptor, ProcessAeFields, ProcessAppleEventHandler,
    ProcessSyntheticAppleEvent, SharedProcessAppleEventDescriptors,
    SharedProcessAppleEventHandlers, SharedProcessAppleEventLaunchState,
};
use systemless::assoc::{AssocMap, KeySet};
use systemless::cells::SharedCells;
use systemless::cursor::{CursorImage, SharedProcessCursorState};
use systemless::dialog_text::{DialogTextSlots, SharedProcessDialogText};
use systemless::events::{EventQueue, QueuedEvent, SharedProcessEventQueue};
use systemless::execution::{ExecutionMenuViews, ProcessMenuTrackingState, SharedGuestCallStack};
use systemless::input::SharedProcessInputState;
use systemless::list_manager::{ProcessListRecord, SharedProcessListManager};
use systemless::process_context::{ProcessCells, ProcessContext, ProcessDefaults};
use systemless::scrap::SharedProcessScrapState;
use systemless::tasks::{
    CallbackTaskArchitecture, ProcessTimerTask, ProcessVblTask, SharedProcessCallbackScheduling,
    SharedProcessTimerTasks, SharedProcessVblTasks,
};
use systemless::windows::SharedProcessWindowList;

fn arrow() -> CursorImage {
    CursorImage::mono([0xAA; 32], [0xFF; 32], 1, 1)
}

fn new_context(cells: &mut ProcessCells) -> ProcessContext {
    let defaults = ProcessDefaults {
        colors: [[0xFFFF; 3]; 256],
        gamma: [[7; 256]; 3],
        arrow: arrow(),
    };
    ProcessContext::new(cells, &defaults)
}

fn four(code: &[u8; 4]) -> u32 {
    u32::from_be_bytes(*code)
}

fn event(what: u16, message: u32, where_v: i16, where_h: i16) -> QueuedEvent {
    QueuedEvent {
        what,
        message,
        when: 0,
        where_v,
        where_h,
        modifiers: 0,
    }
}

fn test_menu_tracking(menu_handle: u32) -> ProcessMenuTrackingState {
    ProcessMenuTrackingState {
        menu_handle,
        highlighted_item: 1,
        flash_tick: None,
    }
}

#[test]
fn apple_event_dispatch_prefers_application_exact_and_wildcard_entries() {
    let mut tables = SharedCells::new();
    let handlers = SharedProcessAppleEventHandlers::new(&mut tables);
    let wildcard = four(b"****");
    let event_class = four(b"aevt");
    let event_id = four(b"oapp");
    for (is_system, class, id, pointer, refcon) in [
        (true, event_class, event_id, 0x1000, 1),
        (false, wildcard, wildcard, 0x2000, 2),
        (false, event_class, wildcard, 0x3000, 3),
        (false, event_class, event_id, 0x4000, 4),
    ] {
        handlers.install(
            &mut tables,
            is_system,
            class,
            id,
            ProcessAppleEventHandler {
                procedure: GuestProcedure::raw_m68k(pointer),
                refcon,
            },
        );
    }

    assert_eq!(
        handlers
            .handler_for(&tables, event_class, event_id, wildcard)
            .map(|handler| (handler.procedure.original_pointer, handler.refcon)),
        Some((0x4000, 4))
    );
    assert!(handlers.remove(&mut tables, false, event_class, event_id, 0));
    assert_eq!(
        handlers
            .handler_for(&tables, event_class, event_id, wildcard)
            .map(|handler| (handler.procedure.original_pointer, handler.refcon)),
        Some((0x3000, 3))
    );
    assert!(handlers.remove(&mut tables, false, event_class, wildcard, 0x3000));
    assert!(!handlers.remove(&mut tables, false, wildcard, wildcard, 0x9998));
    assert_eq!(
        handlers
            .handler_for(&tables, event_class, event_id, wildcard)
            .map(|handler| (handler.procedure.original_pointer, handler.refcon)),
        Some((0x2000, 2))
    );
}

#[test]
fn attached_apple_event_tables_share_mutations_while_clones_detach() {
    let mut cells = ProcessCells::new();
    let context = new_context(&mut cells);
    let mut classic = SharedProcessAppleEventHandlers::new(&mut cells.apple_event_tables);
    let mut native = SharedProcessAppleEventHandlers::new(&mut cells.apple_event_tables);
    context.attach_apple_event_handlers(&mut cells, &mut classic);
    context.attach_apple_event_handlers(&mut cells, &mut native);
    let detached = native.detached_clone(&mut cells.apple_event_tables);
    let event_class = four(b"misc");
    let event_id = four(b"slct");

    let tables = &mut cells.apple_event_tables;
    classic.install(
        tables,
        false,
        event_class,
        event_id,
        ProcessAppleEventHandler {
            procedure: GuestProcedure::raw_m68k(0x4000),
            refcon: 0x1234_5678,
        },
    );

    assert_eq!(
        native.get(tables, false, event_class, event_id),
        classic.get(tables, false, event_class, event_id)
    );
    assert_eq!(
        native
            .get(tables, false, event_class, event_id)
            .map(|handler| handler.refcon),
        Some(0x1234_5678)
    );
    assert_eq!(detached.get(tables, false, event_class, event_id), None);
    assert_eq!(classic.len(tables), 1);
    assert_eq!(native.len(tables), 1);
    assert_eq!(detached.len(tables), 0);
}

fn descriptor(desc_type: u32, data: &[u8]) -> ProcessAeDescriptor {
    ProcessAeDescriptor {
        desc_type,
        data: data.to_vec(),
        fields: ProcessAeFields::new(),
        items: Vec::new(),
    }
}

#[test]
fn descriptor_fields_are_compared_by_their_keys() {
    let mut first = descriptor(four(b"reco"), b"");
    let mut second = descriptor(four(b"reco"), b"");
    let replaced = first
        .fields
        .insert(four(b"pnam"), descriptor(four(b"TEXT"), b"old"));
    assert!(replaced.is_none());
    let replaced = first
        .fields
        .insert(four(b"pnam"), descriptor(four(b"TEXT"), b"name"));
    assert_eq!(replaced, Some(descriptor(four(b"TEXT"), b"old")));
    first
        .fields
        .insert(four(b"long"), descriptor(four(b"long"), b"1234"));
    second
        .fields
        .insert(four(b"long"), descriptor(four(b"long"), b"1234"));
    assert_ne!(first, second);
    second
        .fields
        .insert(four(b"pnam"), descriptor(four(b"TEXT"), b"name"));
    assert_eq!(first.fields.len(), 2);
    assert_eq!(first, second);
    assert_eq!(copy_descriptor(&first), second);
    assert_eq!(
        first.fields.get(four(b"pnam")),
        Some(&descriptor(four(b"TEXT"), b"name"))
    );
    assert!(first.fields.get(four(b"none")).is_none());
    second
        .fields
        .insert(four(b"none"), descriptor(four(b"null"), b""));
    assert_ne!(first, second);

    first.items.push((1, descriptor(four(b"TEXT"), b"a")));
    first.items.push((2, descriptor(four(b"TEXT"), b"b")));
    let mut turned = copy_descriptor(&first);
    turned.items.swap(0, 1);
    assert_ne!(first, turned);
}

#[test]
fn attached_apple_event_descriptors_share_backing_and_detach_clones() {
    let mut cells = ProcessCells::new();
    let context = new_context(&mut cells);
    let mut classic = SharedProcessAppleEventDescriptors::new(&mut cells.descriptor_tables);
    let mut native = SharedProcessAppleEventDescriptors::new(&mut cells.descriptor_tables);
    context.attach_apple_event_descriptors(&mut cells, &mut classic);
    context.attach_apple_event_descriptors(&mut cells, &mut native);
    let detached = native.detached_clone(&mut cells.descriptor_tables);
    let record = 0x1000;
    let copied_record = 0x1010;
    let handle = 0x2000;
    let keyword = four(b"----");
    let value = descriptor(four(b"TEXT"), b"shared");
    let mut list = ProcessAeDescriptor {
        desc_type: four(b"list"),
        data: Vec::new(),
        fields: ProcessAeFields::new(),
        items: vec![(keyword, copy_descriptor(&value))],
    };
    let tables = &mut cells.descriptor_tables;
    let state = tables.get_mut(&classic.cell);
    state.descriptors.insert(record, copy_descriptor(&list));
    state.descriptors.insert(copied_record, copy_descriptor(&list));
    state.backing.insert(handle, copy_descriptor(&list));

    assert_eq!(
        tables.get(&native.cell).backing.get(&handle).unwrap().items[0].1,
        value
    );
    list.items.push((
        four(b"pnam"),
        descriptor(four(b"long"), &42u32.to_be_bytes()),
    ));
    let state = tables.get_mut(&native.cell);
    state.backing.insert(handle, copy_descriptor(&list));
    state.descriptors.remove(&record);

    let seen = tables.get(&classic.cell);
    assert_eq!(seen.backing.get(&handle).unwrap().items.len(), 2);
    assert!(seen.descriptors.contains_key(&copied_record));
    assert!(!seen.descriptors.contains_key(&record));
    assert!(tables.get(&detached.cell).backing.is_empty());
    assert!(tables.get(&detached.cell).descriptors.is_empty());
}

#[test]
fn attached_apple_event_launch_state_shares_one_shot_claim_while_clones_detach() {
    let mut cells = ProcessCells::new();
    let context = new_context(&mut cells);
    let mut classic = SharedProcessAppleEventLaunchState::new(&mut cells.launch_states);
    let mut native = SharedProcessAppleEventLaunchState::new(&mut cells.launch_states);
    context.attach_apple_event_launch_state(&mut cells, &mut classic);
    context.attach_apple_event_launch_state(&mut cells, &mut native);
    let states = &mut cells.launch_states;
    let detached = native.detached_clone(states);

    classic.reset_for_launch(states, true);
    assert!(native.is_high_level_event_aware(states));
    assert!(classic.claim_open_application_event(states));
    assert!(native.is_open_application_event_sent(states));
    assert!(!native.claim_open_application_event(states));
    assert!(!detached.is_high_level_event_aware(states));
    assert!(!detached.is_open_application_event_sent(states));

    native.reset_for_launch(states, false);
    assert!(!classic.is_high_level_event_aware(states));
    assert!(!classic.claim_open_application_event(states));
}

#[test]
fn process_apple_event_descriptors_encapsulation() {
    let mut tables = SharedCells::new();
    let descriptors = SharedProcessAppleEventDescriptors::new(&mut tables);
    assert!(descriptors.is_pristine(&tables));
    assert!(tables.get(&descriptors.cell).events.is_empty());
    assert!(tables.get(&descriptors.cell).descriptors.is_empty());
    assert!(tables.get(&descriptors.cell).backing.is_empty());
    assert!(descriptors.snapshot(&tables).is_pristine());

    let event = ProcessSyntheticAppleEvent {
        event_class: 0x61657674,
        event_id: 0x6F617070,
        params: ProcessAeFields::new(),
        items: Vec::new(),
    };
    let expected_event = ProcessSyntheticAppleEvent {
        event_class: 0x61657674,
        event_id: 0x6F617070,
        params: ProcessAeFields::new(),
        items: Vec::new(),
    };
    let desc = descriptor(0x54455854, b"hello");

    let state = tables.get_mut(&descriptors.cell);
    state.events.insert(0x1000, event);
    state.descriptors.insert(0x2000, copy_descriptor(&desc));
    state.backing.insert(0x3000, copy_descriptor(&desc));

    assert!(!descriptors.is_pristine(&tables));
    let seen = tables.get(&descriptors.cell);
    assert_eq!(seen.events.len(), 1);
    assert_eq!(seen.descriptors.len(), 1);
    assert_eq!(seen.backing.len(), 1);
    assert_eq!(seen.events.get(&0x1000), Some(&expected_event));
    assert_eq!(seen.descriptors.get(&0x2000), Some(&desc));
    assert_eq!(seen.backing.get(&0x3000), Some(&desc));

    let snap = descriptors.snapshot(&tables);
    assert_eq!(snap.events.len(), 1);
    assert_eq!(snap.descriptors.len(), 1);
    assert_eq!(snap.backing.len(), 1);

    let state = tables.get_mut(&descriptors.cell);
    state.events.clear();
    state.descriptors.clear();
    state.backing.clear();
    assert!(descriptors.is_pristine(&tables));
}

#[test]
fn attached_apple_event_descriptors_share_cross_isa_while_clones_detach() {
    let mut cells = ProcessCells::new();
    let context = new_context(&mut cells);
    let mut classic = SharedProcessAppleEventDescriptors::new(&mut cells.descriptor_tables);
    let mut native = SharedProcessAppleEventDescriptors::new(&mut cells.descriptor_tables);

    context.attach_apple_event_descriptors(&mut cells, &mut classic);
    context.attach_apple_event_descriptors(&mut cells, &mut native);

    assert!(classic.ptr_eq(&native));
    assert!(classic.ptr_eq(&context.apple_event_descriptors));

    let desc = descriptor(0x54455854, b"cross-isa");
    let tables = &mut cells.descriptor_tables;
    tables
        .get_mut(&classic.cell)
        .descriptors
        .insert(0x5000, copy_descriptor(&desc));

    assert_eq!(
        tables.get(&native.cell).descriptors.get(&0x5000),
        Some(&desc)
    );
    assert_eq!(
        tables
            .get(&context.apple_event_descriptors.cell)
            .descriptors
            .get(&0x5000),
        Some(&desc)
    );

    let detached = native.detached_clone(tables);
    assert!(!detached.ptr_eq(&native));

    tables.get_mut(&detached.cell).descriptors.clear();
    assert!(tables.get(&detached.cell).descriptors.is_empty());
    assert_eq!(
        tables.get(&native.cell).descriptors.get(&0x5000),
        Some(&desc)
    );
    assert_eq!(
        tables.get(&classic.cell).descriptors.get(&0x5000),
        Some(&desc)
    );
    assert_eq!(
        tables
            .get(&context.apple_event_descriptors.cell)
            .descriptors
            .get(&0x5000),
        Some(&desc)
    );
}

#[test]
fn attached_tick_states_share_wrapping_clock_while_snapshot_detaches() {
    let mut cells = ProcessCells::new();
    let context = new_context(&mut cells);
    let mut classic = systemless::ticks::SharedProcessTickState::from_value(&mut cells.ticks, 41);
    let mut classic_execution = ExecutionMenuViews::detached(&mut cells.executions);
    let mut native = systemless::ticks::SharedProcessTickState::new(&mut cells.ticks);
    let mut native_execution = ExecutionMenuViews::detached(&mut cells.executions);

    let plan = context
        .preflight_migrated_adoption(&cells, &classic, &classic_execution, 0)
        .ok()
        .unwrap();
    context.commit_migrated_adoption(&mut cells, plan, &mut classic, &mut classic_execution);
    let plan = context
        .preflight_migrated_adoption(&cells, &native, &native_execution, 41)
        .ok()
        .unwrap();
    context.commit_migrated_adoption(&mut cells, plan, &mut native, &mut native_execution);
    let ticks = &mut cells.ticks;
    let detached = native.detached_snapshot(ticks);

    assert!(classic.ptr_eq(&native));
    assert_eq!(classic.current_tick(ticks), 41);
    native.advance_ticks(ticks, 2);
    assert_eq!(classic.current_tick(ticks), 43);
    assert_eq!(detached.current_tick(ticks), 41);

    native.publish_tick(ticks, 42);
    assert_eq!(classic.current_tick(ticks), 43);

    native.set_tick(ticks, u32::MAX);
    assert_eq!(native.publish_tick(ticks, 0), 0);
    assert_eq!(classic.current_tick(ticks), 0);
}

#[test]
fn conflicting_tick_attachment_preserves_both_detached_values() {
    let mut cells = ProcessCells::new();
    let context = new_context(&mut cells);
    let mut classic = systemless::ticks::SharedProcessTickState::from_value(&mut cells.ticks, 41);
    let mut classic_execution = ExecutionMenuViews::detached(&mut cells.executions);
    let plan = context
        .preflight_migrated_adoption(&cells, &classic, &classic_execution, 0)
        .ok()
        .unwrap();
    context.commit_migrated_adoption(&mut cells, plan, &mut classic, &mut classic_execution);
    let native = systemless::ticks::SharedProcessTickState::from_value(&mut cells.ticks, 42);
    let native_execution = ExecutionMenuViews::detached(&mut cells.executions);

    assert!(matches!(
        context.preflight_migrated_adoption(&cells, &native, &native_execution, 41),
        Err(systemless::adoption::MigratedServiceConflict::Ticks)
    ));
    assert_eq!(classic.current_tick(&cells.ticks), 41);
    assert_eq!(native.current_tick(&cells.ticks), 42);
    assert!(!classic.ptr_eq(&native));
}

#[test]
fn attached_event_queues_share_fifo_and_invalidation_while_clones_detach() {
    let mut cells = ProcessCells::new();
    let context = new_context(&mut cells);
    let mut classic = SharedProcessEventQueue::new(&mut cells.event_queues);
    classic.push_back(&mut cells.event_queues, event(1, 0x1111, 10, 20));
    let mut native = SharedProcessEventQueue::new(&mut cells.event_queues);

    context.attach_event_queue(&mut cells, &mut classic);
    context.attach_event_queue(&mut cells, &mut native);
    let queues = &mut cells.event_queues;
    let detached = native.detached_clone(queues);

    native.push_back(queues, event(2, 0x2222, 30, 40));
    classic.invalidate_menu_bar(queues);

    assert!(classic.ptr_eq(&native));
    assert_eq!(classic.pop_front(queues).unwrap().message, 0x1111);
    assert_eq!(native.front(queues).unwrap().message, 0x2222);
    assert!(native.take_menu_bar_invalidation(queues));
    assert_eq!(detached.len(queues), 1);
    assert_eq!(detached.front(queues).unwrap().message, 0x1111);
    assert!(!detached.menu_bar_is_invalid(queues));
}

#[test]
fn process_event_queue_encapsulation() {
    let mut cells = SharedCells::new();
    let queues = &mut cells;
    let queue = SharedProcessEventQueue::new(queues);
    assert!(queue.is_empty(queues));
    assert_eq!(queue.len(queues), 0);
    assert!(queue.is_pristine(queues));
    assert_eq!(queue.front(queues), None);
    assert_eq!(queue.back(queues), None);
    assert_eq!(queue.get(queues, 0), None);
    assert!(!queue.menu_bar_is_invalid(queues));

    let ev1 = QueuedEvent {
        what: 1,
        message: 0x1000,
        when: 10,
        where_v: 20,
        where_h: 30,
        modifiers: 0,
    };
    let ev2 = QueuedEvent {
        what: 2,
        message: 0x2000,
        when: 20,
        where_v: 40,
        where_h: 50,
        modifiers: 0x0100,
    };
    let ev3 = QueuedEvent {
        what: 3,
        message: 0x3000,
        when: 30,
        where_v: 60,
        where_h: 70,
        modifiers: 0x0200,
    };

    queue.push_back(queues, ev1);
    queue.push_back(queues, ev2);
    queue.push_front(queues, ev3);
    assert_eq!(queue.len(queues), 3);
    assert!(!queue.is_empty(queues));
    assert!(!queue.is_pristine(queues));
    assert_eq!(queue.front(queues), Some(ev3));
    assert_eq!(queue.back(queues), Some(ev2));
    assert_eq!(queue.get(queues, 0), Some(ev3));
    assert_eq!(queue.get(queues, 1), Some(ev1));
    assert_eq!(queue.get(queues, 2), Some(ev2));

    queue.invalidate_menu_bar(queues);
    assert!(queue.menu_bar_is_invalid(queues));

    let snapshot = queue.snapshot(queues);
    assert_eq!(snapshot.len(), 3);
    assert!(snapshot.menu_bar_is_invalid());

    assert_eq!(queue.to_vec(queues), vec![ev3, ev1, ev2]);

    assert_eq!(queue.remove(queues, 1), Some(ev1));
    assert_eq!(queue.len(queues), 2);
    assert_eq!(queue.get(queues, 1), Some(ev2));

    queue.retain(queues, |e| e.what != 3);
    assert_eq!(queue.len(queues), 1);
    assert_eq!(queue.front(queues), Some(ev2));

    assert!(queue.take_menu_bar_invalidation(queues));
    assert!(!queue.menu_bar_is_invalid(queues));

    assert_eq!(queue.pop_front(queues), Some(ev2));
    assert!(queue.is_empty(queues));
    assert!(queue.is_pristine(queues));

    queue.push_back(queues, ev1);
    assert_eq!(queue.pop_back_event(queues), Some(ev1));
    assert!(queue.is_empty(queues));

    let mut other = EventQueue::new();
    other.push_back(ev2);
    other.invalidate_menu_bar();
    queue.merge(queues, other);
    assert_eq!(queue.len(queues), 1);
    assert!(queue.menu_bar_is_invalid(queues));

    let taken = queue.take(queues);
    assert_eq!(taken.len(), 1);
    assert!(queue.is_empty(queues));
    assert!(!queue.menu_bar_is_invalid(queues));
}

#[test]
fn attached_input_states_share_immediately_while_clones_detach() {
    let mut cells = ProcessCells::new();
    let context = new_context(&mut cells);
    let mut classic = SharedProcessInputState::new(&mut cells.input_states);
    classic.set_mouse_position(&mut cells.input_states, (12, 34));
    let mut key_map = [0; 16];
    key_map[2] = 0x40;
    classic.set_key_map_snapshot(&mut cells.input_states, key_map);
    let mut native = SharedProcessInputState::new(&mut cells.input_states);

    context.attach_input_state(&mut cells, &mut classic);
    context.attach_input_state(&mut cells, &mut native);
    let states = &mut cells.input_states;
    let detached = native.detached_clone(states);

    native.set_mouse_button_pressed(states, true);
    native.set_mouse_position(states, (56, 78));
    assert!(native.press_caps_lock(states));
    native.arm_key_repeat(states, 0x24, b'\r', 90);

    assert!(classic.ptr_eq(&native));
    assert_eq!(classic.mouse_position(states), (56, 78));
    assert!(classic.mouse_button_pressed(states));
    assert_eq!(classic.key_map_snapshot(states)[2], 0x40);
    assert!(classic.caps_lock_physically_pressed(states));
    assert_eq!(classic.key_repeat(states).unwrap().next_tick(), 90);
    assert_eq!(detached.mouse_position(states), (12, 34));
    assert!(!detached.mouse_button_pressed(states));
    assert!(!detached.caps_lock_physically_pressed(states));
    assert!(!detached.has_key_repeat(states));
}

#[test]
fn key_map_and_repeat_follow_each_key() {
    let mut cells = SharedCells::new();
    let states = &mut cells;
    let input = SharedProcessInputState::new(states);
    assert!(input.is_pristine(states));
    input.set_key_down(states, 0x24, true);
    assert!(input.key_is_down(states, 0x24));
    assert!(!input.key_is_down(states, 0x25));
    assert_eq!(input.key_map_snapshot(states)[4], 0x10);
    input.set_key_down(states, 0x24, false);
    assert!(input.is_pristine(states));

    input.arm_key_repeat(states, 0x24, b'\r', 90);
    let repeat = input.key_repeat(states).unwrap();
    assert_eq!(repeat.key_code(), 0x24);
    assert_eq!(repeat.message(), 0x240D);
    input.advance_key_repeat(states, 96);
    assert_eq!(input.key_repeat(states).unwrap().next_tick(), 96);
    input.clear_key_repeat_for(states, 0x25);
    assert!(input.has_key_repeat(states));
    input.clear_key_repeat_for(states, 0x24);
    assert!(!input.has_key_repeat(states));

    assert!(input.press_caps_lock(states));
    assert!(!input.press_caps_lock(states));
    input.release_caps_lock(states);
    assert!(!input.caps_lock_physically_pressed(states));
}

#[test]
fn attached_menu_tracking_is_immediate_while_clones_detach() {
    let mut cells = ProcessCells::new();
    let context = new_context(&mut cells);
    let mut classic_tick = systemless::ticks::SharedProcessTickState::new(&mut cells.ticks);
    let mut classic = ExecutionMenuViews::detached(&mut cells.executions);
    classic
        .menu()
        .set(&mut cells.executions, Some(test_menu_tracking(0x1234)));
    let plan = context
        .preflight_migrated_adoption(&cells, &classic_tick, &classic, 0)
        .ok()
        .unwrap();
    context.commit_migrated_adoption(&mut cells, plan, &mut classic_tick, &mut classic);

    let mut native_tick = systemless::ticks::SharedProcessTickState::new(&mut cells.ticks);
    let mut native = ExecutionMenuViews::detached(&mut cells.executions);
    let plan = context
        .preflight_migrated_adoption(&cells, &native_tick, &native, 0)
        .ok()
        .unwrap();
    context.commit_migrated_adoption(&mut cells, plan, &mut native_tick, &mut native);
    let executions = &mut cells.executions;
    let detached = native.menu().detached_clone(executions);

    classic
        .menu()
        .with_tracking_mut(executions, |tracking| tracking.highlighted_item = 4)
        .unwrap();

    assert!(classic.calls().ptr_eq(native.calls()));
    assert_eq!(native.menu().highlighted_item(executions), Some(4));
    assert_eq!(detached.highlighted_item(executions), Some(1));
    assert_eq!(native.menu().take(executions).unwrap().menu_handle, 0x1234);
    assert!(classic.menu().is_none(executions));
    assert_eq!(detached.menu_handle(executions), Some(0x1234));
}

#[test]
fn process_menu_tracking_encapsulation() {
    let mut cells = SharedCells::new();
    let executions = &mut cells;
    let calls = SharedGuestCallStack::new(executions);
    let tracking = calls.menu_tracking_view();
    assert!(tracking.is_none(executions));
    assert!(!tracking.is_some(executions));
    assert!(!tracking.is_active(executions));
    assert_eq!(tracking.snapshot(executions), None);
    assert_eq!(tracking.menu_handle(executions), None);
    assert_eq!(tracking.highlighted_item(executions), None);
    assert_eq!(tracking.flash_tick(executions), None);

    tracking.set(executions, Some(test_menu_tracking(0x0012_3456)));
    assert!(tracking.is_some(executions));
    assert!(tracking.is_active(executions));
    assert!(!tracking.is_none(executions));
    assert_eq!(tracking.menu_handle(executions), Some(0x0012_3456));
    assert_eq!(tracking.highlighted_item(executions), Some(1));
    let open = tracking.snapshot(executions);
    assert!(open.is_some_and(|s| s.menu_handle == 0x0012_3456));
    assert!(!open.is_some_and(|s| s.menu_handle == 0x9999));
    assert_eq!(open.map(|s| s.menu_handle), Some(0x0012_3456));
    assert_eq!(
        open.filter(|s| s.menu_handle == 0x0012_3456)
            .map(|s| s.menu_handle),
        Some(0x0012_3456)
    );
    assert_eq!(open.filter(|s| s.menu_handle == 0x9999), None);
    assert_eq!(open.unwrap().menu_handle, 0x0012_3456);

    tracking.with_tracking_mut(executions, |s| {
        s.highlighted_item = 5;
        s.flash_tick = Some(99);
    });
    assert_eq!(tracking.highlighted_item(executions), Some(5));
    assert_eq!(tracking.flash_tick(executions), Some(99));

    let taken = tracking.take(executions);
    assert_eq!(taken.map(|s| s.menu_handle), Some(0x0012_3456));
    assert!(tracking.is_none(executions));

    let same_view = calls.menu_tracking_view();
    assert!(tracking.ptr_eq(&same_view));

    let cloned = tracking.detached_clone(executions);
    assert!(!tracking.ptr_eq(&cloned));

    let mut process_cells = ProcessCells::new();
    let context = new_context(&mut process_cells);
    assert!(context.menu_tracking.is_none(&process_cells.executions));
    assert_eq!(
        context.menu_tracking.snapshot(&process_cells.executions),
        None
    );
    assert!(!context.menu_tracking.is_some(&process_cells.executions));
}

#[test]
fn attached_window_lists_share_order_immediately_while_clones_detach() {
    let mut cells = ProcessCells::new();
    let context = new_context(&mut cells);
    let mut classic =
        SharedProcessWindowList::from_value(&mut cells.window_lists, vec![0x1000, 0x2000]);
    let mut native = SharedProcessWindowList::new(&mut cells.window_lists);

    context.attach_window_list(&mut cells, &mut classic);
    context.attach_window_list(&mut cells, &mut native);
    let lists = &mut cells.window_lists;
    let detached = native.detached_clone(lists);

    native.remove(lists, 1);
    native.insert(lists, 0, 0x3000);
    classic.push(lists, 0x4000);

    assert!(classic.ptr_eq(&native));
    assert_eq!(classic.windows(lists), [0x3000, 0x1000, 0x4000]);
    assert_eq!(native.windows(lists), [0x3000, 0x1000, 0x4000]);
    assert_eq!(detached.windows(lists), [0x1000, 0x2000]);
}

#[test]
fn process_window_list_encapsulation() {
    let mut cells = SharedCells::new();
    let lists = &mut cells;
    let list = SharedProcessWindowList::new(lists);
    assert!(list.is_empty(lists));
    assert_eq!(list.len(lists), 0);
    assert_eq!(list.front_window(lists), None);

    list.push(lists, 0x1000);
    list.push(lists, 0x2000);
    list.push(lists, 0x3000);
    assert_eq!(list.len(lists), 3);
    assert_eq!(list.front_window(lists), Some(0x1000));
    assert!(list.contains_window(lists, 0x2000));
    assert!(!list.contains_window(lists, 0x9999));

    list.bring_to_front(lists, 0x3000);
    assert_eq!(list.windows(lists), vec![0x3000, 0x1000, 0x2000]);

    list.send_behind(lists, 0x3000, 0x1000);
    assert_eq!(list.windows(lists), vec![0x1000, 0x3000, 0x2000]);

    list.reorder(lists, 0x2000, 0, false);
    assert_eq!(list.windows(lists), vec![0x1000, 0x3000, 0x2000]);

    list.reorder(lists, 0x3000, 0, true);
    assert_eq!(list.windows(lists), vec![0x3000, 0x1000, 0x2000]);

    assert!(list.remove_window(lists, 0x1000));
    assert!(!list.remove_window(lists, 0x1000));
    assert_eq!(list.windows(lists), vec![0x3000, 0x2000]);

    list.clear(lists);
    assert!(list.is_empty(lists));
}

#[test]
fn attached_cursor_states_share_immediately_while_clones_detach() {
    let mut cells = ProcessCells::new();
    let context = new_context(&mut cells);
    let mut classic = SharedProcessCursorState::new(&mut cells.cursors, arrow());
    let mut native = SharedProcessCursorState::new(&mut cells.cursors, arrow());
    context.attach_cursor_state(&mut cells, &mut classic, &arrow());
    context.attach_cursor_state(&mut cells, &mut native, &arrow());
    let cursors = &mut cells.cursors;
    let detached = native.detached_clone(cursors);
    let mut data = [0; 32];
    data[0] = 0x80;
    let mut mask = [0; 32];
    mask[0] = 0xc0;

    native.hide_cursor(cursors);
    classic.install(cursors, CursorImage::mono(data, mask, 3, 4));

    assert!(classic.ptr_eq(&native));
    assert_eq!(classic.level(cursors), -1);
    assert!(!classic.visible(cursors));
    assert!(classic.visible_image(cursors).is_none());
    assert!(classic.has_image(cursors));
    assert_eq!(native.mono_parts(cursors).unwrap(), (data, mask, 3, 4));
    assert_eq!(detached.level(cursors), 0);
    assert!(detached.visible(cursors));
    assert!(detached.visible_image(cursors).is_some());
    assert_eq!(
        detached.mono_parts(cursors).unwrap(),
        arrow().mono_parts()
    );
}

#[test]
fn process_scrap_manager_owns_summary_serialization_and_flavor_selection() {
    let mut cells = SharedCells::new();
    let scraps = &mut cells;
    let scrap = SharedProcessScrapState::new(scraps);
    scrap.zero(scraps);
    scrap.append_entry(scraps, *b"TEXT", b"one".to_vec());
    scrap.append_entry(scraps, *b"PICT", vec![0xaa, 0xbb]);
    scrap.append_entry(scraps, *b"TEXT", b"later".to_vec());

    let summary = scrap.summary(scraps);
    assert!(summary.initialized);
    assert!(summary.in_memory);
    assert_eq!(summary.count, 1);
    assert_eq!(summary.serialized_size, 36);
    assert!(summary.handle_dirty);
    assert_eq!(
        scrap.serialized_entries(scraps),
        [
            b"TEXT".as_slice(),
            3u32.to_be_bytes().as_slice(),
            b"one\0".as_slice(),
            b"PICT".as_slice(),
            2u32.to_be_bytes().as_slice(),
            [0xaa, 0xbb].as_slice(),
            b"TEXT".as_slice(),
            5u32.to_be_bytes().as_slice(),
            b"later\0".as_slice(),
        ]
        .concat()
    );

    let text = scrap.flavor(scraps, *b"TEXT").unwrap();
    assert_eq!(text.data, b"one");
    assert_eq!(text.serialized_offset, 8);
    assert_eq!(text.payload_offset, 0);

    let picture = scrap.flavor(scraps, *b"PICT").unwrap();
    assert_eq!(picture.data, vec![0xaa, 0xbb]);
    assert_eq!(picture.serialized_offset, 20);
    assert_eq!(picture.payload_offset, 3);
    assert!(scrap.flavor(scraps, *b"snd ").is_none());
}

#[test]
fn attached_scrap_states_share_immediately_while_clones_detach() {
    let mut cells = ProcessCells::new();
    let context = new_context(&mut cells);
    let mut classic = SharedProcessScrapState::new(&mut cells.scraps);
    let mut native = SharedProcessScrapState::new(&mut cells.scraps);
    context.attach_scrap_state(&mut cells, &mut classic);
    classic.zero(&mut cells.scraps);
    classic.append_entry(&mut cells.scraps, *b"TEXT", b"shared".to_vec());
    context.attach_scrap_state(&mut cells, &mut native);
    let scraps = &mut cells.scraps;
    let detached = native.detached_clone(scraps);

    assert!(classic.ptr_eq(&native));
    assert_eq!(native.flavor(scraps, *b"TEXT").unwrap().data, b"shared");

    detached.zero(scraps);
    detached.append_entry(scraps, *b"TEXT", b"detached".to_vec());
    assert!(!native.ptr_eq(&detached));
    assert_eq!(classic.flavor(scraps, *b"TEXT").unwrap().data, b"shared");
    assert_eq!(
        detached.flavor(scraps, *b"TEXT").unwrap().data,
        b"detached"
    );
}

fn cell_text(
    lists: &SharedCells<systemless::list_manager::ProcessListManagerState>,
    manager: &SharedProcessListManager,
) -> Option<Vec<u8>> {
    manager
        .with_record_ref(lists, 0x1000, |rec| rec.cells.get(&(0, 0)).cloned())
        .flatten()
}

#[test]
fn attached_list_managers_share_immediately_while_clones_detach() {
    let mut cells = ProcessCells::new();
    let context = new_context(&mut cells);
    let mut classic = SharedProcessListManager::new(&mut cells.list_managers);
    let mut native = SharedProcessListManager::new(&mut cells.list_managers);
    context.attach_list_manager(&mut cells, &mut classic);
    let mut texts = AssocMap::new();
    texts.insert((0, 0), b"Test".to_vec());
    let mut selected = KeySet::new();
    selected.insert((0, 0));
    classic.insert_record(
        &mut cells.list_managers,
        0x1000,
        ProcessListRecord {
            handle: 0x1000,
            cells_handle: 0x2000,
            view_rect: (0, 0, 40, 100),
            data_bounds: (0, 0, 2, 1),
            cell_size: (20, 100),
            visible: (0, 0, 2, 1),
            port: 0,
            draw_enabled: true,
            active: true,
            cells: texts,
            selected,
            last_click: (0, 0),
            last_click_tick: 10,
        },
    );
    context.attach_list_manager(&mut cells, &mut native);
    let lists = &mut cells.list_managers;
    let detached = native.detached_clone(lists);

    assert!(classic.ptr_eq(&native));
    assert!(native.contains_handle(lists, 0x1000));
    assert_eq!(cell_text(lists, &native), Some(b"Test".to_vec()));

    detached.with_record_mut(lists, 0x1000, |rec| {
        rec.cells.insert((0, 0), b"Detached".to_vec());
    });
    assert!(!native.ptr_eq(&detached));
    assert_eq!(cell_text(lists, &classic), Some(b"Test".to_vec()));
    assert_eq!(cell_text(lists, &detached), Some(b"Detached".to_vec()));
}

#[test]
fn process_dialog_text_encapsulation() {
    let mut cells = SharedCells::new();
    let texts = &mut cells;
    let text = SharedProcessDialogText::new(texts);
    assert!(text.is_empty(texts));
    assert!(text.is_pristine(texts));
    assert_eq!(text.len(), 4);
    assert_eq!(text.slot(texts, 0), Some(Vec::new()));
    assert_eq!(text.slot(texts, 3), Some(Vec::new()));
    assert_eq!(text.slot(texts, 4), None);

    text.set_slot(texts, 0, b"alpha".to_vec());
    text.set_slot(texts, 1, b"bravo".to_vec());
    assert!(!text.is_empty(texts));
    assert!(!text.is_pristine(texts));
    assert_eq!(text.slot(texts, 0), Some(b"alpha".to_vec()));
    assert_eq!(text.slot(texts, 1), Some(b"bravo".to_vec()));
    assert_eq!(text.slot(texts, 2), Some(Vec::new()));
    assert_eq!(text.slot(texts, 3), Some(Vec::new()));

    let snapshot = text.snapshot(texts);
    assert_eq!(snapshot[0], b"alpha");
    assert_eq!(snapshot[1], b"bravo");

    text.clear(texts);
    assert!(text.is_empty(texts));
    assert!(text.is_pristine(texts));

    let new_slots = [
        b"one".to_vec(),
        b"two".to_vec(),
        b"three".to_vec(),
        b"four".to_vec(),
    ];
    text.set_slots(texts, new_slots.clone());
    assert_eq!(text.snapshot(texts), new_slots);
    assert_eq!(text.slot(texts, 0), Some(b"one".to_vec()));
    assert_eq!(text.slot(texts, 3), Some(b"four".to_vec()));

    let from_val = SharedProcessDialogText::from_value(texts, DialogTextSlots { slots: new_slots });
    assert_eq!(from_val.slot(texts, 2), Some(b"three".to_vec()));
}

#[test]
fn attached_dialog_texts_share_immediately_while_clones_detach() {
    let mut cells = ProcessCells::new();
    let context = new_context(&mut cells);
    let mut classic = SharedProcessDialogText::new(&mut cells.dialog_texts);
    let mut native = SharedProcessDialogText::new(&mut cells.dialog_texts);
    context.attach_dialog_text(&mut cells, &mut classic);
    classic.set_slot(&mut cells.dialog_texts, 0, b"Classic".to_vec());
    context.attach_dialog_text(&mut cells, &mut native);
    let texts = &mut cells.dialog_texts;
    let process = &context.dialog_text;
    let detached = native.detached_clone(texts);

    assert!(classic.ptr_eq(&native));
    assert!(process.ptr_eq(&classic));
    assert_eq!(native.slot(texts, 0), Some(b"Classic".to_vec()));
    assert_eq!(process.slot(texts, 0), Some(b"Classic".to_vec()));

    detached.set_slot(texts, 0, b"Detached".to_vec());
    assert!(!native.ptr_eq(&detached));
    assert_eq!(classic.slot(texts, 0), Some(b"Classic".to_vec()));
    assert_eq!(native.slot(texts, 0), Some(b"Classic".to_vec()));
    assert_eq!(process.slot(texts, 0), Some(b"Classic".to_vec()));
    assert_eq!(detached.slot(texts, 0), Some(b"Detached".to_vec()));

    native.set_slot(texts, 1, b"Shared".to_vec());
    assert_eq!(classic.slot(texts, 1), Some(b"Shared".to_vec()));
    assert_eq!(process.slot(texts, 1), Some(b"Shared".to_vec()));
    assert_eq!(detached.slot(texts, 1), Some(Vec::new()));
}

#[test]
fn process_callback_scheduling_encapsulation() {
    let mut cells = SharedCells::new();
    let schedules = &mut cells;
    let scheduling = SharedProcessCallbackScheduling::new(schedules);
    assert!(scheduling.is_pristine(schedules));
    assert_eq!(scheduling.current_subtick(schedules), 0);
    assert_eq!(scheduling.system_vbl_queue_anchor(schedules), 0);
    assert_eq!(scheduling.primary_vbl_slot(schedules), 0);
    assert_eq!(scheduling.extended_wakeup(schedules, 0x1000), None);

    scheduling.set_current_subtick(schedules, 100_000_000);
    assert_eq!(scheduling.current_subtick(schedules), 100_000_000);
    assert!(!scheduling.is_pristine(schedules));

    assert_eq!(
        scheduling.advance_current_subtick_min(schedules, 50_000_000),
        100_000_000
    );
    assert_eq!(
        scheduling.advance_current_subtick_min(schedules, 150_000_000),
        150_000_000
    );
    assert_eq!(scheduling.current_subtick(schedules), 150_000_000);

    scheduling.set_extended_wakeup(schedules, 0x1000, 150_500_000);
    assert_eq!(
        scheduling.extended_wakeup(schedules, 0x1000),
        Some(150_500_000)
    );
    assert_eq!(
        scheduling.remove_extended_wakeup(schedules, 0x1000),
        Some(150_500_000)
    );
    assert_eq!(scheduling.extended_wakeup(schedules, 0x1000), None);

    scheduling.set_system_vbl_queue_anchor(schedules, 0x2000);
    assert_eq!(scheduling.system_vbl_queue_anchor(schedules), 0x2000);

    scheduling.set_primary_vbl_slot(schedules, 7);
    assert_eq!(scheduling.primary_vbl_slot(schedules), 7);

    let snapshot = scheduling.snapshot(schedules);
    assert_eq!(snapshot.current_subtick, 150_000_000);
    assert_eq!(snapshot.system_vbl_queue_anchor, 0x2000);
    assert_eq!(snapshot.primary_vbl_slot, 7);

    let from_val = SharedProcessCallbackScheduling::from_value(schedules, snapshot);
    assert_eq!(from_val.current_subtick(schedules), 150_000_000);
    assert_eq!(from_val.system_vbl_queue_anchor(schedules), 0x2000);
    assert_eq!(from_val.primary_vbl_slot(schedules), 7);

    scheduling.reset(schedules);
    assert!(scheduling.is_pristine(schedules));
    assert_eq!(scheduling.current_subtick(schedules), 0);
    assert_eq!(scheduling.system_vbl_queue_anchor(schedules), 0);
    assert_eq!(scheduling.primary_vbl_slot(schedules), 0);
}

#[test]
fn attached_callback_schedulings_share_immediately_while_clones_detach() {
    let mut cells = ProcessCells::new();
    let context = new_context(&mut cells);
    let mut classic_timers = SharedProcessTimerTasks::new(&mut cells.timer_lists);
    let mut classic_vbls = SharedProcessVblTasks::new(&mut cells.vbl_lists);
    let mut classic_sched = SharedProcessCallbackScheduling::new(&mut cells.schedules);
    let mut native_timers = SharedProcessTimerTasks::new(&mut cells.timer_lists);
    let mut native_vbls = SharedProcessVblTasks::new(&mut cells.vbl_lists);
    let mut native_sched = SharedProcessCallbackScheduling::new(&mut cells.schedules);

    context.attach_callback_tasks(
        &mut cells,
        &mut classic_timers,
        &mut classic_vbls,
        &mut classic_sched,
    );
    let schedules = &mut cells.schedules;
    classic_sched.set_current_subtick(schedules, 100_000_000);
    classic_sched.set_primary_vbl_slot(schedules, 5);
    classic_sched.set_system_vbl_queue_anchor(schedules, 0x3000);
    classic_sched.set_extended_wakeup(schedules, 0x1000, 100_500_000);

    context.attach_callback_tasks(
        &mut cells,
        &mut native_timers,
        &mut native_vbls,
        &mut native_sched,
    );
    let schedules = &mut cells.schedules;
    let process = &context.callback_scheduling;
    let detached = native_sched.detached_clone(schedules);

    assert!(classic_sched.ptr_eq(&native_sched));
    assert!(process.ptr_eq(&classic_sched));
    assert_eq!(native_sched.current_subtick(schedules), 100_000_000);
    assert_eq!(native_sched.primary_vbl_slot(schedules), 5);
    assert_eq!(native_sched.system_vbl_queue_anchor(schedules), 0x3000);
    assert_eq!(
        native_sched.extended_wakeup(schedules, 0x1000),
        Some(100_500_000)
    );

    detached.set_primary_vbl_slot(schedules, 11);
    assert!(!native_sched.ptr_eq(&detached));
    assert_eq!(classic_sched.primary_vbl_slot(schedules), 5);
    assert_eq!(native_sched.primary_vbl_slot(schedules), 5);
    assert_eq!(process.primary_vbl_slot(schedules), 5);
    assert_eq!(detached.primary_vbl_slot(schedules), 11);

    native_sched.set_primary_vbl_slot(schedules, 8);
    assert_eq!(classic_sched.primary_vbl_slot(schedules), 8);
    assert_eq!(process.primary_vbl_slot(schedules), 8);
    assert_eq!(detached.primary_vbl_slot(schedules), 11);
}

#[test]
fn process_timer_tasks_encapsulation() {
    let mut cells = SharedCells::new();
    let lists = &mut cells;
    let tasks = SharedProcessTimerTasks::new(lists);
    assert!(tasks.is_pristine(lists));
    assert!(tasks.is_empty(lists));
    assert_eq!(tasks.len(lists), 0);
    assert_eq!(tasks.snapshot(lists), Vec::new());

    let task = ProcessTimerTask {
        task_ptr: 0x4000,
        architecture: CallbackTaskArchitecture::PowerPc,
        extended: true,
        callback: 0x5000,
        active: true,
        fire_at_tick: 42,
        fire_at_subtick: 42_000_000,
        last_fired_tick: None,
    };
    tasks.push(lists, task);

    assert!(!tasks.is_pristine(lists));
    assert!(!tasks.is_empty(lists));
    assert_eq!(tasks.len(lists), 1);
    assert_eq!(tasks.get(lists, 0), Some(task));
    assert_eq!(tasks.snapshot(lists), vec![task]);

    let second_task = ProcessTimerTask {
        task_ptr: 0x4020,
        architecture: CallbackTaskArchitecture::M68k,
        extended: false,
        callback: 0x6000,
        active: false,
        fire_at_tick: 100,
        fire_at_subtick: 100_000_000,
        last_fired_tick: Some(50),
    };
    tasks.extend(lists, vec![second_task]);
    assert_eq!(tasks.len(lists), 2);
    assert_eq!(tasks.get(lists, 1), Some(second_task));

    tasks.clear(lists);
    assert!(tasks.is_pristine(lists));
    assert!(tasks.is_empty(lists));
    assert_eq!(tasks.len(lists), 0);
}

#[test]
fn attached_timer_tasks_share_immediately_while_clones_detach() {
    let mut cells = ProcessCells::new();
    let context = new_context(&mut cells);
    let mut classic = SharedProcessTimerTasks::new(&mut cells.timer_lists);
    let mut native = SharedProcessTimerTasks::new(&mut cells.timer_lists);

    context.attach_timer_tasks(&mut cells, &mut classic);
    context.attach_timer_tasks(&mut cells, &mut native);
    let lists = &mut cells.timer_lists;

    assert!(classic.ptr_eq(&native));
    assert!(classic.ptr_eq(&context.timer_tasks));

    let task = ProcessTimerTask {
        task_ptr: 0x1234,
        architecture: CallbackTaskArchitecture::M68k,
        extended: false,
        callback: 0x5678,
        active: true,
        fire_at_tick: 10,
        fire_at_subtick: 10_000_000,
        last_fired_tick: None,
    };
    classic.push(lists, task);

    assert_eq!(native.len(lists), 1);
    assert_eq!(native.get(lists, 0), Some(task));
    assert_eq!(context.timer_tasks.len(lists), 1);

    let detached = native.detached_clone(lists);
    assert!(!detached.ptr_eq(&native));
    assert_eq!(detached.len(lists), 1);

    detached.clear(lists);
    assert!(detached.is_empty(lists));
    assert_eq!(native.len(lists), 1);
    assert_eq!(classic.len(lists), 1);
    assert_eq!(context.timer_tasks.len(lists), 1);
}

#[test]
fn process_vbl_tasks_encapsulation() {
    let mut cells = SharedCells::new();
    let lists = &mut cells;
    let tasks = SharedProcessVblTasks::new(lists);
    assert!(tasks.is_pristine(lists));
    assert!(tasks.is_empty(lists));
    assert_eq!(tasks.len(lists), 0);
    assert_eq!(tasks.snapshot(lists), Vec::new());

    let task = ProcessVblTask {
        task_ptr: 0x4000,
        architecture: CallbackTaskArchitecture::PowerPc,
        slot: Some(2),
        pending: true,
    };
    tasks.push(lists, task);

    assert!(!tasks.is_pristine(lists));
    assert!(!tasks.is_empty(lists));
    assert_eq!(tasks.len(lists), 1);
    assert_eq!(tasks.get(lists, 0), Some(task));
    assert_eq!(tasks.snapshot(lists), vec![task]);

    let second_task = ProcessVblTask {
        task_ptr: 0x4020,
        architecture: CallbackTaskArchitecture::M68k,
        slot: None,
        pending: false,
    };
    tasks.extend(lists, vec![second_task]);
    assert_eq!(tasks.len(lists), 2);
    assert_eq!(tasks.get(lists, 1), Some(second_task));

    tasks.clear(lists);
    assert!(tasks.is_pristine(lists));
    assert!(tasks.is_empty(lists));
    assert_eq!(tasks.len(lists), 0);
}

#[test]
fn attached_vbl_tasks_share_immediately_while_clones_detach() {
    let mut cells = ProcessCells::new();
    let context = new_context(&mut cells);
    let mut classic = SharedProcessVblTasks::new(&mut cells.vbl_lists);
    let mut native = SharedProcessVblTasks::new(&mut cells.vbl_lists);

    context.attach_vbl_tasks(&mut cells, &mut classic);
    context.attach_vbl_tasks(&mut cells, &mut native);
    let lists = &mut cells.vbl_lists;

    assert!(classic.ptr_eq(&native));
    assert!(classic.ptr_eq(&context.vbl_tasks));

    let task = ProcessVblTask {
        task_ptr: 0x1234,
        architecture: CallbackTaskArchitecture::M68k,
        slot: Some(1),
        pending: false,
    };
    classic.push(lists, task);

    assert_eq!(native.len(lists), 1);
    assert_eq!(native.get(lists, 0), Some(task));
    assert_eq!(context.vbl_tasks.len(lists), 1);

    let detached = native.detached_clone(lists);
    assert!(!detached.ptr_eq(&native));
    assert_eq!(detached.len(lists), 1);

    detached.clear(lists);
    assert!(detached.is_empty(lists));
    assert_eq!(native.len(lists), 1);
    assert_eq!(classic.len(lists), 1);
    assert_eq!(context.vbl_tasks.len(lists), 1);
}
