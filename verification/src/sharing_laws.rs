//! What the state of a process keeps where an adapter joins it: nothing that
//! either of the two had is lost, and state counts as unused only where it
//! holds nothing.

use crate::apple_events::{
    ProcessAppleEventDescriptors, ProcessAppleEventLaunchState, SharedProcessAppleEventDescriptors,
    SharedProcessAppleEventLaunchState,
};
use crate::cells::{CellDefault, CellValue};
use crate::cursor::{CursorImage, ProcessCursorState};
use crate::dialog_text::{DialogTextSlots, SharedProcessDialogText};
use crate::display_state::{ColorTable, DisplayGamma, ProcessDisplayGammaState};
use crate::events::{EventQueue, SharedProcessEventQueue};
use crate::execution::{GuestExecutionState, SharedGuestCallStack};
use crate::input::{ProcessInputState, SharedProcessInputState};
use crate::resource_manager::{ProcessResourcePolicyState, ProcessResourceTables};
use crate::scrap::{ProcessScrapState, SharedProcessScrapState};
use crate::tasks::{
    ProcessCallbackScheduling, ProcessMixedModeM68kState, SharedProcessCallbackScheduling,
    SharedProcessMixedModeM68kState,
};
use vstd::prelude::*;

verus! {

/// Where an adapter's cell joins the process's, the process's contents stay
/// if it had any, and else are the adapter's, whose cell is empty then. No
/// other cell changes.
pub proof fn joined_cell_keeps_what_either_had<T: CellDefault>(
    before: Seq<T>,
    after: Seq<T>,
    adapter: int,
    process: int,
    pristine: spec_fn(T) -> bool,
    other: int,
)
    requires
        0 <= adapter < before.len(),
        0 <= process < before.len(),
        crate::cells::attachable(before, adapter, process, pristine),
        crate::cells::joined(before, after, adapter, process, pristine(before[process])),
    ensures
        after.len() == before.len(),
        !pristine(before[process]) ==> after[process] == before[process],
        !pristine(before[adapter]) ==> after[process] == before[adapter],
        pristine(before[process]) && adapter != process ==> after[process] == before[adapter]
            && after[adapter].is_default(),
        0 <= other < before.len() && other != adapter && other != process ==> after[other]
            == before[other],
{
}

/// Two cells that both have contents are not joined; two of which one has
/// none are.
pub proof fn two_used_cells_are_not_joined<T>(
    cells: Seq<T>,
    adapter: int,
    process: int,
    pristine: spec_fn(T) -> bool,
)
    requires
        adapter != process,
    ensures
        !pristine(cells[adapter]) && !pristine(cells[process]) ==> !crate::cells::attachable(
            cells,
            adapter,
            process,
            pristine,
        ),
        pristine(cells[adapter]) || pristine(cells[process]) ==> crate::cells::attachable(
            cells,
            adapter,
            process,
            pristine,
        ),
        !pristine(cells[adapter]) && !pristine(cells[process]) && cells[adapter] != cells[process]
            ==> !crate::cells::copies_attachable(cells, adapter, process, pristine),
        pristine(cells[adapter]) || pristine(cells[process]) || cells[adapter] == cells[process]
            ==> crate::cells::copies_attachable(cells, adapter, process, pristine),
{
}

/// Where an adapter's copy joins the process's, the process has the contents
/// of the one that had any.
pub proof fn joined_copy_keeps_what_either_had<T>(
    cells: Seq<T>,
    adapter: int,
    process: int,
    pristine: spec_fn(T) -> bool,
    other: int,
)
    requires
        0 <= adapter < cells.len(),
        0 <= process < cells.len(),
        crate::cells::copies_attachable(cells, adapter, process, pristine),
    ensures
        ({
            let joined = crate::cells::copies_joined(cells, adapter, process, pristine);
            &&& joined.len() == cells.len()
            &&& !pristine(cells[process]) ==> joined[process] == cells[process]
            &&& !pristine(cells[adapter]) ==> joined[process] == cells[adapter]
            &&& pristine(cells[adapter]) && pristine(cells[process]) ==> joined[process]
                == cells[process]
            &&& 0 <= other < cells.len() && other != process ==> joined[other] == cells[other]
        }),
{
}

/// A cursor that is hidden or is not the arrow stays the process's; where the
/// process's is the arrow in sight, it has the adapter's, and the adapter the
/// arrow.
pub proof fn joined_cursor_is_kept(
    cells: Seq<ProcessCursorState>,
    adapter: int,
    process: int,
    arrow: CursorImage,
    other: int,
)
    requires
        0 <= adapter < cells.len(),
        0 <= process < cells.len(),
        adapter != process,
    ensures
        ({
            let joined = crate::cursor::cursors_joined(cells, adapter, process, arrow);
            let used = cells[process].level != 0 || cells[process].image != Some(arrow);
            &&& joined.len() == cells.len()
            &&& used ==> joined[process] == cells[process] && joined[adapter] == cells[adapter]
            &&& !used ==> {
                &&& joined[process] == cells[adapter]
                &&& joined[adapter].image == Some(arrow)
                &&& joined[adapter].level == 0
            }
            &&& 0 <= other < cells.len() && other != adapter && other != process ==> joined[other]
                == cells[other]
        }),
{
}

/// A transfer table that was set stays the process's; where the process's is
/// the standard one, it has the adapter's, and the adapter the standard one.
pub proof fn joined_gamma_is_kept(
    cells: Seq<ProcessDisplayGammaState>,
    adapter: int,
    process: int,
    default_table: DisplayGamma,
    other: int,
)
    requires
        0 <= adapter < cells.len(),
        0 <= process < cells.len(),
        adapter != process,
    ensures
        ({
            let joined = crate::display_state::gamma_joined(cells, adapter, process, default_table);
            &&& joined.len() == cells.len()
            &&& cells[process].explicit ==> joined[process] == cells[process] && joined[adapter]
                == cells[adapter]
            &&& !cells[process].explicit && cells[process].table == default_table ==> {
                &&& joined[process] == cells[adapter]
                &&& joined[adapter].table == default_table
                &&& !joined[adapter].explicit
            }
            &&& 0 <= other < cells.len() && other != adapter && other != process ==> joined[other]
                == cells[other]
        }),
{
}

/// A color table with a color in it is in use unless it is the standard one,
/// and so is a transfer table with a level in it.
pub proof fn used_tables_are_not_pristine(
    colors: ColorTable,
    standard: ColorTable,
    gamma: ProcessDisplayGammaState,
    default_table: DisplayGamma,
    row: int,
    column: int,
)
    ensures
        0 <= row < 256 && 0 <= column < 3 && colors@[row]@[column] != 0 && colors != standard
            ==> !crate::display_state::colors_pristine(colors, standard),
        crate::display_state::colors_pristine(standard, standard),
        gamma.explicit ==> !gamma.pristine(default_table),
        0 <= row < 3 && 0 <= column < 256 && gamma.table@[row]@[column] != 0 && gamma.table
            != default_table ==> !gamma.pristine(default_table),
        !gamma.explicit && gamma.table == default_table ==> gamma.pristine(default_table),
{
}

/// Input is unused just where the mouse is at the corner and up, no key is
/// down, and no key repeats.
pub proof fn used_input_is_not_pristine(state: ProcessInputState, key_code: u8)
    requires
        key_code < 128,
    ensures
        state.mouse_pos != (0i16, 0i16) ==> !SharedProcessInputState::pristine(state),
        state.mouse_button ==> !SharedProcessInputState::pristine(state),
        crate::input::key_pressed(state.key_map@, key_code) ==> !SharedProcessInputState::pristine(
            state,
        ),
        state.caps_lock_physically_pressed ==> !SharedProcessInputState::pristine(state),
        state.key_repeat is Some ==> !SharedProcessInputState::pristine(state),
{
    let shift = key_code % 8;
    assert(0u8 & (1u8 << shift) == 0) by (bit_vector);
}

/// Input of which nothing is set is unused.
pub proof fn unused_input_is_pristine(state: ProcessInputState)
    requires
        state.mouse_pos == (0i16, 0i16),
        !state.mouse_button,
        forall|key_code: u8|
            key_code < 128 ==> !#[trigger] crate::input::key_pressed(state.key_map@, key_code),
        !state.caps_lock_physically_pressed,
        state.key_repeat is None,
    ensures
        SharedProcessInputState::pristine(state),
{
    assert forall|i: int| 0 <= i < state.key_map@.len() implies (#[trigger] state.key_map@[i])
        == 0 by {
        let byte = state.key_map@[i];
        let first = (8 * i) as u8;
        assert(!crate::input::key_pressed(state.key_map@, first));
        assert(!crate::input::key_pressed(state.key_map@, (first + 1) as u8));
        assert(!crate::input::key_pressed(state.key_map@, (first + 2) as u8));
        assert(!crate::input::key_pressed(state.key_map@, (first + 3) as u8));
        assert(!crate::input::key_pressed(state.key_map@, (first + 4) as u8));
        assert(!crate::input::key_pressed(state.key_map@, (first + 5) as u8));
        assert(!crate::input::key_pressed(state.key_map@, (first + 6) as u8));
        assert(!crate::input::key_pressed(state.key_map@, (first + 7) as u8));
        assert(byte & (1u8 << 0u8) == 0 && byte & (1u8 << 1u8) == 0 && byte & (1u8 << 2u8) == 0
            && byte & (1u8 << 3u8) == 0 && byte & (1u8 << 4u8) == 0 && byte & (1u8 << 5u8) == 0
            && byte & (1u8 << 6u8) == 0 && byte & (1u8 << 7u8) == 0 ==> byte == 0) by (bit_vector);
    }
}

/// A queue is unused just where it has no event and its menu bar stands.
pub proof fn used_queue_is_not_pristine(queue: EventQueue)
    ensures
        queue.events@.len() > 0 ==> !SharedProcessEventQueue::pristine(queue),
        queue.menu_bar_invalid ==> !SharedProcessEventQueue::pristine(queue),
        queue.events@.len() == 0 && !queue.menu_bar_invalid ==> SharedProcessEventQueue::pristine(
            queue,
        ),
{
}

/// An execution is unused just where no call is in progress and no menu open.
pub proof fn used_execution_is_not_pristine(state: GuestExecutionState)
    ensures
        state.calls@.len() > 0 ==> !SharedGuestCallStack::pristine(state),
        state.menu is Some ==> !SharedGuestCallStack::pristine(state),
        state.calls@.len() == 0 && state.menu is None ==> SharedGuestCallStack::pristine(state),
{
}

/// A launch state is unused just where none of its steps was taken.
pub proof fn used_launch_state_is_not_pristine(state: ProcessAppleEventLaunchState)
    ensures
        state.high_level_event_aware ==> !SharedProcessAppleEventLaunchState::pristine(state),
        state.open_application_event_sent ==> !SharedProcessAppleEventLaunchState::pristine(state),
        state.open_application_event_delivered ==> !SharedProcessAppleEventLaunchState::pristine(
            state,
        ),
        state.outstanding_open_application_event ==> !SharedProcessAppleEventLaunchState::pristine(
            state,
        ),
        state == (ProcessAppleEventLaunchState {
            high_level_event_aware: false,
            open_application_event_sent: false,
            open_application_event_delivered: false,
            outstanding_open_application_event: false,
            ..state
        }) ==> SharedProcessAppleEventLaunchState::pristine(state),
{
}

/// Descriptors are unused just where no event and no descriptor is known.
pub proof fn used_descriptors_are_not_pristine(state: ProcessAppleEventDescriptors, address: u32)
    ensures
        state.events@.dom().contains(address) ==> !SharedProcessAppleEventDescriptors::pristine(
            state,
        ),
        state.descriptors@.dom().contains(address)
            ==> !SharedProcessAppleEventDescriptors::pristine(state),
        state.backing@.dom().contains(address) ==> !SharedProcessAppleEventDescriptors::pristine(
            state,
        ),
{
}

/// A scrap with an entry, a count, a file, a handle or a pointer is in use.
pub proof fn used_scrap_is_not_pristine(state: ProcessScrapState)
    ensures
        state.entries@.len() > 0 ==> !SharedProcessScrapState::pristine(state),
        state.count != 0 ==> !SharedProcessScrapState::pristine(state),
        state.initialized ==> !SharedProcessScrapState::pristine(state),
        !state.in_memory ==> !SharedProcessScrapState::pristine(state),
        state.clipboard_writable ==> !SharedProcessScrapState::pristine(state),
        state.handle is Some ==> !SharedProcessScrapState::pristine(state),
        state.handle_dirty ==> !SharedProcessScrapState::pristine(state),
        state.stuff_ptr is Some ==> !SharedProcessScrapState::pristine(state),
{
}

/// A schedule with a subtick, a queue, a slot or a wakeup is in use; so is a
/// call gateway with a code or a stack.
pub proof fn used_schedule_is_not_pristine(
    state: ProcessCallbackScheduling,
    gateway: ProcessMixedModeM68kState,
    task: u32,
)
    ensures
        state.current_subtick != 0 ==> !SharedProcessCallbackScheduling::pristine(state),
        state.system_vbl_queue_anchor != 0 ==> !SharedProcessCallbackScheduling::pristine(state),
        state.primary_vbl_slot != 0 ==> !SharedProcessCallbackScheduling::pristine(state),
        state.extended_wakeups@.dom().contains(task) ==> !SharedProcessCallbackScheduling::pristine(
            state,
        ),
        gateway.gateway != 0 ==> !SharedProcessMixedModeM68kState::pristine(gateway),
        gateway.stack_top != 0 ==> !SharedProcessMixedModeM68kState::pristine(gateway),
{
}

/// Dialog text is unused just where each of the four strings is empty.
pub proof fn used_dialog_text_is_not_pristine(slots: DialogTextSlots)
    ensures
        SharedProcessDialogText::pristine(slots) <==> slots.slots@[0]@.len() == 0
            && slots.slots@[1]@.len() == 0 && slots.slots@[2]@.len() == 0 && slots.slots@[3]@.len()
            == 0,
{
    assert(slots.texts()[0] == slots.slots@[0]@);
    assert(slots.texts()[1] == slots.slots@[1]@);
    assert(slots.texts()[2] == slots.slots@[2]@);
    assert(slots.texts()[3] == slots.slots@[3]@);
}

/// A policy is the standard one just where resources are loaded and stay.
pub proof fn changed_policy_is_not_pristine(policy: ProcessResourcePolicyState)
    ensures
        !policy.res_load ==> !policy.pristine(),
        policy.res_purge ==> !policy.pristine(),
        policy.res_load && !policy.res_purge ==> policy.pristine(),
{
}

/// Resource tables with anything in them are in use.
pub proof fn used_resource_tables_are_not_default(tables: ProcessResourceTables)
    ensures
        tables.is_default() ==> tables.resources is None,
        tables.is_default() ==> tables.resource_files@.len() == 0,
        tables.is_default() ==> tables.resource_file_order@.len() == 0,
        tables.is_default() ==> tables.loaded_handles@.dom() =~= Set::empty(),
        tables.is_default() ==> tables.resource_handles_by_key@.dom() =~= Set::empty(),
        tables.is_default() ==> tables.detached_handles@.dom() =~= Set::empty(),
        tables.is_default() ==> tables.resource_handle_files@.dom() =~= Set::empty(),
        tables.is_default() ==> tables.detached_handle_files@.dom() =~= Set::empty(),
        tables.is_default() ==> tables.resource_backing_data@.dom() =~= Set::empty(),
        tables.is_default() ==> tables.resident_resources@ =~= Set::empty(),
{
}

/// A copy of a state holds what the state held.
pub proof fn copied_state_is_the_same(
    input: (ProcessInputState, ProcessInputState),
    queue: (EventQueue, EventQueue),
    execution: (GuestExecutionState, GuestExecutionState),
    schedule: (ProcessCallbackScheduling, ProcessCallbackScheduling),
    text: (DialogTextSlots, DialogTextSlots),
    slot: int,
)
    ensures
        input.0.same(&input.1) ==> input.0 == input.1,
        queue.0.same(&queue.1) ==> queue.0.events@ == queue.1.events@ && queue.0.menu_bar_invalid
            == queue.1.menu_bar_invalid,
        execution.0.same(&execution.1) ==> execution.0.calls@ == execution.1.calls@
            && execution.0.menu == execution.1.menu,
        schedule.0.same(&schedule.1) ==> {
            &&& schedule.0.current_subtick == schedule.1.current_subtick
            &&& schedule.0.system_vbl_queue_anchor == schedule.1.system_vbl_queue_anchor
            &&& schedule.0.primary_vbl_slot == schedule.1.primary_vbl_slot
            &&& schedule.0.extended_wakeups@ == schedule.1.extended_wakeups@
        },
        text.0.same(&text.1) && 0 <= slot < 4 ==> text.0.slots@[slot]@ == text.1.slots@[slot]@,
{
    if text.0.same(&text.1) && 0 <= slot < 4 {
        assert(text.0.texts()[slot] == text.0.slots@[slot]@);
        assert(text.1.texts()[slot] == text.1.slots@[slot]@);
    }
}

} // verus!
