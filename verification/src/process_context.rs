//! The owner of what belongs to one process rather than to one of its
//! adapters.

use crate::apple_events::{
    AppleEventTable, ProcessAppleEventDescriptors, ProcessAppleEventLaunchState,
    SharedProcessAppleEventDescriptors, SharedProcessAppleEventHandlers,
    SharedProcessAppleEventLaunchState,
};
use crate::assoc::AssocMap;
use crate::bus::MacMemoryBus;
use crate::cells::SharedCells;
use crate::cursor::{CursorImage, ProcessCursorState, SharedProcessCursorState};
use crate::dialog_text::{DialogTextSlots, SharedProcessDialogText};
use crate::display_state::{
    ColorTable, DisplayGamma, ProcessDisplayGammaState, SharedProcessDisplayClut,
    SharedProcessDisplayGamma,
};
use crate::events::{EventQueue, SharedProcessEventQueue};
use crate::execution::{GuestExecutionState, SharedGuestCallStack, SharedProcessMenuTracking};
use crate::file_share::SharedProcessFileSystem;
use crate::file_system::{FileCells, ProcessFileSystemState};
use crate::guest_memory::{GuestAddressSpace, SpaceModel, WindowModel};
use crate::input::{ProcessInputState, SharedProcessInputState};
use crate::list_manager::{ProcessListManagerState, SharedProcessListManager};
use crate::memory_manager::{ManagerCells, ProcessNativeMemoryManager};
use crate::memory_model::ManagerModel;
use crate::memory_shared::SharedProcessMemoryManager;
use crate::menu_selection::{NativeMenuSelection, SharedNativeMenuSelection};
use crate::quickdraw_state::{
    SharedProcessGraphicsDevice, SharedProcessGraphicsPort, SharedProcessQuickDrawError,
    SharedProcessQuickDrawHiliteColors, SharedProcessQuickDrawOpColors,
    SharedProcessQuickDrawPixelStates,
};
use crate::scrap::{ProcessScrapState, SharedProcessScrapState};
use crate::shared_memory::SharedRamRegion;
use crate::tasks::{
    ProcessCallbackScheduling, ProcessMixedModeM68kState, SharedProcessCallbackScheduling,
    SharedProcessMixedModeM68kState, SharedProcessTimerTasks, SharedProcessVblTasks, TimerTaskList,
    VblTaskList,
};
use crate::ticks::SharedProcessTickState;
use crate::windows::SharedProcessWindowList;
use vstd::prelude::*;

verus! {

/// The stores of everything that the adapters of processes share.
pub struct ProcessCells {
    pub memory: ManagerCells,
    pub managers: SharedCells<ProcessNativeMemoryManager>,
    pub files: FileCells,
    pub file_systems: SharedCells<ProcessFileSystemState>,
    pub ticks: SharedCells<u32>,
    pub event_queues: SharedCells<EventQueue>,
    pub input_states: SharedCells<ProcessInputState>,
    pub window_lists: SharedCells<Vec<u32>>,
    pub executions: SharedCells<GuestExecutionState>,
    pub menu_selections: SharedCells<NativeMenuSelection>,
    pub apple_event_tables: SharedCells<AppleEventTable>,
    pub launch_states: SharedCells<ProcessAppleEventLaunchState>,
    pub descriptor_tables: SharedCells<ProcessAppleEventDescriptors>,
    pub timer_lists: SharedCells<TimerTaskList>,
    pub vbl_lists: SharedCells<VblTaskList>,
    pub schedules: SharedCells<ProcessCallbackScheduling>,
    pub mixed_modes: SharedCells<ProcessMixedModeM68kState>,
    pub scraps: SharedCells<ProcessScrapState>,
    pub list_managers: SharedCells<ProcessListManagerState>,
    pub dialog_texts: SharedCells<DialogTextSlots>,
    pub op_colors: SharedCells<AssocMap<u32, (u16, u16, u16)>>,
    pub hilite_colors: SharedCells<AssocMap<u32, (u16, u16, u16)>>,
    pub pixel_states: SharedCells<AssocMap<u32, u32>>,
    pub ports: SharedCells<u32>,
    pub devices: SharedCells<u32>,
    pub errors: SharedCells<i16>,
    pub cursors: SharedCells<ProcessCursorState>,
    pub color_tables: SharedCells<ColorTable>,
    pub gammas: SharedCells<ProcessDisplayGammaState>,
}

impl ProcessCells {
    /// No store holds a cell.
    pub open spec fn without_cells(&self) -> bool {
        &&& self.memory.without_cells()
        &&& self.managers@.len() == 0
        &&& self.files.without_cells()
        &&& self.file_systems@.len() == 0
        &&& self.ticks@.len() == 0
        &&& self.event_queues@.len() == 0
        &&& self.input_states@.len() == 0
        &&& self.window_lists@.len() == 0
        &&& self.executions@.len() == 0
        &&& self.menu_selections@.len() == 0
        &&& self.apple_event_tables@.len() == 0
        &&& self.launch_states@.len() == 0
        &&& self.descriptor_tables@.len() == 0
        &&& self.timer_lists@.len() == 0
        &&& self.vbl_lists@.len() == 0
        &&& self.schedules@.len() == 0
        &&& self.mixed_modes@.len() == 0
        &&& self.scraps@.len() == 0
        &&& self.list_managers@.len() == 0
        &&& self.dialog_texts@.len() == 0
        &&& self.op_colors@.len() == 0
        &&& self.hilite_colors@.len() == 0
        &&& self.pixel_states@.len() == 0
        &&& self.ports@.len() == 0
        &&& self.devices@.len() == 0
        &&& self.errors@.len() == 0
        &&& self.cursors@.len() == 0
        &&& self.color_tables@.len() == 0
        &&& self.gammas@.len() == 0
    }

    /// Stores without cells.
    pub fn new() -> (cells: Self)
        ensures
            cells.memory.sized(),
            cells.without_cells(),
    {
        ProcessCells {
            memory: ManagerCells::new(),
            managers: SharedCells::new(),
            files: FileCells::new(),
            file_systems: SharedCells::new(),
            ticks: SharedCells::new(),
            event_queues: SharedCells::new(),
            input_states: SharedCells::new(),
            window_lists: SharedCells::new(),
            executions: SharedCells::new(),
            menu_selections: SharedCells::new(),
            apple_event_tables: SharedCells::new(),
            launch_states: SharedCells::new(),
            descriptor_tables: SharedCells::new(),
            timer_lists: SharedCells::new(),
            vbl_lists: SharedCells::new(),
            schedules: SharedCells::new(),
            mixed_modes: SharedCells::new(),
            scraps: SharedCells::new(),
            list_managers: SharedCells::new(),
            dialog_texts: SharedCells::new(),
            op_colors: SharedCells::new(),
            hilite_colors: SharedCells::new(),
            pixel_states: SharedCells::new(),
            ports: SharedCells::new(),
            devices: SharedCells::new(),
            errors: SharedCells::new(),
            cursors: SharedCells::new(),
            color_tables: SharedCells::new(),
            gammas: SharedCells::new(),
        }
    }

    /// `after` holds the cells of these stores, unchanged, and maybe more.
    pub open spec fn extended_by(&self, after: &ProcessCells) -> bool {
        &&& self.memory.extended_by(&after.memory)
        &&& crate::cells::cells_extend(self.managers@, after.managers@)
        &&& self.files.extended_by(&after.files)
        &&& crate::cells::cells_extend(self.file_systems@, after.file_systems@)
        &&& crate::cells::cells_extend(self.ticks@, after.ticks@)
        &&& crate::cells::cells_extend(self.event_queues@, after.event_queues@)
        &&& crate::cells::cells_extend(self.input_states@, after.input_states@)
        &&& crate::cells::cells_extend(self.window_lists@, after.window_lists@)
        &&& crate::cells::cells_extend(self.executions@, after.executions@)
        &&& crate::cells::cells_extend(self.menu_selections@, after.menu_selections@)
        &&& crate::cells::cells_extend(self.apple_event_tables@, after.apple_event_tables@)
        &&& crate::cells::cells_extend(self.launch_states@, after.launch_states@)
        &&& crate::cells::cells_extend(self.descriptor_tables@, after.descriptor_tables@)
        &&& crate::cells::cells_extend(self.timer_lists@, after.timer_lists@)
        &&& crate::cells::cells_extend(self.vbl_lists@, after.vbl_lists@)
        &&& crate::cells::cells_extend(self.schedules@, after.schedules@)
        &&& crate::cells::cells_extend(self.mixed_modes@, after.mixed_modes@)
        &&& crate::cells::cells_extend(self.scraps@, after.scraps@)
        &&& crate::cells::cells_extend(self.list_managers@, after.list_managers@)
        &&& crate::cells::cells_extend(self.dialog_texts@, after.dialog_texts@)
        &&& crate::cells::cells_extend(self.op_colors@, after.op_colors@)
        &&& crate::cells::cells_extend(self.hilite_colors@, after.hilite_colors@)
        &&& crate::cells::cells_extend(self.pixel_states@, after.pixel_states@)
        &&& crate::cells::cells_extend(self.ports@, after.ports@)
        &&& crate::cells::cells_extend(self.devices@, after.devices@)
        &&& crate::cells::cells_extend(self.errors@, after.errors@)
        &&& crate::cells::cells_extend(self.cursors@, after.cursors@)
        &&& crate::cells::cells_extend(self.color_tables@, after.color_tables@)
        &&& crate::cells::cells_extend(self.gammas@, after.gammas@)
    }
}

/// What a new process looks like to its user.
pub struct ProcessDefaults {
    pub colors: ColorTable,
    pub gamma: DisplayGamma,
    pub arrow: CursorImage,
}

/// A range of guest memory that the process owns.
pub struct ProcessMemoryRegion {
    pub base: u32,
    pub bytes: SharedRamRegion,
}

impl ProcessMemoryRegion {
    /// The range as an address space maps it.
    pub open spec fn window(&self) -> WindowModel {
        WindowModel {
            base: self.base as int,
            bus: self.bytes.bus.id(),
            start: self.bytes.start as int,
            len: self.bytes.len as int,
        }
    }
}

/// The end of a range, kept within a 64-bit number.
pub open spec fn range_end(base: u32, len: usize) -> int {
    if base + len > u64::MAX {
        u64::MAX as int
    } else {
        base + len
    }
}

/// Two ranges have no address in common.
pub open spec fn ranges_apart(a: ProcessMemoryRegion, base: u32, len: usize) -> bool {
    range_end(base, len) <= a.base || range_end(a.base, a.bytes.len) <= base
}

/// The position of a range, or the number of ranges where it is not known.
pub open spec fn range_position(regions: Seq<ProcessMemoryRegion>, base: u32, len: usize) -> int
    decreases regions.len(),
{
    if regions.len() == 0 || (regions[0].base == base && regions[0].bytes.len == len) {
        0
    } else {
        1 + range_position(regions.skip(1), base, len)
    }
}

/// The memory of every range lies in the RAM of an existing bus.
pub open spec fn ranges_reach(
    regions: Seq<ProcessMemoryRegion>,
    buses: &SharedCells<MacMemoryBus>,
) -> bool {
    forall|i: int| 0 <= i < regions.len() ==> (#[trigger] regions[i]).bytes.valid(buses)
}

/// A range can be owned: it is known already, or apart from every known one.
pub open spec fn range_fits(regions: Seq<ProcessMemoryRegion>, base: u32, len: usize) -> bool {
    range_position(regions, base, len) < regions.len() || forall|i: int|
        0 <= i < regions.len() ==> ranges_apart(#[trigger] regions[i], base, len)
}

/// No two of the ranges share an address.
pub open spec fn ranges_disjoint(regions: Seq<ProcessMemoryRegion>) -> bool {
    forall|i: int, j: int|
        #![trigger regions[i], regions[j]]
        0 <= i < j < regions.len() ==> ranges_apart(
            regions[i],
            regions[j].base,
            regions[j].bytes.len,
        )
}

/// A connection to a code fragment.
#[derive(Clone, Debug, PartialEq, Eq)]
pub struct CfmConnection {
    pub id: u32,
    pub library_name: String,
    pub main_addr: u32,
    pub init_addr: u32,
    pub term_addr: u32,
}

/// A code fragment that is loaded on demand.
#[derive(Clone, Debug, PartialEq, Eq)]
pub struct CfmLibraryFragment {
    pub name: String,
    pub bytes: Vec<u8>,
}

/// The code fragments of one process.
#[derive(Clone, Debug, PartialEq, Eq)]
pub struct CfmState {
    pub connections: Vec<CfmConnection>,
    pub library_fragments: Vec<CfmLibraryFragment>,
    pub next_connection_id: u32,
}

impl CfmState {
    /// Nothing is connected and nothing can be loaded.
    pub open spec fn pristine(&self) -> bool {
        &&& self.connections@.len() == 0
        &&& self.library_fragments@.len() == 0
        &&& self.next_connection_id == 0
    }

    pub fn new() -> (state: Self)
        ensures
            state.pristine(),
    {
        CfmState { connections: Vec::new(), library_fragments: Vec::new(), next_connection_id: 0 }
    }

    pub fn is_pristine(&self) -> (pristine: bool)
        ensures
            pristine == self.pristine(),
    {
        self.connections.len() == 0 && self.library_fragments.len() == 0 && self.next_connection_id
            == 0
    }
}

/// The owner of one process's state.
pub struct ProcessContext {
    pub cfm: CfmState,
    pub memory: Vec<ProcessMemoryRegion>,
    pub memory_manager: SharedProcessMemoryManager,
    pub file_system: SharedProcessFileSystem,
    pub tick_state: SharedProcessTickState,
    pub menu_tracking: SharedProcessMenuTracking,
    pub event_queue: SharedProcessEventQueue,
    pub input_state: SharedProcessInputState,
    pub window_list: SharedProcessWindowList,
    pub guest_calls: SharedGuestCallStack,
    pub pending_native_menu_selection: SharedNativeMenuSelection,
    pub apple_event_handlers: SharedProcessAppleEventHandlers,
    pub apple_event_launch_state: SharedProcessAppleEventLaunchState,
    pub apple_event_descriptors: SharedProcessAppleEventDescriptors,
    pub timer_tasks: SharedProcessTimerTasks,
    pub vbl_tasks: SharedProcessVblTasks,
    pub callback_scheduling: SharedProcessCallbackScheduling,
    pub mixed_mode_m68k: SharedProcessMixedModeM68kState,
    pub scrap_state: SharedProcessScrapState,
    pub list_manager: SharedProcessListManager,
    pub dialog_text: SharedProcessDialogText,
    pub quickdraw_op_colors: SharedProcessQuickDrawOpColors,
    pub quickdraw_hilite_colors: SharedProcessQuickDrawHiliteColors,
    pub quickdraw_pixel_states: SharedProcessQuickDrawPixelStates,
    pub current_graphics_port: SharedProcessGraphicsPort,
    pub current_graphics_device: SharedProcessGraphicsDevice,
    pub quickdraw_error: SharedProcessQuickDrawError,
    pub cursor_state: SharedProcessCursorState,
    pub device_clut: SharedProcessDisplayClut,
    pub color_manager_clut: SharedProcessDisplayClut,
    pub display_gamma: SharedProcessDisplayGamma,
}

impl ProcessContext {
    /// Every handle names a cell, and the menu belongs to the calls.
    pub open spec fn valid(&self, cells: &ProcessCells) -> bool {
        &&& self.memory_manager.valid(&cells.managers, &cells.memory)
        &&& self.file_system.valid(&cells.file_systems, &cells.files)
        &&& self.tick_state.valid(&cells.ticks)
        &&& self.menu_tracking.id() == self.guest_calls.id()
        &&& self.event_queue.valid(&cells.event_queues)
        &&& self.input_state.valid(&cells.input_states)
        &&& self.window_list.valid(&cells.window_lists)
        &&& self.guest_calls.valid(&cells.executions)
        &&& self.pending_native_menu_selection.valid(&cells.menu_selections)
        &&& self.apple_event_handlers.valid(&cells.apple_event_tables)
        &&& self.apple_event_launch_state.valid(&cells.launch_states)
        &&& self.apple_event_descriptors.valid(&cells.descriptor_tables)
        &&& self.timer_tasks.valid(&cells.timer_lists)
        &&& self.vbl_tasks.valid(&cells.vbl_lists)
        &&& self.callback_scheduling.valid(&cells.schedules)
        &&& self.mixed_mode_m68k.valid(&cells.mixed_modes)
        &&& self.scrap_state.valid(&cells.scraps)
        &&& self.list_manager.valid(&cells.list_managers)
        &&& self.dialog_text.valid(&cells.dialog_texts)
        &&& self.quickdraw_op_colors.valid(&cells.op_colors)
        &&& self.quickdraw_hilite_colors.valid(&cells.hilite_colors)
        &&& self.quickdraw_pixel_states.valid(&cells.pixel_states)
        &&& self.current_graphics_port.valid(&cells.ports)
        &&& self.current_graphics_device.valid(&cells.devices)
        &&& self.quickdraw_error.valid(&cells.errors)
        &&& self.cursor_state.valid(&cells.cursors)
        &&& self.device_clut.valid(&cells.color_tables)
        &&& self.color_manager_clut.valid(&cells.color_tables)
        &&& self.display_gamma.valid(&cells.gammas)
        &&& ranges_disjoint(self.memory@)
    }

    /// Nothing has happened in the process.
    pub open spec fn unused(&self, cells: &ProcessCells, defaults: ProcessDefaults) -> bool {
        &&& self.cfm.pristine()
        &&& self.memory@.len() == 0
        &&& self.memory_manager.unused(&cells.managers, &cells.memory)
        &&& self.file_system.state(&cells.file_systems).unused(&cells.files)
        &&& self.tick_state.tick(&cells.ticks) == 0
        &&& SharedProcessEventQueue::pristine(self.event_queue.value(&cells.event_queues))
        &&& SharedProcessInputState::pristine(self.input_state.value(&cells.input_states))
        &&& SharedProcessWindowList::pristine(self.window_list.value(&cells.window_lists))
        &&& SharedGuestCallStack::pristine(self.guest_calls.value(&cells.executions))
        &&& self.pending_native_menu_selection.pending(&cells.menu_selections) is None
        &&& SharedProcessAppleEventHandlers::pristine(self.apple_event_handlers.value(&cells.apple_event_tables))
        &&& SharedProcessAppleEventLaunchState::pristine(self.apple_event_launch_state.value(&cells.launch_states))
        &&& SharedProcessAppleEventDescriptors::pristine(self.apple_event_descriptors.value(&cells.descriptor_tables))
        &&& SharedProcessTimerTasks::pristine(self.timer_tasks.value(&cells.timer_lists))
        &&& SharedProcessVblTasks::pristine(self.vbl_tasks.value(&cells.vbl_lists))
        &&& SharedProcessCallbackScheduling::pristine(self.callback_scheduling.value(&cells.schedules))
        &&& SharedProcessMixedModeM68kState::pristine(self.mixed_mode_m68k.value(&cells.mixed_modes))
        &&& SharedProcessScrapState::pristine(self.scrap_state.value(&cells.scraps))
        &&& SharedProcessListManager::pristine(self.list_manager.value(&cells.list_managers))
        &&& SharedProcessDialogText::pristine(self.dialog_text.value(&cells.dialog_texts))
        &&& SharedProcessQuickDrawOpColors::pristine(self.quickdraw_op_colors.value(&cells.op_colors))
        &&& SharedProcessQuickDrawHiliteColors::pristine(self.quickdraw_hilite_colors.value(&cells.hilite_colors))
        &&& SharedProcessQuickDrawPixelStates::pristine(self.quickdraw_pixel_states.value(&cells.pixel_states))
        &&& SharedProcessGraphicsPort::pristine(self.current_graphics_port.value(&cells.ports))
        &&& SharedProcessGraphicsDevice::pristine(self.current_graphics_device.value(&cells.devices))
        &&& SharedProcessQuickDrawError::pristine(self.quickdraw_error.value(&cells.errors))
        &&& self.cursor_state.state(&cells.cursors).pristine(defaults.arrow)
        &&& self.device_clut.table(&cells.color_tables) == defaults.colors
        &&& self.color_manager_clut.table(&cells.color_tables) == defaults.colors
        &&& self.display_gamma.state(&cells.gammas).table == defaults.gamma
        &&& !self.display_gamma.state(&cells.gammas).explicit
    }

    /// A process in which nothing has happened, with cells of its own.
    pub fn new(cells: &mut ProcessCells, defaults: &ProcessDefaults) -> (context: Self)
        requires
            old(cells).memory.sized(),
        ensures
            context.valid(final(cells)),
            context.unused(final(cells), *defaults),
            context.file_system.state(&final(cells).file_systems).forks_exist(&final(cells).files),
            old(cells).extended_by(final(cells)),
    {
        let guest_calls = SharedGuestCallStack::new(&mut cells.executions);
        let memory_manager = SharedProcessMemoryManager::new(&mut cells.managers, &mut cells.memory);
        let file_state = ProcessFileSystemState::new(&mut cells.files);
        ProcessContext {
            cfm: CfmState::new(),
            memory: Vec::new(),
            memory_manager,
            file_system: SharedProcessFileSystem::from_state(&mut cells.file_systems, file_state),
            tick_state: SharedProcessTickState::new(&mut cells.ticks),
            menu_tracking: guest_calls.menu_tracking_view(),
            guest_calls,
            pending_native_menu_selection: SharedNativeMenuSelection::new(
                &mut cells.menu_selections,
            ),
            event_queue: SharedProcessEventQueue::new(&mut cells.event_queues),
            input_state: SharedProcessInputState::new(&mut cells.input_states),
            window_list: SharedProcessWindowList::new(&mut cells.window_lists),
            apple_event_handlers: SharedProcessAppleEventHandlers::new(&mut cells.apple_event_tables),
            apple_event_launch_state: SharedProcessAppleEventLaunchState::new(&mut cells.launch_states),
            apple_event_descriptors: SharedProcessAppleEventDescriptors::new(&mut cells.descriptor_tables),
            timer_tasks: SharedProcessTimerTasks::new(&mut cells.timer_lists),
            vbl_tasks: SharedProcessVblTasks::new(&mut cells.vbl_lists),
            callback_scheduling: SharedProcessCallbackScheduling::new(&mut cells.schedules),
            mixed_mode_m68k: SharedProcessMixedModeM68kState::new(&mut cells.mixed_modes),
            scrap_state: SharedProcessScrapState::new(&mut cells.scraps),
            list_manager: SharedProcessListManager::new(&mut cells.list_managers),
            dialog_text: SharedProcessDialogText::new(&mut cells.dialog_texts),
            quickdraw_op_colors: SharedProcessQuickDrawOpColors::new(&mut cells.op_colors),
            quickdraw_hilite_colors: SharedProcessQuickDrawHiliteColors::new(&mut cells.hilite_colors),
            quickdraw_pixel_states: SharedProcessQuickDrawPixelStates::new(&mut cells.pixel_states),
            current_graphics_port: SharedProcessGraphicsPort::new(&mut cells.ports),
            current_graphics_device: SharedProcessGraphicsDevice::new(&mut cells.devices),
            quickdraw_error: SharedProcessQuickDrawError::new(&mut cells.errors),
            cursor_state: SharedProcessCursorState::new(&mut cells.cursors, defaults.arrow),
            device_clut: SharedProcessDisplayClut::from_value(
                &mut cells.color_tables,
                defaults.colors,
            ),
            color_manager_clut: SharedProcessDisplayClut::from_value(
                &mut cells.color_tables,
                defaults.colors,
            ),
            display_gamma: SharedProcessDisplayGamma::from_value(
                &mut cells.gammas,
                ProcessDisplayGammaState::new(defaults.gamma),
            ),
        }
    }

    /// Share the process's pending menu selection with an adapter.
    pub fn attach_native_menu_selection(
        &self,
        cells: &mut ProcessCells,
        adapter: &mut SharedNativeMenuSelection,
    )
        requires
            self.valid(old(cells)),
            old(adapter).valid(&old(cells).menu_selections),
            crate::cells::attachable(
                old(cells).menu_selections@,
                old(adapter).id(),
                self.pending_native_menu_selection.id(),
                |value: NativeMenuSelection| SharedNativeMenuSelection::pristine(value),
            ),
        ensures
            final(adapter).id() == self.pending_native_menu_selection.id(),
            crate::cells::joined(
                old(cells).menu_selections@,
                final(cells).menu_selections@,
                old(adapter).id(),
                self.pending_native_menu_selection.id(),
                self.pending_native_menu_selection.pending(&old(cells).menu_selections) is None,
            ),
            *final(cells) == (ProcessCells {
                menu_selections: final(cells).menu_selections,
                ..*old(cells)
            }),
    {
        adapter.attach_to(&mut cells.menu_selections, &self.pending_native_menu_selection);
    }

    /// Share the process's event queue with an adapter.
    pub fn attach_event_queue(&self, cells: &mut ProcessCells, adapter: &mut SharedProcessEventQueue)
        requires
            self.valid(old(cells)),
            old(adapter).valid(&old(cells).event_queues),
            crate::cells::attachable(
                old(cells).event_queues@,
                old(adapter).id(),
                self.event_queue.id(),
                |value: EventQueue| SharedProcessEventQueue::pristine(value),
            ),
        ensures
            final(adapter).id() == self.event_queue.id(),
            crate::cells::joined(
                old(cells).event_queues@,
                final(cells).event_queues@,
                old(adapter).id(),
                self.event_queue.id(),
                SharedProcessEventQueue::pristine(self.event_queue.value(&old(cells).event_queues)),
            ),
            *final(cells) == (ProcessCells {
                event_queues: final(cells).event_queues,
                ..*old(cells)
            }),
    {
        adapter.attach_to(&mut cells.event_queues, &self.event_queue);
    }

    /// Share the process's mouse and keyboard with an adapter.
    pub fn attach_input_state(&self, cells: &mut ProcessCells, adapter: &mut SharedProcessInputState)
        requires
            self.valid(old(cells)),
            old(adapter).valid(&old(cells).input_states),
            crate::cells::attachable(
                old(cells).input_states@,
                old(adapter).id(),
                self.input_state.id(),
                |value: ProcessInputState| SharedProcessInputState::pristine(value),
            ),
        ensures
            final(adapter).id() == self.input_state.id(),
            crate::cells::joined(
                old(cells).input_states@,
                final(cells).input_states@,
                old(adapter).id(),
                self.input_state.id(),
                SharedProcessInputState::pristine(self.input_state.value(&old(cells).input_states)),
            ),
            *final(cells) == (ProcessCells {
                input_states: final(cells).input_states,
                ..*old(cells)
            }),
    {
        adapter.attach_to(&mut cells.input_states, &self.input_state);
    }

    /// Share the process's window list with an adapter.
    pub fn attach_window_list(&self, cells: &mut ProcessCells, adapter: &mut SharedProcessWindowList)
        requires
            self.valid(old(cells)),
            old(adapter).valid(&old(cells).window_lists),
            crate::cells::attachable(
                old(cells).window_lists@,
                old(adapter).id(),
                self.window_list.id(),
                |value: Vec<u32>| SharedProcessWindowList::pristine(value),
            ),
        ensures
            final(adapter).id() == self.window_list.id(),
            crate::cells::joined(
                old(cells).window_lists@,
                final(cells).window_lists@,
                old(adapter).id(),
                self.window_list.id(),
                SharedProcessWindowList::pristine(self.window_list.value(&old(cells).window_lists)),
            ),
            *final(cells) == (ProcessCells {
                window_lists: final(cells).window_lists,
                ..*old(cells)
            }),
    {
        adapter.attach_to(&mut cells.window_lists, &self.window_list);
    }

    /// Share the process's Apple event handlers with an adapter.
    pub fn attach_apple_event_handlers(&self, cells: &mut ProcessCells, adapter: &mut SharedProcessAppleEventHandlers)
        requires
            self.valid(old(cells)),
            old(adapter).valid(&old(cells).apple_event_tables),
            crate::cells::attachable(
                old(cells).apple_event_tables@,
                old(adapter).id(),
                self.apple_event_handlers.id(),
                |value: AppleEventTable| SharedProcessAppleEventHandlers::pristine(value),
            ),
        ensures
            final(adapter).id() == self.apple_event_handlers.id(),
            crate::cells::joined(
                old(cells).apple_event_tables@,
                final(cells).apple_event_tables@,
                old(adapter).id(),
                self.apple_event_handlers.id(),
                SharedProcessAppleEventHandlers::pristine(self.apple_event_handlers.value(&old(cells).apple_event_tables)),
            ),
            *final(cells) == (ProcessCells {
                apple_event_tables: final(cells).apple_event_tables,
                ..*old(cells)
            }),
    {
        adapter.attach_to(&mut cells.apple_event_tables, &self.apple_event_handlers);
    }

    /// Share the process's launch state with an adapter.
    pub fn attach_apple_event_launch_state(&self, cells: &mut ProcessCells, adapter: &mut SharedProcessAppleEventLaunchState)
        requires
            self.valid(old(cells)),
            old(adapter).valid(&old(cells).launch_states),
            crate::cells::copies_attachable(
                old(cells).launch_states@,
                old(adapter).id(),
                self.apple_event_launch_state.id(),
                |value: ProcessAppleEventLaunchState| SharedProcessAppleEventLaunchState::pristine(value),
            ),
        ensures
            final(adapter).id() == self.apple_event_launch_state.id(),
            final(cells).launch_states@ == crate::cells::copies_joined(
                old(cells).launch_states@,
                old(adapter).id(),
                self.apple_event_launch_state.id(),
                |value: ProcessAppleEventLaunchState| SharedProcessAppleEventLaunchState::pristine(value),
            ),
            *final(cells) == (ProcessCells {
                launch_states: final(cells).launch_states,
                ..*old(cells)
            }),
    {
        adapter.attach_to(&mut cells.launch_states, &self.apple_event_launch_state);
    }

    /// Share the process's descriptors with an adapter.
    pub fn attach_apple_event_descriptors(&self, cells: &mut ProcessCells, adapter: &mut SharedProcessAppleEventDescriptors)
        requires
            self.valid(old(cells)),
            old(adapter).valid(&old(cells).descriptor_tables),
            crate::cells::attachable(
                old(cells).descriptor_tables@,
                old(adapter).id(),
                self.apple_event_descriptors.id(),
                |value: ProcessAppleEventDescriptors| SharedProcessAppleEventDescriptors::pristine(value),
            ),
        ensures
            final(adapter).id() == self.apple_event_descriptors.id(),
            crate::cells::joined(
                old(cells).descriptor_tables@,
                final(cells).descriptor_tables@,
                old(adapter).id(),
                self.apple_event_descriptors.id(),
                SharedProcessAppleEventDescriptors::pristine(self.apple_event_descriptors.value(&old(cells).descriptor_tables)),
            ),
            *final(cells) == (ProcessCells {
                descriptor_tables: final(cells).descriptor_tables,
                ..*old(cells)
            }),
    {
        adapter.attach_to(&mut cells.descriptor_tables, &self.apple_event_descriptors);
    }

    /// Share the process's Time Manager tasks with an adapter.
    pub fn attach_timer_tasks(&self, cells: &mut ProcessCells, adapter: &mut SharedProcessTimerTasks)
        requires
            self.valid(old(cells)),
            old(adapter).valid(&old(cells).timer_lists),
            crate::cells::attachable(
                old(cells).timer_lists@,
                old(adapter).id(),
                self.timer_tasks.id(),
                |value: TimerTaskList| SharedProcessTimerTasks::pristine(value),
            ),
        ensures
            final(adapter).id() == self.timer_tasks.id(),
            crate::cells::joined(
                old(cells).timer_lists@,
                final(cells).timer_lists@,
                old(adapter).id(),
                self.timer_tasks.id(),
                SharedProcessTimerTasks::pristine(self.timer_tasks.value(&old(cells).timer_lists)),
            ),
            *final(cells) == (ProcessCells {
                timer_lists: final(cells).timer_lists,
                ..*old(cells)
            }),
    {
        adapter.attach_to(&mut cells.timer_lists, &self.timer_tasks);
    }

    /// Share the process's Vertical Retrace Manager tasks with an adapter.
    pub fn attach_vbl_tasks(&self, cells: &mut ProcessCells, adapter: &mut SharedProcessVblTasks)
        requires
            self.valid(old(cells)),
            old(adapter).valid(&old(cells).vbl_lists),
            crate::cells::attachable(
                old(cells).vbl_lists@,
                old(adapter).id(),
                self.vbl_tasks.id(),
                |value: VblTaskList| SharedProcessVblTasks::pristine(value),
            ),
        ensures
            final(adapter).id() == self.vbl_tasks.id(),
            crate::cells::joined(
                old(cells).vbl_lists@,
                final(cells).vbl_lists@,
                old(adapter).id(),
                self.vbl_tasks.id(),
                SharedProcessVblTasks::pristine(self.vbl_tasks.value(&old(cells).vbl_lists)),
            ),
            *final(cells) == (ProcessCells {
                vbl_lists: final(cells).vbl_lists,
                ..*old(cells)
            }),
    {
        adapter.attach_to(&mut cells.vbl_lists, &self.vbl_tasks);
    }

    /// Share the process's 68K call state with an adapter.
    pub fn attach_mixed_mode_m68k_state(&self, cells: &mut ProcessCells, adapter: &mut SharedProcessMixedModeM68kState)
        requires
            self.valid(old(cells)),
            old(adapter).valid(&old(cells).mixed_modes),
            crate::cells::copies_attachable(
                old(cells).mixed_modes@,
                old(adapter).id(),
                self.mixed_mode_m68k.id(),
                |value: ProcessMixedModeM68kState| SharedProcessMixedModeM68kState::pristine(value),
            ),
        ensures
            final(adapter).id() == self.mixed_mode_m68k.id(),
            final(cells).mixed_modes@ == crate::cells::copies_joined(
                old(cells).mixed_modes@,
                old(adapter).id(),
                self.mixed_mode_m68k.id(),
                |value: ProcessMixedModeM68kState| SharedProcessMixedModeM68kState::pristine(value),
            ),
            *final(cells) == (ProcessCells {
                mixed_modes: final(cells).mixed_modes,
                ..*old(cells)
            }),
    {
        adapter.attach_to(&mut cells.mixed_modes, &self.mixed_mode_m68k);
    }

    /// Share the process's desk scrap with an adapter.
    pub fn attach_scrap_state(&self, cells: &mut ProcessCells, adapter: &mut SharedProcessScrapState)
        requires
            self.valid(old(cells)),
            old(adapter).valid(&old(cells).scraps),
            crate::cells::attachable(
                old(cells).scraps@,
                old(adapter).id(),
                self.scrap_state.id(),
                |value: ProcessScrapState| SharedProcessScrapState::pristine(value),
            ),
        ensures
            final(adapter).id() == self.scrap_state.id(),
            crate::cells::joined(
                old(cells).scraps@,
                final(cells).scraps@,
                old(adapter).id(),
                self.scrap_state.id(),
                SharedProcessScrapState::pristine(self.scrap_state.value(&old(cells).scraps)),
            ),
            *final(cells) == (ProcessCells {
                scraps: final(cells).scraps,
                ..*old(cells)
            }),
    {
        adapter.attach_to(&mut cells.scraps, &self.scrap_state);
    }

    /// Share the process's lists with an adapter.
    pub fn attach_list_manager(&self, cells: &mut ProcessCells, adapter: &mut SharedProcessListManager)
        requires
            self.valid(old(cells)),
            old(adapter).valid(&old(cells).list_managers),
            crate::cells::attachable(
                old(cells).list_managers@,
                old(adapter).id(),
                self.list_manager.id(),
                |value: ProcessListManagerState| SharedProcessListManager::pristine(value),
            ),
        ensures
            final(adapter).id() == self.list_manager.id(),
            crate::cells::joined(
                old(cells).list_managers@,
                final(cells).list_managers@,
                old(adapter).id(),
                self.list_manager.id(),
                SharedProcessListManager::pristine(self.list_manager.value(&old(cells).list_managers)),
            ),
            *final(cells) == (ProcessCells {
                list_managers: final(cells).list_managers,
                ..*old(cells)
            }),
    {
        adapter.attach_to(&mut cells.list_managers, &self.list_manager);
    }

    /// Share the process's dialog strings with an adapter.
    pub fn attach_dialog_text(&self, cells: &mut ProcessCells, adapter: &mut SharedProcessDialogText)
        requires
            self.valid(old(cells)),
            old(adapter).valid(&old(cells).dialog_texts),
            crate::cells::attachable(
                old(cells).dialog_texts@,
                old(adapter).id(),
                self.dialog_text.id(),
                |value: DialogTextSlots| SharedProcessDialogText::pristine(value),
            ),
        ensures
            final(adapter).id() == self.dialog_text.id(),
            crate::cells::joined(
                old(cells).dialog_texts@,
                final(cells).dialog_texts@,
                old(adapter).id(),
                self.dialog_text.id(),
                SharedProcessDialogText::pristine(self.dialog_text.value(&old(cells).dialog_texts)),
            ),
            *final(cells) == (ProcessCells {
                dialog_texts: final(cells).dialog_texts,
                ..*old(cells)
            }),
    {
        adapter.attach_to(&mut cells.dialog_texts, &self.dialog_text);
    }

    /// Share the process's operation colors with an adapter.
    pub fn attach_quickdraw_op_colors(&self, cells: &mut ProcessCells, adapter: &mut SharedProcessQuickDrawOpColors)
        requires
            self.valid(old(cells)),
            old(adapter).valid(&old(cells).op_colors),
            crate::cells::attachable(
                old(cells).op_colors@,
                old(adapter).id(),
                self.quickdraw_op_colors.id(),
                |value: AssocMap<u32, (u16, u16, u16)>| SharedProcessQuickDrawOpColors::pristine(value),
            ),
        ensures
            final(adapter).id() == self.quickdraw_op_colors.id(),
            crate::cells::joined(
                old(cells).op_colors@,
                final(cells).op_colors@,
                old(adapter).id(),
                self.quickdraw_op_colors.id(),
                SharedProcessQuickDrawOpColors::pristine(self.quickdraw_op_colors.value(&old(cells).op_colors)),
            ),
            *final(cells) == (ProcessCells {
                op_colors: final(cells).op_colors,
                ..*old(cells)
            }),
    {
        adapter.attach_to(&mut cells.op_colors, &self.quickdraw_op_colors);
    }

    /// Share the process's highlight colors with an adapter.
    pub fn attach_quickdraw_hilite_colors(&self, cells: &mut ProcessCells, adapter: &mut SharedProcessQuickDrawHiliteColors)
        requires
            self.valid(old(cells)),
            old(adapter).valid(&old(cells).hilite_colors),
            crate::cells::attachable(
                old(cells).hilite_colors@,
                old(adapter).id(),
                self.quickdraw_hilite_colors.id(),
                |value: AssocMap<u32, (u16, u16, u16)>| SharedProcessQuickDrawHiliteColors::pristine(value),
            ),
        ensures
            final(adapter).id() == self.quickdraw_hilite_colors.id(),
            crate::cells::joined(
                old(cells).hilite_colors@,
                final(cells).hilite_colors@,
                old(adapter).id(),
                self.quickdraw_hilite_colors.id(),
                SharedProcessQuickDrawHiliteColors::pristine(self.quickdraw_hilite_colors.value(&old(cells).hilite_colors)),
            ),
            *final(cells) == (ProcessCells {
                hilite_colors: final(cells).hilite_colors,
                ..*old(cells)
            }),
    {
        adapter.attach_to(&mut cells.hilite_colors, &self.quickdraw_hilite_colors);
    }

    /// Share the process's pixel map flags with an adapter.
    pub fn attach_quickdraw_pixel_states(&self, cells: &mut ProcessCells, adapter: &mut SharedProcessQuickDrawPixelStates)
        requires
            self.valid(old(cells)),
            old(adapter).valid(&old(cells).pixel_states),
            crate::cells::attachable(
                old(cells).pixel_states@,
                old(adapter).id(),
                self.quickdraw_pixel_states.id(),
                |value: AssocMap<u32, u32>| SharedProcessQuickDrawPixelStates::pristine(value),
            ),
        ensures
            final(adapter).id() == self.quickdraw_pixel_states.id(),
            crate::cells::joined(
                old(cells).pixel_states@,
                final(cells).pixel_states@,
                old(adapter).id(),
                self.quickdraw_pixel_states.id(),
                SharedProcessQuickDrawPixelStates::pristine(self.quickdraw_pixel_states.value(&old(cells).pixel_states)),
            ),
            *final(cells) == (ProcessCells {
                pixel_states: final(cells).pixel_states,
                ..*old(cells)
            }),
    {
        adapter.attach_to(&mut cells.pixel_states, &self.quickdraw_pixel_states);
    }

    /// Share the process's QuickDraw result code with an adapter.
    pub fn attach_quickdraw_error(&self, cells: &mut ProcessCells, adapter: &mut SharedProcessQuickDrawError)
        requires
            self.valid(old(cells)),
            old(adapter).valid(&old(cells).errors),
            crate::cells::copies_attachable(
                old(cells).errors@,
                old(adapter).id(),
                self.quickdraw_error.id(),
                |value: i16| SharedProcessQuickDrawError::pristine(value),
            ),
        ensures
            final(adapter).id() == self.quickdraw_error.id(),
            final(cells).errors@ == crate::cells::copies_joined(
                old(cells).errors@,
                old(adapter).id(),
                self.quickdraw_error.id(),
                |value: i16| SharedProcessQuickDrawError::pristine(value),
            ),
            *final(cells) == (ProcessCells {
                errors: final(cells).errors,
                ..*old(cells)
            }),
    {
        adapter.attach_copy_to(&mut cells.errors, &self.quickdraw_error);
    }

    /// Share the process's callback tasks and their schedule with an adapter.
    pub fn attach_callback_tasks(
        &self,
        cells: &mut ProcessCells,
        timer_tasks: &mut SharedProcessTimerTasks,
        vbl_tasks: &mut SharedProcessVblTasks,
        scheduling: &mut SharedProcessCallbackScheduling,
    )
        requires
            self.valid(old(cells)),
            old(timer_tasks).valid(&old(cells).timer_lists),
            crate::cells::attachable(
                old(cells).timer_lists@,
                old(timer_tasks).id(),
                self.timer_tasks.id(),
                |value: TimerTaskList| SharedProcessTimerTasks::pristine(value),
            ),
            old(vbl_tasks).valid(&old(cells).vbl_lists),
            crate::cells::attachable(
                old(cells).vbl_lists@,
                old(vbl_tasks).id(),
                self.vbl_tasks.id(),
                |value: VblTaskList| SharedProcessVblTasks::pristine(value),
            ),
            old(scheduling).valid(&old(cells).schedules),
            crate::cells::attachable(
                old(cells).schedules@,
                old(scheduling).id(),
                self.callback_scheduling.id(),
                |value: ProcessCallbackScheduling| SharedProcessCallbackScheduling::pristine(value),
            ),
        ensures
            final(timer_tasks).id() == self.timer_tasks.id(),
            crate::cells::joined(
                old(cells).timer_lists@,
                final(cells).timer_lists@,
                old(timer_tasks).id(),
                self.timer_tasks.id(),
                SharedProcessTimerTasks::pristine(self.timer_tasks.value(&old(cells).timer_lists)),
            ),
            final(vbl_tasks).id() == self.vbl_tasks.id(),
            crate::cells::joined(
                old(cells).vbl_lists@,
                final(cells).vbl_lists@,
                old(vbl_tasks).id(),
                self.vbl_tasks.id(),
                SharedProcessVblTasks::pristine(self.vbl_tasks.value(&old(cells).vbl_lists)),
            ),
            final(scheduling).id() == self.callback_scheduling.id(),
            crate::cells::joined(
                old(cells).schedules@,
                final(cells).schedules@,
                old(scheduling).id(),
                self.callback_scheduling.id(),
                SharedProcessCallbackScheduling::pristine(self.callback_scheduling.value(&old(cells).schedules)),
            ),
            *final(cells) == (ProcessCells {
                timer_lists: final(cells).timer_lists,
                vbl_lists: final(cells).vbl_lists,
                schedules: final(cells).schedules,
                ..*old(cells)
            }),
    {
        timer_tasks.attach_to(&mut cells.timer_lists, &self.timer_tasks);
        vbl_tasks.attach_to(&mut cells.vbl_lists, &self.vbl_tasks);
        scheduling.attach_to(&mut cells.schedules, &self.callback_scheduling);
    }

    /// Share the process's current port and device with an adapter.
    pub fn attach_quickdraw_selection(
        &self,
        cells: &mut ProcessCells,
        current_port: &mut SharedProcessGraphicsPort,
        current_device: &mut SharedProcessGraphicsDevice,
    )
        requires
            self.valid(old(cells)),
            old(current_port).valid(&old(cells).ports),
            crate::cells::copies_attachable(
                old(cells).ports@,
                old(current_port).id(),
                self.current_graphics_port.id(),
                |value: u32| SharedProcessGraphicsPort::pristine(value),
            ),
            old(current_device).valid(&old(cells).devices),
            crate::cells::copies_attachable(
                old(cells).devices@,
                old(current_device).id(),
                self.current_graphics_device.id(),
                |value: u32| SharedProcessGraphicsDevice::pristine(value),
            ),
        ensures
            final(current_port).id() == self.current_graphics_port.id(),
            final(cells).ports@ == crate::cells::copies_joined(
                old(cells).ports@,
                old(current_port).id(),
                self.current_graphics_port.id(),
                |value: u32| SharedProcessGraphicsPort::pristine(value),
            ),
            final(current_device).id() == self.current_graphics_device.id(),
            final(cells).devices@ == crate::cells::copies_joined(
                old(cells).devices@,
                old(current_device).id(),
                self.current_graphics_device.id(),
                |value: u32| SharedProcessGraphicsDevice::pristine(value),
            ),
            *final(cells) == (ProcessCells {
                ports: final(cells).ports,
                devices: final(cells).devices,
                ..*old(cells)
            }),
    {
        current_port.attach_copy_to(&mut cells.ports, &self.current_graphics_port);
        current_device.attach_copy_to(&mut cells.devices, &self.current_graphics_device);
    }

    /// Make an adapter's current port and device those of the process.
    pub fn activate_quickdraw_selection(
        &self,
        cells: &mut ProcessCells,
        current_port: &mut SharedProcessGraphicsPort,
        current_device: &mut SharedProcessGraphicsDevice,
    )
        requires
            self.valid(old(cells)),
            old(current_port).valid(&old(cells).ports),
            old(current_device).valid(&old(cells).devices),
        ensures
            final(current_port).id() == self.current_graphics_port.id(),
            final(current_device).id() == self.current_graphics_device.id(),
            final(cells).ports@ == old(cells).ports@.update(
                self.current_graphics_port.id(),
                old(current_port).value(&old(cells).ports),
            ),
            final(cells).devices@ == old(cells).devices@.update(
                self.current_graphics_device.id(),
                old(current_device).value(&old(cells).devices),
            ),
            *final(cells) == (ProcessCells {
                ports: final(cells).ports,
                devices: final(cells).devices,
                ..*old(cells)
            }),
    {
        current_port.activate_copy_to(&mut cells.ports, &self.current_graphics_port);
        current_device.activate_copy_to(&mut cells.devices, &self.current_graphics_device);
    }

    /// Share the process's cursor with an adapter.
    pub fn attach_cursor_state(
        &self,
        cells: &mut ProcessCells,
        adapter: &mut SharedProcessCursorState,
        arrow: &CursorImage,
    )
        requires
            self.valid(old(cells)),
            old(adapter).valid(&old(cells).cursors),
            old(adapter).id() == self.cursor_state.id() || old(adapter).state(
                &old(cells).cursors,
            ).pristine(*arrow) || self.cursor_state.state(&old(cells).cursors).pristine(*arrow),
        ensures
            final(adapter).id() == self.cursor_state.id(),
            final(cells).cursors@ == crate::cursor::cursors_joined(
                old(cells).cursors@,
                old(adapter).id(),
                self.cursor_state.id(),
                *arrow,
            ),
            *final(cells) == (ProcessCells {
                cursors: final(cells).cursors,
                ..*old(cells)
            }),
    {
        adapter.attach_to(&mut cells.cursors, &self.cursor_state, arrow);
    }

    /// Share the process's color tables and transfer table with an adapter,
    /// one after the other.
    pub fn attach_display_color_state(
        &self,
        cells: &mut ProcessCells,
        device_clut: &mut SharedProcessDisplayClut,
        color_manager_clut: &mut SharedProcessDisplayClut,
        display_gamma: &mut SharedProcessDisplayGamma,
        defaults: &ProcessDefaults,
    )
        requires
            self.valid(old(cells)),
            old(device_clut).valid(&old(cells).color_tables),
            old(color_manager_clut).valid(&old(cells).color_tables),
            old(display_gamma).valid(&old(cells).gammas),
            crate::cells::copies_attachable(
                old(cells).color_tables@,
                old(device_clut).id(),
                self.device_clut.id(),
                |table: ColorTable| crate::display_state::colors_pristine(table, defaults.colors),
            ),
            crate::cells::copies_attachable(
                crate::cells::copies_joined(
                    old(cells).color_tables@,
                    old(device_clut).id(),
                    self.device_clut.id(),
                    |table: ColorTable| crate::display_state::colors_pristine(table, defaults.colors),
                ),
                old(color_manager_clut).id(),
                self.color_manager_clut.id(),
                |table: ColorTable| crate::display_state::colors_pristine(table, defaults.colors),
            ),
            old(display_gamma).id() == self.display_gamma.id() || old(display_gamma).state(
                &old(cells).gammas,
            ).pristine(defaults.gamma) || self.display_gamma.state(&old(cells).gammas).pristine(
                defaults.gamma,
            ),
        ensures
            final(device_clut).id() == self.device_clut.id(),
            final(color_manager_clut).id() == self.color_manager_clut.id(),
            final(display_gamma).id() == self.display_gamma.id(),
            final(cells).color_tables@ == crate::cells::copies_joined(
                crate::cells::copies_joined(
                    old(cells).color_tables@,
                    old(device_clut).id(),
                    self.device_clut.id(),
                    |table: ColorTable| crate::display_state::colors_pristine(table, defaults.colors),
                ),
                old(color_manager_clut).id(),
                self.color_manager_clut.id(),
                |table: ColorTable| crate::display_state::colors_pristine(table, defaults.colors),
            ),
            final(cells).gammas@ == crate::display_state::gamma_joined(
                old(cells).gammas@,
                old(display_gamma).id(),
                self.display_gamma.id(),
                defaults.gamma,
            ),
            *final(cells) == (ProcessCells {
                color_tables: final(cells).color_tables,
                gammas: final(cells).gammas,
                ..*old(cells)
            }),
    {
        device_clut.attach_copy_to(&mut cells.color_tables, &self.device_clut, &defaults.colors);
        color_manager_clut.attach_copy_to(
            &mut cells.color_tables,
            &self.color_manager_clut,
            &defaults.colors,
        );
        display_gamma.attach_to(&mut cells.gammas, &self.display_gamma, &defaults.gamma);
    }

    /// Give an adapter a handle to the process's Memory Manager. One that it
    /// has already must be that manager's.
    pub fn attach_memory_manager(&self, adapter: &mut Option<SharedProcessMemoryManager>)
        requires
            *old(adapter) matches Some(attached) ==> attached.id() == self.memory_manager.id(),
        ensures
            match *final(adapter) {
                Some(attached) => attached.id() == self.memory_manager.id(),
                None => false,
            },
            *old(adapter) is Some ==> *final(adapter) == *old(adapter),
            *old(adapter) is None ==> match *final(adapter) {
                Some(attached) => {
                    &&& attached.ptr_to_handle.id() == self.memory_manager.ptr_to_handle.id()
                    &&& attached.handle_state_bits.id()
                        == self.memory_manager.handle_state_bits.id()
                    &&& attached.handle_high_locked.id()
                        == self.memory_manager.handle_high_locked.id()
                },
                None => false,
            },
    {
        if adapter.is_none() {
            *adapter = Some(self.memory_manager.shared_handle());
        }
    }

    /// Join the classic heap of a bus to the process's.
    pub fn attach_classic_memory_bus(&self, cells: &mut ProcessCells, bus: &mut MacMemoryBus)
        requires
            self.valid(old(cells)),
            old(bus).allocator.cell.valid(old(cells).memory.heaps@),
            self.memory_manager.model(&old(cells).managers, &old(cells).memory).can_attach(
                old(bus).allocator.heap(&old(cells).memory),
                self.memory_manager.state(&old(cells).managers).attached(old(bus)),
                old(bus).heap_limit() as u32,
            ),
        ensures
            self.valid(final(cells)),
            self.memory_manager.state(&final(cells).managers).attached(final(bus)),
            final(bus).ram@ == old(bus).ram@,
            final(bus).foreign == old(bus).foreign,
            self.memory_manager.model(&final(cells).managers, &final(cells).memory) == (
            ManagerModel {
                classic: Some(
                    self.memory_manager.model(
                        &old(cells).managers,
                        &old(cells).memory,
                    ).attached_heap(
                        old(bus).allocator.heap(&old(cells).memory),
                        self.memory_manager.state(&old(cells).managers).attached(old(bus)),
                    ),
                ),
                classic_limit: Some(old(bus).heap_limit() as u32),
                ..self.memory_manager.model(&old(cells).managers, &old(cells).memory)
            }),
            crate::cells::only_cell_changed(
                old(cells).managers@,
                final(cells).managers@,
                self.memory_manager.id(),
            ),
            self.memory_manager.state(&old(cells).managers).heaps_attached(
                old(bus).allocator.id(),
                &old(cells).memory,
                &final(cells).memory,
            ),
            *final(cells) == (ProcessCells {
                memory: final(cells).memory,
                managers: final(cells).managers,
                ..*old(cells)
            }),
    {
        cells.managers.get_mut(&self.memory_manager.manager).attach_classic_memory_bus(
            &mut cells.memory,
            bus,
        );
    }

    /// Share the process's file system with an adapter, whose records it takes
    /// over.
    pub fn attach_file_system(&self, cells: &mut ProcessCells, adapter: &mut SharedProcessFileSystem)
        requires
            self.valid(old(cells)),
            old(adapter).valid(&old(cells).file_systems, &old(cells).files),
            old(adapter).id() != self.file_system.id() ==> self.file_system.state(
                &old(cells).file_systems,
            ).can_merge(&old(adapter).state(&old(cells).file_systems), &old(cells).files),
        ensures
            final(adapter).id() == self.file_system.id(),
            self.valid(final(cells)),
            old(adapter).id() == self.file_system.id() ==> final(cells).file_systems@ == old(
                cells,
            ).file_systems@ && final(cells).files == old(cells).files,
            final(cells).file_systems@.len() == old(cells).file_systems@.len(),
            forall|i: int|
                0 <= i < old(cells).file_systems@.len() && i != old(adapter).id() && i
                    != self.file_system.id() ==> #[trigger] final(cells).file_systems@[i] == old(
                    cells,
                ).file_systems@[i],
            old(adapter).id() != self.file_system.id() ==> ({
                let target = self.file_system.state(&old(cells).file_systems);
                let source = old(adapter).state(&old(cells).file_systems);
                let joined_target = self.file_system.state(&final(cells).file_systems);
                let emptied = final(cells).file_systems@[old(adapter).id()];
                &&& joined_target.same_cells(&target)
                &&& target.merges_access(
                    &source,
                    &old(cells).files,
                    &joined_target,
                    &emptied,
                    &final(cells).files,
                )
                &&& target.merges_directories(&source, &old(cells).files, &final(cells).files)
                &&& target.merges_files(
                    &source,
                    &old(cells).files,
                    &joined_target,
                    &emptied,
                    &final(cells).files,
                )
                &&& target.merges_resources(
                    &source,
                    &old(cells).files,
                    &joined_target,
                    &emptied,
                    &final(cells).files,
                )
            }),
            *final(cells) == (ProcessCells {
                files: final(cells).files,
                file_systems: final(cells).file_systems,
                ..*old(cells)
            }),
    {
        adapter.attach_to(&mut cells.file_systems, &mut cells.files, &self.file_system);
    }

    /// A detached snapshot of the process's catalogue and files.
    pub fn detached_vfs_snapshot(&self, cells: &mut ProcessCells) -> (snapshot:
        SharedProcessFileSystem)
        requires
            self.valid(old(cells)),
            self.file_system.state(&old(cells).file_systems).forks_exist(&old(cells).files),
        ensures
            snapshot.id() == old(cells).file_systems@.len(),
            crate::cells::cells_extend(old(cells).file_systems@, final(cells).file_systems@),
            final(cells).file_systems@.len() == old(cells).file_systems@.len() + 1,
            old(cells).files.extended_by(&final(cells).files),
            snapshot.valid(&final(cells).file_systems, &final(cells).files),
            snapshot.state(&final(cells).file_systems).is_new(&old(cells).files),
            snapshot.state(&final(cells).file_systems).forks_exist(&final(cells).files),
            snapshot.state(&final(cells).file_systems).manager(&final(cells).files).is_new(
                &old(cells).files.resources,
            ),
            snapshot.state(&final(cells).file_systems).access_unused(&final(cells).files),
            self.file_system.state(&old(cells).file_systems).catalogue_copied(
                &old(cells).files,
                &snapshot.state(&final(cells).file_systems),
                &final(cells).files,
            ),
            *final(cells) == (ProcessCells {
                files: final(cells).files,
                file_systems: final(cells).file_systems,
                ..*old(cells)
            }),
    {
        self.file_system.detached_vfs_snapshot(&mut cells.file_systems, &mut cells.files)
    }

    /// Whether a range of guest memory can be owned: it is known already, or
    /// apart from every known one.
    pub fn can_attach_memory(&self, base: u32, len: usize) -> (fits: bool)
        ensures
            fits == range_fits(self.memory@, base, len),
    {
        if find_range(&self.memory, base, len) < self.memory.len() {
            return true;
        }
        let start: u64 = base as u64;
        let end: u64 = start.saturating_add(len as u64);
        let count: usize = self.memory.len();
        let mut i: usize = 0;
        while i < count
            invariant
                i <= count,
                count == self.memory@.len(),
                range_position(self.memory@, base, len) == count,
                start == base,
                end == range_end(base, len),
                forall|j: int| 0 <= j < i ==> ranges_apart(#[trigger] self.memory@[j], base, len),
            decreases count - i,
        {
            let known_start: u64 = self.memory[i].base as u64;
            let known_end: u64 = known_start.saturating_add(self.memory[i].bytes.len as u64);
            if end > known_start && known_end > start {
                assert(!ranges_apart(self.memory@[i as int], base, len));
                return false;
            }
            i += 1;
        }
        true
    }

    /// Own a range of guest memory and map it in an adapter's address space.
    /// A range that is known already is not owned twice: the adapter then maps
    /// the memory that the process has for it.
    pub fn attach_memory(&mut self, base: u32, bytes: SharedRamRegion, adapter: &mut GuestAddressSpace)
        requires
            range_fits(old(self).memory@, base, bytes.len),
        ensures
            ({
                let known = old(self).memory@;
                let index = range_position(known, base, bytes.len);
                &&& final(self).memory@ == (if index < known.len() {
                    known
                } else {
                    known.push(ProcessMemoryRegion { base, bytes })
                })
                &&& final(adapter)@ == (SpaceModel {
                    windows: old(adapter)@.windows.push(final(self).memory@[index].window()),
                    ..old(adapter)@
                })
            }),
            *final(self) == (ProcessContext { memory: final(self).memory, ..*old(self) }),
            ranges_disjoint(old(self).memory@) ==> ranges_disjoint(final(self).memory@),
    {
        let index: usize = find_range(&self.memory, base, bytes.len);
        if index == self.memory.len() {
            self.memory.push(ProcessMemoryRegion { base, bytes });
        }
        let region = &self.memory[index];
        adapter.add_shared_region(region.base, region.bytes.shared_handle());
    }

    /// The owned ranges of guest memory.
    pub fn memory_ranges(&self) -> (ranges: Vec<(u32, usize)>)
        ensures
            ranges@ == Seq::new(
                self.memory@.len(),
                |i: int| (self.memory@[i].base, self.memory@[i].bytes.len),
            ),
    {
        let mut ranges: Vec<(u32, usize)> = Vec::new();
        let count: usize = self.memory.len();
        let mut i: usize = 0;
        while i < count
            invariant
                i <= count,
                count == self.memory@.len(),
                ranges@ == Seq::new(
                    i as nat,
                    |j: int| (self.memory@[j].base, self.memory@[j].bytes.len),
                ),
            decreases count - i,
        {
            ranges.push((self.memory[i].base, self.memory[i].bytes.len));
            i += 1;
            assert(ranges@ =~= Seq::new(
                i as nat,
                |j: int| (self.memory@[j].base, self.memory@[j].bytes.len),
            ));
        }
        ranges
    }

    /// Whether a prepared fragment state can be installed: one of the two has
    /// nothing to keep.
    pub fn can_install_cfm_seed(&self, seed: &Option<CfmState>) -> (can: bool)
        ensures
            can == match *seed {
                Some(state) => self.cfm.pristine() || state.pristine(),
                None => false,
            },
    {
        match seed {
            Some(state) => self.cfm.is_pristine() || state.is_pristine(),
            None => false,
        }
    }

    /// Install a prepared fragment state; a refused one stays where it is.
    pub fn install_cfm_seed(&mut self, seed: &mut Option<CfmState>) -> (installed: bool)
        ensures
            installed == match *old(seed) {
                Some(state) => old(self).cfm.pristine() || state.pristine(),
                None => false,
            },
            !installed ==> *final(seed) == *old(seed) && *final(self) == *old(self),
            installed ==> *final(seed) is None && *final(self) == (ProcessContext {
                cfm: if old(self).cfm.pristine() {
                    (*old(seed))->0
                } else {
                    old(self).cfm
                },
                ..*old(self)
            }),
    {
        if !self.can_install_cfm_seed(seed) {
            return false;
        }
        let taken = seed.take();
        match taken {
            Some(state) => {
                if self.cfm.is_pristine() {
                    self.cfm = state;
                }
            },
            None => {},
        }
        true
    }

    /// Forget the fragments of an earlier launch.
    pub fn reset_cfm_for_launch(&mut self)
        ensures
            final(self).cfm.pristine(),
            *final(self) == (ProcessContext { cfm: final(self).cfm, ..*old(self) }),
    {
        self.cfm = CfmState::new();
    }

    /// Forget the Apple events of an earlier launch.
    pub fn reset_apple_event_launch_state_for_launch(
        &self,
        cells: &mut ProcessCells,
        high_level_event_aware: bool,
    )
        requires
            self.valid(old(cells)),
        ensures
            final(cells).launch_states@ == old(cells).launch_states@.update(
                self.apple_event_launch_state.id(),
                (ProcessAppleEventLaunchState {
                    high_level_event_aware,
                    open_application_event_sent: false,
                    open_application_event_delivered: false,
                    outstanding_open_application_event: false,
                }),
            ),
            *final(cells) == (ProcessCells {
                launch_states: final(cells).launch_states,
                ..*old(cells)
            }),
    {
        self.apple_event_launch_state.reset_for_launch(
            &mut cells.launch_states,
            high_level_event_aware,
        );
    }
}

proof fn lemma_range_position(regions: Seq<ProcessMemoryRegion>, base: u32, len: usize, at: int)
    requires
        0 <= at <= regions.len(),
        at < regions.len() ==> regions[at].base == base && regions[at].bytes.len == len,
        forall|i: int|
            0 <= i < at ==> !((#[trigger] regions[i]).base == base && regions[i].bytes.len == len),
    ensures
        range_position(regions, base, len) == at,
    decreases regions.len(),
{
    if at > 0 {
        let rest = regions.skip(1);
        assert(regions[0] == regions[0]);
        assert forall|i: int| 0 <= i < at - 1 implies !((#[trigger] rest[i]).base == base
            && rest[i].bytes.len == len) by {
            assert(rest[i] == regions[i + 1]);
        }
        if at < regions.len() {
            assert(rest[at - 1] == regions[at]);
        }
        lemma_range_position(rest, base, len, at - 1);
    }
}

fn find_range(regions: &Vec<ProcessMemoryRegion>, base: u32, len: usize) -> (position: usize)
    ensures
        position == range_position(regions@, base, len),
        position <= regions@.len(),
{
    let count: usize = regions.len();
    let mut i: usize = 0;
    while i < count
        invariant
            i <= count,
            count == regions@.len(),
            forall|j: int|
                0 <= j < i ==> !((#[trigger] regions@[j]).base == base && regions@[j].bytes.len == len),
        decreases count - i,
    {
        if regions[i].base == base && regions[i].bytes.len == len {
            proof {
                lemma_range_position(regions@, base, len, i as int);
            }
            return i;
        }
        i += 1;
    }
    proof {
        lemma_range_position(regions@, base, len, count as int);
    }
    count
}

/// A range that meets a region and is not that region is refused; a range that
/// meets none, or that is a region, is not.
pub proof fn overlapping_range_is_refused(
    regions: Seq<ProcessMemoryRegion>,
    base: u32,
    len: usize,
    i: int,
    address: int,
)
    requires
        0 <= i < regions.len(),
        base + len <= u64::MAX,
        regions[i].base + regions[i].bytes.len <= u64::MAX,
    ensures
        regions[i].base <= address < regions[i].base + regions[i].bytes.len && base <= address < base
            + len && (forall|k: int|
            0 <= k < regions.len() ==> (#[trigger] regions[k]).base != base || regions[k].bytes.len
                != len) ==> !range_fits(regions, base, len),
        regions[i].base == base && regions[i].bytes.len == len ==> range_fits(regions, base, len),
        (forall|k: int|
            0 <= k < regions.len() ==> base + len <= (#[trigger] regions[k]).base || regions[k].base
                + regions[k].bytes.len <= base) ==> range_fits(regions, base, len),
{
    if forall|k: int|
        0 <= k < regions.len() ==> (#[trigger] regions[k]).base != base || regions[k].bytes.len
            != len {
        lemma_range_position(regions, base, len, regions.len() as int);
        if range_fits(regions, base, len) {
            assert(ranges_apart(regions[i], base, len));
        }
    }
    if regions[i].base == base && regions[i].bytes.len == len {
        lemma_position_of_known(regions, base, len, i);
    }
    if forall|k: int|
        0 <= k < regions.len() ==> base + len <= (#[trigger] regions[k]).base || regions[k].base
            + regions[k].bytes.len <= base {
        assert forall|k: int| 0 <= k < regions.len() implies ranges_apart(
            #[trigger] regions[k],
            base,
            len,
        ) by {}
    }
}

proof fn lemma_position_of_known(
    regions: Seq<ProcessMemoryRegion>,
    base: u32,
    len: usize,
    i: int,
)
    requires
        0 <= i < regions.len(),
        regions[i].base == base,
        regions[i].bytes.len == len,
    ensures
        0 <= range_position(regions, base, len) <= i,
    decreases regions.len(),
{
    if regions[0].base != base || regions[0].bytes.len != len {
        let rest = regions.skip(1);
        assert(rest[i - 1] == regions[i]);
        lemma_position_of_known(rest, base, len, i - 1);
    }
}

/// A context whose clock runs, or that has memory, an open file, a waiting
/// event or a block of memory, is in use.
pub proof fn used_context_is_not_unused(
    context: ProcessContext,
    cells: ProcessCells,
    defaults: ProcessDefaults,
    handle: u32,
)
    ensures
        context.tick_state.tick(&cells.ticks) != 0 ==> !context.unused(&cells, defaults),
        context.memory@.len() > 0 ==> !context.unused(&cells, defaults),
        context.event_queue.events(&cells.event_queues).len() > 0 ==> !context.unused(
            &cells,
            defaults,
        ),
        context.pending_native_menu_selection.pending(&cells.menu_selections) is Some
            ==> !context.unused(&cells, defaults),
        context.file_system.state(&cells.file_systems).files.records(&cells.files.open_files).len()
            > 0 ==> !context.unused(&cells, defaults),
        context.memory_manager.model(&cells.managers, &cells.memory).records.len() > 0
            ==> !context.unused(&cells, defaults),
        context.memory_manager.model(&cells.managers, &cells.memory).states.dom().contains(handle)
            ==> !context.unused(&cells, defaults),
        context.display_gamma.state(&cells.gammas).explicit ==> !context.unused(&cells, defaults),
        context.cursor_state.state(&cells.cursors).level != 0 ==> !context.unused(&cells, defaults),
{
}

} // verus!
