//! Guest calls in progress and the menu that is being used, which the
//! adapters of a process share.

use crate::cells::{CellDefault, CellValue, SharedCells, SharedProcessValue};
use crate::tasks::CallbackTaskArchitecture;
use vstd::prelude::*;

verus! {

/// The code that a guest call enters.
#[derive(Clone, Copy, Debug, PartialEq, Eq)]
pub struct GuestCallTarget {
    pub architecture: CallbackTaskArchitecture,
    pub entry: u32,
    pub rtoc: u32,
}

/// A guest call that has not returned.
#[derive(Clone, Copy, Debug, PartialEq, Eq)]
pub struct GuestCall {
    pub target: GuestCallTarget,
    pub return_address: u32,
    pub stack_pointer: u32,
}

/// The menu that the user holds open.
#[derive(Clone, Copy, Debug, PartialEq, Eq)]
pub struct ProcessMenuTrackingState {
    pub menu_handle: u32,
    pub highlighted_item: i16,
    pub flash_tick: Option<u32>,
}

/// The calls of one process and the menu that they belong to.
pub struct GuestExecutionState {
    pub calls: Vec<GuestCall>,
    pub menu: Option<ProcessMenuTrackingState>,
}

impl GuestExecutionState {
    /// No call is in progress and no menu is open.
    pub open spec fn pristine(&self) -> bool {
        self.calls@.len() == 0 && self.menu is None
    }

    pub fn new() -> (state: Self)
        ensures
            state.pristine(),
    {
        GuestExecutionState { calls: Vec::new(), menu: None }
    }

    pub fn is_pristine(&self) -> (pristine: bool)
        ensures
            pristine == self.pristine(),
    {
        self.calls.len() == 0 && self.menu.is_none()
    }
}

impl CellDefault for GuestExecutionState {
    open spec fn is_default(&self) -> bool {
        self.pristine()
    }

    fn default_value() -> (value: Self) {
        GuestExecutionState::new()
    }
}

impl CellValue for GuestExecutionState {
    open spec fn same(&self, other: &Self) -> bool {
        self.calls@ == other.calls@ && self.menu == other.menu
    }

    fn copy_value(&self) -> (copy: Self) {
        let mut calls: Vec<GuestCall> = Vec::new();
        let count: usize = self.calls.len();
        let mut i: usize = 0;
        while i < count
            invariant
                i <= count,
                count == self.calls@.len(),
                calls@ == self.calls@.take(i as int),
            decreases count - i,
        {
            assert(self.calls@.take(i + 1) =~= self.calls@.take(i as int).push(self.calls@[i as int]));
            calls.push(self.calls[i]);
            i += 1;
        }
        assert(self.calls@.take(count as int) =~= self.calls@);
        GuestExecutionState { calls, menu: self.menu }
    }
}

/// The calls of a process.
pub struct SharedGuestCallStack {
    pub cell: SharedProcessValue<GuestExecutionState>,
}

impl SharedGuestCallStack {
    pub open spec fn id(&self) -> int {
        self.cell.id()
    }

    /// The handle names a cell of the store.
    pub open spec fn valid(&self, cells: &SharedCells<GuestExecutionState>) -> bool {
        self.cell.valid(cells@)
    }

    /// What the cell holds.
    pub open spec fn value(&self, cells: &SharedCells<GuestExecutionState>) -> GuestExecutionState {
        cells@[self.cell.id()]
    }

    /// A value that an attachment may replace.
    pub open spec fn pristine(value: GuestExecutionState) -> bool {
        value.pristine()
    }

    pub fn from_value(cells: &mut SharedCells<GuestExecutionState>, value: GuestExecutionState) -> (handle: Self)
        ensures
            handle.id() == old(cells)@.len(),
            final(cells)@ == old(cells)@.push(value),
    {
        SharedGuestCallStack { cell: cells.allocate(value) }
    }

    /// A handle to an idle state of its own.
    pub fn new(cells: &mut SharedCells<GuestExecutionState>) -> (handle: Self)
        ensures
            handle.id() == old(cells)@.len(),
            crate::cells::cells_extend(old(cells)@, final(cells)@),
            final(cells)@.len() == old(cells)@.len() + 1,
            handle.value(final(cells)).pristine(),
    {
        SharedGuestCallStack { cell: cells.allocate(GuestExecutionState::new()) }
    }

    /// Another handle to the same cell.
    pub fn shared_handle(&self) -> (handle: Self)
        ensures
            handle.id() == self.id(),
    {
        SharedGuestCallStack { cell: self.cell.shared_handle() }
    }

    /// Whether two handles name one cell.
    pub fn ptr_eq(&self, other: &Self) -> (same: bool)
        ensures
            same == (self.id() == other.id()),
    {
        self.cell.ptr_eq(&other.cell)
    }

    /// A copy in a cell of its own.
    pub fn detached_clone(&self, cells: &mut SharedCells<GuestExecutionState>) -> (copy: Self)
        requires
            self.valid(old(cells)),
        ensures
            copy.id() == old(cells)@.len(),
            crate::cells::cells_extend(old(cells)@, final(cells)@),
            final(cells)@.len() == old(cells)@.len() + 1,
            self.value(old(cells)).same(&final(cells)@[copy.id()]),
    {
        SharedGuestCallStack { cell: self.cell.detached_clone(cells) }
    }

    /// Share the process's cell, which takes this one's contents over where
    /// it has none. At most one of the two may have contents.
    pub fn attach_to(&mut self, cells: &mut SharedCells<GuestExecutionState>, process_state: &Self)
        requires
            old(self).valid(old(cells)),
            process_state.valid(old(cells)),
            crate::cells::attachable(
                old(cells)@,
                old(self).id(),
                process_state.id(),
                |value: GuestExecutionState| SharedGuestCallStack::pristine(value),
            ),
        ensures
            final(self).id() == process_state.id(),
            crate::cells::joined(
                old(cells)@,
                final(cells)@,
                old(self).id(),
                process_state.id(),
                SharedGuestCallStack::pristine(process_state.value(old(cells))),
            ),
    {
        let is_pristine = |value: &GuestExecutionState| -> (pristine: bool)
            ensures
                pristine == SharedGuestCallStack::pristine(*value),
            { value.is_pristine() };
        self.cell.attach_to(cells, &process_state.cell, is_pristine);
    }

    pub fn is_pristine(&self, cells: &SharedCells<GuestExecutionState>) -> (pristine: bool)
        requires
            self.valid(cells),
        ensures
            pristine == SharedGuestCallStack::pristine(self.value(cells)),
    {
        let value = cells.get(&self.cell);
        value.is_pristine()
    }
}

impl SharedGuestCallStack {
    /// How deep the calls are nested.
    pub fn len(&self, cells: &SharedCells<GuestExecutionState>) -> (result: usize)
        requires
            self.valid(cells),
        ensures
            result == self.value(cells).calls@.len(),
    {
        cells.get(&self.cell).calls.len()
    }

    pub fn is_empty(&self, cells: &SharedCells<GuestExecutionState>) -> (result: bool)
        requires
            self.valid(cells),
        ensures
            result == (self.value(cells).calls@.len() == 0),
    {
        cells.get(&self.cell).calls.len() == 0
    }

    /// Note a call that begins.
    pub fn begin_call(&self, cells: &mut SharedCells<GuestExecutionState>, target: GuestCallTarget, return_address: u32, stack_pointer: u32)
        requires
            self.valid(old(cells)),
        ensures
            crate::cells::only_cell_changed(old(cells)@, final(cells)@, self.id()),
            self.value(final(cells)).calls@ == self.value(old(cells)).calls@.push(
                GuestCall { target, return_address, stack_pointer },
            ),
            self.value(final(cells)).menu == self.value(old(cells)).menu,
    {
        cells.get_mut(&self.cell).calls.push(GuestCall { target, return_address, stack_pointer });
    }

    /// End the innermost call where the guest has just come back from it: it
    /// executed the two bytes at the call's return address, with the call's
    /// stack pointer.
    pub fn complete_call(&self, cells: &mut SharedCells<GuestExecutionState>, program_counter: u32, stack_pointer: u32) -> (completed: bool)
        requires
            self.valid(old(cells)),
        ensures
            completed == ({
                let calls = self.value(old(cells)).calls@;
                calls.len() > 0 && program_counter == calls.last().return_address + 2
                    && stack_pointer == calls.last().stack_pointer
            }),
            crate::cells::only_cell_changed(old(cells)@, final(cells)@, self.id()),
            self.value(final(cells)).calls@ == (if completed {
                self.value(old(cells)).calls@.drop_last()
            } else {
                self.value(old(cells)).calls@
            }),
            self.value(final(cells)).menu == self.value(old(cells)).menu,
    {
        let calls = &cells.get(&self.cell).calls;
        let count: usize = calls.len();
        if count == 0 {
            return false;
        }
        let call = calls[count - 1];
        if program_counter < 2 || program_counter - 2 != call.return_address || stack_pointer
            != call.stack_pointer {
            return false;
        }
        cells.get_mut(&self.cell).calls.pop();
        true
    }

    /// The menu that belongs to these calls.
    pub fn menu_tracking_view(&self) -> (view: SharedProcessMenuTracking)
        ensures
            view.id() == self.id(),
    {
        SharedProcessMenuTracking { cell: self.cell.shared_handle() }
    }
}

/// The menu that the user holds open, seen beside the calls of its process.
pub struct SharedProcessMenuTracking {
    pub cell: SharedProcessValue<GuestExecutionState>,
}

impl SharedProcessMenuTracking {
    pub open spec fn id(&self) -> int {
        self.cell.id()
    }

    /// The handle names a cell of the store.
    pub open spec fn valid(&self, cells: &SharedCells<GuestExecutionState>) -> bool {
        self.cell.valid(cells@)
    }

    /// The open menu.
    pub open spec fn menu(&self, cells: &SharedCells<GuestExecutionState>) -> Option<
        ProcessMenuTrackingState,
    > {
        cells@[self.cell.id()].menu
    }

    /// Whether the menu belongs to these calls.
    pub fn is_view_of(&self, calls: &SharedGuestCallStack) -> (same: bool)
        ensures
            same == (self.id() == calls.id()),
    {
        self.cell.ptr_eq(&calls.cell)
    }

    /// Whether two handles name one menu.
    pub fn ptr_eq(&self, other: &Self) -> (same: bool)
        ensures
            same == (self.id() == other.id()),
    {
        self.cell.ptr_eq(&other.cell)
    }

    /// A copy of the menu and its calls in a cell of its own.
    pub fn detached_clone(&self, cells: &mut SharedCells<GuestExecutionState>) -> (copy: Self)
        requires
            self.valid(old(cells)),
        ensures
            copy.id() == old(cells)@.len(),
            crate::cells::cells_extend(old(cells)@, final(cells)@),
            final(cells)@.len() == old(cells)@.len() + 1,
            old(cells)@[self.id()].same(&final(cells)@[copy.id()]),
    {
        SharedProcessMenuTracking { cell: self.cell.detached_clone(cells) }
    }

    pub fn is_active(&self, cells: &SharedCells<GuestExecutionState>) -> (result: bool)
        requires
            self.valid(cells),
        ensures
            result == (self.menu(cells) is Some),
    {
        cells.get(&self.cell).menu.is_some()
    }

    pub fn is_some(&self, cells: &SharedCells<GuestExecutionState>) -> (result: bool)
        requires
            self.valid(cells),
        ensures
            result == (self.menu(cells) is Some),
    {
        cells.get(&self.cell).menu.is_some()
    }

    pub fn is_none(&self, cells: &SharedCells<GuestExecutionState>) -> (result: bool)
        requires
            self.valid(cells),
        ensures
            result == (self.menu(cells) is None),
    {
        cells.get(&self.cell).menu.is_none()
    }

    pub fn snapshot(&self, cells: &SharedCells<GuestExecutionState>) -> (result: Option<ProcessMenuTrackingState>)
        requires
            self.valid(cells),
        ensures
            result == self.menu(cells),
    {
        cells.get(&self.cell).menu
    }

    pub fn menu_handle(&self, cells: &SharedCells<GuestExecutionState>) -> (result: Option<u32>)
        requires
            self.valid(cells),
        ensures
            result == (match self.menu(cells) {
                Some(menu) => Some(menu.menu_handle),
                None => None,
            }),
    {
        match cells.get(&self.cell).menu {
            Some(menu) => Some(menu.menu_handle),
            None => None,
        }
    }

    pub fn highlighted_item(&self, cells: &SharedCells<GuestExecutionState>) -> (result: Option<i16>)
        requires
            self.valid(cells),
        ensures
            result == (match self.menu(cells) {
                Some(menu) => Some(menu.highlighted_item),
                None => None,
            }),
    {
        match cells.get(&self.cell).menu {
            Some(menu) => Some(menu.highlighted_item),
            None => None,
        }
    }

    pub fn flash_tick(&self, cells: &SharedCells<GuestExecutionState>) -> (result: Option<u32>)
        requires
            self.valid(cells),
        ensures
            result == (match self.menu(cells) {
                Some(menu) => menu.flash_tick,
                None => None,
            }),
    {
        match cells.get(&self.cell).menu {
            Some(menu) => menu.flash_tick,
            None => None,
        }
    }

    pub fn set(&self, cells: &mut SharedCells<GuestExecutionState>, tracking: Option<ProcessMenuTrackingState>)
        requires
            self.valid(old(cells)),
        ensures
            crate::cells::only_cell_changed(old(cells)@, final(cells)@, self.id()),
            self.menu(final(cells)) == tracking,
            final(cells)@[self.id()].calls == old(cells)@[self.id()].calls,
    {
        cells.get_mut(&self.cell).menu = tracking;
    }

    /// Take the open menu out.
    pub fn take(&self, cells: &mut SharedCells<GuestExecutionState>) -> (result: Option<ProcessMenuTrackingState>)
        requires
            self.valid(old(cells)),
        ensures
            crate::cells::only_cell_changed(old(cells)@, final(cells)@, self.id()),
            self.menu(final(cells)) is None,
            final(cells)@[self.id()].calls == old(cells)@[self.id()].calls,
            result == self.menu(old(cells)),
    {
        let state = cells.get_mut(&self.cell);
        let menu = state.menu;
        state.menu = None;
        menu
    }

    /// Change the open menu, where there is one, during one operation.
    pub fn with_tracking_mut<R>(
        &self,
        cells: &mut SharedCells<GuestExecutionState>,
        update: impl FnOnce(&mut ProcessMenuTrackingState) -> R,
    ) -> (result: Option<R>)
        requires
            self.valid(old(cells)),
            self.menu(old(cells)) matches Some(open) ==> forall|menu: &mut ProcessMenuTrackingState|
                *menu == open ==> call_requires(update, (menu,)),
        ensures
            crate::cells::only_cell_changed(old(cells)@, final(cells)@, self.id()),
            final(cells)@[self.id()].calls == old(cells)@[self.id()].calls,
            self.menu(old(cells)) is None ==> result is None && self.menu(final(cells)) is None,
            self.menu(old(cells)) matches Some(open) ==> result is Some && exists|
                menu: &mut ProcessMenuTrackingState,
            |
                #![trigger call_ensures(update, (menu,), result->0)]
                *menu == open && call_ensures(update, (menu,), result->0) && self.menu(final(cells))
                    == Some(*final(menu)),
    {
        match cells.get(&self.cell).menu {
            Some(open) => {
                let mut menu = open;
                let outcome = update(&mut menu);
                cells.get_mut(&self.cell).menu = Some(menu);
                let result = Some(outcome);
                assert(result->0 == outcome);
                result
            },
            None => None,
        }
    }
}

/// The calls of an adapter with the menu that belongs to them.
pub struct ExecutionMenuViews {
    pub calls: SharedGuestCallStack,
    pub menu: SharedProcessMenuTracking,
}

impl ExecutionMenuViews {
    /// The menu is the one of the calls.
    pub open spec fn coherent(&self) -> bool {
        self.calls.id() == self.menu.id()
    }

    pub open spec fn valid(&self, cells: &SharedCells<GuestExecutionState>) -> bool {
        self.calls.valid(cells) && self.coherent()
    }

    /// Views of an idle state of its own.
    pub fn detached(cells: &mut SharedCells<GuestExecutionState>) -> (views: Self)
        ensures
            views.calls.id() == old(cells)@.len(),
            views.coherent(),
            crate::cells::cells_extend(old(cells)@, final(cells)@),
            final(cells)@.len() == old(cells)@.len() + 1,
            views.calls.value(final(cells)).pristine(),
    {
        let calls = SharedGuestCallStack::new(cells);
        let menu = calls.menu_tracking_view();
        ExecutionMenuViews { calls, menu }
    }

    /// Views of a process's state.
    pub fn shared_from(calls: &SharedGuestCallStack) -> (views: Self)
        ensures
            views.calls.id() == calls.id(),
            views.coherent(),
    {
        ExecutionMenuViews { calls: calls.shared_handle(), menu: calls.menu_tracking_view() }
    }

    pub fn calls(&self) -> (calls: &SharedGuestCallStack)
        ensures
            *calls == self.calls,
    {
        &self.calls
    }

    pub fn menu(&self) -> (menu: &SharedProcessMenuTracking)
        ensures
            *menu == self.menu,
    {
        &self.menu
    }

    pub fn is_coherent(&self) -> (coherent: bool)
        ensures
            coherent == self.coherent(),
    {
        self.menu.is_view_of(&self.calls)
    }

    /// Join the process's state, which takes this one's over where it is idle.
    pub fn install_process_calls(
        &mut self,
        cells: &mut SharedCells<GuestExecutionState>,
        process: &SharedGuestCallStack,
    )
        requires
            old(self).valid(old(cells)),
            process.valid(old(cells)),
            crate::cells::attachable(
                old(cells)@,
                old(self).calls.id(),
                process.id(),
                |value: GuestExecutionState| SharedGuestCallStack::pristine(value),
            ),
        ensures
            final(self).calls.id() == process.id(),
            final(self).coherent(),
            crate::cells::joined(
                old(cells)@,
                final(cells)@,
                old(self).calls.id(),
                process.id(),
                process.value(old(cells)).pristine(),
            ),
    {
        self.calls.attach_to(cells, process);
        self.menu = self.calls.menu_tracking_view();
    }
}

} // verus!
