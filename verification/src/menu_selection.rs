//! The menu item that a user chose in a native menu and that no adapter has
//! taken yet.

use crate::cells::{CellDefault, CellValue, SharedCells, SharedProcessValue};
use vstd::prelude::*;

verus! {

/// A menu and an item of it, where one is pending.
#[derive(Clone, Copy, Debug, PartialEq, Eq)]
pub struct NativeMenuSelection {
    pub selection: Option<(i16, i16)>,
}

impl CellDefault for NativeMenuSelection {
    open spec fn is_default(&self) -> bool {
        self.selection is None
    }

    fn default_value() -> (value: Self) {
        NativeMenuSelection { selection: None }
    }
}

impl CellValue for NativeMenuSelection {
    open spec fn same(&self, other: &Self) -> bool {
        self == other
    }

    fn copy_value(&self) -> (copy: Self) {
        NativeMenuSelection { selection: self.selection }
    }
}

/// The pending menu selection of a process.
pub struct SharedNativeMenuSelection {
    pub cell: SharedProcessValue<NativeMenuSelection>,
}

impl SharedNativeMenuSelection {
    pub open spec fn id(&self) -> int {
        self.cell.id()
    }

    /// The handle names a cell of the store.
    pub open spec fn valid(&self, cells: &SharedCells<NativeMenuSelection>) -> bool {
        self.cell.valid(cells@)
    }

    /// What the cell holds.
    pub open spec fn value(&self, cells: &SharedCells<NativeMenuSelection>) -> NativeMenuSelection {
        cells@[self.cell.id()]
    }

    /// The selection that nobody took yet.
    pub open spec fn pending(&self, cells: &SharedCells<NativeMenuSelection>) -> Option<(i16, i16)> {
        self.value(cells).selection
    }

    /// A value that an attachment may replace.
    pub open spec fn pristine(value: NativeMenuSelection) -> bool {
        value.selection is None
    }

    pub fn from_value(cells: &mut SharedCells<NativeMenuSelection>, value: NativeMenuSelection) -> (handle: Self)
        ensures
            handle.id() == old(cells)@.len(),
            final(cells)@ == old(cells)@.push(value),
    {
        SharedNativeMenuSelection { cell: cells.allocate(value) }
    }

    /// A handle to a cell of its own, with nothing pending.
    pub fn new(cells: &mut SharedCells<NativeMenuSelection>) -> (handle: Self)
        ensures
            handle.id() == old(cells)@.len(),
            crate::cells::cells_extend(old(cells)@, final(cells)@),
            final(cells)@.len() == old(cells)@.len() + 1,
            handle.pending(final(cells)) is None,
    {
        SharedNativeMenuSelection { cell: cells.allocate(NativeMenuSelection { selection: None }) }
    }

    /// Another handle to the same cell.
    pub fn shared_handle(&self) -> (handle: Self)
        ensures
            handle.id() == self.id(),
    {
        SharedNativeMenuSelection { cell: self.cell.shared_handle() }
    }

    /// Whether two handles name one cell.
    pub fn ptr_eq(&self, other: &Self) -> (same: bool)
        ensures
            same == (self.id() == other.id()),
    {
        self.cell.ptr_eq(&other.cell)
    }

    /// A copy in a cell of its own.
    pub fn detached_clone(&self, cells: &mut SharedCells<NativeMenuSelection>) -> (copy: Self)
        requires
            self.valid(old(cells)),
        ensures
            copy.id() == old(cells)@.len(),
            crate::cells::cells_extend(old(cells)@, final(cells)@),
            final(cells)@.len() == old(cells)@.len() + 1,
            self.value(old(cells)).same(&final(cells)@[copy.id()]),
    {
        SharedNativeMenuSelection { cell: self.cell.detached_clone(cells) }
    }

    /// Share the process's cell, which takes this one's contents over where
    /// it has none. At most one of the two may have a pending selection.
    pub fn attach_to(&mut self, cells: &mut SharedCells<NativeMenuSelection>, process_state: &Self)
        requires
            old(self).valid(old(cells)),
            process_state.valid(old(cells)),
            crate::cells::attachable(
                old(cells)@,
                old(self).id(),
                process_state.id(),
                |value: NativeMenuSelection| SharedNativeMenuSelection::pristine(value),
            ),
        ensures
            final(self).id() == process_state.id(),
            crate::cells::joined(
                old(cells)@,
                final(cells)@,
                old(self).id(),
                process_state.id(),
                process_state.pending(old(cells)) is None,
            ),
    {
        let is_pristine = |value: &NativeMenuSelection| -> (pristine: bool)
            ensures
                pristine == SharedNativeMenuSelection::pristine(*value),
            { value.selection.is_none() };
        self.cell.attach_to(cells, &process_state.cell, is_pristine);
    }

    pub fn is_pristine(&self, cells: &SharedCells<NativeMenuSelection>) -> (pristine: bool)
        requires
            self.valid(cells),
        ensures
            pristine == SharedNativeMenuSelection::pristine(self.value(cells)),
    {
        let value = cells.get(&self.cell);
        value.selection.is_none()
    }
}

impl SharedNativeMenuSelection {
    /// Whether nothing is pending.
    pub fn is_none(&self, cells: &SharedCells<NativeMenuSelection>) -> (none: bool)
        requires
            self.valid(cells),
        ensures
            none == (self.pending(cells) is None),
    {
        cells.get(&self.cell).selection.is_none()
    }

    /// Make a selection pending. One that is pending already stays, and the
    /// new one is refused.
    pub fn stage(&self, cells: &mut SharedCells<NativeMenuSelection>, selection: (i16, i16)) -> (
    staged: bool)
        requires
            self.valid(old(cells)),
        ensures
            staged == (self.pending(old(cells)) is None),
            crate::cells::only_cell_changed(old(cells)@, final(cells)@, self.id()),
            self.pending(final(cells)) == (if staged {
                Some(selection)
            } else {
                self.pending(old(cells))
            }),
    {
        if cells.get(&self.cell).selection.is_some() {
            return false;
        }
        cells.get_mut(&self.cell).selection = Some(selection);
        true
    }

    /// Take the pending selection.
    pub fn take(&self, cells: &mut SharedCells<NativeMenuSelection>) -> (taken: Option<(i16, i16)>)
        requires
            self.valid(old(cells)),
        ensures
            taken == self.pending(old(cells)),
            crate::cells::only_cell_changed(old(cells)@, final(cells)@, self.id()),
            self.pending(final(cells)) is None,
    {
        let taken = cells.get(&self.cell).selection;
        cells.get_mut(&self.cell).selection = None;
        taken
    }
}

/// No pending selection is lost and none is invented where an adapter joins
/// its process: the process has afterwards the one that either of them had.
pub proof fn joined_selection_is_kept(
    before: &SharedCells<NativeMenuSelection>,
    after: &SharedCells<NativeMenuSelection>,
    adapter: SharedNativeMenuSelection,
    process: SharedNativeMenuSelection,
)
    requires
        adapter.valid(before),
        process.valid(before),
        crate::cells::attachable(
            before@,
            adapter.id(),
            process.id(),
            |value: NativeMenuSelection| SharedNativeMenuSelection::pristine(value),
        ),
        crate::cells::joined(
            before@,
            after@,
            adapter.id(),
            process.id(),
            process.pending(before) is None,
        ),
    ensures
        process.pending(after) == (if process.pending(before) is Some {
            process.pending(before)
        } else {
            adapter.pending(before)
        }),
        adapter.id() != process.id() ==> adapter.pending(after) is None,
{
}

} // verus!
