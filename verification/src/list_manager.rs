//! List Manager records that the adapters of a process share.

use crate::assoc::{AssocMap, KeySet};
use crate::cells::{CellDefault, CellValue, SharedCells, SharedProcessValue};
use vstd::prelude::*;

verus! {

/// A cell of a list: its row and its column.
pub type ListCell = (i16, i16);

/// One list of a process.
pub struct ProcessListRecord {
    pub handle: u32,
    pub cells_handle: u32,
    pub view_rect: (i16, i16, i16, i16),
    pub data_bounds: (i16, i16, i16, i16),
    pub cell_size: (i16, i16),
    pub visible: (i16, i16, i16, i16),
    pub port: u32,
    pub draw_enabled: bool,
    pub active: bool,
    pub cells: AssocMap<ListCell, Vec<u8>>,
    pub selected: KeySet<ListCell>,
    pub last_click: ListCell,
    pub last_click_tick: u32,
}

impl CellDefault for ProcessListRecord {
    open spec fn is_default(&self) -> bool {
        &&& self.handle == 0
        &&& self.cells_handle == 0
        &&& self.view_rect == (0i16, 0i16, 0i16, 0i16)
        &&& self.data_bounds == (0i16, 0i16, 0i16, 0i16)
        &&& self.cell_size == (0i16, 0i16)
        &&& self.visible == (0i16, 0i16, 0i16, 0i16)
        &&& self.port == 0
        &&& !self.draw_enabled
        &&& !self.active
        &&& self.cells.is_default()
        &&& self.selected@ == Set::<ListCell>::empty()
        &&& self.last_click == (0i16, 0i16)
        &&& self.last_click_tick == 0
    }

    fn default_value() -> (value: Self) {
        ProcessListRecord {
            handle: 0,
            cells_handle: 0,
            view_rect: (0, 0, 0, 0),
            data_bounds: (0, 0, 0, 0),
            cell_size: (0, 0),
            visible: (0, 0, 0, 0),
            port: 0,
            draw_enabled: false,
            active: false,
            cells: AssocMap::new(),
            selected: KeySet::new(),
            last_click: (0, 0),
            last_click_tick: 0,
        }
    }
}

impl CellValue for ProcessListRecord {
    open spec fn same(&self, other: &Self) -> bool {
        &&& self.cells.same(&other.cells)
        &&& self.selected@ == other.selected@
        &&& *other == (ProcessListRecord { cells: other.cells, selected: other.selected, ..*self })
    }

    fn copy_value(&self) -> (copy: Self) {
        ProcessListRecord {
            handle: self.handle,
            cells_handle: self.cells_handle,
            view_rect: self.view_rect,
            data_bounds: self.data_bounds,
            cell_size: self.cell_size,
            visible: self.visible,
            port: self.port,
            draw_enabled: self.draw_enabled,
            active: self.active,
            cells: self.cells.copy_value(),
            selected: self.selected.copy_set(),
            last_click: self.last_click,
            last_click_tick: self.last_click_tick,
        }
    }
}

/// The lists of one process by their handles.
pub type ProcessListManagerState = AssocMap<u32, ProcessListRecord>;

/// The lists of a process.
pub struct SharedProcessListManager {
    pub cell: SharedProcessValue<ProcessListManagerState>,
}

impl SharedProcessListManager {
    pub open spec fn id(&self) -> int {
        self.cell.id()
    }

    /// The handle names a cell of the store.
    pub open spec fn valid(&self, cells: &SharedCells<ProcessListManagerState>) -> bool {
        self.cell.valid(cells@)
    }

    /// What the cell holds.
    pub open spec fn value(&self, cells: &SharedCells<ProcessListManagerState>) -> ProcessListManagerState {
        cells@[self.cell.id()]
    }

    /// A value that an attachment may replace.
    pub open spec fn pristine(value: ProcessListManagerState) -> bool {
        value@ == Map::<u32, ProcessListRecord>::empty()
    }

    pub fn from_value(cells: &mut SharedCells<ProcessListManagerState>, value: ProcessListManagerState) -> (handle: Self)
        ensures
            handle.id() == old(cells)@.len(),
            final(cells)@ == old(cells)@.push(value),
    {
        SharedProcessListManager { cell: cells.allocate(value) }
    }

    /// A handle to an empty table of its own.
    pub fn new(cells: &mut SharedCells<ProcessListManagerState>) -> (handle: Self)
        ensures
            handle.id() == old(cells)@.len(),
            crate::cells::cells_extend(old(cells)@, final(cells)@),
            final(cells)@.len() == old(cells)@.len() + 1,
            handle.lists(final(cells)) == Map::<u32, ProcessListRecord>::empty(),
    {
        SharedProcessListManager { cell: cells.allocate(AssocMap::new()) }
    }

    /// Another handle to the same cell.
    pub fn shared_handle(&self) -> (handle: Self)
        ensures
            handle.id() == self.id(),
    {
        SharedProcessListManager { cell: self.cell.shared_handle() }
    }

    /// Whether two handles name one cell.
    pub fn ptr_eq(&self, other: &Self) -> (same: bool)
        ensures
            same == (self.id() == other.id()),
    {
        self.cell.ptr_eq(&other.cell)
    }

    /// A copy in a cell of its own.
    pub fn detached_clone(&self, cells: &mut SharedCells<ProcessListManagerState>) -> (copy: Self)
        requires
            self.valid(old(cells)),
        ensures
            copy.id() == old(cells)@.len(),
            crate::cells::cells_extend(old(cells)@, final(cells)@),
            final(cells)@.len() == old(cells)@.len() + 1,
            self.value(old(cells)).same(&final(cells)@[copy.id()]),
    {
        SharedProcessListManager { cell: self.cell.detached_clone(cells) }
    }

    /// Share the process's cell, which takes this one's contents over where
    /// it has none. At most one of the two may have contents.
    pub fn attach_to(&mut self, cells: &mut SharedCells<ProcessListManagerState>, process_state: &Self)
        requires
            old(self).valid(old(cells)),
            process_state.valid(old(cells)),
            crate::cells::attachable(
                old(cells)@,
                old(self).id(),
                process_state.id(),
                |value: ProcessListManagerState| SharedProcessListManager::pristine(value),
            ),
        ensures
            final(self).id() == process_state.id(),
            crate::cells::joined(
                old(cells)@,
                final(cells)@,
                old(self).id(),
                process_state.id(),
                SharedProcessListManager::pristine(process_state.value(old(cells))),
            ),
    {
        let is_pristine = |value: &ProcessListManagerState| -> (pristine: bool)
            ensures
                pristine == SharedProcessListManager::pristine(*value),
            { value.is_empty() };
        self.cell.attach_to(cells, &process_state.cell, is_pristine);
    }

    pub fn is_pristine(&self, cells: &SharedCells<ProcessListManagerState>) -> (pristine: bool)
        requires
            self.valid(cells),
        ensures
            pristine == SharedProcessListManager::pristine(self.value(cells)),
    {
        let value = cells.get(&self.cell);
        value.is_empty()
    }
}

impl SharedProcessListManager {
    /// The lists by their handles.
    pub open spec fn lists(&self, cells: &SharedCells<ProcessListManagerState>) -> Map<u32, ProcessListRecord> {
        self.value(cells)@
    }

    /// Record a list in place of the one with the same handle.
    pub fn insert_record(
        &self,
        cells: &mut SharedCells<ProcessListManagerState>,
        handle: u32,
        record: ProcessListRecord,
    )
        requires
            self.valid(old(cells)),
        ensures
            crate::cells::only_cell_changed(old(cells)@, final(cells)@, self.id()),
            self.lists(final(cells)) == self.lists(old(cells)).insert(handle, record),
    {
        let _ = cells.get_mut(&self.cell).insert(handle, record);
    }

    /// Remove a list; the result is its record.
    pub fn remove_record(&self, cells: &mut SharedCells<ProcessListManagerState>, handle: u32) -> (
    record: Option<ProcessListRecord>)
        requires
            self.valid(old(cells)),
        ensures
            crate::cells::only_cell_changed(old(cells)@, final(cells)@, self.id()),
            self.lists(final(cells)) == self.lists(old(cells)).remove(handle),
            match record {
                Some(record) => self.lists(old(cells)).dom().contains(handle) && record
                    == self.lists(old(cells))[handle],
                None => !self.lists(old(cells)).dom().contains(handle),
            },
    {
        cells.get_mut(&self.cell).remove(&handle)
    }

    /// Change the record of a list, where there is one, during one operation.
    pub fn with_record_mut<R>(
        &self,
        cells: &mut SharedCells<ProcessListManagerState>,
        handle: u32,
        update: impl FnOnce(&mut ProcessListRecord) -> R,
    ) -> (result: Option<R>)
        requires
            self.valid(old(cells)),
            self.lists(old(cells)).dom().contains(handle) ==> forall|record: &mut ProcessListRecord|
                *record == self.lists(old(cells))[handle] ==> call_requires(update, (record,)),
        ensures
            crate::cells::only_cell_changed(old(cells)@, final(cells)@, self.id()),
            !self.lists(old(cells)).dom().contains(handle) ==> result is None && self.lists(
                final(cells),
            ) == self.lists(old(cells)),
            self.lists(old(cells)).dom().contains(handle) ==> result is Some && exists|
                record: &mut ProcessListRecord,
            |
                #![trigger call_ensures(update, (record,), result->0)]
                *record == self.lists(old(cells))[handle] && call_ensures(
                    update,
                    (record,),
                    result->0,
                ) && self.lists(final(cells)) == self.lists(old(cells)).insert(
                    handle,
                    *final(record),
                ),
    {
        let ghost before = self.lists(cells);
        let table = cells.get_mut(&self.cell);
        match table.remove(&handle) {
            Some(known) => {
                let mut record = known;
                let outcome = update(&mut record);
                let _ = table.insert(handle, record);
                assert(before.remove(handle).insert(handle, record) =~= before.insert(
                    handle,
                    record,
                ));
                let result = Some(outcome);
                assert(result->0 == outcome);
                result
            },
            None => {
                assert(before.remove(handle) =~= before);
                None
            },
        }
    }

    /// Read the record of a list, where there is one, during one operation.
    pub fn with_record_ref<R>(
        &self,
        cells: &SharedCells<ProcessListManagerState>,
        handle: u32,
        read: impl FnOnce(&ProcessListRecord) -> R,
    ) -> (result: Option<R>)
        requires
            self.valid(cells),
            self.lists(cells).dom().contains(handle) ==> call_requires(
                read,
                (&self.lists(cells)[handle],),
            ),
        ensures
            match result {
                Some(outcome) => self.lists(cells).dom().contains(handle) && call_ensures(
                    read,
                    (&self.lists(cells)[handle],),
                    outcome,
                ),
                None => !self.lists(cells).dom().contains(handle),
            },
    {
        match cells.get(&self.cell).get(&handle) {
            Some(record) => Some(read(record)),
            None => None,
        }
    }

    /// A copy of the record of a list.
    pub fn get_record(&self, cells: &SharedCells<ProcessListManagerState>, handle: u32) -> (record: Option<
        ProcessListRecord,
    >)
        requires
            self.valid(cells),
        ensures
            match record {
                Some(record) => self.lists(cells).dom().contains(handle) && self.lists(
                    cells,
                )[handle].same(&record),
                None => !self.lists(cells).dom().contains(handle),
            },
    {
        match cells.get(&self.cell).get(&handle) {
            Some(record) => Some(record.copy_value()),
            None => None,
        }
    }

    pub fn contains_handle(&self, cells: &SharedCells<ProcessListManagerState>, handle: u32) -> (result: bool)
        requires
            self.valid(cells),
        ensures
            result == self.lists(cells).dom().contains(handle),
    {
        cells.get(&self.cell).contains_key(&handle)
    }

    pub fn len(&self, cells: &SharedCells<ProcessListManagerState>) -> (result: usize)
        requires
            self.valid(cells),
        ensures
            result == self.lists(cells).dom().len(),
    {
        cells.get(&self.cell).len()
    }

    pub fn is_empty(&self, cells: &SharedCells<ProcessListManagerState>) -> (result: bool)
        requires
            self.valid(cells),
        ensures
            result == (self.lists(cells) == Map::<u32, ProcessListRecord>::empty()),
    {
        cells.get(&self.cell).is_empty()
    }

    pub fn clear(&self, cells: &mut SharedCells<ProcessListManagerState>)
        requires
            self.valid(old(cells)),
        ensures
            crate::cells::only_cell_changed(old(cells)@, final(cells)@, self.id()),
            self.lists(final(cells)) == Map::<u32, ProcessListRecord>::empty(),
    {
        cells.get_mut(&self.cell).clear();
    }

}

} // verus!
