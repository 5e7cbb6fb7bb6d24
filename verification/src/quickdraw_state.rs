//! QuickDraw state that the adapters of a process share.

use crate::assoc::AssocMap;
use crate::cells::{CellValue, SharedCells, SharedProcessValue};
use crate::text::{decimal_text, hex_text};
use vstd::prelude::*;

verus! {

/// The highlight color of a color graphics port that has not received one.
pub const DEFAULT_QUICKDRAW_HILITE_COLOR: (u16, u16, u16) = (0x0000, 0x8000, 0x0000);

/// The QuickDraw result code of a process.
pub struct SharedProcessQuickDrawError {
    pub cell: SharedProcessValue<i16>,
}

impl SharedProcessQuickDrawError {
    pub open spec fn id(&self) -> int {
        self.cell.id()
    }

    /// The handle names a cell of the store.
    pub open spec fn valid(&self, cells: &SharedCells<i16>) -> bool {
        self.cell.valid(cells@)
    }

    /// What the cell holds.
    pub open spec fn value(&self, cells: &SharedCells<i16>) -> i16 {
        cells@[self.cell.id()]
    }

    /// A value that an attachment may replace.
    pub open spec fn pristine(value: i16) -> bool {
        value == 0
    }

    pub fn from_value(cells: &mut SharedCells<i16>, value: i16) -> (handle: Self)
        ensures
            handle.id() == old(cells)@.len(),
            final(cells)@ == old(cells)@.push(value),
    {
        SharedProcessQuickDrawError { cell: cells.allocate(value) }
    }

    /// A handle to a cell of its own that holds zero.
    pub fn new(cells: &mut SharedCells<i16>) -> (handle: Self)
        ensures
            handle.id() == old(cells)@.len(),
            crate::cells::cells_extend(old(cells)@, final(cells)@),
            final(cells)@.len() == old(cells)@.len() + 1,
            handle.value(final(cells)) == 0,
    {
        SharedProcessQuickDrawError { cell: cells.allocate(0) }
    }

    /// Another handle to the same cell.
    pub fn shared_handle(&self) -> (handle: Self)
        ensures
            handle.id() == self.id(),
    {
        SharedProcessQuickDrawError { cell: self.cell.shared_handle() }
    }

    /// Whether two handles name one cell.
    pub fn ptr_eq(&self, other: &Self) -> (same: bool)
        ensures
            same == (self.id() == other.id()),
    {
        self.cell.ptr_eq(&other.cell)
    }

    /// A copy in a cell of its own.
    pub fn detached_clone(&self, cells: &mut SharedCells<i16>) -> (copy: Self)
        requires
            self.valid(old(cells)),
        ensures
            copy.id() == old(cells)@.len(),
            final(cells)@ == old(cells)@.push(self.value(old(cells))),
    {
        let value = *cells.get(&self.cell);
        SharedProcessQuickDrawError { cell: cells.allocate(value) }
    }

    /// Share the process's cell. Where only this one is no longer pristine,
    /// the process takes its value over; two such values have to agree.
    pub fn attach_copy_to(&mut self, cells: &mut SharedCells<i16>, process_state: &Self)
        requires
            old(self).valid(old(cells)),
            process_state.valid(old(cells)),
            crate::cells::copies_attachable(
                old(cells)@,
                old(self).id(),
                process_state.id(),
                |value: i16| SharedProcessQuickDrawError::pristine(value),
            ),
        ensures
            final(self).id() == process_state.id(),
            final(cells)@ == crate::cells::copies_joined(
                old(cells)@,
                old(self).id(),
                process_state.id(),
                |value: i16| SharedProcessQuickDrawError::pristine(value),
            ),
    {
        let is_pristine = |value: &i16| -> (pristine: bool)
            ensures
                pristine == SharedProcessQuickDrawError::pristine(*value),
            { *value == 0 };
        self.cell.attach_copy_to(cells, &process_state.cell, is_pristine);
    }

    pub fn is_pristine(&self, cells: &SharedCells<i16>) -> (pristine: bool)
        requires
            self.valid(cells),
        ensures
            pristine == SharedProcessQuickDrawError::pristine(self.value(cells)),
    {
        let value = cells.get(&self.cell);
        *value == 0
    }
}

impl SharedProcessQuickDrawError {
    pub fn get(&self, cells: &SharedCells<i16>) -> (result: i16)
        requires
            self.valid(cells),
        ensures
            result == self.value(cells),
    {
        *cells.get(&self.cell)
    }

    pub fn set(&self, cells: &mut SharedCells<i16>, value: i16)
        requires
            self.valid(old(cells)),
        ensures
            final(cells)@ == old(cells)@.update(self.id(), value),
    {
        cells.set(&self.cell, value);
    }

    /// Set the value; the result is the one before.
    pub fn replace(&self, cells: &mut SharedCells<i16>, value: i16) -> (result: i16)
        requires
            self.valid(old(cells)),
        ensures
            final(cells)@ == old(cells)@.update(self.id(), value),
            result == self.value(old(cells)),
    {
        self.cell.replace(cells, value)
    }

    pub fn clear(&self, cells: &mut SharedCells<i16>)
        requires
            self.valid(old(cells)),
        ensures
            final(cells)@ == old(cells)@.update(self.id(), 0),
    {
        cells.set(&self.cell, 0);
    }

    pub fn is_ok(&self, cells: &SharedCells<i16>) -> (result: bool)
        requires
            self.valid(cells),
        ensures
            result == (self.value(cells) == 0),
    {
        *cells.get(&self.cell) == 0
    }

    pub fn is_err(&self, cells: &SharedCells<i16>) -> (result: bool)
        requires
            self.valid(cells),
        ensures
            result == (self.value(cells) != 0),
    {
        *cells.get(&self.cell) != 0
    }

    /// The result code in decimal.
    pub fn to_text(&self, cells: &SharedCells<i16>) -> (text: String)
        requires
            self.valid(cells),
        ensures
            text@ == crate::text::decimal_characters(self.value(cells) as int),
    {
        decimal_text(*cells.get(&self.cell))
    }
}

/// The current graphics port of a process.
pub struct SharedProcessGraphicsPort {
    pub cell: SharedProcessValue<u32>,
}

impl SharedProcessGraphicsPort {
    pub open spec fn id(&self) -> int {
        self.cell.id()
    }

    /// The handle names a cell of the store.
    pub open spec fn valid(&self, cells: &SharedCells<u32>) -> bool {
        self.cell.valid(cells@)
    }

    /// What the cell holds.
    pub open spec fn value(&self, cells: &SharedCells<u32>) -> u32 {
        cells@[self.cell.id()]
    }

    /// A value that an attachment may replace.
    pub open spec fn pristine(value: u32) -> bool {
        value == 0
    }

    pub fn from_value(cells: &mut SharedCells<u32>, value: u32) -> (handle: Self)
        ensures
            handle.id() == old(cells)@.len(),
            final(cells)@ == old(cells)@.push(value),
    {
        SharedProcessGraphicsPort { cell: cells.allocate(value) }
    }

    /// A handle to a cell of its own that holds zero.
    pub fn new(cells: &mut SharedCells<u32>) -> (handle: Self)
        ensures
            handle.id() == old(cells)@.len(),
            crate::cells::cells_extend(old(cells)@, final(cells)@),
            final(cells)@.len() == old(cells)@.len() + 1,
            handle.value(final(cells)) == 0,
    {
        SharedProcessGraphicsPort { cell: cells.allocate(0) }
    }

    /// Another handle to the same cell.
    pub fn shared_handle(&self) -> (handle: Self)
        ensures
            handle.id() == self.id(),
    {
        SharedProcessGraphicsPort { cell: self.cell.shared_handle() }
    }

    /// Whether two handles name one cell.
    pub fn ptr_eq(&self, other: &Self) -> (same: bool)
        ensures
            same == (self.id() == other.id()),
    {
        self.cell.ptr_eq(&other.cell)
    }

    /// A copy in a cell of its own.
    pub fn detached_clone(&self, cells: &mut SharedCells<u32>) -> (copy: Self)
        requires
            self.valid(old(cells)),
        ensures
            copy.id() == old(cells)@.len(),
            final(cells)@ == old(cells)@.push(self.value(old(cells))),
    {
        let value = *cells.get(&self.cell);
        SharedProcessGraphicsPort { cell: cells.allocate(value) }
    }

    /// Share the process's cell. Where only this one is no longer pristine,
    /// the process takes its value over; two such values have to agree.
    pub fn attach_copy_to(&mut self, cells: &mut SharedCells<u32>, process_state: &Self)
        requires
            old(self).valid(old(cells)),
            process_state.valid(old(cells)),
            crate::cells::copies_attachable(
                old(cells)@,
                old(self).id(),
                process_state.id(),
                |value: u32| SharedProcessGraphicsPort::pristine(value),
            ),
        ensures
            final(self).id() == process_state.id(),
            final(cells)@ == crate::cells::copies_joined(
                old(cells)@,
                old(self).id(),
                process_state.id(),
                |value: u32| SharedProcessGraphicsPort::pristine(value),
            ),
    {
        let is_pristine = |value: &u32| -> (pristine: bool)
            ensures
                pristine == SharedProcessGraphicsPort::pristine(*value),
            { *value == 0 };
        self.cell.attach_copy_to(cells, &process_state.cell, is_pristine);
    }

    pub fn is_pristine(&self, cells: &SharedCells<u32>) -> (pristine: bool)
        requires
            self.valid(cells),
        ensures
            pristine == SharedProcessGraphicsPort::pristine(self.value(cells)),
    {
        let value = cells.get(&self.cell);
        *value == 0
    }
}

impl SharedProcessGraphicsPort {
    /// Share the process's cell, which takes this value over.
    pub fn activate_copy_to(&mut self, cells: &mut SharedCells<u32>, process_state: &Self)
        requires
            old(self).valid(old(cells)),
            process_state.valid(old(cells)),
        ensures
            final(self).id() == process_state.id(),
            final(cells)@ == old(cells)@.update(process_state.id(), old(self).value(old(cells))),
    {
        self.cell.activate_copy_to(cells, &process_state.cell);
    }

    pub fn get(&self, cells: &SharedCells<u32>) -> (result: u32)
        requires
            self.valid(cells),
        ensures
            result == self.value(cells),
    {
        *cells.get(&self.cell)
    }

    pub fn set(&self, cells: &mut SharedCells<u32>, value: u32)
        requires
            self.valid(old(cells)),
        ensures
            final(cells)@ == old(cells)@.update(self.id(), value),
    {
        cells.set(&self.cell, value);
    }

    /// Set the value; the result is the one before.
    pub fn replace(&self, cells: &mut SharedCells<u32>, value: u32) -> (result: u32)
        requires
            self.valid(old(cells)),
        ensures
            final(cells)@ == old(cells)@.update(self.id(), value),
            result == self.value(old(cells)),
    {
        self.cell.replace(cells, value)
    }

    pub fn clear(&self, cells: &mut SharedCells<u32>)
        requires
            self.valid(old(cells)),
        ensures
            final(cells)@ == old(cells)@.update(self.id(), 0),
    {
        cells.set(&self.cell, 0);
    }

    pub fn is_null(&self, cells: &SharedCells<u32>) -> (result: bool)
        requires
            self.valid(cells),
        ensures
            result == (self.value(cells) == 0),
    {
        *cells.get(&self.cell) == 0
    }

    pub fn is_valid(&self, cells: &SharedCells<u32>) -> (result: bool)
        requires
            self.valid(cells),
        ensures
            result == (self.value(cells) != 0),
    {
        *cells.get(&self.cell) != 0
    }

    pub fn snapshot(&self, cells: &SharedCells<u32>) -> (result: u32)
        requires
            self.valid(cells),
        ensures
            result == self.value(cells),
    {
        *cells.get(&self.cell)
    }

    /// The address in the form `0x00123456`.
    pub fn to_text(&self, cells: &SharedCells<u32>) -> (text: String)
        requires
            self.valid(cells),
        ensures
            text@ == seq!['0', 'x'] + crate::text::hex_characters(self.value(cells), 8),
    {
        hex_text(*cells.get(&self.cell))
    }
}

/// The current graphics device of a process.
pub struct SharedProcessGraphicsDevice {
    pub cell: SharedProcessValue<u32>,
}

impl SharedProcessGraphicsDevice {
    pub open spec fn id(&self) -> int {
        self.cell.id()
    }

    /// The handle names a cell of the store.
    pub open spec fn valid(&self, cells: &SharedCells<u32>) -> bool {
        self.cell.valid(cells@)
    }

    /// What the cell holds.
    pub open spec fn value(&self, cells: &SharedCells<u32>) -> u32 {
        cells@[self.cell.id()]
    }

    /// A value that an attachment may replace.
    pub open spec fn pristine(value: u32) -> bool {
        value == 0
    }

    pub fn from_value(cells: &mut SharedCells<u32>, value: u32) -> (handle: Self)
        ensures
            handle.id() == old(cells)@.len(),
            final(cells)@ == old(cells)@.push(value),
    {
        SharedProcessGraphicsDevice { cell: cells.allocate(value) }
    }

    /// A handle to a cell of its own that holds zero.
    pub fn new(cells: &mut SharedCells<u32>) -> (handle: Self)
        ensures
            handle.id() == old(cells)@.len(),
            crate::cells::cells_extend(old(cells)@, final(cells)@),
            final(cells)@.len() == old(cells)@.len() + 1,
            handle.value(final(cells)) == 0,
    {
        SharedProcessGraphicsDevice { cell: cells.allocate(0) }
    }

    /// Another handle to the same cell.
    pub fn shared_handle(&self) -> (handle: Self)
        ensures
            handle.id() == self.id(),
    {
        SharedProcessGraphicsDevice { cell: self.cell.shared_handle() }
    }

    /// Whether two handles name one cell.
    pub fn ptr_eq(&self, other: &Self) -> (same: bool)
        ensures
            same == (self.id() == other.id()),
    {
        self.cell.ptr_eq(&other.cell)
    }

    /// A copy in a cell of its own.
    pub fn detached_clone(&self, cells: &mut SharedCells<u32>) -> (copy: Self)
        requires
            self.valid(old(cells)),
        ensures
            copy.id() == old(cells)@.len(),
            final(cells)@ == old(cells)@.push(self.value(old(cells))),
    {
        let value = *cells.get(&self.cell);
        SharedProcessGraphicsDevice { cell: cells.allocate(value) }
    }

    /// Share the process's cell. Where only this one is no longer pristine,
    /// the process takes its value over; two such values have to agree.
    pub fn attach_copy_to(&mut self, cells: &mut SharedCells<u32>, process_state: &Self)
        requires
            old(self).valid(old(cells)),
            process_state.valid(old(cells)),
            crate::cells::copies_attachable(
                old(cells)@,
                old(self).id(),
                process_state.id(),
                |value: u32| SharedProcessGraphicsDevice::pristine(value),
            ),
        ensures
            final(self).id() == process_state.id(),
            final(cells)@ == crate::cells::copies_joined(
                old(cells)@,
                old(self).id(),
                process_state.id(),
                |value: u32| SharedProcessGraphicsDevice::pristine(value),
            ),
    {
        let is_pristine = |value: &u32| -> (pristine: bool)
            ensures
                pristine == SharedProcessGraphicsDevice::pristine(*value),
            { *value == 0 };
        self.cell.attach_copy_to(cells, &process_state.cell, is_pristine);
    }

    pub fn is_pristine(&self, cells: &SharedCells<u32>) -> (pristine: bool)
        requires
            self.valid(cells),
        ensures
            pristine == SharedProcessGraphicsDevice::pristine(self.value(cells)),
    {
        let value = cells.get(&self.cell);
        *value == 0
    }
}

impl SharedProcessGraphicsDevice {
    /// Share the process's cell, which takes this value over.
    pub fn activate_copy_to(&mut self, cells: &mut SharedCells<u32>, process_state: &Self)
        requires
            old(self).valid(old(cells)),
            process_state.valid(old(cells)),
        ensures
            final(self).id() == process_state.id(),
            final(cells)@ == old(cells)@.update(process_state.id(), old(self).value(old(cells))),
    {
        self.cell.activate_copy_to(cells, &process_state.cell);
    }

    pub fn get(&self, cells: &SharedCells<u32>) -> (result: u32)
        requires
            self.valid(cells),
        ensures
            result == self.value(cells),
    {
        *cells.get(&self.cell)
    }

    pub fn set(&self, cells: &mut SharedCells<u32>, value: u32)
        requires
            self.valid(old(cells)),
        ensures
            final(cells)@ == old(cells)@.update(self.id(), value),
    {
        cells.set(&self.cell, value);
    }

    /// Set the value; the result is the one before.
    pub fn replace(&self, cells: &mut SharedCells<u32>, value: u32) -> (result: u32)
        requires
            self.valid(old(cells)),
        ensures
            final(cells)@ == old(cells)@.update(self.id(), value),
            result == self.value(old(cells)),
    {
        self.cell.replace(cells, value)
    }

    pub fn clear(&self, cells: &mut SharedCells<u32>)
        requires
            self.valid(old(cells)),
        ensures
            final(cells)@ == old(cells)@.update(self.id(), 0),
    {
        cells.set(&self.cell, 0);
    }

    pub fn is_null(&self, cells: &SharedCells<u32>) -> (result: bool)
        requires
            self.valid(cells),
        ensures
            result == (self.value(cells) == 0),
    {
        *cells.get(&self.cell) == 0
    }

    pub fn is_valid(&self, cells: &SharedCells<u32>) -> (result: bool)
        requires
            self.valid(cells),
        ensures
            result == (self.value(cells) != 0),
    {
        *cells.get(&self.cell) != 0
    }

    pub fn snapshot(&self, cells: &SharedCells<u32>) -> (result: u32)
        requires
            self.valid(cells),
        ensures
            result == self.value(cells),
    {
        *cells.get(&self.cell)
    }

    /// The address in the form `0x00123456`.
    pub fn to_text(&self, cells: &SharedCells<u32>) -> (text: String)
        requires
            self.valid(cells),
        ensures
            text@ == seq!['0', 'x'] + crate::text::hex_characters(self.value(cells), 8),
    {
        hex_text(*cells.get(&self.cell))
    }
}

/// The operation colors of a process's graphics ports.
pub struct SharedProcessQuickDrawOpColors {
    pub cell: SharedProcessValue<AssocMap<u32, (u16, u16, u16)>>,
}

impl SharedProcessQuickDrawOpColors {
    pub open spec fn id(&self) -> int {
        self.cell.id()
    }

    /// The handle names a cell of the store.
    pub open spec fn valid(&self, cells: &SharedCells<AssocMap<u32, (u16, u16, u16)>>) -> bool {
        self.cell.valid(cells@)
    }

    /// What the cell holds.
    pub open spec fn value(&self, cells: &SharedCells<AssocMap<u32, (u16, u16, u16)>>) -> AssocMap<u32, (u16, u16, u16)> {
        cells@[self.cell.id()]
    }

    /// A value that an attachment may replace.
    pub open spec fn pristine(value: AssocMap<u32, (u16, u16, u16)>) -> bool {
        value@ == Map::<u32, (u16, u16, u16)>::empty()
    }

    pub fn from_value(cells: &mut SharedCells<AssocMap<u32, (u16, u16, u16)>>, value: AssocMap<u32, (u16, u16, u16)>) -> (handle: Self)
        ensures
            handle.id() == old(cells)@.len(),
            final(cells)@ == old(cells)@.push(value),
    {
        SharedProcessQuickDrawOpColors { cell: cells.allocate(value) }
    }

    /// A handle to an empty table of its own.
    pub fn new(cells: &mut SharedCells<AssocMap<u32, (u16, u16, u16)>>) -> (handle: Self)
        ensures
            handle.id() == old(cells)@.len(),
            crate::cells::cells_extend(old(cells)@, final(cells)@),
            final(cells)@.len() == old(cells)@.len() + 1,
            handle.entries(final(cells)) == Map::<u32, (u16, u16, u16)>::empty(),
    {
        SharedProcessQuickDrawOpColors { cell: cells.allocate(AssocMap::new()) }
    }

    /// Another handle to the same cell.
    pub fn shared_handle(&self) -> (handle: Self)
        ensures
            handle.id() == self.id(),
    {
        SharedProcessQuickDrawOpColors { cell: self.cell.shared_handle() }
    }

    /// Whether two handles name one cell.
    pub fn ptr_eq(&self, other: &Self) -> (same: bool)
        ensures
            same == (self.id() == other.id()),
    {
        self.cell.ptr_eq(&other.cell)
    }

    /// A copy in a cell of its own.
    pub fn detached_clone(&self, cells: &mut SharedCells<AssocMap<u32, (u16, u16, u16)>>) -> (copy: Self)
        requires
            self.valid(old(cells)),
        ensures
            copy.id() == old(cells)@.len(),
            crate::cells::cells_extend(old(cells)@, final(cells)@),
            final(cells)@.len() == old(cells)@.len() + 1,
            self.value(old(cells)).same(&final(cells)@[copy.id()]),
    {
        SharedProcessQuickDrawOpColors { cell: self.cell.detached_clone(cells) }
    }

    /// Share the process's cell, which takes this one's contents over where
    /// it has none. At most one of the two may have contents.
    pub fn attach_to(&mut self, cells: &mut SharedCells<AssocMap<u32, (u16, u16, u16)>>, process_state: &Self)
        requires
            old(self).valid(old(cells)),
            process_state.valid(old(cells)),
            crate::cells::attachable(
                old(cells)@,
                old(self).id(),
                process_state.id(),
                |value: AssocMap<u32, (u16, u16, u16)>| SharedProcessQuickDrawOpColors::pristine(value),
            ),
        ensures
            final(self).id() == process_state.id(),
            crate::cells::joined(
                old(cells)@,
                final(cells)@,
                old(self).id(),
                process_state.id(),
                SharedProcessQuickDrawOpColors::pristine(process_state.value(old(cells))),
            ),
    {
        let is_pristine = |value: &AssocMap<u32, (u16, u16, u16)>| -> (pristine: bool)
            ensures
                pristine == SharedProcessQuickDrawOpColors::pristine(*value),
            { value.is_empty() };
        self.cell.attach_to(cells, &process_state.cell, is_pristine);
    }

    pub fn is_pristine(&self, cells: &SharedCells<AssocMap<u32, (u16, u16, u16)>>) -> (pristine: bool)
        requires
            self.valid(cells),
        ensures
            pristine == SharedProcessQuickDrawOpColors::pristine(self.value(cells)),
    {
        let value = cells.get(&self.cell);
        value.is_empty()
    }
}

impl SharedProcessQuickDrawOpColors {
    /// The table as a map.
    pub open spec fn entries(&self, cells: &SharedCells<AssocMap<u32, (u16, u16, u16)>>) -> Map<u32, (u16, u16, u16)> {
        self.value(cells)@
    }

    pub fn is_empty(&self, cells: &SharedCells<AssocMap<u32, (u16, u16, u16)>>) -> (result: bool)
        requires
            self.valid(cells),
        ensures
            result == (self.entries(cells) == Map::<u32, (u16, u16, u16)>::empty()),
    {
        cells.get(&self.cell).is_empty()
    }

    pub fn len(&self, cells: &SharedCells<AssocMap<u32, (u16, u16, u16)>>) -> (result: usize)
        requires
            self.valid(cells),
        ensures
            result == self.entries(cells).dom().len(),
    {
        cells.get(&self.cell).len()
    }

    /// The operation color of a port, where one was set.
    pub fn quickdraw_op_color(&self, cells: &SharedCells<AssocMap<u32, (u16, u16, u16)>>, port: u32) -> (color: Option<(u16, u16, u16)>)
        requires
            self.valid(cells),
        ensures
            color == crate::process_map::map_get(self.entries(cells), port),
    {
        match cells.get(&self.cell).get(&port) {
            Some(color) => Some(*color),
            None => None,
        }
    }

    pub fn set_quickdraw_op_color(&self, cells: &mut SharedCells<AssocMap<u32, (u16, u16, u16)>>, port: u32, color: (u16, u16, u16))
        requires
            self.valid(old(cells)),
        ensures
            crate::cells::only_cell_changed(old(cells)@, final(cells)@, self.id()),
            self.entries(final(cells)) == self.entries(old(cells)).insert(port, color),
    {
        let _ = cells.get_mut(&self.cell).insert(port, color);
    }

    /// Drop the operation color of a disposed port.
    pub fn remove_quickdraw_op_color(&self, cells: &mut SharedCells<AssocMap<u32, (u16, u16, u16)>>, port: u32)
        requires
            self.valid(old(cells)),
        ensures
            crate::cells::only_cell_changed(old(cells)@, final(cells)@, self.id()),
            self.entries(final(cells)) == self.entries(old(cells)).remove(port),
    {
        let _ = cells.get_mut(&self.cell).remove(&port);
    }

    pub fn clear(&self, cells: &mut SharedCells<AssocMap<u32, (u16, u16, u16)>>)
        requires
            self.valid(old(cells)),
        ensures
            crate::cells::only_cell_changed(old(cells)@, final(cells)@, self.id()),
            self.entries(final(cells)) == Map::<u32, (u16, u16, u16)>::empty(),
    {
        cells.get_mut(&self.cell).clear();
    }

}

/// The highlight colors of a process's graphics ports.
pub struct SharedProcessQuickDrawHiliteColors {
    pub cell: SharedProcessValue<AssocMap<u32, (u16, u16, u16)>>,
}

impl SharedProcessQuickDrawHiliteColors {
    pub open spec fn id(&self) -> int {
        self.cell.id()
    }

    /// The handle names a cell of the store.
    pub open spec fn valid(&self, cells: &SharedCells<AssocMap<u32, (u16, u16, u16)>>) -> bool {
        self.cell.valid(cells@)
    }

    /// What the cell holds.
    pub open spec fn value(&self, cells: &SharedCells<AssocMap<u32, (u16, u16, u16)>>) -> AssocMap<u32, (u16, u16, u16)> {
        cells@[self.cell.id()]
    }

    /// A value that an attachment may replace.
    pub open spec fn pristine(value: AssocMap<u32, (u16, u16, u16)>) -> bool {
        value@ == Map::<u32, (u16, u16, u16)>::empty()
    }

    pub fn from_value(cells: &mut SharedCells<AssocMap<u32, (u16, u16, u16)>>, value: AssocMap<u32, (u16, u16, u16)>) -> (handle: Self)
        ensures
            handle.id() == old(cells)@.len(),
            final(cells)@ == old(cells)@.push(value),
    {
        SharedProcessQuickDrawHiliteColors { cell: cells.allocate(value) }
    }

    /// A handle to an empty table of its own.
    pub fn new(cells: &mut SharedCells<AssocMap<u32, (u16, u16, u16)>>) -> (handle: Self)
        ensures
            handle.id() == old(cells)@.len(),
            crate::cells::cells_extend(old(cells)@, final(cells)@),
            final(cells)@.len() == old(cells)@.len() + 1,
            handle.entries(final(cells)) == Map::<u32, (u16, u16, u16)>::empty(),
    {
        SharedProcessQuickDrawHiliteColors { cell: cells.allocate(AssocMap::new()) }
    }

    /// Another handle to the same cell.
    pub fn shared_handle(&self) -> (handle: Self)
        ensures
            handle.id() == self.id(),
    {
        SharedProcessQuickDrawHiliteColors { cell: self.cell.shared_handle() }
    }

    /// Whether two handles name one cell.
    pub fn ptr_eq(&self, other: &Self) -> (same: bool)
        ensures
            same == (self.id() == other.id()),
    {
        self.cell.ptr_eq(&other.cell)
    }

    /// A copy in a cell of its own.
    pub fn detached_clone(&self, cells: &mut SharedCells<AssocMap<u32, (u16, u16, u16)>>) -> (copy: Self)
        requires
            self.valid(old(cells)),
        ensures
            copy.id() == old(cells)@.len(),
            crate::cells::cells_extend(old(cells)@, final(cells)@),
            final(cells)@.len() == old(cells)@.len() + 1,
            self.value(old(cells)).same(&final(cells)@[copy.id()]),
    {
        SharedProcessQuickDrawHiliteColors { cell: self.cell.detached_clone(cells) }
    }

    /// Share the process's cell, which takes this one's contents over where
    /// it has none. At most one of the two may have contents.
    pub fn attach_to(&mut self, cells: &mut SharedCells<AssocMap<u32, (u16, u16, u16)>>, process_state: &Self)
        requires
            old(self).valid(old(cells)),
            process_state.valid(old(cells)),
            crate::cells::attachable(
                old(cells)@,
                old(self).id(),
                process_state.id(),
                |value: AssocMap<u32, (u16, u16, u16)>| SharedProcessQuickDrawHiliteColors::pristine(value),
            ),
        ensures
            final(self).id() == process_state.id(),
            crate::cells::joined(
                old(cells)@,
                final(cells)@,
                old(self).id(),
                process_state.id(),
                SharedProcessQuickDrawHiliteColors::pristine(process_state.value(old(cells))),
            ),
    {
        let is_pristine = |value: &AssocMap<u32, (u16, u16, u16)>| -> (pristine: bool)
            ensures
                pristine == SharedProcessQuickDrawHiliteColors::pristine(*value),
            { value.is_empty() };
        self.cell.attach_to(cells, &process_state.cell, is_pristine);
    }

    pub fn is_pristine(&self, cells: &SharedCells<AssocMap<u32, (u16, u16, u16)>>) -> (pristine: bool)
        requires
            self.valid(cells),
        ensures
            pristine == SharedProcessQuickDrawHiliteColors::pristine(self.value(cells)),
    {
        let value = cells.get(&self.cell);
        value.is_empty()
    }
}

impl SharedProcessQuickDrawHiliteColors {
    /// The table as a map.
    pub open spec fn entries(&self, cells: &SharedCells<AssocMap<u32, (u16, u16, u16)>>) -> Map<u32, (u16, u16, u16)> {
        self.value(cells)@
    }

    pub fn is_empty(&self, cells: &SharedCells<AssocMap<u32, (u16, u16, u16)>>) -> (result: bool)
        requires
            self.valid(cells),
        ensures
            result == (self.entries(cells) == Map::<u32, (u16, u16, u16)>::empty()),
    {
        cells.get(&self.cell).is_empty()
    }

    pub fn len(&self, cells: &SharedCells<AssocMap<u32, (u16, u16, u16)>>) -> (result: usize)
        requires
            self.valid(cells),
        ensures
            result == self.entries(cells).dom().len(),
    {
        cells.get(&self.cell).len()
    }

    /// The highlight color of a port, where one was set.
    pub fn quickdraw_hilite_color(&self, cells: &SharedCells<AssocMap<u32, (u16, u16, u16)>>, port: u32) -> (color: Option<(u16, u16, u16)>)
        requires
            self.valid(cells),
        ensures
            color == crate::process_map::map_get(self.entries(cells), port),
    {
        match cells.get(&self.cell).get(&port) {
            Some(color) => Some(*color),
            None => None,
        }
    }

    pub fn set_quickdraw_hilite_color(&self, cells: &mut SharedCells<AssocMap<u32, (u16, u16, u16)>>, port: u32, color: (u16, u16, u16))
        requires
            self.valid(old(cells)),
        ensures
            crate::cells::only_cell_changed(old(cells)@, final(cells)@, self.id()),
            self.entries(final(cells)) == self.entries(old(cells)).insert(port, color),
    {
        let _ = cells.get_mut(&self.cell).insert(port, color);
    }

    /// Drop the highlight color of a disposed port.
    pub fn remove_quickdraw_hilite_color(&self, cells: &mut SharedCells<AssocMap<u32, (u16, u16, u16)>>, port: u32)
        requires
            self.valid(old(cells)),
        ensures
            crate::cells::only_cell_changed(old(cells)@, final(cells)@, self.id()),
            self.entries(final(cells)) == self.entries(old(cells)).remove(port),
    {
        let _ = cells.get_mut(&self.cell).remove(&port);
    }

    pub fn clear(&self, cells: &mut SharedCells<AssocMap<u32, (u16, u16, u16)>>)
        requires
            self.valid(old(cells)),
        ensures
            crate::cells::only_cell_changed(old(cells)@, final(cells)@, self.id()),
            self.entries(final(cells)) == Map::<u32, (u16, u16, u16)>::empty(),
    {
        cells.get_mut(&self.cell).clear();
    }

}

/// The pixel map flags of a process.
pub struct SharedProcessQuickDrawPixelStates {
    pub cell: SharedProcessValue<AssocMap<u32, u32>>,
}

impl SharedProcessQuickDrawPixelStates {
    pub open spec fn id(&self) -> int {
        self.cell.id()
    }

    /// The handle names a cell of the store.
    pub open spec fn valid(&self, cells: &SharedCells<AssocMap<u32, u32>>) -> bool {
        self.cell.valid(cells@)
    }

    /// What the cell holds.
    pub open spec fn value(&self, cells: &SharedCells<AssocMap<u32, u32>>) -> AssocMap<u32, u32> {
        cells@[self.cell.id()]
    }

    /// A value that an attachment may replace.
    pub open spec fn pristine(value: AssocMap<u32, u32>) -> bool {
        value@ == Map::<u32, u32>::empty()
    }

    pub fn from_value(cells: &mut SharedCells<AssocMap<u32, u32>>, value: AssocMap<u32, u32>) -> (handle: Self)
        ensures
            handle.id() == old(cells)@.len(),
            final(cells)@ == old(cells)@.push(value),
    {
        SharedProcessQuickDrawPixelStates { cell: cells.allocate(value) }
    }

    /// A handle to an empty table of its own.
    pub fn new(cells: &mut SharedCells<AssocMap<u32, u32>>) -> (handle: Self)
        ensures
            handle.id() == old(cells)@.len(),
            crate::cells::cells_extend(old(cells)@, final(cells)@),
            final(cells)@.len() == old(cells)@.len() + 1,
            handle.entries(final(cells)) == Map::<u32, u32>::empty(),
    {
        SharedProcessQuickDrawPixelStates { cell: cells.allocate(AssocMap::new()) }
    }

    /// Another handle to the same cell.
    pub fn shared_handle(&self) -> (handle: Self)
        ensures
            handle.id() == self.id(),
    {
        SharedProcessQuickDrawPixelStates { cell: self.cell.shared_handle() }
    }

    /// Whether two handles name one cell.
    pub fn ptr_eq(&self, other: &Self) -> (same: bool)
        ensures
            same == (self.id() == other.id()),
    {
        self.cell.ptr_eq(&other.cell)
    }

    /// A copy in a cell of its own.
    pub fn detached_clone(&self, cells: &mut SharedCells<AssocMap<u32, u32>>) -> (copy: Self)
        requires
            self.valid(old(cells)),
        ensures
            copy.id() == old(cells)@.len(),
            crate::cells::cells_extend(old(cells)@, final(cells)@),
            final(cells)@.len() == old(cells)@.len() + 1,
            self.value(old(cells)).same(&final(cells)@[copy.id()]),
    {
        SharedProcessQuickDrawPixelStates { cell: self.cell.detached_clone(cells) }
    }

    /// Share the process's cell, which takes this one's contents over where
    /// it has none. At most one of the two may have contents.
    pub fn attach_to(&mut self, cells: &mut SharedCells<AssocMap<u32, u32>>, process_state: &Self)
        requires
            old(self).valid(old(cells)),
            process_state.valid(old(cells)),
            crate::cells::attachable(
                old(cells)@,
                old(self).id(),
                process_state.id(),
                |value: AssocMap<u32, u32>| SharedProcessQuickDrawPixelStates::pristine(value),
            ),
        ensures
            final(self).id() == process_state.id(),
            crate::cells::joined(
                old(cells)@,
                final(cells)@,
                old(self).id(),
                process_state.id(),
                SharedProcessQuickDrawPixelStates::pristine(process_state.value(old(cells))),
            ),
    {
        let is_pristine = |value: &AssocMap<u32, u32>| -> (pristine: bool)
            ensures
                pristine == SharedProcessQuickDrawPixelStates::pristine(*value),
            { value.is_empty() };
        self.cell.attach_to(cells, &process_state.cell, is_pristine);
    }

    pub fn is_pristine(&self, cells: &SharedCells<AssocMap<u32, u32>>) -> (pristine: bool)
        requires
            self.valid(cells),
        ensures
            pristine == SharedProcessQuickDrawPixelStates::pristine(self.value(cells)),
    {
        let value = cells.get(&self.cell);
        value.is_empty()
    }
}

impl SharedProcessQuickDrawPixelStates {
    /// The table as a map.
    pub open spec fn entries(&self, cells: &SharedCells<AssocMap<u32, u32>>) -> Map<u32, u32> {
        self.value(cells)@
    }

    pub fn is_empty(&self, cells: &SharedCells<AssocMap<u32, u32>>) -> (result: bool)
        requires
            self.valid(cells),
        ensures
            result == (self.entries(cells) == Map::<u32, u32>::empty()),
    {
        cells.get(&self.cell).is_empty()
    }

    pub fn len(&self, cells: &SharedCells<AssocMap<u32, u32>>) -> (result: usize)
        requires
            self.valid(cells),
        ensures
            result == self.entries(cells).dom().len(),
    {
        cells.get(&self.cell).len()
    }

    /// The flags of a pixel map; a pixel map without a record has none.
    pub fn quickdraw_pixel_state(&self, cells: &SharedCells<AssocMap<u32, u32>>, pixmap_handle: u32) -> (state: u32)
        requires
            self.valid(cells),
        ensures
            state == (match crate::process_map::map_get(self.entries(cells), pixmap_handle) {
                Some(recorded) => recorded,
                None => 0,
            }),
    {
        match cells.get(&self.cell).get(&pixmap_handle) {
            Some(state) => *state,
            None => 0,
        }
    }

    pub fn has_quickdraw_pixel_state(&self, cells: &SharedCells<AssocMap<u32, u32>>, pixmap_handle: u32) -> (result: bool)
        requires
            self.valid(cells),
        ensures
            result == self.entries(cells).contains_key(pixmap_handle),
    {
        cells.get(&self.cell).contains_key(&pixmap_handle)
    }

    pub fn set_quickdraw_pixel_state(&self, cells: &mut SharedCells<AssocMap<u32, u32>>, pixmap_handle: u32, state: u32)
        requires
            self.valid(old(cells)),
        ensures
            crate::cells::only_cell_changed(old(cells)@, final(cells)@, self.id()),
            self.entries(final(cells)) == self.entries(old(cells)).insert(pixmap_handle, state),
    {
        let _ = cells.get_mut(&self.cell).insert(pixmap_handle, state);
    }

    pub fn remove_quickdraw_pixel_state(&self, cells: &mut SharedCells<AssocMap<u32, u32>>, pixmap_handle: u32) -> (result: Option<u32>)
        requires
            self.valid(old(cells)),
        ensures
            crate::cells::only_cell_changed(old(cells)@, final(cells)@, self.id()),
            self.entries(final(cells)) == self.entries(old(cells)).remove(pixmap_handle),
            result == crate::process_map::map_get(self.entries(old(cells)), pixmap_handle),
    {
        cells.get_mut(&self.cell).remove(&pixmap_handle)
    }

    pub fn clear(&self, cells: &mut SharedCells<AssocMap<u32, u32>>)
        requires
            self.valid(old(cells)),
        ensures
            crate::cells::only_cell_changed(old(cells)@, final(cells)@, self.id()),
            self.entries(final(cells)) == Map::<u32, u32>::empty(),
    {
        cells.get_mut(&self.cell).clear();
    }

}

} // verus!
