//! The `ParamText` strings that the adapters of a process share.

use crate::cells::{CellDefault, CellValue, SharedCells, SharedProcessValue};
use vstd::prelude::*;

verus! {

/// The four strings that dialogs insert.
pub struct DialogTextSlots {
    pub slots: [Vec<u8>; 4],
}

fn copy_slot(slot: &Vec<u8>) -> (copy: Vec<u8>)
    ensures
        copy@ == slot@,
{
    let mut copy: Vec<u8> = Vec::new();
    let count: usize = slot.len();
    let mut i: usize = 0;
    while i < count
        invariant
            i <= count,
            count == slot@.len(),
            copy@ == slot@.take(i as int),
        decreases count - i,
    {
        assert(slot@.take(i + 1) =~= slot@.take(i as int).push(slot@[i as int]));
        copy.push(slot[i]);
        i += 1;
    }
    assert(slot@.take(count as int) =~= slot@);
    copy
}

impl DialogTextSlots {
    /// The strings as byte sequences.
    pub open spec fn texts(&self) -> Seq<Seq<u8>> {
        Seq::new(4, |i: int| self.slots@[i]@)
    }

    /// Every string is empty.
    pub open spec fn empty(&self) -> bool {
        forall|i: int| 0 <= i < 4 ==> (#[trigger] self.texts()[i]).len() == 0
    }

    pub fn new() -> (slots: Self)
        ensures
            slots.empty(),
    {
        DialogTextSlots { slots: [Vec::new(), Vec::new(), Vec::new(), Vec::new()] }
    }

    pub fn is_empty(&self) -> (empty: bool)
        ensures
            empty == self.empty(),
    {
        let empty = self.slots[0].len() == 0 && self.slots[1].len() == 0 && self.slots[2].len()
            == 0 && self.slots[3].len() == 0;
        proof {
            assert(self.texts()[0] == self.slots@[0]@);
            assert(self.texts()[1] == self.slots@[1]@);
            assert(self.texts()[2] == self.slots@[2]@);
            assert(self.texts()[3] == self.slots@[3]@);
        }
        empty
    }
}

impl CellDefault for DialogTextSlots {
    open spec fn is_default(&self) -> bool {
        self.empty()
    }

    fn default_value() -> (value: Self) {
        DialogTextSlots::new()
    }
}

impl CellValue for DialogTextSlots {
    open spec fn same(&self, other: &Self) -> bool {
        self.texts() == other.texts()
    }

    fn copy_value(&self) -> (copy: Self) {
        let copy = DialogTextSlots {
            slots: [
                copy_slot(&self.slots[0]),
                copy_slot(&self.slots[1]),
                copy_slot(&self.slots[2]),
                copy_slot(&self.slots[3]),
            ],
        };
        assert(copy.texts() =~= self.texts());
        copy
    }
}

/// The dialog strings of a process.
pub struct SharedProcessDialogText {
    pub cell: SharedProcessValue<DialogTextSlots>,
}

impl SharedProcessDialogText {
    pub open spec fn id(&self) -> int {
        self.cell.id()
    }

    /// The handle names a cell of the store.
    pub open spec fn valid(&self, cells: &SharedCells<DialogTextSlots>) -> bool {
        self.cell.valid(cells@)
    }

    /// What the cell holds.
    pub open spec fn value(&self, cells: &SharedCells<DialogTextSlots>) -> DialogTextSlots {
        cells@[self.cell.id()]
    }

    /// A value that an attachment may replace.
    pub open spec fn pristine(value: DialogTextSlots) -> bool {
        value.empty()
    }

    pub fn from_value(cells: &mut SharedCells<DialogTextSlots>, value: DialogTextSlots) -> (handle: Self)
        ensures
            handle.id() == old(cells)@.len(),
            final(cells)@ == old(cells)@.push(value),
    {
        SharedProcessDialogText { cell: cells.allocate(value) }
    }

    /// A handle to empty strings of its own.
    pub fn new(cells: &mut SharedCells<DialogTextSlots>) -> (handle: Self)
        ensures
            handle.id() == old(cells)@.len(),
            crate::cells::cells_extend(old(cells)@, final(cells)@),
            final(cells)@.len() == old(cells)@.len() + 1,
            handle.value(final(cells)).empty(),
    {
        SharedProcessDialogText { cell: cells.allocate(DialogTextSlots::new()) }
    }

    /// Another handle to the same cell.
    pub fn shared_handle(&self) -> (handle: Self)
        ensures
            handle.id() == self.id(),
    {
        SharedProcessDialogText { cell: self.cell.shared_handle() }
    }

    /// Whether two handles name one cell.
    pub fn ptr_eq(&self, other: &Self) -> (same: bool)
        ensures
            same == (self.id() == other.id()),
    {
        self.cell.ptr_eq(&other.cell)
    }

    /// A copy in a cell of its own.
    pub fn detached_clone(&self, cells: &mut SharedCells<DialogTextSlots>) -> (copy: Self)
        requires
            self.valid(old(cells)),
        ensures
            copy.id() == old(cells)@.len(),
            crate::cells::cells_extend(old(cells)@, final(cells)@),
            final(cells)@.len() == old(cells)@.len() + 1,
            self.value(old(cells)).same(&final(cells)@[copy.id()]),
    {
        SharedProcessDialogText { cell: self.cell.detached_clone(cells) }
    }

    /// Share the process's cell, which takes this one's contents over where
    /// it has none. At most one of the two may have contents.
    pub fn attach_to(&mut self, cells: &mut SharedCells<DialogTextSlots>, process_state: &Self)
        requires
            old(self).valid(old(cells)),
            process_state.valid(old(cells)),
            crate::cells::attachable(
                old(cells)@,
                old(self).id(),
                process_state.id(),
                |value: DialogTextSlots| SharedProcessDialogText::pristine(value),
            ),
        ensures
            final(self).id() == process_state.id(),
            crate::cells::joined(
                old(cells)@,
                final(cells)@,
                old(self).id(),
                process_state.id(),
                SharedProcessDialogText::pristine(process_state.value(old(cells))),
            ),
    {
        let is_pristine = |value: &DialogTextSlots| -> (pristine: bool)
            ensures
                pristine == SharedProcessDialogText::pristine(*value),
            { value.is_empty() };
        self.cell.attach_to(cells, &process_state.cell, is_pristine);
    }

    pub fn is_pristine(&self, cells: &SharedCells<DialogTextSlots>) -> (pristine: bool)
        requires
            self.valid(cells),
        ensures
            pristine == SharedProcessDialogText::pristine(self.value(cells)),
    {
        let value = cells.get(&self.cell);
        value.is_empty()
    }
}

impl SharedProcessDialogText {
    /// The strings as byte sequences.
    pub open spec fn texts(&self, cells: &SharedCells<DialogTextSlots>) -> Seq<Seq<u8>> {
        self.value(cells).texts()
    }

    /// A copy of one string; there are four.
    pub fn slot(&self, cells: &SharedCells<DialogTextSlots>, index: usize) -> (text: Option<Vec<u8>>)
        requires
            self.valid(cells),
        ensures
            match text {
                Some(bytes) => index < 4 && bytes@ == self.texts(cells)[index as int],
                None => index >= 4,
            },
    {
        if index < 4 {
            Some(copy_slot(&cells.get(&self.cell).slots[index]))
        } else {
            None
        }
    }

    /// Set all four strings.
    pub fn set_slots(&self, cells: &mut SharedCells<DialogTextSlots>, values: [Vec<u8>; 4])
        requires
            self.valid(old(cells)),
        ensures
            crate::cells::only_cell_changed(old(cells)@, final(cells)@, self.id()),
            self.value(final(cells)).slots == values,
    {
        cells.set(&self.cell, DialogTextSlots { slots: values });
    }

    /// Set one string; an index past the fourth has no effect.
    pub fn set_slot(&self, cells: &mut SharedCells<DialogTextSlots>, index: usize, value: Vec<u8>)
        requires
            self.valid(old(cells)),
        ensures
            crate::cells::only_cell_changed(old(cells)@, final(cells)@, self.id()),
            self.texts(final(cells)) == (if index < 4 {
                self.texts(old(cells)).update(index as int, value@)
            } else {
                self.texts(old(cells))
            }),
    {
        if index < 4 {
            let state = cells.get_mut(&self.cell);
            let ghost before = state.texts();
            state.slots[index] = value;
            assert(state.texts() =~= before.update(index as int, value@));
        }
    }

    /// A copy of all four strings.
    pub fn snapshot(&self, cells: &SharedCells<DialogTextSlots>) -> (values: [Vec<u8>; 4])
        requires
            self.valid(cells),
        ensures
            forall|i: int| 0 <= i < 4 ==> (#[trigger] values@[i])@ == self.texts(cells)[i],
    {
        let copy = cells.get(&self.cell).copy_value();
        assert forall|i: int| 0 <= i < 4 implies (#[trigger] copy.slots@[i])@ == self.texts(cells)[i] by {
            assert(copy.texts()[i] == copy.slots@[i]@);
        }
        copy.slots
    }

    /// The number of strings.
    pub fn len(&self) -> (count: usize)
        ensures
            count == 4,
    {
        4
    }

    pub fn is_empty(&self, cells: &SharedCells<DialogTextSlots>) -> (empty: bool)
        requires
            self.valid(cells),
        ensures
            empty == self.value(cells).empty(),
    {
        cells.get(&self.cell).is_empty()
    }

    /// Empty all four strings.
    pub fn clear(&self, cells: &mut SharedCells<DialogTextSlots>)
        requires
            self.valid(old(cells)),
        ensures
            crate::cells::only_cell_changed(old(cells)@, final(cells)@, self.id()),
            self.value(final(cells)).empty(),
    {
        cells.set(&self.cell, DialogTextSlots::new());
    }
}

} // verus!
