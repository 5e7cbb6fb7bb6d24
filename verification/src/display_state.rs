//! Display color tables and transfer tables that the adapters of a process
//! share.

use crate::cells::{SharedCells, SharedProcessValue};
use vstd::prelude::*;

verus! {

/// The red, green and blue components of an indexed display.
pub type ColorTable = [[u16; 3]; 256];

/// The red, green and blue transfer tables of a display.
pub type DisplayGamma = [[u8; 256]; 3];

/// Every component is zero.
pub open spec fn is_black(table: ColorTable) -> bool {
    forall|i: int, j: int| 0 <= i < 256 && 0 <= j < 3 ==> (#[trigger] table@[i]@[j]) == 0
}

/// A color table that an attachment may replace: black, or the standard one.
pub open spec fn colors_pristine(table: ColorTable, standard: ColorTable) -> bool {
    is_black(table) || table == standard
}

/// Every output level is zero.
pub open spec fn gamma_is_zero(table: DisplayGamma) -> bool {
    forall|i: int, j: int| 0 <= i < 3 && 0 <= j < 256 ==> (#[trigger] table@[i]@[j]) == 0
}

fn same_row<const N: usize>(a: &[u16; N], b: &[u16; N]) -> (same: bool)
    ensures
        same == (*a == *b),
{
    let mut i: usize = 0;
    while i < N
        invariant
            i <= N,
            forall|k: int| 0 <= k < i ==> a@[k] == b@[k],
        decreases N - i,
    {
        if a[i] != b[i] {
            assert(a@[i as int] != b@[i as int]);
            return false;
        }
        i += 1;
    }
    assert(a@ =~= b@);
    assert(*a =~= *b);
    true
}

/// Whether two color tables agree.
pub fn same_colors(a: &ColorTable, b: &ColorTable) -> (same: bool)
    ensures
        same == (*a == *b),
{
    let mut i: usize = 0;
    while i < 256
        invariant
            i <= 256,
            forall|k: int| 0 <= k < i ==> a@[k] == b@[k],
        decreases 256 - i,
    {
        if !same_row(&a[i], &b[i]) {
            assert(a@[i as int] != b@[i as int]);
            return false;
        }
        i += 1;
    }
    assert(a@ =~= b@);
    assert(*a =~= *b);
    true
}

fn colors_are_black(table: &ColorTable) -> (black: bool)
    ensures
        black == is_black(*table),
{
    let mut i: usize = 0;
    while i < 256
        invariant
            i <= 256,
            forall|k: int, j: int| 0 <= k < i && 0 <= j < 3 ==> (#[trigger] table@[k]@[j]) == 0,
        decreases 256 - i,
    {
        if table[i][0] != 0 || table[i][1] != 0 || table[i][2] != 0 {
            assert(table@[i as int]@[0] != 0 || table@[i as int]@[1] != 0 || table@[i as int]@[2] != 0);
            return false;
        }
        i += 1;
    }
    true
}

fn colors_are_pristine(table: &ColorTable, standard: &ColorTable) -> (pristine: bool)
    ensures
        pristine == colors_pristine(*table, *standard),
{
    colors_are_black(table) || same_colors(table, standard)
}

fn same_levels(a: &[u8; 256], b: &[u8; 256]) -> (same: bool)
    ensures
        same == (*a == *b),
{
    let mut i: usize = 0;
    while i < 256
        invariant
            i <= 256,
            forall|k: int| 0 <= k < i ==> a@[k] == b@[k],
        decreases 256 - i,
    {
        if a[i] != b[i] {
            assert(a@[i as int] != b@[i as int]);
            return false;
        }
        i += 1;
    }
    assert(a@ =~= b@);
    assert(*a =~= *b);
    true
}

/// Whether two transfer tables agree.
pub fn same_gamma(a: &DisplayGamma, b: &DisplayGamma) -> (same: bool)
    ensures
        same == (*a == *b),
{
    let same = same_levels(&a[0], &b[0]) && same_levels(&a[1], &b[1]) && same_levels(&a[2], &b[2]);
    proof {
        if same {
            assert(a@ =~= b@);
            assert(*a =~= *b);
        } else {
            assert(a@[0] != b@[0] || a@[1] != b@[1] || a@[2] != b@[2]);
        }
    }
    same
}

fn levels_are_zero(levels: &[u8; 256]) -> (zero: bool)
    ensures
        zero == (forall|j: int| 0 <= j < 256 ==> (#[trigger] levels@[j]) == 0),
{
    let mut i: usize = 0;
    while i < 256
        invariant
            i <= 256,
            forall|k: int| 0 <= k < i ==> (#[trigger] levels@[k]) == 0,
        decreases 256 - i,
    {
        if levels[i] != 0 {
            assert(levels@[i as int] != 0);
            return false;
        }
        i += 1;
    }
    true
}

fn gamma_zero(table: &DisplayGamma) -> (zero: bool)
    ensures
        zero == gamma_is_zero(*table),
{
    let zero = levels_are_zero(&table[0]) && levels_are_zero(&table[1]) && levels_are_zero(
        &table[2],
    );
    proof {
        if zero {
            assert forall|i: int, j: int| 0 <= i < 3 && 0 <= j < 256 implies (
            #[trigger] table@[i]@[j]) == 0 by {
                assert(i == 0 || i == 1 || i == 2);
            }
        } else if gamma_is_zero(*table) {
            assert(forall|j: int| 0 <= j < 256 ==> (#[trigger] table@[0]@[j]) == 0);
            assert(forall|j: int| 0 <= j < 256 ==> (#[trigger] table@[1]@[j]) == 0);
            assert(forall|j: int| 0 <= j < 256 ==> (#[trigger] table@[2]@[j]) == 0);
        }
    }
    zero
}

/// The color table of a display.
pub struct SharedProcessDisplayClut {
    pub cell: SharedProcessValue<ColorTable>,
}

impl SharedProcessDisplayClut {
    pub open spec fn id(&self) -> int {
        self.cell.id()
    }

    /// The handle names a cell of the store.
    pub open spec fn valid(&self, cells: &SharedCells<ColorTable>) -> bool {
        self.cell.valid(cells@)
    }

    /// The color table that the handle observes.
    pub open spec fn table(&self, cells: &SharedCells<ColorTable>) -> ColorTable {
        cells@[self.cell.id()]
    }

    /// A table of its own; a new process starts with the standard colors.
    pub fn from_value(cells: &mut SharedCells<ColorTable>, clut: ColorTable) -> (handle: Self)
        ensures
            handle.id() == old(cells)@.len(),
            final(cells)@ == old(cells)@.push(clut),
    {
        SharedProcessDisplayClut { cell: cells.allocate(clut) }
    }

    /// Another handle to the same table.
    pub fn shared_handle(&self) -> (handle: Self)
        ensures
            handle.id() == self.id(),
    {
        SharedProcessDisplayClut { cell: self.cell.shared_handle() }
    }

    /// Whether two handles name one table.
    pub fn ptr_eq(&self, other: &Self) -> (same: bool)
        ensures
            same == (self.id() == other.id()),
    {
        self.cell.ptr_eq(&other.cell)
    }

    /// A copy in a cell of its own.
    pub fn detached_clone(&self, cells: &mut SharedCells<ColorTable>) -> (copy: Self)
        requires
            self.valid(old(cells)),
        ensures
            copy.id() == old(cells)@.len(),
            final(cells)@ == old(cells)@.push(self.table(old(cells))),
    {
        let table = *cells.get(&self.cell);
        SharedProcessDisplayClut { cell: cells.allocate(table) }
    }

    /// Share the process's table. Where only this one differs from black and
    /// from the standard colors, the process takes it over; two such tables
    /// have to agree.
    pub fn attach_copy_to(
        &mut self,
        cells: &mut SharedCells<ColorTable>,
        process_state: &Self,
        standard: &ColorTable,
    )
        requires
            old(self).valid(old(cells)),
            process_state.valid(old(cells)),
            crate::cells::copies_attachable(
                old(cells)@,
                old(self).id(),
                process_state.id(),
                |table: ColorTable| colors_pristine(table, *standard),
            ),
        ensures
            final(self).id() == process_state.id(),
            final(cells)@ == crate::cells::copies_joined(
                old(cells)@,
                old(self).id(),
                process_state.id(),
                |table: ColorTable| colors_pristine(table, *standard),
            ),
    {
        let is_pristine = |table: &ColorTable| -> (pristine: bool)
            ensures
                pristine == colors_pristine(*table, *standard),
            { colors_are_pristine(table, standard) };
        self.cell.attach_copy_to(cells, &process_state.cell, is_pristine);
    }

    pub fn is_pristine(&self, cells: &SharedCells<ColorTable>, standard: &ColorTable) -> (pristine:
        bool)
        requires
            self.valid(cells),
        ensures
            pristine == colors_pristine(self.table(cells), *standard),
    {
        colors_are_pristine(cells.get(&self.cell), standard)
    }

    /// One entry of the table.
    pub fn entry(&self, cells: &SharedCells<ColorTable>, index: usize) -> (rgb: [u16; 3])
        requires
            self.valid(cells),
            index < 256,
        ensures
            rgb == self.table(cells)@[index as int],
    {
        cells.get(&self.cell)[index]
    }

    /// A copy of the table.
    pub fn snapshot(&self, cells: &SharedCells<ColorTable>) -> (table: ColorTable)
        requires
            self.valid(cells),
        ensures
            table == self.table(cells),
    {
        *cells.get(&self.cell)
    }

    pub fn replace(&self, cells: &mut SharedCells<ColorTable>, clut: ColorTable)
        requires
            self.valid(old(cells)),
        ensures
            final(cells)@ == old(cells)@.update(self.id(), clut),
    {
        cells.set(&self.cell, clut);
    }

    /// Set one entry.
    pub fn set_entry(&self, cells: &mut SharedCells<ColorTable>, index: usize, rgb: [u16; 3])
        requires
            self.valid(old(cells)),
            index < 256,
        ensures
            final(cells)@ == old(cells)@.update(self.id(), self.table(final(cells))),
            self.table(final(cells))@ == self.table(old(cells))@.update(index as int, rgb),
    {
        let mut table = *cells.get(&self.cell);
        table[index] = rgb;
        cells.set(&self.cell, table);
    }

    /// Set every entry to one color.
    pub fn fill(&self, cells: &mut SharedCells<ColorTable>, rgb: [u16; 3])
        requires
            self.valid(old(cells)),
        ensures
            final(cells)@ == old(cells)@.update(self.id(), self.table(final(cells))),
            forall|i: int| 0 <= i < 256 ==> self.table(final(cells))@[i] == rgb,
    {
        let table: [[u16; 3]; 256] = [rgb; 256];
        cells.set(&self.cell, table);
    }
}

/// A transfer table, and whether a caller installed it.
#[derive(Clone, Copy)]
pub struct ProcessDisplayGammaState {
    pub table: DisplayGamma,
    pub explicit: bool,
}

impl ProcessDisplayGammaState {
    /// Not installed by a caller, and all zero or the default table.
    pub open spec fn pristine(&self, default_table: DisplayGamma) -> bool {
        !self.explicit && (gamma_is_zero(self.table) || self.table == default_table)
    }

    /// The state of a new process.
    pub fn new(default_table: DisplayGamma) -> (state: Self)
        ensures
            state.table == default_table,
            !state.explicit,
    {
        ProcessDisplayGammaState { table: default_table, explicit: false }
    }

    pub fn is_pristine(&self, default_table: &DisplayGamma) -> (pristine: bool)
        ensures
            pristine == self.pristine(*default_table),
    {
        !self.explicit && (gamma_zero(&self.table) || same_gamma(&self.table, default_table))
    }
}

/// The transfer state of a process's display.
pub struct SharedProcessDisplayGamma {
    pub cell: SharedProcessValue<ProcessDisplayGammaState>,
}

/// The cells after the handle of `own` has joined the cell `process`: a
/// pristine process state takes the other's over, which starts anew.
pub open spec fn gamma_joined(
    cells: Seq<ProcessDisplayGammaState>,
    own: int,
    process: int,
    default_table: DisplayGamma,
) -> Seq<ProcessDisplayGammaState> {
    if own != process && cells[process].pristine(default_table) {
        cells.update(process, cells[own]).update(
            own,
            ProcessDisplayGammaState { table: default_table, explicit: false },
        )
    } else {
        cells
    }
}

impl SharedProcessDisplayGamma {
    pub open spec fn id(&self) -> int {
        self.cell.id()
    }

    /// The handle names a cell of the store.
    pub open spec fn valid(&self, cells: &SharedCells<ProcessDisplayGammaState>) -> bool {
        self.cell.valid(cells@)
    }

    /// The transfer state that the handle observes.
    pub open spec fn state(&self, cells: &SharedCells<ProcessDisplayGammaState>) -> ProcessDisplayGammaState {
        cells@[self.cell.id()]
    }

    pub fn from_value(
        cells: &mut SharedCells<ProcessDisplayGammaState>,
        state: ProcessDisplayGammaState,
    ) -> (handle: Self)
        ensures
            handle.id() == old(cells)@.len(),
            final(cells)@ == old(cells)@.push(state),
    {
        SharedProcessDisplayGamma { cell: cells.allocate(state) }
    }

    /// Another handle to the same state.
    pub fn shared_handle(&self) -> (handle: Self)
        ensures
            handle.id() == self.id(),
    {
        SharedProcessDisplayGamma { cell: self.cell.shared_handle() }
    }

    /// Whether two handles name one state.
    pub fn ptr_eq(&self, other: &Self) -> (same: bool)
        ensures
            same == (self.id() == other.id()),
    {
        self.cell.ptr_eq(&other.cell)
    }

    /// A copy in a cell of its own.
    pub fn detached_clone(&self, cells: &mut SharedCells<ProcessDisplayGammaState>) -> (copy: Self)
        requires
            self.valid(old(cells)),
        ensures
            copy.id() == old(cells)@.len(),
            final(cells)@ == old(cells)@.push(self.state(old(cells))),
    {
        let state = *cells.get(&self.cell);
        SharedProcessDisplayGamma { cell: cells.allocate(state) }
    }

    /// Share the process's state. At most one of the two may have left the
    /// pristine state.
    pub fn attach_to(
        &mut self,
        cells: &mut SharedCells<ProcessDisplayGammaState>,
        process_state: &Self,
        default_table: &DisplayGamma,
    )
        requires
            old(self).valid(old(cells)),
            process_state.valid(old(cells)),
            old(self).id() == process_state.id() || old(self).state(old(cells)).pristine(
                *default_table,
            ) || process_state.state(old(cells)).pristine(*default_table),
        ensures
            final(self).id() == process_state.id(),
            final(cells)@ == gamma_joined(
                old(cells)@,
                old(self).id(),
                process_state.id(),
                *default_table,
            ),
    {
        if self.ptr_eq(process_state) {
            return;
        }
        if cells.get(&process_state.cell).is_pristine(default_table) {
            let state = *cells.get(&self.cell);
            cells.set(&process_state.cell, state);
            cells.set(&self.cell, ProcessDisplayGammaState::new(*default_table));
        }
        *self = process_state.shared_handle();
    }

    pub fn table(&self, cells: &SharedCells<ProcessDisplayGammaState>) -> (table: DisplayGamma)
        requires
            self.valid(cells),
        ensures
            table == self.state(cells).table,
    {
        cells.get(&self.cell).table
    }

    pub fn is_explicit(&self, cells: &SharedCells<ProcessDisplayGammaState>) -> (explicit: bool)
        requires
            self.valid(cells),
        ensures
            explicit == self.state(cells).explicit,
    {
        cells.get(&self.cell).explicit
    }

    /// Install a caller's table.
    pub fn install(&self, cells: &mut SharedCells<ProcessDisplayGammaState>, table: DisplayGamma)
        requires
            self.valid(old(cells)),
        ensures
            final(cells)@ == old(cells)@.update(
                self.id(),
                ProcessDisplayGammaState { table, explicit: true },
            ),
    {
        cells.set(&self.cell, ProcessDisplayGammaState { table, explicit: true });
    }

    /// Set the table where no caller has installed one.
    pub fn set_implicit(&self, cells: &mut SharedCells<ProcessDisplayGammaState>, table: DisplayGamma)
        requires
            self.valid(old(cells)),
        ensures
            final(cells)@ == (if self.state(old(cells)).explicit {
                old(cells)@
            } else {
                old(cells)@.update(self.id(), ProcessDisplayGammaState { table, explicit: false })
            }),
    {
        if !cells.get(&self.cell).explicit {
            cells.set(&self.cell, ProcessDisplayGammaState { table, explicit: false });
        }
    }

    /// A copy of the state.
    pub fn snapshot(&self, cells: &SharedCells<ProcessDisplayGammaState>) -> (state:
        ProcessDisplayGammaState)
        requires
            self.valid(cells),
        ensures
            state == self.state(cells),
    {
        *cells.get(&self.cell)
    }

    pub fn is_pristine(
        &self,
        cells: &SharedCells<ProcessDisplayGammaState>,
        default_table: &DisplayGamma,
    ) -> (pristine: bool)
        requires
            self.valid(cells),
        ensures
            pristine == self.state(cells).pristine(*default_table),
    {
        cells.get(&self.cell).is_pristine(default_table)
    }
}

} // verus!
