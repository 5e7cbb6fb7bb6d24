//! Open-file records of one process, with the path and position views that
//! its adapters use.

use crate::cells::{CellDefault, CellValue, SharedCells, SharedProcessValue};
use vstd::prelude::*;

verus! {

/// An open access path.
pub struct ProcessOpenFileRecord {
    pub ref_num: i16,
    pub path: String,
    pub position: u32,
}

impl CellDefault for ProcessOpenFileRecord {
    open spec fn is_default(&self) -> bool {
        self.ref_num == 0 && self.path@.len() == 0 && self.position == 0
    }

    fn default_value() -> (value: Self) {
        ProcessOpenFileRecord { ref_num: 0, path: String::new(), position: 0 }
    }
}

impl CellValue for ProcessOpenFileRecord {
    open spec fn same(&self, other: &Self) -> bool {
        *self == *other
    }

    fn copy_value(&self) -> (copy: Self) {
        ProcessOpenFileRecord {
            ref_num: self.ref_num,
            path: self.path.clone(),
            position: self.position,
        }
    }
}

/// Position of the first record of a reference number, or a negative number.
/// A number that is no signed word has none.
pub open spec fn open_index(records: Seq<ProcessOpenFileRecord>, ref_num: u16) -> int
    decreases records.len(),
{
    if records.len() == 0 {
        -1
    } else if records[0].ref_num == ref_num as int {
        0
    } else {
        let rest = open_index(records.drop_first(), ref_num);
        if rest < 0 {
            -1
        } else {
            rest + 1
        }
    }
}

proof fn lemma_open_index(records: Seq<ProcessOpenFileRecord>, ref_num: u16)
    ensures
        open_index(records, ref_num) < records.len(),
        open_index(records, ref_num) >= 0 ==> records[open_index(records, ref_num)].ref_num
            == ref_num,
        open_index(records, ref_num) < 0 <==> forall|i: int|
            0 <= i < records.len() ==> (#[trigger] records[i]).ref_num != ref_num,
        forall|i: int|
            0 <= i < open_index(records, ref_num) ==> (#[trigger] records[i]).ref_num != ref_num,
    decreases records.len(),
{
    if records.len() > 0 && records[0].ref_num != ref_num as int {
        let rest = records.drop_first();
        lemma_open_index(rest, ref_num);
        assert forall|i: int|
            0 <= i < records.len() && (open_index(rest, ref_num) < 0 || i < open_index(
                rest,
                ref_num,
            ) + 1) implies (#[trigger] records[i]).ref_num != ref_num by {
            if i > 0 {
                assert(rest[i - 1] == records[i]);
            }
        }
    }
}

fn find_open(records: &Vec<ProcessOpenFileRecord>, ref_num: u16) -> (found: Option<usize>)
    ensures
        match found {
            Some(i) => i < records@.len() && i == open_index(records@, ref_num),
            None => open_index(records@, ref_num) < 0,
        },
{
    let mut i: usize = 0;
    while i < records.len()
        invariant
            i <= records@.len(),
            forall|j: int| 0 <= j < i ==> (#[trigger] records@[j]).ref_num != ref_num,
        decreases records@.len() - i,
    {
        if records[i].ref_num as i32 == ref_num as i32 {
            proof {
                lemma_open_index(records@, ref_num);
                let first = open_index(records@, ref_num);
                if first < 0 || first > i {
                    assert(records@[i as int].ref_num != ref_num);
                } else if first < i {
                    assert(records@[first].ref_num != ref_num);
                }
            }
            return Some(i);
        }
        i += 1;
    }
    proof {
        lemma_open_index(records@, ref_num);
    }
    None
}

/// Open-file records. Every view of one set observes one reference number and
/// one file mark.
pub struct SharedProcessOpenFiles {
    pub cell: SharedProcessValue<Vec<ProcessOpenFileRecord>>,
}

impl SharedProcessOpenFiles {
    pub open spec fn valid(&self, cells: &SharedCells<Vec<ProcessOpenFileRecord>>) -> bool {
        self.cell.valid(cells@)
    }

    /// The open access paths.
    pub open spec fn records(&self, cells: &SharedCells<Vec<ProcessOpenFileRecord>>) -> Seq<
        ProcessOpenFileRecord,
    > {
        cells@[self.cell.id()]@
    }

    /// Records in a cell of their own.
    pub fn from_records(
        cells: &mut SharedCells<Vec<ProcessOpenFileRecord>>,
        records: Vec<ProcessOpenFileRecord>,
    ) -> (files: Self)
        ensures
            final(cells)@ == old(cells)@.push(records),
            files.cell.id() == old(cells)@.len(),
    {
        SharedProcessOpenFiles { cell: cells.allocate(records) }
    }

    pub fn shared_handle(&self) -> (handle: Self)
        ensures
            handle.cell.id() == self.cell.id(),
    {
        SharedProcessOpenFiles { cell: self.cell.shared_handle() }
    }

    pub fn ptr_eq(&self, other: &Self) -> (same: bool)
        ensures
            same == (self.cell.id() == other.cell.id()),
    {
        self.cell.ptr_eq(&other.cell)
    }

    /// The file marks of the same records.
    pub fn positions(&self) -> (positions: SharedProcessOpenFilePositions)
        ensures
            positions.cell.id() == self.cell.id(),
    {
        SharedProcessOpenFilePositions { cell: self.cell.shared_handle() }
    }

    /// A copy of the records in a cell of their own.
    pub fn detached_clone(&self, cells: &mut SharedCells<Vec<ProcessOpenFileRecord>>) -> (copy: Self)
        requires
            self.valid(old(cells)),
        ensures
            copy.cell.id() == old(cells)@.len(),
            crate::cells::cells_extend(old(cells)@, final(cells)@),
            final(cells)@.len() == old(cells)@.len() + 1,
            copy.records(final(cells)) == self.records(old(cells)),
    {
        let copy = SharedProcessOpenFiles { cell: self.cell.detached_clone(cells) };
        assert(copy.records(cells) =~= self.records(old(cells))) by {
            assert(crate::keys::same_list(self.records(old(cells)), copy.records(cells)));
            assert forall|i: int| 0 <= i < copy.records(cells).len() implies copy.records(cells)[i]
                == self.records(old(cells))[i] by {
                assert(self.records(old(cells))[i].same(&copy.records(cells)[i]));
            }
        }
        copy
    }

    pub fn is_empty(&self, cells: &SharedCells<Vec<ProcessOpenFileRecord>>) -> (empty: bool)
        requires
            self.valid(cells),
        ensures
            empty == (self.records(cells).len() == 0),
    {
        cells.get(&self.cell).len() == 0
    }

    pub fn push(
        &self,
        cells: &mut SharedCells<Vec<ProcessOpenFileRecord>>,
        record: ProcessOpenFileRecord,
    )
        requires
            self.valid(old(cells)),
        ensures
            crate::cells::only_cell_changed(old(cells)@, final(cells)@, self.cell.id()),
            self.records(final(cells)) == self.records(old(cells)).push(record),
    {
        cells.get_mut(&self.cell).push(record);
    }

    /// The path of a reference number.
    pub fn get<'a>(&self, cells: &'a SharedCells<Vec<ProcessOpenFileRecord>>, ref_num: &u16) -> (
    path: Option<&'a String>)
        requires
            self.valid(cells),
        ensures
            match path {
                Some(path) => open_index(self.records(cells), *ref_num) >= 0 && *path
                    == self.records(cells)[open_index(self.records(cells), *ref_num)].path,
                None => open_index(self.records(cells), *ref_num) < 0,
            },
    {
        let records = cells.get(&self.cell);
        match find_open(records, *ref_num) {
            Some(i) => Some(&records[i].path),
            None => None,
        }
    }

    /// Give a reference number a path, keeping its mark; a new one starts at
    /// zero. A number that is no signed word is refused.
    pub fn insert(
        &self,
        cells: &mut SharedCells<Vec<ProcessOpenFileRecord>>,
        ref_num: u16,
        path: String,
    ) -> (previous: Option<String>)
        requires
            self.valid(old(cells)),
        ensures
            crate::cells::only_cell_changed(old(cells)@, final(cells)@, self.cell.id()),
            ({
                let before = self.records(old(cells));
                let index = open_index(before, ref_num);
                &&& previous == (if index >= 0 {
                    Some(before[index].path)
                } else {
                    None::<String>
                })
                &&& self.records(final(cells)) == if index >= 0 {
                    before.update(index, ProcessOpenFileRecord { path, ..before[index] })
                } else if ref_num > i16::MAX {
                    before
                } else {
                    before.push(
                        ProcessOpenFileRecord { ref_num: ref_num as i16, path, position: 0 },
                    )
                }
            }),
    {
        let ghost before = self.records(cells);
        let records = cells.get_mut(&self.cell);
        match find_open(records, ref_num) {
            Some(i) => {
                let mut previous = path;
                core::mem::swap(&mut previous, &mut records[i].path);
                Some(previous)
            },
            None => {
                if ref_num <= 0x7fff {
                    records.push(
                        ProcessOpenFileRecord { ref_num: ref_num as i16, path, position: 0 },
                    );
                }
                None
            },
        }
    }

    /// Close a reference number; the result is its path.
    pub fn remove(
        &self,
        cells: &mut SharedCells<Vec<ProcessOpenFileRecord>>,
        ref_num: &u16,
    ) -> (removed: Option<String>)
        requires
            self.valid(old(cells)),
        ensures
            crate::cells::only_cell_changed(old(cells)@, final(cells)@, self.cell.id()),
            ({
                let before = self.records(old(cells));
                let index = open_index(before, *ref_num);
                if index >= 0 {
                    &&& removed == Some(before[index].path)
                    &&& self.records(final(cells)) == before.remove(index)
                } else {
                    &&& removed is None
                    &&& self.records(final(cells)) == before
                }
            }),
    {
        let records = cells.get_mut(&self.cell);
        match find_open(records, *ref_num) {
            Some(i) => Some(records.remove(i).path),
            None => None,
        }
    }

    pub fn contains_key(&self, cells: &SharedCells<Vec<ProcessOpenFileRecord>>, ref_num: &u16) -> (
    open: bool)
        requires
            self.valid(cells),
        ensures
            open == (open_index(self.records(cells), *ref_num) >= 0),
    {
        find_open(cells.get(&self.cell), *ref_num).is_some()
    }
}

/// The file marks of open-file records.
pub struct SharedProcessOpenFilePositions {
    pub cell: SharedProcessValue<Vec<ProcessOpenFileRecord>>,
}

impl SharedProcessOpenFilePositions {
    pub open spec fn valid(&self, cells: &SharedCells<Vec<ProcessOpenFileRecord>>) -> bool {
        self.cell.valid(cells@)
    }

    pub open spec fn records(&self, cells: &SharedCells<Vec<ProcessOpenFileRecord>>) -> Seq<
        ProcessOpenFileRecord,
    > {
        cells@[self.cell.id()]@
    }

    /// The mark of a reference number.
    pub fn get(&self, cells: &SharedCells<Vec<ProcessOpenFileRecord>>, ref_num: &u16) -> (position:
        Option<u32>)
        requires
            self.valid(cells),
        ensures
            position == (if open_index(self.records(cells), *ref_num) >= 0 {
                Some(self.records(cells)[open_index(self.records(cells), *ref_num)].position)
            } else {
                None
            }),
    {
        let records = cells.get(&self.cell);
        match find_open(records, *ref_num) {
            Some(i) => Some(records[i].position),
            None => None,
        }
    }

    /// Change the mark of a reference number during one operation.
    pub fn with_position_mut<R>(
        &self,
        cells: &mut SharedCells<Vec<ProcessOpenFileRecord>>,
        ref_num: &u16,
        operation: impl FnOnce(&mut u32) -> R,
    ) -> (result: Option<R>)
        requires
            self.valid(old(cells)),
            open_index(self.records(old(cells)), *ref_num) >= 0 ==> forall|position: &mut u32|
                *position == self.records(
                    old(cells),
                )[open_index(self.records(old(cells)), *ref_num)].position ==> call_requires(
                    operation,
                    (position,),
                ),
        ensures
            crate::cells::only_cell_changed(old(cells)@, final(cells)@, self.cell.id()),
            result is Some <==> open_index(self.records(old(cells)), *ref_num) >= 0,
            result is None ==> self.records(final(cells)) == self.records(old(cells)),
            result is Some ==> exists|position: &mut u32|
                #![trigger call_ensures(operation, (position,), result->0)]
                *position == self.records(
                    old(cells),
                )[open_index(self.records(old(cells)), *ref_num)].position && call_ensures(
                    operation,
                    (position,),
                    result->0,
                ) && self.records(final(cells)) == self.records(old(cells)).update(
                    open_index(self.records(old(cells)), *ref_num),
                    ProcessOpenFileRecord {
                        position: *final(position),
                        ..self.records(old(cells))[open_index(self.records(old(cells)), *ref_num)]
                    },
                ),
    {
        let records = cells.get_mut(&self.cell);
        match find_open(records, *ref_num) {
            Some(i) => {
                let outcome = operation(&mut records[i].position);
                let result = Some(outcome);
                assert(result->0 == outcome);
                result
            },
            None => None,
        }
    }

    /// Set the mark of a reference number; the result is the one before. A
    /// number that is not open yet gets a record without a path.
    pub fn insert(
        &self,
        cells: &mut SharedCells<Vec<ProcessOpenFileRecord>>,
        ref_num: u16,
        position: usize,
    ) -> (previous: Option<usize>)
        requires
            self.valid(old(cells)),
        ensures
            crate::cells::only_cell_changed(old(cells)@, final(cells)@, self.cell.id()),
            ({
                let before = self.records(old(cells));
                let after = self.records(final(cells));
                let index = open_index(before, ref_num);
                let mark = if position > u32::MAX {
                    u32::MAX
                } else {
                    position as u32
                };
                if index >= 0 {
                    &&& previous == Some(before[index].position as usize)
                    &&& after == before.update(
                        index,
                        ProcessOpenFileRecord { position: mark, ..before[index] },
                    )
                } else {
                    &&& previous is None
                    &&& if ref_num > i16::MAX {
                        after == before
                    } else {
                        &&& after.len() == before.len() + 1
                        &&& after.drop_last() == before
                        &&& after.last().ref_num == ref_num
                        &&& after.last().path@.len() == 0
                        &&& after.last().position == mark
                    }
                }
            }),
    {
        let mark: u32 = if position as u64 > 0xffff_ffff {
            u32::MAX
        } else {
            position as u32
        };
        let ghost before = self.records(cells);
        let records = cells.get_mut(&self.cell);
        match find_open(records, ref_num) {
            Some(i) => {
                let previous: u32 = records[i].position;
                records[i].position = mark;
                Some(previous as usize)
            },
            None => {
                if ref_num <= 0x7fff {
                    records.push(
                        ProcessOpenFileRecord {
                            ref_num: ref_num as i16,
                            path: String::new(),
                            position: mark,
                        },
                    );
                    assert(records@.drop_last() =~= before);
                }
                None
            },
        }
    }

    /// The mark that a closing reference number had. The record goes with its
    /// path.
    pub fn remove(&self, cells: &SharedCells<Vec<ProcessOpenFileRecord>>, ref_num: &u16) -> (position:
        Option<usize>)
        requires
            self.valid(cells),
        ensures
            position == (if open_index(self.records(cells), *ref_num) >= 0 {
                Some(
                    self.records(cells)[open_index(
                        self.records(cells),
                        *ref_num,
                    )].position as usize,
                )
            } else {
                None
            }),
    {
        match self.get(cells, ref_num) {
            Some(position) => Some(position as usize),
            None => None,
        }
    }

    pub fn contains_key(&self, cells: &SharedCells<Vec<ProcessOpenFileRecord>>, ref_num: &u16) -> (
    open: bool)
        requires
            self.valid(cells),
        ensures
            open == (open_index(self.records(cells), *ref_num) >= 0),
    {
        self.get(cells, ref_num).is_some()
    }
}

/// Of the files that are open under a number the first is found, and a number
/// is found just where a file is open under it.
pub proof fn first_open_file_is_found(records: Seq<ProcessOpenFileRecord>, ref_num: u16, i: int)
    requires
        0 <= i < records.len(),
        records[i].ref_num == ref_num,
        forall|k: int| 0 <= k < i ==> (#[trigger] records[k]).ref_num != ref_num,
    ensures
        open_index(records, ref_num) == i,
{
    lemma_open_index(records, ref_num);
}

/// A number under which no file is open is not found.
pub proof fn closed_file_is_not_found(records: Seq<ProcessOpenFileRecord>, ref_num: u16)
    requires
        forall|k: int| 0 <= k < records.len() ==> (#[trigger] records[k]).ref_num != ref_num,
    ensures
        open_index(records, ref_num) < 0,
{
    lemma_open_index(records, ref_num);
}

} // verus!
