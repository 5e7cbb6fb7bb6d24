//! Callback tasks and their schedule, which the adapters of a process share.

use crate::assoc::AssocMap;
use crate::cells::{CellDefault, CellValue, SharedCells, SharedProcessValue};
use vstd::prelude::*;

verus! {

/// The instruction set of a callback.
#[derive(Clone, Copy, Debug, PartialEq, Eq, Structural)]
pub enum CallbackTaskArchitecture {
    M68k,
    PowerPc,
}

/// A Time Manager task.
#[derive(Clone, Copy, Debug, PartialEq, Eq)]
pub struct ProcessTimerTask {
    pub task_ptr: u32,
    pub architecture: CallbackTaskArchitecture,
    pub extended: bool,
    pub callback: u32,
    pub active: bool,
    pub fire_at_tick: u32,
    pub fire_at_subtick: u64,
    pub last_fired_tick: Option<u32>,
}

/// A Vertical Retrace Manager task.
#[derive(Clone, Copy, Debug, PartialEq, Eq)]
pub struct ProcessVblTask {
    pub task_ptr: u32,
    pub architecture: CallbackTaskArchitecture,
    pub slot: Option<i16>,
    pub pending: bool,
}

/// A copy of a list of plain values.
fn copy_tasks<T: Copy>(tasks: &Vec<T>) -> (copy: Vec<T>)
    ensures
        copy@ == tasks@,
{
    let mut copy: Vec<T> = Vec::new();
    let count: usize = tasks.len();
    let mut i: usize = 0;
    while i < count
        invariant
            i <= count,
            count == tasks@.len(),
            copy@ == tasks@.take(i as int),
        decreases count - i,
    {
        assert(tasks@.take(i + 1) =~= tasks@.take(i as int).push(tasks@[i as int]));
        copy.push(tasks[i]);
        i += 1;
    }
    assert(tasks@.take(count as int) =~= tasks@);
    copy
}

/// Time Manager tasks in the order of their installation.
pub struct TimerTaskList {
    pub list: Vec<ProcessTimerTask>,
}

impl CellDefault for TimerTaskList {
    open spec fn is_default(&self) -> bool {
        self.list@.len() == 0
    }

    fn default_value() -> (value: Self) {
        TimerTaskList { list: Vec::new() }
    }
}

impl CellValue for TimerTaskList {
    open spec fn same(&self, other: &Self) -> bool {
        self.list@ == other.list@
    }

    fn copy_value(&self) -> (copy: Self) {
        TimerTaskList { list: copy_tasks(&self.list) }
    }
}

/// Time Manager tasks of a process.
pub struct SharedProcessTimerTasks {
    pub cell: SharedProcessValue<TimerTaskList>,
}

impl SharedProcessTimerTasks {
    pub open spec fn id(&self) -> int {
        self.cell.id()
    }

    /// The handle names a cell of the store.
    pub open spec fn valid(&self, cells: &SharedCells<TimerTaskList>) -> bool {
        self.cell.valid(cells@)
    }

    /// What the cell holds.
    pub open spec fn value(&self, cells: &SharedCells<TimerTaskList>) -> TimerTaskList {
        cells@[self.cell.id()]
    }

    /// A value that an attachment may replace.
    pub open spec fn pristine(value: TimerTaskList) -> bool {
        value.list@.len() == 0
    }

    pub fn from_value(cells: &mut SharedCells<TimerTaskList>, value: TimerTaskList) -> (handle: Self)
        ensures
            handle.id() == old(cells)@.len(),
            final(cells)@ == old(cells)@.push(value),
    {
        SharedProcessTimerTasks { cell: cells.allocate(value) }
    }

    /// A handle to an empty list of its own.
    pub fn new(cells: &mut SharedCells<TimerTaskList>) -> (handle: Self)
        ensures
            handle.id() == old(cells)@.len(),
            crate::cells::cells_extend(old(cells)@, final(cells)@),
            final(cells)@.len() == old(cells)@.len() + 1,
            handle.tasks(final(cells)) == Seq::<ProcessTimerTask>::empty(),
    {
        SharedProcessTimerTasks { cell: cells.allocate(TimerTaskList { list: Vec::new() }) }
    }

    /// Another handle to the same cell.
    pub fn shared_handle(&self) -> (handle: Self)
        ensures
            handle.id() == self.id(),
    {
        SharedProcessTimerTasks { cell: self.cell.shared_handle() }
    }

    /// Whether two handles name one cell.
    pub fn ptr_eq(&self, other: &Self) -> (same: bool)
        ensures
            same == (self.id() == other.id()),
    {
        self.cell.ptr_eq(&other.cell)
    }

    /// A copy in a cell of its own.
    pub fn detached_clone(&self, cells: &mut SharedCells<TimerTaskList>) -> (copy: Self)
        requires
            self.valid(old(cells)),
        ensures
            copy.id() == old(cells)@.len(),
            crate::cells::cells_extend(old(cells)@, final(cells)@),
            final(cells)@.len() == old(cells)@.len() + 1,
            self.value(old(cells)).same(&final(cells)@[copy.id()]),
    {
        SharedProcessTimerTasks { cell: self.cell.detached_clone(cells) }
    }

    /// Share the process's cell, which takes this one's contents over where
    /// it has none. At most one of the two may have contents.
    pub fn attach_to(&mut self, cells: &mut SharedCells<TimerTaskList>, process_state: &Self)
        requires
            old(self).valid(old(cells)),
            process_state.valid(old(cells)),
            crate::cells::attachable(
                old(cells)@,
                old(self).id(),
                process_state.id(),
                |value: TimerTaskList| SharedProcessTimerTasks::pristine(value),
            ),
        ensures
            final(self).id() == process_state.id(),
            crate::cells::joined(
                old(cells)@,
                final(cells)@,
                old(self).id(),
                process_state.id(),
                SharedProcessTimerTasks::pristine(process_state.value(old(cells))),
            ),
    {
        let is_pristine = |value: &TimerTaskList| -> (pristine: bool)
            ensures
                pristine == SharedProcessTimerTasks::pristine(*value),
            { value.list.len() == 0 };
        self.cell.attach_to(cells, &process_state.cell, is_pristine);
    }

    pub fn is_pristine(&self, cells: &SharedCells<TimerTaskList>) -> (pristine: bool)
        requires
            self.valid(cells),
        ensures
            pristine == SharedProcessTimerTasks::pristine(self.value(cells)),
    {
        let value = cells.get(&self.cell);
        value.list.len() == 0
    }
}

impl SharedProcessTimerTasks {
    /// The installed tasks.
    pub open spec fn tasks(&self, cells: &SharedCells<TimerTaskList>) -> Seq<ProcessTimerTask> {
        self.value(cells).list@
    }

    pub fn is_empty(&self, cells: &SharedCells<TimerTaskList>) -> (result: bool)
        requires
            self.valid(cells),
        ensures
            result == (self.tasks(cells).len() == 0),
    {
        cells.get(&self.cell).list.len() == 0
    }

    pub fn len(&self, cells: &SharedCells<TimerTaskList>) -> (result: usize)
        requires
            self.valid(cells),
        ensures
            result == self.tasks(cells).len(),
    {
        cells.get(&self.cell).list.len()
    }

    pub fn get(&self, cells: &SharedCells<TimerTaskList>, index: usize) -> (task: Option<ProcessTimerTask>)
        requires
            self.valid(cells),
        ensures
            task == (if index < self.tasks(cells).len() {
                Some(self.tasks(cells)[index as int])
            } else {
                None
            }),
    {
        let tasks = &cells.get(&self.cell).list;
        if index < tasks.len() {
            Some(tasks[index])
        } else {
            None
        }
    }

    pub fn push(&self, cells: &mut SharedCells<TimerTaskList>, task: ProcessTimerTask)
        requires
            self.valid(old(cells)),
        ensures
            crate::cells::only_cell_changed(old(cells)@, final(cells)@, self.id()),
            self.tasks(final(cells)) == self.tasks(old(cells)).push(task),
    {
        cells.get_mut(&self.cell).list.push(task);
    }

    pub fn extend(&self, cells: &mut SharedCells<TimerTaskList>, tasks: Vec<ProcessTimerTask>)
        requires
            self.valid(old(cells)),
        ensures
            crate::cells::only_cell_changed(old(cells)@, final(cells)@, self.id()),
            self.tasks(final(cells)) == self.tasks(old(cells)) + tasks@,
    {
        let mut tasks = tasks;
        cells.get_mut(&self.cell).list.append(&mut tasks);
    }

    pub fn clear(&self, cells: &mut SharedCells<TimerTaskList>)
        requires
            self.valid(old(cells)),
        ensures
            crate::cells::only_cell_changed(old(cells)@, final(cells)@, self.id()),
            self.tasks(final(cells)) == Seq::<ProcessTimerTask>::empty(),
    {
        cells.get_mut(&self.cell).list.clear();
    }

    /// A copy of the installed tasks.
    pub fn snapshot(&self, cells: &SharedCells<TimerTaskList>) -> (tasks: Vec<ProcessTimerTask>)
        requires
            self.valid(cells),
        ensures
            tasks@ == self.tasks(cells),
    {
        copy_tasks(&cells.get(&self.cell).list)
    }
}

/// Vertical Retrace Manager tasks in the order of their installation.
pub struct VblTaskList {
    pub list: Vec<ProcessVblTask>,
}

impl CellDefault for VblTaskList {
    open spec fn is_default(&self) -> bool {
        self.list@.len() == 0
    }

    fn default_value() -> (value: Self) {
        VblTaskList { list: Vec::new() }
    }
}

impl CellValue for VblTaskList {
    open spec fn same(&self, other: &Self) -> bool {
        self.list@ == other.list@
    }

    fn copy_value(&self) -> (copy: Self) {
        VblTaskList { list: copy_tasks(&self.list) }
    }
}

/// Vertical Retrace Manager tasks of a process.
pub struct SharedProcessVblTasks {
    pub cell: SharedProcessValue<VblTaskList>,
}

impl SharedProcessVblTasks {
    pub open spec fn id(&self) -> int {
        self.cell.id()
    }

    /// The handle names a cell of the store.
    pub open spec fn valid(&self, cells: &SharedCells<VblTaskList>) -> bool {
        self.cell.valid(cells@)
    }

    /// What the cell holds.
    pub open spec fn value(&self, cells: &SharedCells<VblTaskList>) -> VblTaskList {
        cells@[self.cell.id()]
    }

    /// A value that an attachment may replace.
    pub open spec fn pristine(value: VblTaskList) -> bool {
        value.list@.len() == 0
    }

    pub fn from_value(cells: &mut SharedCells<VblTaskList>, value: VblTaskList) -> (handle: Self)
        ensures
            handle.id() == old(cells)@.len(),
            final(cells)@ == old(cells)@.push(value),
    {
        SharedProcessVblTasks { cell: cells.allocate(value) }
    }

    /// A handle to an empty list of its own.
    pub fn new(cells: &mut SharedCells<VblTaskList>) -> (handle: Self)
        ensures
            handle.id() == old(cells)@.len(),
            crate::cells::cells_extend(old(cells)@, final(cells)@),
            final(cells)@.len() == old(cells)@.len() + 1,
            handle.tasks(final(cells)) == Seq::<ProcessVblTask>::empty(),
    {
        SharedProcessVblTasks { cell: cells.allocate(VblTaskList { list: Vec::new() }) }
    }

    /// Another handle to the same cell.
    pub fn shared_handle(&self) -> (handle: Self)
        ensures
            handle.id() == self.id(),
    {
        SharedProcessVblTasks { cell: self.cell.shared_handle() }
    }

    /// Whether two handles name one cell.
    pub fn ptr_eq(&self, other: &Self) -> (same: bool)
        ensures
            same == (self.id() == other.id()),
    {
        self.cell.ptr_eq(&other.cell)
    }

    /// A copy in a cell of its own.
    pub fn detached_clone(&self, cells: &mut SharedCells<VblTaskList>) -> (copy: Self)
        requires
            self.valid(old(cells)),
        ensures
            copy.id() == old(cells)@.len(),
            crate::cells::cells_extend(old(cells)@, final(cells)@),
            final(cells)@.len() == old(cells)@.len() + 1,
            self.value(old(cells)).same(&final(cells)@[copy.id()]),
    {
        SharedProcessVblTasks { cell: self.cell.detached_clone(cells) }
    }

    /// Share the process's cell, which takes this one's contents over where
    /// it has none. At most one of the two may have contents.
    pub fn attach_to(&mut self, cells: &mut SharedCells<VblTaskList>, process_state: &Self)
        requires
            old(self).valid(old(cells)),
            process_state.valid(old(cells)),
            crate::cells::attachable(
                old(cells)@,
                old(self).id(),
                process_state.id(),
                |value: VblTaskList| SharedProcessVblTasks::pristine(value),
            ),
        ensures
            final(self).id() == process_state.id(),
            crate::cells::joined(
                old(cells)@,
                final(cells)@,
                old(self).id(),
                process_state.id(),
                SharedProcessVblTasks::pristine(process_state.value(old(cells))),
            ),
    {
        let is_pristine = |value: &VblTaskList| -> (pristine: bool)
            ensures
                pristine == SharedProcessVblTasks::pristine(*value),
            { value.list.len() == 0 };
        self.cell.attach_to(cells, &process_state.cell, is_pristine);
    }

    pub fn is_pristine(&self, cells: &SharedCells<VblTaskList>) -> (pristine: bool)
        requires
            self.valid(cells),
        ensures
            pristine == SharedProcessVblTasks::pristine(self.value(cells)),
    {
        let value = cells.get(&self.cell);
        value.list.len() == 0
    }
}

impl SharedProcessVblTasks {
    /// The installed tasks.
    pub open spec fn tasks(&self, cells: &SharedCells<VblTaskList>) -> Seq<ProcessVblTask> {
        self.value(cells).list@
    }

    pub fn is_empty(&self, cells: &SharedCells<VblTaskList>) -> (result: bool)
        requires
            self.valid(cells),
        ensures
            result == (self.tasks(cells).len() == 0),
    {
        cells.get(&self.cell).list.len() == 0
    }

    pub fn len(&self, cells: &SharedCells<VblTaskList>) -> (result: usize)
        requires
            self.valid(cells),
        ensures
            result == self.tasks(cells).len(),
    {
        cells.get(&self.cell).list.len()
    }

    pub fn get(&self, cells: &SharedCells<VblTaskList>, index: usize) -> (task: Option<ProcessVblTask>)
        requires
            self.valid(cells),
        ensures
            task == (if index < self.tasks(cells).len() {
                Some(self.tasks(cells)[index as int])
            } else {
                None
            }),
    {
        let tasks = &cells.get(&self.cell).list;
        if index < tasks.len() {
            Some(tasks[index])
        } else {
            None
        }
    }

    pub fn push(&self, cells: &mut SharedCells<VblTaskList>, task: ProcessVblTask)
        requires
            self.valid(old(cells)),
        ensures
            crate::cells::only_cell_changed(old(cells)@, final(cells)@, self.id()),
            self.tasks(final(cells)) == self.tasks(old(cells)).push(task),
    {
        cells.get_mut(&self.cell).list.push(task);
    }

    pub fn extend(&self, cells: &mut SharedCells<VblTaskList>, tasks: Vec<ProcessVblTask>)
        requires
            self.valid(old(cells)),
        ensures
            crate::cells::only_cell_changed(old(cells)@, final(cells)@, self.id()),
            self.tasks(final(cells)) == self.tasks(old(cells)) + tasks@,
    {
        let mut tasks = tasks;
        cells.get_mut(&self.cell).list.append(&mut tasks);
    }

    pub fn clear(&self, cells: &mut SharedCells<VblTaskList>)
        requires
            self.valid(old(cells)),
        ensures
            crate::cells::only_cell_changed(old(cells)@, final(cells)@, self.id()),
            self.tasks(final(cells)) == Seq::<ProcessVblTask>::empty(),
    {
        cells.get_mut(&self.cell).list.clear();
    }

    /// A copy of the installed tasks.
    pub fn snapshot(&self, cells: &SharedCells<VblTaskList>) -> (tasks: Vec<ProcessVblTask>)
        requires
            self.valid(cells),
        ensures
            tasks@ == self.tasks(cells),
    {
        copy_tasks(&cells.get(&self.cell).list)
    }
}

/// The schedule of the callbacks of one process.
pub struct ProcessCallbackScheduling {
    pub current_subtick: u64,
    pub system_vbl_queue_anchor: u32,
    pub primary_vbl_slot: i16,
    /// When extended tasks wake up, by task record.
    pub extended_wakeups: AssocMap<u32, u64>,
}

impl ProcessCallbackScheduling {
    /// A schedule that no one has used.
    pub open spec fn pristine(&self) -> bool {
        &&& self.current_subtick == 0
        &&& self.system_vbl_queue_anchor == 0
        &&& self.primary_vbl_slot == 0
        &&& self.extended_wakeups@ == Map::<u32, u64>::empty()
    }

    pub fn new() -> (state: Self)
        ensures
            state.pristine(),
    {
        ProcessCallbackScheduling {
            current_subtick: 0,
            system_vbl_queue_anchor: 0,
            primary_vbl_slot: 0,
            extended_wakeups: AssocMap::new(),
        }
    }

    pub fn is_pristine(&self) -> (pristine: bool)
        ensures
            pristine == self.pristine(),
    {
        self.current_subtick == 0 && self.system_vbl_queue_anchor == 0 && self.primary_vbl_slot
            == 0 && self.extended_wakeups.is_empty()
    }
}

impl CellDefault for ProcessCallbackScheduling {
    open spec fn is_default(&self) -> bool {
        self.pristine()
    }

    fn default_value() -> (value: Self) {
        ProcessCallbackScheduling::new()
    }
}

impl CellValue for ProcessCallbackScheduling {
    open spec fn same(&self, other: &Self) -> bool {
        &&& self.current_subtick == other.current_subtick
        &&& self.system_vbl_queue_anchor == other.system_vbl_queue_anchor
        &&& self.primary_vbl_slot == other.primary_vbl_slot
        &&& self.extended_wakeups@ == other.extended_wakeups@
    }

    fn copy_value(&self) -> (copy: Self) {
        ProcessCallbackScheduling {
            current_subtick: self.current_subtick,
            system_vbl_queue_anchor: self.system_vbl_queue_anchor,
            primary_vbl_slot: self.primary_vbl_slot,
            extended_wakeups: self.extended_wakeups.copy_map(),
        }
    }
}

/// The callback schedule of a process.
pub struct SharedProcessCallbackScheduling {
    pub cell: SharedProcessValue<ProcessCallbackScheduling>,
}

impl SharedProcessCallbackScheduling {
    pub open spec fn id(&self) -> int {
        self.cell.id()
    }

    /// The handle names a cell of the store.
    pub open spec fn valid(&self, cells: &SharedCells<ProcessCallbackScheduling>) -> bool {
        self.cell.valid(cells@)
    }

    /// What the cell holds.
    pub open spec fn value(&self, cells: &SharedCells<ProcessCallbackScheduling>) -> ProcessCallbackScheduling {
        cells@[self.cell.id()]
    }

    /// A value that an attachment may replace.
    pub open spec fn pristine(value: ProcessCallbackScheduling) -> bool {
        value.pristine()
    }

    pub fn from_value(cells: &mut SharedCells<ProcessCallbackScheduling>, value: ProcessCallbackScheduling) -> (handle: Self)
        ensures
            handle.id() == old(cells)@.len(),
            final(cells)@ == old(cells)@.push(value),
    {
        SharedProcessCallbackScheduling { cell: cells.allocate(value) }
    }

    /// A handle to an unused schedule of its own.
    pub fn new(cells: &mut SharedCells<ProcessCallbackScheduling>) -> (handle: Self)
        ensures
            handle.id() == old(cells)@.len(),
            crate::cells::cells_extend(old(cells)@, final(cells)@),
            final(cells)@.len() == old(cells)@.len() + 1,
            handle.value(final(cells)).pristine(),
    {
        SharedProcessCallbackScheduling { cell: cells.allocate(ProcessCallbackScheduling::new()) }
    }

    /// Another handle to the same cell.
    pub fn shared_handle(&self) -> (handle: Self)
        ensures
            handle.id() == self.id(),
    {
        SharedProcessCallbackScheduling { cell: self.cell.shared_handle() }
    }

    /// Whether two handles name one cell.
    pub fn ptr_eq(&self, other: &Self) -> (same: bool)
        ensures
            same == (self.id() == other.id()),
    {
        self.cell.ptr_eq(&other.cell)
    }

    /// A copy in a cell of its own.
    pub fn detached_clone(&self, cells: &mut SharedCells<ProcessCallbackScheduling>) -> (copy: Self)
        requires
            self.valid(old(cells)),
        ensures
            copy.id() == old(cells)@.len(),
            crate::cells::cells_extend(old(cells)@, final(cells)@),
            final(cells)@.len() == old(cells)@.len() + 1,
            self.value(old(cells)).same(&final(cells)@[copy.id()]),
    {
        SharedProcessCallbackScheduling { cell: self.cell.detached_clone(cells) }
    }

    /// Share the process's cell, which takes this one's contents over where
    /// it has none. At most one of the two may have contents.
    pub fn attach_to(&mut self, cells: &mut SharedCells<ProcessCallbackScheduling>, process_state: &Self)
        requires
            old(self).valid(old(cells)),
            process_state.valid(old(cells)),
            crate::cells::attachable(
                old(cells)@,
                old(self).id(),
                process_state.id(),
                |value: ProcessCallbackScheduling| SharedProcessCallbackScheduling::pristine(value),
            ),
        ensures
            final(self).id() == process_state.id(),
            crate::cells::joined(
                old(cells)@,
                final(cells)@,
                old(self).id(),
                process_state.id(),
                SharedProcessCallbackScheduling::pristine(process_state.value(old(cells))),
            ),
    {
        let is_pristine = |value: &ProcessCallbackScheduling| -> (pristine: bool)
            ensures
                pristine == SharedProcessCallbackScheduling::pristine(*value),
            { value.is_pristine() };
        self.cell.attach_to(cells, &process_state.cell, is_pristine);
    }

    pub fn is_pristine(&self, cells: &SharedCells<ProcessCallbackScheduling>) -> (pristine: bool)
        requires
            self.valid(cells),
        ensures
            pristine == SharedProcessCallbackScheduling::pristine(self.value(cells)),
    {
        let value = cells.get(&self.cell);
        value.is_pristine()
    }
}

impl SharedProcessCallbackScheduling {
    /// A copy of the schedule.
    pub fn snapshot(&self, cells: &SharedCells<ProcessCallbackScheduling>) -> (state:
        ProcessCallbackScheduling)
        requires
            self.valid(cells),
        ensures
            self.value(cells).same(&state),
    {
        cells.get(&self.cell).copy_value()
    }

    pub fn current_subtick(&self, cells: &SharedCells<ProcessCallbackScheduling>) -> (result: u64)
        requires
            self.valid(cells),
        ensures
            result == self.value(cells).current_subtick,
    {
        cells.get(&self.cell).current_subtick
    }

    pub fn set_current_subtick(&self, cells: &mut SharedCells<ProcessCallbackScheduling>, subtick: u64)
        requires
            self.valid(old(cells)),
        ensures
            crate::cells::only_cell_changed(old(cells)@, final(cells)@, self.id()),
            self.value(final(cells)) == (ProcessCallbackScheduling {
                current_subtick: subtick,
                ..self.value(old(cells))
            }),
    {
        cells.get_mut(&self.cell).current_subtick = subtick;
    }

    /// Move the clock on to a moment, unless it is past that already.
    pub fn advance_current_subtick_min(
        &self,
        cells: &mut SharedCells<ProcessCallbackScheduling>,
        min_subtick: u64,
    ) -> (subtick: u64)
        requires
            self.valid(old(cells)),
        ensures
            crate::cells::only_cell_changed(old(cells)@, final(cells)@, self.id()),
            subtick == (if self.value(old(cells)).current_subtick < min_subtick {
                min_subtick
            } else {
                self.value(old(cells)).current_subtick
            }),
            self.value(final(cells)) == (ProcessCallbackScheduling {
                current_subtick: subtick,
                ..self.value(old(cells))
            }),
    {
        let scheduling = cells.get_mut(&self.cell);
        if scheduling.current_subtick < min_subtick {
            scheduling.current_subtick = min_subtick;
        }
        scheduling.current_subtick
    }

    /// When a task wakes up, where it is extended.
    pub fn extended_wakeup(&self, cells: &SharedCells<ProcessCallbackScheduling>, task_ptr: u32) -> (
    wakeup: Option<u64>)
        requires
            self.valid(cells),
        ensures
            wakeup == crate::process_map::map_get(self.value(cells).extended_wakeups@, task_ptr),
    {
        match cells.get(&self.cell).extended_wakeups.get(&task_ptr) {
            Some(wakeup) => Some(*wakeup),
            None => None,
        }
    }

    pub fn set_extended_wakeup(&self, cells: &mut SharedCells<ProcessCallbackScheduling>, task_ptr: u32, wakeup: u64)
        requires
            self.valid(old(cells)),
        ensures
            crate::cells::only_cell_changed(old(cells)@, final(cells)@, self.id()),
            self.value(final(cells)).extended_wakeups@ == self.value(old(cells)).extended_wakeups@.insert(
                task_ptr,
                wakeup,
            ),
            self.value(final(cells)) == (ProcessCallbackScheduling {
                extended_wakeups: self.value(final(cells)).extended_wakeups,
                ..self.value(old(cells))
            }),
    {
        let _ = cells.get_mut(&self.cell).extended_wakeups.insert(task_ptr, wakeup);
    }

    pub fn remove_extended_wakeup(&self, cells: &mut SharedCells<ProcessCallbackScheduling>, task_ptr: u32) -> (result: Option<u64>)
        requires
            self.valid(old(cells)),
        ensures
            crate::cells::only_cell_changed(old(cells)@, final(cells)@, self.id()),
            self.value(final(cells)).extended_wakeups@ == self.value(old(cells)).extended_wakeups@.remove(task_ptr),
            self.value(final(cells)) == (ProcessCallbackScheduling {
                extended_wakeups: self.value(final(cells)).extended_wakeups,
                ..self.value(old(cells))
            }),
            result == crate::process_map::map_get(self.value(old(cells)).extended_wakeups@, task_ptr),
    {
        cells.get_mut(&self.cell).extended_wakeups.remove(&task_ptr)
    }

    pub fn system_vbl_queue_anchor(&self, cells: &SharedCells<ProcessCallbackScheduling>) -> (result: u32)
        requires
            self.valid(cells),
        ensures
            result == self.value(cells).system_vbl_queue_anchor,
    {
        cells.get(&self.cell).system_vbl_queue_anchor
    }

    pub fn set_system_vbl_queue_anchor(&self, cells: &mut SharedCells<ProcessCallbackScheduling>, anchor: u32)
        requires
            self.valid(old(cells)),
        ensures
            crate::cells::only_cell_changed(old(cells)@, final(cells)@, self.id()),
            self.value(final(cells)) == (ProcessCallbackScheduling {
                system_vbl_queue_anchor: anchor,
                ..self.value(old(cells))
            }),
    {
        cells.get_mut(&self.cell).system_vbl_queue_anchor = anchor;
    }

    pub fn primary_vbl_slot(&self, cells: &SharedCells<ProcessCallbackScheduling>) -> (result: i16)
        requires
            self.valid(cells),
        ensures
            result == self.value(cells).primary_vbl_slot,
    {
        cells.get(&self.cell).primary_vbl_slot
    }

    pub fn set_primary_vbl_slot(&self, cells: &mut SharedCells<ProcessCallbackScheduling>, slot: i16)
        requires
            self.valid(old(cells)),
        ensures
            crate::cells::only_cell_changed(old(cells)@, final(cells)@, self.id()),
            self.value(final(cells)) == (ProcessCallbackScheduling {
                primary_vbl_slot: slot,
                ..self.value(old(cells))
            }),
    {
        cells.get_mut(&self.cell).primary_vbl_slot = slot;
    }

    /// Start the schedule anew.
    pub fn reset(&self, cells: &mut SharedCells<ProcessCallbackScheduling>)
        requires
            self.valid(old(cells)),
        ensures
            crate::cells::only_cell_changed(old(cells)@, final(cells)@, self.id()),
            self.value(final(cells)).pristine(),
    {
        cells.set(&self.cell, ProcessCallbackScheduling::new());
    }

}

/// The gateway and stack that a call into 68K code uses.
#[derive(Clone, Copy, Debug, PartialEq, Eq, Structural)]
pub struct ProcessMixedModeM68kState {
    pub gateway: u32,
    pub stack_top: u32,
}

/// The 68K call state of a process.
pub struct SharedProcessMixedModeM68kState {
    pub cell: SharedProcessValue<ProcessMixedModeM68kState>,
}

impl SharedProcessMixedModeM68kState {
    pub open spec fn id(&self) -> int {
        self.cell.id()
    }

    /// The handle names a cell of the store.
    pub open spec fn valid(&self, cells: &SharedCells<ProcessMixedModeM68kState>) -> bool {
        self.cell.valid(cells@)
    }

    /// What the cell holds.
    pub open spec fn value(&self, cells: &SharedCells<ProcessMixedModeM68kState>) -> ProcessMixedModeM68kState {
        cells@[self.cell.id()]
    }

    /// A value that an attachment may replace.
    pub open spec fn pristine(value: ProcessMixedModeM68kState) -> bool {
        value.gateway == 0 && value.stack_top == 0
    }

    pub fn from_value(cells: &mut SharedCells<ProcessMixedModeM68kState>, value: ProcessMixedModeM68kState) -> (handle: Self)
        ensures
            handle.id() == old(cells)@.len(),
            final(cells)@ == old(cells)@.push(value),
    {
        SharedProcessMixedModeM68kState { cell: cells.allocate(value) }
    }

    /// A handle to an unused state of its own.
    pub fn new(cells: &mut SharedCells<ProcessMixedModeM68kState>) -> (handle: Self)
        ensures
            handle.id() == old(cells)@.len(),
            crate::cells::cells_extend(old(cells)@, final(cells)@),
            final(cells)@.len() == old(cells)@.len() + 1,
            SharedProcessMixedModeM68kState::pristine(handle.value(final(cells))),
    {
        SharedProcessMixedModeM68kState { cell: cells.allocate(ProcessMixedModeM68kState { gateway: 0, stack_top: 0 }) }
    }

    /// Another handle to the same cell.
    pub fn shared_handle(&self) -> (handle: Self)
        ensures
            handle.id() == self.id(),
    {
        SharedProcessMixedModeM68kState { cell: self.cell.shared_handle() }
    }

    /// Whether two handles name one cell.
    pub fn ptr_eq(&self, other: &Self) -> (same: bool)
        ensures
            same == (self.id() == other.id()),
    {
        self.cell.ptr_eq(&other.cell)
    }

    /// A copy in a cell of its own.
    pub fn detached_clone(&self, cells: &mut SharedCells<ProcessMixedModeM68kState>) -> (copy: Self)
        requires
            self.valid(old(cells)),
        ensures
            copy.id() == old(cells)@.len(),
            final(cells)@ == old(cells)@.push(self.value(old(cells))),
    {
        let value = *cells.get(&self.cell);
        SharedProcessMixedModeM68kState { cell: cells.allocate(value) }
    }

    /// Share the process's cell. Where only this one is no longer pristine,
    /// the process takes its value over; two such values have to agree.
    pub fn attach_to(&mut self, cells: &mut SharedCells<ProcessMixedModeM68kState>, process_state: &Self)
        requires
            old(self).valid(old(cells)),
            process_state.valid(old(cells)),
            crate::cells::copies_attachable(
                old(cells)@,
                old(self).id(),
                process_state.id(),
                |value: ProcessMixedModeM68kState| SharedProcessMixedModeM68kState::pristine(value),
            ),
        ensures
            final(self).id() == process_state.id(),
            final(cells)@ == crate::cells::copies_joined(
                old(cells)@,
                old(self).id(),
                process_state.id(),
                |value: ProcessMixedModeM68kState| SharedProcessMixedModeM68kState::pristine(value),
            ),
    {
        let is_pristine = |value: &ProcessMixedModeM68kState| -> (pristine: bool)
            ensures
                pristine == SharedProcessMixedModeM68kState::pristine(*value),
            { value.gateway == 0 && value.stack_top == 0 };
        self.cell.attach_copy_to(cells, &process_state.cell, is_pristine);
    }

    pub fn is_pristine(&self, cells: &SharedCells<ProcessMixedModeM68kState>) -> (pristine: bool)
        requires
            self.valid(cells),
        ensures
            pristine == SharedProcessMixedModeM68kState::pristine(self.value(cells)),
    {
        let value = cells.get(&self.cell);
        value.gateway == 0 && value.stack_top == 0
    }
}

impl SharedProcessMixedModeM68kState {
    pub fn storage_pair(&self, cells: &SharedCells<ProcessMixedModeM68kState>) -> (result: (u32, u32))
        requires
            self.valid(cells),
        ensures
            result == (self.value(cells).gateway, self.value(cells).stack_top),
    {
        let state = cells.get(&self.cell);
        (state.gateway, state.stack_top)
    }

    pub fn snapshot(&self, cells: &SharedCells<ProcessMixedModeM68kState>) -> (result: ProcessMixedModeM68kState)
        requires
            self.valid(cells),
        ensures
            result == self.value(cells),
    {
        *cells.get(&self.cell)
    }

    pub fn set_storage(&self, cells: &mut SharedCells<ProcessMixedModeM68kState>, gateway: u32, stack_top: u32)
        requires
            self.valid(old(cells)),
        ensures
            final(cells)@ == old(cells)@.update(self.id(), (ProcessMixedModeM68kState { gateway, stack_top })),
    {
        cells.set(&self.cell, ProcessMixedModeM68kState { gateway, stack_top });
    }

    pub fn restore_snapshot(&self, cells: &mut SharedCells<ProcessMixedModeM68kState>, snapshot: ProcessMixedModeM68kState)
        requires
            self.valid(old(cells)),
        ensures
            final(cells)@ == old(cells)@.update(self.id(), snapshot),
    {
        cells.set(&self.cell, snapshot);
    }

}

} // verus!
