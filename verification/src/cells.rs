//! Stores of shared process values and the handles that name their cells.

use core::marker::PhantomData;
use vstd::prelude::*;

verus! {

/// A value that can live in a shared cell: it has a default.
pub trait CellDefault: Sized {
    /// Whether this is the value of a freshly created cell.
    spec fn is_default(&self) -> bool;

    fn default_value() -> (value: Self)
        ensures
            value.is_default(),
    ;
}

/// A value that can be copied into a cell of its own.
pub trait CellValue: CellDefault {
    /// Whether `other` holds the same contents.
    spec fn same(&self, other: &Self) -> bool;

    fn copy_value(&self) -> (copy: Self)
        ensures
            self.same(&copy),
    ;
}

/// The cells of one type that the adapters of a process share.
pub struct SharedCells<T> {
    cells: Vec<T>,
}

/// A handle to one cell. Two handles with one identity observe one value.
pub struct SharedProcessValue<T> {
    index: usize,
    marker: PhantomData<T>,
}

/// `new` differs from `old` in the contents of cell `id` at most.
pub open spec fn only_cell_changed<T>(old: Seq<T>, new: Seq<T>, id: int) -> bool {
    &&& new.len() == old.len()
    &&& forall|other: int| 0 <= other < old.len() && other != id ==> #[trigger] new[other] == old[other]
}

/// `new` holds the cells of `old`, unchanged, and maybe more.
pub open spec fn cells_extend<T>(old: Seq<T>, new: Seq<T>) -> bool {
    &&& old.len() <= new.len()
    &&& forall|id: int| 0 <= id < old.len() ==> #[trigger] new[id] == old[id]
}

/// The handle of a cell.
pub closed spec fn handle_of<T>(id: int) -> SharedProcessValue<T> {
    SharedProcessValue { index: id as usize, marker: PhantomData }
}

pub proof fn lemma_handle_of<T>(handle: SharedProcessValue<T>)
    ensures
        handle_of::<T>(handle.id()) == handle,
{
}

/// The handle of a cell names the cell.
pub proof fn lemma_handle_of_id<T>(id: int)
    requires
        0 <= id <= usize::MAX,
    ensures
        handle_of::<T>(id).id() == id,
{
}

impl<T> SharedCells<T> {
    pub closed spec fn view(&self) -> Seq<T> {
        self.cells@
    }

    /// A store without cells.
    pub fn new() -> (store: Self)
        ensures
            store@ == Seq::<T>::empty(),
    {
        SharedCells { cells: Vec::new() }
    }

    /// Open a cell of its own for `value`.
    pub fn allocate(&mut self, value: T) -> (handle: SharedProcessValue<T>)
        ensures
            final(self)@ == old(self)@.push(value),
            handle.id() == old(self)@.len(),
    {
        let index: usize = self.cells.len();
        self.cells.push(value);
        SharedProcessValue { index, marker: PhantomData }
    }

    /// Read a cell.
    pub fn get(&self, handle: &SharedProcessValue<T>) -> (value: &T)
        requires
            handle.valid(self@),
        ensures
            *value == self@[handle.id()],
    {
        &self.cells[handle.index]
    }

    /// Write through a cell; no other cell changes.
    pub fn get_mut(&mut self, handle: &SharedProcessValue<T>) -> (value: &mut T)
        requires
            handle.valid(old(self)@),
        ensures
            *value == old(self)@[handle.id()],
            final(self)@ == old(self)@.update(handle.id(), *final(value)),
    {
        &mut self.cells[handle.index]
    }

    /// Replace a cell's value.
    pub fn set(&mut self, handle: &SharedProcessValue<T>, value: T)
        requires
            handle.valid(old(self)@),
        ensures
            final(self)@ == old(self)@.update(handle.id(), value),
    {
        self.cells.set(handle.index, value);
    }
}

impl<T> SharedProcessValue<T> {
    /// The identity of the cell.
    pub closed spec fn id(&self) -> int {
        self.index as int
    }

    /// The cell exists in a store with these cells.
    pub open spec fn valid(&self, cells: Seq<T>) -> bool {
        0 <= self.id() < cells.len()
    }

    /// The identity of the cell as a number.
    pub fn index(&self) -> (index: usize)
        ensures
            index == self.id(),
    {
        self.index
    }

    /// Another handle to the same cell.
    pub fn shared_handle(&self) -> (handle: Self)
        ensures
            handle.id() == self.id(),
    {
        SharedProcessValue { index: self.index, marker: PhantomData }
    }

    /// Whether two handles name one cell.
    pub fn ptr_eq(&self, other: &Self) -> (same: bool)
        ensures
            same == (self.id() == other.id()),
    {
        self.index == other.index
    }
}

impl<T> SharedProcessValue<T> {
    /// A handle to a new cell with a value.
    pub fn from_value(cells: &mut SharedCells<T>, value: T) -> (handle: Self)
        ensures
            final(cells)@ == old(cells)@.push(value),
            handle.id() == old(cells)@.len(),
    {
        cells.allocate(value)
    }

    /// Read the value during one operation.
    pub fn with_ref<R>(&self, cells: &SharedCells<T>, operation: impl FnOnce(&T) -> R) -> (result: R)
        requires
            self.valid(cells@),
            call_requires(operation, (&cells@[self.id()],)),
        ensures
            call_ensures(operation, (&cells@[self.id()],), result),
    {
        operation(cells.get(self))
    }

    /// Change the value during one operation.
    pub fn with_mut<R>(&self, cells: &mut SharedCells<T>, operation: impl FnOnce(&mut T) -> R) -> (
    result: R)
        requires
            self.valid(old(cells)@),
            forall|value: &mut T|
                *value == old(cells)@[self.id()] ==> call_requires(operation, (value,)),
        ensures
            exists|value: &mut T|
                #![trigger call_ensures(operation, (value,), result)]
                *value == old(cells)@[self.id()] && call_ensures(operation, (value,), result)
                    && final(cells)@ == old(cells)@.update(self.id(), *final(value)),
    {
        operation(cells.get_mut(self))
    }

    /// Put another value into the cell; the result is the one before.
    pub fn replace(&self, cells: &mut SharedCells<T>, value: T) -> (previous: T)
        requires
            self.valid(old(cells)@),
        ensures
            previous == old(cells)@[self.id()],
            final(cells)@ == old(cells)@.update(self.id(), value),
    {
        let mut previous = value;
        core::mem::swap(&mut previous, cells.get_mut(self));
        previous
    }
}

/// Two values joined: `process` is what the shared cell holds afterwards and
/// `adapter` what the cell that was left behind holds, where `empty` tells
/// whether the shared cell had nothing to keep.
pub open spec fn joined<T: CellDefault>(
    before: Seq<T>,
    after: Seq<T>,
    adapter: int,
    process: int,
    empty: bool,
) -> bool {
    if adapter == process || !empty {
        after == before
    } else {
        &&& after.len() == before.len()
        &&& after[process] == before[adapter]
        &&& after[adapter].is_default()
        &&& forall|other: int|
            0 <= other < before.len() && other != process && other != adapter ==> #[trigger] after[other]
                == before[other]
    }
}

/// Two handles can share one cell: at most one of their cells has contents.
pub open spec fn attachable<T>(cells: Seq<T>, own: int, process: int, pristine: spec_fn(T) -> bool) -> bool {
    own == process || pristine(cells[own]) || pristine(cells[process])
}

/// Two handles of plain values can share one cell: at most one of their
/// values has left the pristine state, or the two agree.
pub open spec fn copies_attachable<T>(
    cells: Seq<T>,
    own: int,
    process: int,
    pristine: spec_fn(T) -> bool,
) -> bool {
    own == process || cells[own] == cells[process] || pristine(cells[own]) || pristine(cells[process])
}

/// The cells after the handle of `own` has joined the cell `process`.
pub open spec fn copies_joined<T>(
    cells: Seq<T>,
    own: int,
    process: int,
    pristine: spec_fn(T) -> bool,
) -> Seq<T> {
    if own != process && pristine(cells[process]) && !pristine(cells[own]) {
        cells.update(process, cells[own])
    } else {
        cells
    }
}

impl<T: CellValue> SharedProcessValue<T> {
    /// A copy of the value in a cell of its own.
    pub fn detached_clone(&self, cells: &mut SharedCells<T>) -> (copy: Self)
        requires
            self.valid(old(cells)@),
        ensures
            copy.id() == old(cells)@.len(),
            cells_extend(old(cells)@, final(cells)@),
            final(cells)@.len() == old(cells)@.len() + 1,
            old(cells)@[self.id()].same(&final(cells)@[copy.id()]),
    {
        let value = cells.get(self).copy_value();
        cells.allocate(value)
    }
}

impl<T: CellDefault> SharedProcessValue<T> {
    /// A handle to a new cell with the default value.
    pub fn new_default(cells: &mut SharedCells<T>) -> (handle: Self)
        ensures
            handle.id() == old(cells)@.len(),
            cells_extend(old(cells)@, final(cells)@),
            final(cells)@.len() == old(cells)@.len() + 1,
            final(cells)@[handle.id()].is_default(),
    {
        cells.allocate(T::default_value())
    }

    /// Take the value out and leave the default in its place.
    pub fn take(&self, cells: &mut SharedCells<T>) -> (value: T)
        requires
            self.valid(old(cells)@),
        ensures
            value == old(cells)@[self.id()],
            only_cell_changed(old(cells)@, final(cells)@, self.id()),
            final(cells)@[self.id()].is_default(),
    {
        self.replace(cells, T::default_value())
    }

    /// Share the process's cell. A process cell without contents takes this
    /// one's over; at most one of the two may have contents.
    pub fn attach_to(
        &mut self,
        cells: &mut SharedCells<T>,
        process_value: &Self,
        is_empty: impl Fn(&T) -> bool,
    )
        requires
            old(self).valid(old(cells)@),
            process_value.valid(old(cells)@),
            forall|value: &T| call_requires(is_empty, (value,)),
            old(self).id() != process_value.id() ==> forall|own: bool, process: bool|
                call_ensures(is_empty, (&old(cells)@[old(self).id()],), own) && call_ensures(
                    is_empty,
                    (&old(cells)@[process_value.id()],),
                    process,
                ) ==> own || process,
        ensures
            final(self).id() == process_value.id(),
            final(self).id() != old(self).id() ==> exists|empty: bool|
                call_ensures(is_empty, (&old(cells)@[process_value.id()],), empty) && joined(
                    old(cells)@,
                    final(cells)@,
                    old(self).id(),
                    process_value.id(),
                    empty,
                ),
            final(self).id() == old(self).id() ==> final(cells)@ == old(cells)@,
    {
        if self.ptr_eq(process_value) {
            return;
        }
        let empty = is_empty(cells.get(process_value));
        if empty {
            let value = self.take(cells);
            cells.set(process_value, value);
        }
        assert(joined(old(cells)@, cells@, old(self).id(), process_value.id(), empty));
        *self = process_value.shared_handle();
    }
}

impl<T: Copy> SharedProcessValue<T> {
    /// Share the process's cell, which takes this value over where only this
    /// one is not pristine. Two values that are not pristine have to agree.
    pub fn attach_copy_to(
        &mut self,
        cells: &mut SharedCells<T>,
        process_value: &Self,
        is_pristine: impl Fn(&T) -> bool,
    )
        requires
            old(self).valid(old(cells)@),
            process_value.valid(old(cells)@),
            forall|value: &T| call_requires(is_pristine, (value,)),
            old(self).id() != process_value.id() && old(cells)@[old(self).id()] != old(
                cells,
            )@[process_value.id()] ==> forall|own: bool, process: bool|
                call_ensures(is_pristine, (&old(cells)@[old(self).id()],), own) && call_ensures(
                    is_pristine,
                    (&old(cells)@[process_value.id()],),
                    process,
                ) ==> own || process,
        ensures
            final(self).id() == process_value.id(),
            final(self).id() == old(self).id() ==> final(cells)@ == old(cells)@,
            final(self).id() != old(self).id() ==> exists|own: bool, process: bool|
                #![trigger call_ensures(is_pristine, (&old(cells)@[old(self).id()],), own), call_ensures(is_pristine, (&old(cells)@[process_value.id()],), process)]
                call_ensures(is_pristine, (&old(cells)@[old(self).id()],), own) && call_ensures(
                    is_pristine,
                    (&old(cells)@[process_value.id()],),
                    process,
                ) && final(cells)@ == (if process && !own {
                    old(cells)@.update(process_value.id(), old(cells)@[old(self).id()])
                } else {
                    old(cells)@
                }),
    {
        if self.ptr_eq(process_value) {
            return;
        }
        let own = is_pristine(cells.get(self));
        let process = is_pristine(cells.get(process_value));
        if process && !own {
            let value = *cells.get(self);
            cells.set(process_value, value);
        }
        *self = process_value.shared_handle();
    }

    /// Share the process's cell, which takes this value over.
    pub fn activate_copy_to(&mut self, cells: &mut SharedCells<T>, process_value: &Self)
        requires
            old(self).valid(old(cells)@),
            process_value.valid(old(cells)@),
        ensures
            final(self).id() == process_value.id(),
            final(cells)@ == old(cells)@.update(process_value.id(), old(cells)@[old(self).id()]),
    {
        if self.ptr_eq(process_value) {
            assert(cells@.update(process_value.id(), cells@[self.id()]) =~= cells@);
            return;
        }
        let value = *cells.get(self);
        cells.set(process_value, value);
        *self = process_value.shared_handle();
    }
}

/// Handles of one cell observe each other's changes, and handles of another
/// cell do not.
pub proof fn shared_handles_observe_one_value<T>(
    writer: &SharedProcessValue<T>,
    shared: &SharedProcessValue<T>,
    detached: &SharedProcessValue<T>,
    before: Seq<T>,
    value: T,
)
    requires
        writer.valid(before),
        detached.valid(before),
        shared.id() == writer.id(),
        detached.id() != writer.id(),
    ensures
        before.update(writer.id(), value)[shared.id()] == value,
        before.update(writer.id(), value)[detached.id()] == before[detached.id()],
{
}

} // verus!
