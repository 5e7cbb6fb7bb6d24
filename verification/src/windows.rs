//! The window list that the adapters of a process share.

use crate::cells::{CellValue, SharedCells, SharedProcessValue};
use crate::lists::retain_list;
use vstd::prelude::*;

verus! {

/// A list without one window; the others keep their order.
pub open spec fn without_window(windows: Seq<u32>, window: u32) -> Seq<u32>
    decreases windows.len(),
{
    if windows.len() == 0 {
        windows
    } else if windows.last() == window {
        without_window(windows.drop_last(), window)
    } else {
        without_window(windows.drop_last(), window).push(windows.last())
    }
}

/// The first position of a window, or the length of a list without it.
pub open spec fn window_position(windows: Seq<u32>, window: u32) -> int
    decreases windows.len(),
{
    if windows.len() == 0 {
        0
    } else if windows[0] == window {
        0
    } else {
        1 + window_position(windows.skip(1), window)
    }
}

/// A window moved in front of all others.
pub open spec fn brought_to_front(windows: Seq<u32>, window: u32) -> Seq<u32> {
    seq![window] + without_window(windows, window)
}

/// A window moved directly behind another one, or to the end where the other
/// is null or not in the list.
pub open spec fn sent_behind(windows: Seq<u32>, window: u32, behind: u32) -> Seq<u32> {
    let rest = without_window(windows, window);
    let position = window_position(rest, behind);
    if behind == 0 || position == rest.len() {
        rest.push(window)
    } else {
        rest.insert(position + 1, window)
    }
}

/// A window moved to the front, or behind another one.
pub open spec fn reordered(windows: Seq<u32>, window: u32, behind: u32, front: bool) -> Seq<u32> {
    if front || behind == u32::MAX {
        brought_to_front(windows, window)
    } else {
        sent_behind(windows, window, behind)
    }
}

pub proof fn lemma_without_window(windows: Seq<u32>, window: u32)
    ensures
        without_window(windows, window).len() <= windows.len(),
        !without_window(windows, window).contains(window),
        forall|other: u32|
            other != window ==> (#[trigger] without_window(windows, window).contains(other)
                == windows.contains(other)),
        !windows.contains(window) ==> without_window(windows, window) == windows,
    decreases windows.len(),
{
    if windows.len() > 0 {
        let shorter = windows.drop_last();
        lemma_without_window(shorter, window);
        let rest = without_window(shorter, window);
        let all = without_window(windows, window);
        assert forall|other: u32| other != window implies (#[trigger] all.contains(other)
            == windows.contains(other)) by {
            assert(rest.contains(other) == shorter.contains(other));
            if windows.contains(other) && windows.last() != other {
                let i = choose|i: int| 0 <= i < windows.len() && windows[i] == other;
                assert(shorter[i] == other);
                let j = choose|j: int| 0 <= j < rest.len() && rest[j] == other;
                assert(all[j] == other);
            }
            if windows.last() == other {
                assert(all.last() == other);
                assert(windows[windows.len() - 1] == other);
            }
            if all.contains(other) {
                let i = choose|i: int| 0 <= i < all.len() && all[i] == other;
                if i < rest.len() {
                    assert(rest[i] == other);
                    let j = choose|j: int| 0 <= j < shorter.len() && shorter[j] == other;
                    assert(windows[j] == other);
                }
            }
        }
        if all.contains(window) {
            let i = choose|i: int| 0 <= i < all.len() && all[i] == window;
            if i < rest.len() {
                assert(rest[i] == window);
            }
        }
        if !windows.contains(window) {
            assert(windows[windows.len() - 1] != window);
            if shorter.contains(window) {
                let j = choose|j: int| 0 <= j < shorter.len() && shorter[j] == window;
                assert(windows[j] == window);
            }
            assert(all =~= windows);
        }
    }
}

pub proof fn lemma_window_position(windows: Seq<u32>, window: u32)
    ensures
        0 <= window_position(windows, window) <= windows.len(),
        window_position(windows, window) < windows.len() ==> windows[window_position(
            windows,
            window,
        )] == window,
        forall|i: int| 0 <= i < window_position(windows, window) ==> (#[trigger] windows[i]) != window,
        windows.contains(window) == (window_position(windows, window) < windows.len()),
    decreases windows.len(),
{
    if windows.len() > 0 && windows[0] != window {
        let rest = windows.skip(1);
        lemma_window_position(rest, window);
        let position = window_position(windows, window);
        assert forall|i: int| 0 <= i < position implies (#[trigger] windows[i]) != window by {
            if i > 0 {
                assert(rest[i - 1] == windows[i]);
            }
        }
        if position < windows.len() {
            assert(rest[position - 1] == windows[position]);
        }
    }
}

proof fn lemma_position_at(windows: Seq<u32>, window: u32, at: int)
    requires
        0 <= at < windows.len(),
        windows[at] == window,
        forall|i: int| 0 <= i < at ==> (#[trigger] windows[i]) != window,
    ensures
        window_position(windows, window) == at,
{
    lemma_window_position(windows, window);
    let position = window_position(windows, window);
    if position < at {
        assert(windows[position] != window);
    } else if at < position {
        assert(windows[at] != window);
    }
}

fn remove_all(windows: &mut Vec<u32>, window: u32)
    ensures
        final(windows)@ == without_window(old(windows)@, window),
{
    let ghost before = windows@;
    let mut kept: Vec<u32> = Vec::new();
    let count: usize = windows.len();
    let mut i: usize = 0;
    while i < count
        invariant
            i <= count,
            count == before.len(),
            windows@ == before,
            kept@ == without_window(before.take(i as int), window),
        decreases count - i,
    {
        assert(before.take(i + 1).drop_last() =~= before.take(i as int));
        let candidate: u32 = windows[i];
        if candidate != window {
            kept.push(candidate);
        }
        i += 1;
    }
    assert(before.take(count as int) =~= before);
    *windows = kept;
}

fn position_of(windows: &Vec<u32>, window: u32) -> (position: usize)
    ensures
        position == window_position(windows@, window),
        position <= windows@.len(),
{
    proof {
        lemma_window_position(windows@, window);
    }
    let count: usize = windows.len();
    let mut i: usize = 0;
    while i < count
        invariant
            i <= count,
            count == windows@.len(),
            forall|j: int| 0 <= j < i ==> (#[trigger] windows@[j]) != window,
        decreases count - i,
    {
        if windows[i] == window {
            proof {
                lemma_position_at(windows@, window, i as int);
            }
            return i;
        }
        i += 1;
    }
    count
}

/// The windows of a process, the front one first.
pub struct SharedProcessWindowList {
    pub cell: SharedProcessValue<Vec<u32>>,
}

impl SharedProcessWindowList {
    pub open spec fn id(&self) -> int {
        self.cell.id()
    }

    /// The handle names a cell of the store.
    pub open spec fn valid(&self, cells: &SharedCells<Vec<u32>>) -> bool {
        self.cell.valid(cells@)
    }

    /// What the cell holds.
    pub open spec fn value(&self, cells: &SharedCells<Vec<u32>>) -> Vec<u32> {
        cells@[self.cell.id()]
    }

    /// A value that an attachment may replace.
    pub open spec fn pristine(value: Vec<u32>) -> bool {
        value@.len() == 0
    }

    pub fn from_value(cells: &mut SharedCells<Vec<u32>>, value: Vec<u32>) -> (handle: Self)
        ensures
            handle.id() == old(cells)@.len(),
            final(cells)@ == old(cells)@.push(value),
    {
        SharedProcessWindowList { cell: cells.allocate(value) }
    }

    /// A handle to an empty list of its own.
    pub fn new(cells: &mut SharedCells<Vec<u32>>) -> (handle: Self)
        ensures
            handle.id() == old(cells)@.len(),
            crate::cells::cells_extend(old(cells)@, final(cells)@),
            final(cells)@.len() == old(cells)@.len() + 1,
            handle.windows_view(final(cells)) == Seq::<u32>::empty(),
    {
        SharedProcessWindowList { cell: cells.allocate(Vec::new()) }
    }

    /// Another handle to the same cell.
    pub fn shared_handle(&self) -> (handle: Self)
        ensures
            handle.id() == self.id(),
    {
        SharedProcessWindowList { cell: self.cell.shared_handle() }
    }

    /// Whether two handles name one cell.
    pub fn ptr_eq(&self, other: &Self) -> (same: bool)
        ensures
            same == (self.id() == other.id()),
    {
        self.cell.ptr_eq(&other.cell)
    }

    /// A copy in a cell of its own.
    pub fn detached_clone(&self, cells: &mut SharedCells<Vec<u32>>) -> (copy: Self)
        requires
            self.valid(old(cells)),
        ensures
            copy.id() == old(cells)@.len(),
            crate::cells::cells_extend(old(cells)@, final(cells)@),
            final(cells)@.len() == old(cells)@.len() + 1,
            self.value(old(cells)).same(&final(cells)@[copy.id()]),
    {
        SharedProcessWindowList { cell: self.cell.detached_clone(cells) }
    }

    /// Share the process's cell, which takes this one's contents over where
    /// it has none. At most one of the two may have contents.
    pub fn attach_to(&mut self, cells: &mut SharedCells<Vec<u32>>, process_state: &Self)
        requires
            old(self).valid(old(cells)),
            process_state.valid(old(cells)),
            crate::cells::attachable(
                old(cells)@,
                old(self).id(),
                process_state.id(),
                |value: Vec<u32>| SharedProcessWindowList::pristine(value),
            ),
        ensures
            final(self).id() == process_state.id(),
            crate::cells::joined(
                old(cells)@,
                final(cells)@,
                old(self).id(),
                process_state.id(),
                SharedProcessWindowList::pristine(process_state.value(old(cells))),
            ),
    {
        let is_pristine = |value: &Vec<u32>| -> (pristine: bool)
            ensures
                pristine == SharedProcessWindowList::pristine(*value),
            { value.len() == 0 };
        self.cell.attach_to(cells, &process_state.cell, is_pristine);
    }

    pub fn is_pristine(&self, cells: &SharedCells<Vec<u32>>) -> (pristine: bool)
        requires
            self.valid(cells),
        ensures
            pristine == SharedProcessWindowList::pristine(self.value(cells)),
    {
        let value = cells.get(&self.cell);
        value.len() == 0
    }
}

impl SharedProcessWindowList {
    /// The windows from front to back.
    pub open spec fn windows_view(&self, cells: &SharedCells<Vec<u32>>) -> Seq<u32> {
        self.value(cells)@
    }

    /// The windows from front to back.
    pub fn windows(&self, cells: &SharedCells<Vec<u32>>) -> (windows: Vec<u32>)
        requires
            self.valid(cells),
        ensures
            windows@ == self.windows_view(cells),
    {
        let list = cells.get(&self.cell);
        let mut windows: Vec<u32> = Vec::new();
        let count: usize = list.len();
        let mut i: usize = 0;
        while i < count
            invariant
                i <= count,
                count == list@.len(),
                windows@ == list@.take(i as int),
            decreases count - i,
        {
            assert(list@.take(i + 1) =~= list@.take(i as int).push(list@[i as int]));
            windows.push(list[i]);
            i += 1;
        }
        assert(list@.take(count as int) =~= list@);
        windows
    }

    /// The windows from front to back.
    pub fn to_vec(&self, cells: &SharedCells<Vec<u32>>) -> (windows: Vec<u32>)
        requires
            self.valid(cells),
        ensures
            windows@ == self.windows_view(cells),
    {
        self.windows(cells)
    }

    pub fn get(&self, cells: &SharedCells<Vec<u32>>, index: usize) -> (window: Option<u32>)
        requires
            self.valid(cells),
        ensures
            window == (if index < self.windows_view(cells).len() {
                Some(self.windows_view(cells)[index as int])
            } else {
                None
            }),
    {
        let list = cells.get(&self.cell);
        if index < list.len() {
            Some(list[index])
        } else {
            None
        }
    }

    /// The front window.
    pub fn front_window(&self, cells: &SharedCells<Vec<u32>>) -> (window: Option<u32>)
        requires
            self.valid(cells),
        ensures
            window == (if self.windows_view(cells).len() > 0 {
                Some(self.windows_view(cells)[0])
            } else {
                None
            }),
    {
        self.get(cells, 0)
    }

    /// The front window.
    pub fn first(&self, cells: &SharedCells<Vec<u32>>) -> (window: Option<u32>)
        requires
            self.valid(cells),
        ensures
            window == (if self.windows_view(cells).len() > 0 {
                Some(self.windows_view(cells)[0])
            } else {
                None
            }),
    {
        self.front_window(cells)
    }

    pub fn contains_window(&self, cells: &SharedCells<Vec<u32>>, window: u32) -> (present: bool)
        requires
            self.valid(cells),
        ensures
            present == self.windows_view(cells).contains(window),
    {
        let list = cells.get(&self.cell);
        let position: usize = position_of(list, window);
        proof {
            lemma_window_position(list@, window);
        }
        position < list.len()
    }

    pub fn contains(&self, cells: &SharedCells<Vec<u32>>, window: &u32) -> (present: bool)
        requires
            self.valid(cells),
        ensures
            present == self.windows_view(cells).contains(*window),
    {
        self.contains_window(cells, *window)
    }

    pub fn is_empty(&self, cells: &SharedCells<Vec<u32>>) -> (result: bool)
        requires
            self.valid(cells),
        ensures
            result == (self.windows_view(cells).len() == 0),
    {
        cells.get(&self.cell).len() == 0
    }

    pub fn len(&self, cells: &SharedCells<Vec<u32>>) -> (result: usize)
        requires
            self.valid(cells),
        ensures
            result == self.windows_view(cells).len(),
    {
        cells.get(&self.cell).len()
    }

    /// Add a window behind all others.
    pub fn push(&self, cells: &mut SharedCells<Vec<u32>>, window: u32)
        requires
            self.valid(old(cells)),
        ensures
            crate::cells::only_cell_changed(old(cells)@, final(cells)@, self.id()),
            self.windows_view(final(cells)) == self.windows_view(old(cells)).push(window),
    {
        cells.get_mut(&self.cell).push(window);
    }

    pub fn insert(&self, cells: &mut SharedCells<Vec<u32>>, index: usize, window: u32)
        requires
            self.valid(old(cells)),
            index <= self.windows_view(old(cells)).len(),
        ensures
            crate::cells::only_cell_changed(old(cells)@, final(cells)@, self.id()),
            self.windows_view(final(cells)) == self.windows_view(old(cells)).insert(index as int, window),
    {
        cells.get_mut(&self.cell).insert(index, window);
    }

    /// Add windows behind all others.
    pub fn extend(&self, cells: &mut SharedCells<Vec<u32>>, windows: Vec<u32>)
        requires
            self.valid(old(cells)),
        ensures
            crate::cells::only_cell_changed(old(cells)@, final(cells)@, self.id()),
            self.windows_view(final(cells)) == self.windows_view(old(cells)) + windows@,
    {
        let mut windows = windows;
        cells.get_mut(&self.cell).append(&mut windows);
    }

    pub fn clear(&self, cells: &mut SharedCells<Vec<u32>>)
        requires
            self.valid(old(cells)),
        ensures
            crate::cells::only_cell_changed(old(cells)@, final(cells)@, self.id()),
            self.windows_view(final(cells)) == Seq::<u32>::empty(),
    {
        cells.get_mut(&self.cell).clear();
    }

    /// Set the whole list.
    pub fn replace(&self, cells: &mut SharedCells<Vec<u32>>, windows: Vec<u32>)
        requires
            self.valid(old(cells)),
        ensures
            crate::cells::only_cell_changed(old(cells)@, final(cells)@, self.id()),
            self.windows_view(final(cells)) == windows@,
    {
        cells.set(&self.cell, windows);
    }

    /// Remove the window at a position.
    pub fn remove(&self, cells: &mut SharedCells<Vec<u32>>, index: usize) -> (result: u32)
        requires
            self.valid(old(cells)),
            index < self.windows_view(old(cells)).len(),
        ensures
            crate::cells::only_cell_changed(old(cells)@, final(cells)@, self.id()),
            self.windows_view(final(cells)) == self.windows_view(old(cells)).remove(index as int),
            result == self.windows_view(old(cells))[index as int],
    {
        cells.get_mut(&self.cell).remove(index)
    }

    /// Remove the first entry of a window; the result tells whether there was
    /// one.
    pub fn remove_window(&self, cells: &mut SharedCells<Vec<u32>>, window: u32) -> (removed: bool)
        requires
            self.valid(old(cells)),
        ensures
            crate::cells::only_cell_changed(old(cells)@, final(cells)@, self.id()),
            removed == self.windows_view(old(cells)).contains(window),
            self.windows_view(final(cells)) == (if removed {
                self.windows_view(old(cells)).remove(
                    window_position(self.windows_view(old(cells)), window),
                )
            } else {
                self.windows_view(old(cells))
            }),
    {
        let list = cells.get_mut(&self.cell);
        let position: usize = position_of(list, window);
        proof {
            lemma_window_position(list@, window);
        }
        if position < list.len() {
            let _ = list.remove(position);
            true
        } else {
            false
        }
    }

    /// Keep the windows that a predicate accepts.
    pub fn retain(&self, cells: &mut SharedCells<Vec<u32>>, predicate: impl Fn(&u32) -> bool)
        requires
            self.valid(old(cells)),
            forall|window: &u32| call_requires(predicate, (window,)),
        ensures
            crate::cells::only_cell_changed(old(cells)@, final(cells)@, self.id()),
            exists|marks: Seq<bool>| #![trigger crate::lists::selected(old(cells)@[self.cell.id()]@, marks)]
                marks.len() == old(cells)@[self.cell.id()]@.len() && (forall|i: int|
                    0 <= i < marks.len() ==> call_ensures(
                        predicate,
                        (&old(cells)@[self.cell.id()]@[i],),
                        #[trigger] marks[i],
                    )) && self.windows_view(final(cells)) == crate::lists::selected(
                    old(cells)@[self.cell.id()]@,
                    marks,
                ),
    {
        retain_list(cells.get_mut(&self.cell), predicate);
    }

    /// Remove the window behind all others.
    pub fn pop(&self, cells: &mut SharedCells<Vec<u32>>) -> (window: Option<u32>)
        requires
            self.valid(old(cells)),
        ensures
            crate::cells::only_cell_changed(old(cells)@, final(cells)@, self.id()),
            match window {
                Some(last) => {
                    &&& self.windows_view(old(cells)).len() > 0
                    &&& last == self.windows_view(old(cells)).last()
                    &&& self.windows_view(final(cells)) == self.windows_view(old(cells)).drop_last()
                },
                None => {
                    &&& self.windows_view(old(cells)).len() == 0
                    &&& self.windows_view(final(cells)) == self.windows_view(old(cells))
                },
            },
    {
        cells.get_mut(&self.cell).pop()
    }

    /// Exchange the windows at two positions.
    pub fn swap(&self, cells: &mut SharedCells<Vec<u32>>, a: usize, b: usize)
        requires
            self.valid(old(cells)),
            a < self.windows_view(old(cells)).len(),
            b < self.windows_view(old(cells)).len(),
        ensures
            crate::cells::only_cell_changed(old(cells)@, final(cells)@, self.id()),
            self.windows_view(final(cells)) == self.windows_view(old(cells)).update(
                a as int,
                self.windows_view(old(cells))[b as int],
            ).update(b as int, self.windows_view(old(cells))[a as int]),
    {
        let list = cells.get_mut(&self.cell);
        let first: u32 = list[a];
        let second: u32 = list[b];
        list.set(a, second);
        list.set(b, first);
    }

    /// Move a window in front of all others.
    pub fn bring_to_front(&self, cells: &mut SharedCells<Vec<u32>>, window: u32)
        requires
            self.valid(old(cells)),
        ensures
            crate::cells::only_cell_changed(old(cells)@, final(cells)@, self.id()),
            self.windows_view(final(cells)) == brought_to_front(self.windows_view(old(cells)), window),
    {
        let list = cells.get_mut(&self.cell);
        remove_all(list, window);
        let ghost rest = list@;
        list.insert(0, window);
        assert(list@ =~= seq![window] + rest);
    }

    /// Move a window directly behind another one.
    pub fn send_behind(&self, cells: &mut SharedCells<Vec<u32>>, window: u32, behind: u32)
        requires
            self.valid(old(cells)),
        ensures
            crate::cells::only_cell_changed(old(cells)@, final(cells)@, self.id()),
            self.windows_view(final(cells)) == sent_behind(self.windows_view(old(cells)), window, behind),
    {
        let list = cells.get_mut(&self.cell);
        remove_all(list, window);
        let position: usize = position_of(list, behind);
        if behind == 0 || position == list.len() {
            list.push(window);
        } else {
            list.insert(position + 1, window);
        }
    }

    /// Move a window to the front, or behind another one.
    pub fn reorder(&self, cells: &mut SharedCells<Vec<u32>>, window: u32, behind: u32, front: bool)
        requires
            self.valid(old(cells)),
        ensures
            crate::cells::only_cell_changed(old(cells)@, final(cells)@, self.id()),
            self.windows_view(final(cells)) == reordered(self.windows_view(old(cells)), window, behind, front),
    {
        if front || behind == u32::MAX {
            self.bring_to_front(cells, window);
        } else {
            self.send_behind(cells, window, behind);
        }
    }

}

/// A reordered window stands in the list exactly once, and the other windows
/// keep their order.
pub proof fn reordered_window_stands_once(windows: Seq<u32>, window: u32, behind: u32, front: bool)
    ensures
        reordered(windows, window, behind, front).contains(window),
        without_window(reordered(windows, window, behind, front), window) == without_window(
            windows,
            window,
        ),
        reordered(windows, window, behind, front).len() == without_window(windows, window).len() + 1,
{
    let rest = without_window(windows, window);
    let after = reordered(windows, window, behind, front);
    lemma_without_window(windows, window);
    if front || behind == u32::MAX {
        assert(after[0] == window);
        assert(after =~= rest.insert(0, window));
        lemma_insert_without(rest, 0, window);
    } else {
        let position = window_position(rest, behind);
        lemma_window_position(rest, behind);
        if behind == 0 || position == rest.len() {
            assert(after[rest.len() as int] == window);
            assert(after.drop_last() =~= rest);
            lemma_without_window(rest, window);
        } else {
            assert(after[position + 1] == window);
            lemma_insert_without(rest, position + 1, window);
        }
    }
}

proof fn lemma_insert_without(rest: Seq<u32>, at: int, window: u32)
    requires
        0 <= at <= rest.len(),
        !rest.contains(window),
    ensures
        without_window(rest.insert(at, window), window) == rest,
    decreases rest.len(),
{
    let all = rest.insert(at, window);
    lemma_without_window(rest, window);
    if at == rest.len() {
        assert(all.drop_last() =~= rest);
    } else {
        let shorter = rest.drop_last();
        assert(all.drop_last() =~= shorter.insert(at, window));
        assert(all.last() == rest.last());
        assert(rest.contains(rest[rest.len() - 1]));
        if shorter.contains(window) {
            let i = choose|i: int| 0 <= i < shorter.len() && shorter[i] == window;
            assert(rest[i] == window);
        }
        lemma_insert_without(shorter, at, window);
        assert(shorter.push(rest.last()) =~= rest);
    }
}

/// The window that was brought to the front is the front window, and bringing
/// it there again changes nothing.
pub proof fn front_window_stays_in_front(windows: Seq<u32>, window: u32)
    ensures
        brought_to_front(windows, window)[0] == window,
        brought_to_front(brought_to_front(windows, window), window) == brought_to_front(
            windows,
            window,
        ),
{
    reordered_window_stands_once(windows, window, 0, true);
}

/// A window that was sent behind another one of the list stands directly
/// behind it.
pub proof fn sent_window_stands_behind(windows: Seq<u32>, window: u32, behind: u32)
    requires
        behind != 0,
        behind != window,
        windows.contains(behind),
    ensures
        ({
            let after = sent_behind(windows, window, behind);
            let position = window_position(after, behind);
            position + 1 < after.len() && after[position + 1] == window
        }),
{
    let rest = without_window(windows, window);
    lemma_without_window(windows, window);
    lemma_window_position(rest, behind);
    let position = window_position(rest, behind);
    assert(rest.contains(behind));
    let after = sent_behind(windows, window, behind);
    assert(after == rest.insert(position + 1, window));
    assert(after[position] == behind);
    assert forall|i: int| 0 <= i < position implies (#[trigger] after[i]) != behind by {
        assert(after[i] == rest[i]);
    }
    lemma_position_at(after, behind, position);
}

/// A window that is sent behind none, or behind one that is not in the list,
/// stands last; one that is brought forward, or behind the marker for the
/// front, stands first.
pub proof fn window_without_a_place_stands_last(windows: Seq<u32>, window: u32, behind: u32)
    ensures
        behind == 0 || !windows.contains(behind) && behind != u32::MAX ==> reordered(
            windows,
            window,
            behind,
            false,
        ).last() == window,
        reordered(windows, window, behind, true)[0] == window,
        reordered(windows, window, u32::MAX, false)[0] == window,
{
    let rest = without_window(windows, window);
    lemma_without_window(windows, window);
    lemma_window_position(rest, behind);
    if !windows.contains(behind) {
        assert(!rest.contains(behind));
    }
}

/// The windows beside one are those of the list that are not it, in their
/// order.
pub proof fn other_windows_keep_their_order(windows: Seq<u32>, window: u32)
    ensures
        without_window(windows, window) == windows.filter(|other: u32| other != window),
    decreases windows.len(),
{
    reveal(Seq::filter);
    if windows.len() > 0 {
        other_windows_keep_their_order(windows.drop_last(), window);
    }
}

} // verus!
