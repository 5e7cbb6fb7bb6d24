//! The event queue that the adapters of a process share.

use crate::cells::{CellDefault, CellValue, SharedCells, SharedProcessValue};
use crate::lists::retain_list;
use vstd::prelude::*;

verus! {

/// An event that waits for the process.
#[derive(Clone, Copy, Debug, PartialEq, Eq, Structural)]
pub struct QueuedEvent {
    pub what: u16,
    pub message: u32,
    pub when: u32,
    pub where_v: i16,
    pub where_h: i16,
    pub modifiers: u16,
}

/// The events of a process in the order in which they are delivered, and
/// whether its menu bar has to be drawn again.
pub struct EventQueue {
    pub events: Vec<QueuedEvent>,
    pub menu_bar_invalid: bool,
}

/// An element of a sequence, where there is one.
pub open spec fn event_at(events: Seq<QueuedEvent>, index: int) -> Option<QueuedEvent> {
    if 0 <= index < events.len() {
        Some(events[index])
    } else {
        None
    }
}

impl EventQueue {
    /// No event waits and the menu bar is valid.
    pub open spec fn pristine(&self) -> bool {
        self.events@.len() == 0 && !self.menu_bar_invalid
    }

    pub fn new() -> (queue: Self)
        ensures
            queue.pristine(),
    {
        EventQueue { events: Vec::new(), menu_bar_invalid: false }
    }

    pub fn is_pristine(&self) -> (pristine: bool)
        ensures
            pristine == self.pristine(),
    {
        self.events.len() == 0 && !self.menu_bar_invalid
    }

    pub fn len(&self) -> (count: usize)
        ensures
            count == self.events@.len(),
    {
        self.events.len()
    }

    pub fn is_empty(&self) -> (empty: bool)
        ensures
            empty == (self.events@.len() == 0),
    {
        self.events.len() == 0
    }

    pub fn get(&self, index: usize) -> (event: Option<QueuedEvent>)
        ensures
            event == event_at(self.events@, index as int),
    {
        if index < self.events.len() {
            Some(self.events[index])
        } else {
            None
        }
    }

    pub fn push_back(&mut self, event: QueuedEvent)
        ensures
            final(self).events@ == old(self).events@.push(event),
            final(self).menu_bar_invalid == old(self).menu_bar_invalid,
    {
        self.events.push(event);
    }

    pub fn push_front(&mut self, event: QueuedEvent)
        ensures
            final(self).events@ == seq![event] + old(self).events@,
            final(self).menu_bar_invalid == old(self).menu_bar_invalid,
    {
        self.events.insert(0, event);
        assert(self.events@ =~= seq![event] + old(self).events@);
    }

    /// Remove the event at a position, where there is one.
    pub fn remove(&mut self, index: usize) -> (event: Option<QueuedEvent>)
        ensures
            event == event_at(old(self).events@, index as int),
            final(self).events@ == (if index < old(self).events@.len() {
                old(self).events@.remove(index as int)
            } else {
                old(self).events@
            }),
            final(self).menu_bar_invalid == old(self).menu_bar_invalid,
    {
        if index < self.events.len() {
            Some(self.events.remove(index))
        } else {
            None
        }
    }

    /// Append the events of another queue, and its invalid menu bar.
    pub fn merge(&mut self, other: EventQueue)
        ensures
            final(self).events@ == old(self).events@ + other.events@,
            final(self).menu_bar_invalid == (old(self).menu_bar_invalid || other.menu_bar_invalid),
    {
        let mut events = other.events;
        self.events.append(&mut events);
        self.menu_bar_invalid = self.menu_bar_invalid || other.menu_bar_invalid;
    }

    pub fn invalidate_menu_bar(&mut self)
        ensures
            final(self).events == old(self).events,
            final(self).menu_bar_invalid,
    {
        self.menu_bar_invalid = true;
    }

    /// Whether the menu bar was invalid; it is valid afterwards.
    pub fn take_menu_bar_invalidation(&mut self) -> (invalid: bool)
        ensures
            invalid == old(self).menu_bar_invalid,
            final(self).events == old(self).events,
            !final(self).menu_bar_invalid,
    {
        let invalid = self.menu_bar_invalid;
        self.menu_bar_invalid = false;
        invalid
    }

    pub fn menu_bar_is_invalid(&self) -> (invalid: bool)
        ensures
            invalid == self.menu_bar_invalid,
    {
        self.menu_bar_invalid
    }

    /// The waiting events, the next one first.
    pub fn to_vec(&self) -> (events: Vec<QueuedEvent>)
        ensures
            events@ == self.events@,
    {
        let mut events: Vec<QueuedEvent> = Vec::new();
        let count: usize = self.events.len();
        let mut i: usize = 0;
        while i < count
            invariant
                i <= count,
                count == self.events@.len(),
                events@ == self.events@.take(i as int),
            decreases count - i,
        {
            assert(self.events@.take(i + 1) =~= self.events@.take(i as int).push(self.events@[i as int]));
            events.push(self.events[i]);
            i += 1;
        }
        assert(self.events@.take(count as int) =~= self.events@);
        events
    }
}

impl CellDefault for EventQueue {
    open spec fn is_default(&self) -> bool {
        self.pristine()
    }

    fn default_value() -> (value: Self) {
        EventQueue::new()
    }
}

impl CellValue for EventQueue {
    open spec fn same(&self, other: &Self) -> bool {
        self.events@ == other.events@ && self.menu_bar_invalid == other.menu_bar_invalid
    }

    fn copy_value(&self) -> (copy: Self) {
        EventQueue { events: self.to_vec(), menu_bar_invalid: self.menu_bar_invalid }
    }
}

/// The event queue of a process.
pub struct SharedProcessEventQueue {
    pub cell: SharedProcessValue<EventQueue>,
}

impl SharedProcessEventQueue {
    pub open spec fn id(&self) -> int {
        self.cell.id()
    }

    /// The handle names a cell of the store.
    pub open spec fn valid(&self, cells: &SharedCells<EventQueue>) -> bool {
        self.cell.valid(cells@)
    }

    /// What the cell holds.
    pub open spec fn value(&self, cells: &SharedCells<EventQueue>) -> EventQueue {
        cells@[self.cell.id()]
    }

    /// A value that an attachment may replace.
    pub open spec fn pristine(value: EventQueue) -> bool {
        value.pristine()
    }

    pub fn from_value(cells: &mut SharedCells<EventQueue>, value: EventQueue) -> (handle: Self)
        ensures
            handle.id() == old(cells)@.len(),
            final(cells)@ == old(cells)@.push(value),
    {
        SharedProcessEventQueue { cell: cells.allocate(value) }
    }

    /// A handle to an empty queue of its own.
    pub fn new(cells: &mut SharedCells<EventQueue>) -> (handle: Self)
        ensures
            handle.id() == old(cells)@.len(),
            crate::cells::cells_extend(old(cells)@, final(cells)@),
            final(cells)@.len() == old(cells)@.len() + 1,
            handle.value(final(cells)).pristine(),
    {
        SharedProcessEventQueue { cell: cells.allocate(EventQueue::new()) }
    }

    /// Another handle to the same cell.
    pub fn shared_handle(&self) -> (handle: Self)
        ensures
            handle.id() == self.id(),
    {
        SharedProcessEventQueue { cell: self.cell.shared_handle() }
    }

    /// Whether two handles name one cell.
    pub fn ptr_eq(&self, other: &Self) -> (same: bool)
        ensures
            same == (self.id() == other.id()),
    {
        self.cell.ptr_eq(&other.cell)
    }

    /// A copy in a cell of its own.
    pub fn detached_clone(&self, cells: &mut SharedCells<EventQueue>) -> (copy: Self)
        requires
            self.valid(old(cells)),
        ensures
            copy.id() == old(cells)@.len(),
            crate::cells::cells_extend(old(cells)@, final(cells)@),
            final(cells)@.len() == old(cells)@.len() + 1,
            self.value(old(cells)).same(&final(cells)@[copy.id()]),
    {
        SharedProcessEventQueue { cell: self.cell.detached_clone(cells) }
    }

    /// Share the process's cell, which takes this one's contents over where
    /// it has none. At most one of the two may have contents.
    pub fn attach_to(&mut self, cells: &mut SharedCells<EventQueue>, process_state: &Self)
        requires
            old(self).valid(old(cells)),
            process_state.valid(old(cells)),
            crate::cells::attachable(
                old(cells)@,
                old(self).id(),
                process_state.id(),
                |value: EventQueue| SharedProcessEventQueue::pristine(value),
            ),
        ensures
            final(self).id() == process_state.id(),
            crate::cells::joined(
                old(cells)@,
                final(cells)@,
                old(self).id(),
                process_state.id(),
                SharedProcessEventQueue::pristine(process_state.value(old(cells))),
            ),
    {
        let is_pristine = |value: &EventQueue| -> (pristine: bool)
            ensures
                pristine == SharedProcessEventQueue::pristine(*value),
            { value.is_pristine() };
        self.cell.attach_to(cells, &process_state.cell, is_pristine);
    }

    pub fn is_pristine(&self, cells: &SharedCells<EventQueue>) -> (pristine: bool)
        requires
            self.valid(cells),
        ensures
            pristine == SharedProcessEventQueue::pristine(self.value(cells)),
    {
        let value = cells.get(&self.cell);
        value.is_pristine()
    }
}

impl SharedProcessEventQueue {
    /// The waiting events, the next one first.
    pub open spec fn events(&self, cells: &SharedCells<EventQueue>) -> Seq<QueuedEvent> {
        self.value(cells).events@
    }

    /// Whether the menu bar has to be drawn again.
    pub open spec fn invalid(&self, cells: &SharedCells<EventQueue>) -> bool {
        self.value(cells).menu_bar_invalid
    }

    pub fn is_empty(&self, cells: &SharedCells<EventQueue>) -> (result: bool)
        requires
            self.valid(cells),
        ensures
            result == (self.events(cells).len() == 0),
    {
        cells.get(&self.cell).is_empty()
    }

    pub fn len(&self, cells: &SharedCells<EventQueue>) -> (result: usize)
        requires
            self.valid(cells),
        ensures
            result == self.events(cells).len(),
    {
        cells.get(&self.cell).len()
    }

    pub fn front(&self, cells: &SharedCells<EventQueue>) -> (result: Option<QueuedEvent>)
        requires
            self.valid(cells),
        ensures
            result == event_at(self.events(cells), 0),
    {
        cells.get(&self.cell).get(0)
    }

    pub fn back(&self, cells: &SharedCells<EventQueue>) -> (result: Option<QueuedEvent>)
        requires
            self.valid(cells),
        ensures
            result == event_at(self.events(cells), self.events(cells).len() - 1),
    {
        let queue = cells.get(&self.cell);
        if queue.len() == 0 {
            None
        } else {
            queue.get(queue.len() - 1)
        }
    }

    pub fn get(&self, cells: &SharedCells<EventQueue>, index: usize) -> (result: Option<QueuedEvent>)
        requires
            self.valid(cells),
        ensures
            result == event_at(self.events(cells), index as int),
    {
        cells.get(&self.cell).get(index)
    }

    /// Drop the waiting events.
    pub fn clear(&self, cells: &mut SharedCells<EventQueue>)
        requires
            self.valid(old(cells)),
        ensures
            crate::cells::only_cell_changed(old(cells)@, final(cells)@, self.id()),
            self.events(final(cells)) == Seq::<QueuedEvent>::empty(),
            self.invalid(final(cells)) == self.invalid(old(cells)),
    {
        cells.get_mut(&self.cell).events.clear();
    }

    pub fn extend(&self, cells: &mut SharedCells<EventQueue>, events: Vec<QueuedEvent>)
        requires
            self.valid(old(cells)),
        ensures
            crate::cells::only_cell_changed(old(cells)@, final(cells)@, self.id()),
            self.events(final(cells)) == self.events(old(cells)) + events@,
            self.invalid(final(cells)) == self.invalid(old(cells)),
    {
        let mut events = events;
        cells.get_mut(&self.cell).events.append(&mut events);
    }

    pub fn push_back(&self, cells: &mut SharedCells<EventQueue>, event: QueuedEvent)
        requires
            self.valid(old(cells)),
        ensures
            crate::cells::only_cell_changed(old(cells)@, final(cells)@, self.id()),
            self.events(final(cells)) == self.events(old(cells)).push(event),
            self.invalid(final(cells)) == self.invalid(old(cells)),
    {
        cells.get_mut(&self.cell).push_back(event);
    }

    pub fn push_front(&self, cells: &mut SharedCells<EventQueue>, event: QueuedEvent)
        requires
            self.valid(old(cells)),
        ensures
            crate::cells::only_cell_changed(old(cells)@, final(cells)@, self.id()),
            self.events(final(cells)) == seq![event] + self.events(old(cells)),
            self.invalid(final(cells)) == self.invalid(old(cells)),
    {
        cells.get_mut(&self.cell).push_front(event);
    }

    pub fn pop_back_event(&self, cells: &mut SharedCells<EventQueue>) -> (result: Option<QueuedEvent>)
        requires
            self.valid(old(cells)),
        ensures
            crate::cells::only_cell_changed(old(cells)@, final(cells)@, self.id()),
            self.events(final(cells)) == (if self.events(old(cells)).len() > 0 {
                self.events(old(cells)).drop_last()
            } else {
                self.events(old(cells))
            }),
            self.invalid(final(cells)) == self.invalid(old(cells)),
            result == event_at(self.events(old(cells)), self.events(old(cells)).len() - 1),
    {
        let queue = cells.get_mut(&self.cell);
        let count: usize = queue.len();
        if count == 0 {
            None
        } else {
            assert(queue.events@.remove(count - 1) =~= queue.events@.drop_last());
            queue.remove(count - 1)
        }
    }

    pub fn pop_front(&self, cells: &mut SharedCells<EventQueue>) -> (result: Option<QueuedEvent>)
        requires
            self.valid(old(cells)),
        ensures
            crate::cells::only_cell_changed(old(cells)@, final(cells)@, self.id()),
            self.events(final(cells)) == (if self.events(old(cells)).len() > 0 {
                self.events(old(cells)).skip(1)
            } else {
                self.events(old(cells))
            }),
            self.invalid(final(cells)) == self.invalid(old(cells)),
            result == event_at(self.events(old(cells)), 0),
    {
        let queue = cells.get_mut(&self.cell);
        assert(queue.events@.len() > 0 ==> queue.events@.remove(0) =~= queue.events@.skip(1));
        queue.remove(0)
    }

    pub fn remove(&self, cells: &mut SharedCells<EventQueue>, index: usize) -> (result: Option<QueuedEvent>)
        requires
            self.valid(old(cells)),
        ensures
            crate::cells::only_cell_changed(old(cells)@, final(cells)@, self.id()),
            self.events(final(cells)) == (if index < self.events(old(cells)).len() {
                self.events(old(cells)).remove(index as int)
            } else {
                self.events(old(cells))
            }),
            self.invalid(final(cells)) == self.invalid(old(cells)),
            result == event_at(self.events(old(cells)), index as int),
    {
        cells.get_mut(&self.cell).remove(index)
    }

    /// Keep the events that a predicate accepts.
    pub fn retain(&self, cells: &mut SharedCells<EventQueue>, predicate: impl Fn(&QueuedEvent) -> bool)
        requires
            self.valid(old(cells)),
            forall|event: &QueuedEvent| call_requires(predicate, (event,)),
        ensures
            crate::cells::only_cell_changed(old(cells)@, final(cells)@, self.id()),
            self.invalid(final(cells)) == self.invalid(old(cells)),
            exists|marks: Seq<bool>| #![trigger crate::lists::selected(old(cells)@[self.cell.id()].events@, marks)]
                marks.len() == old(cells)@[self.cell.id()].events@.len() && (forall|i: int|
                    0 <= i < marks.len() ==> call_ensures(
                        predicate,
                        (&old(cells)@[self.cell.id()].events@[i],),
                        #[trigger] marks[i],
                    )) && self.events(final(cells)) == crate::lists::selected(
                    old(cells)@[self.cell.id()].events@,
                    marks,
                ),
    {
        retain_list(&mut cells.get_mut(&self.cell).events, predicate);
    }

    /// Set the waiting events.
    pub fn replace_events(&self, cells: &mut SharedCells<EventQueue>, events: Vec<QueuedEvent>)
        requires
            self.valid(old(cells)),
        ensures
            crate::cells::only_cell_changed(old(cells)@, final(cells)@, self.id()),
            self.events(final(cells)) == events@,
            self.invalid(final(cells)) == self.invalid(old(cells)),
    {
        cells.get_mut(&self.cell).events = events;
    }

    /// Take the queue out and leave an empty one with a valid menu bar.
    pub fn take(&self, cells: &mut SharedCells<EventQueue>) -> (queue: EventQueue)
        requires
            self.valid(old(cells)),
        ensures
            crate::cells::only_cell_changed(old(cells)@, final(cells)@, self.id()),
            queue == self.value(old(cells)),
            self.value(final(cells)).pristine(),
    {
        self.cell.take(cells)
    }

    /// Append the events of another queue, and its invalid menu bar.
    pub fn merge(&self, cells: &mut SharedCells<EventQueue>, other: EventQueue)
        requires
            self.valid(old(cells)),
        ensures
            crate::cells::only_cell_changed(old(cells)@, final(cells)@, self.id()),
            self.events(final(cells)) == self.events(old(cells)) + other.events@,
            self.invalid(final(cells)) == (self.invalid(old(cells)) || other.menu_bar_invalid),
    {
        cells.get_mut(&self.cell).merge(other);
    }

    pub fn invalidate_menu_bar(&self, cells: &mut SharedCells<EventQueue>)
        requires
            self.valid(old(cells)),
        ensures
            crate::cells::only_cell_changed(old(cells)@, final(cells)@, self.id()),
            self.events(final(cells)) == self.events(old(cells)),
            self.invalid(final(cells)),
    {
        cells.get_mut(&self.cell).invalidate_menu_bar();
    }

    /// Whether the menu bar was invalid; it is valid afterwards.
    pub fn take_menu_bar_invalidation(&self, cells: &mut SharedCells<EventQueue>) -> (result: bool)
        requires
            self.valid(old(cells)),
        ensures
            crate::cells::only_cell_changed(old(cells)@, final(cells)@, self.id()),
            self.events(final(cells)) == self.events(old(cells)),
            !self.invalid(final(cells)),
            result == self.invalid(old(cells)),
    {
        cells.get_mut(&self.cell).take_menu_bar_invalidation()
    }

    pub fn menu_bar_is_invalid(&self, cells: &SharedCells<EventQueue>) -> (result: bool)
        requires
            self.valid(cells),
        ensures
            result == self.invalid(cells),
    {
        cells.get(&self.cell).menu_bar_is_invalid()
    }

    /// A copy of the queue.
    pub fn snapshot(&self, cells: &SharedCells<EventQueue>) -> (queue: EventQueue)
        requires
            self.valid(cells),
        ensures
            queue.events@ == self.events(cells),
            queue.menu_bar_invalid == self.invalid(cells),
    {
        cells.get(&self.cell).copy_value()
    }

    /// The waiting events, the next one first.
    pub fn to_vec(&self, cells: &SharedCells<EventQueue>) -> (events: Vec<QueuedEvent>)
        requires
            self.valid(cells),
        ensures
            events@ == self.events(cells),
    {
        cells.get(&self.cell).to_vec()
    }
}

} // verus!
