//! Apple Event Manager state that the adapters of a process share.

use crate::assoc::AssocMap;
use crate::cells::{CellDefault, CellValue, SharedCells, SharedProcessValue};
use crate::guest_memory::copy_bytes;
use crate::tasks::CallbackTaskArchitecture;
use vstd::prelude::*;

verus! {

/// A guest procedure as its caller named it.
#[derive(Clone, Copy, Debug, PartialEq, Eq, Structural)]
pub struct GuestProcedure {
    pub original_pointer: u32,
    pub architecture: CallbackTaskArchitecture,
}

impl GuestProcedure {
    /// Plain 68K code at an address.
    pub fn raw_m68k(pointer: u32) -> (procedure: Self)
        ensures
            procedure == (GuestProcedure {
                original_pointer: pointer,
                architecture: CallbackTaskArchitecture::M68k,
            }),
    {
        GuestProcedure { original_pointer: pointer, architecture: CallbackTaskArchitecture::M68k }
    }
}

/// A handler and the value that it is called with.
#[derive(Clone, Copy, Debug, PartialEq, Eq, Structural)]
pub struct ProcessAppleEventHandler {
    pub procedure: GuestProcedure,
    pub refcon: u32,
}

impl CellDefault for ProcessAppleEventHandler {
    open spec fn is_default(&self) -> bool {
        &&& self.procedure.original_pointer == 0
        &&& self.procedure.architecture == CallbackTaskArchitecture::M68k
        &&& self.refcon == 0
    }

    fn default_value() -> (value: Self) {
        ProcessAppleEventHandler { procedure: GuestProcedure::raw_m68k(0), refcon: 0 }
    }
}

impl CellValue for ProcessAppleEventHandler {
    open spec fn same(&self, other: &Self) -> bool {
        *self == *other
    }

    fn copy_value(&self) -> (copy: Self) {
        *self
    }
}

/// Handlers by table, event class and event ID; the first part of the key
/// selects the system's table.
pub type AppleEventTable = AssocMap<(bool, u32, u32), ProcessAppleEventHandler>;

/// The handlers as a map.
pub type AppleEventMap = Map<(bool, u32, u32), ProcessAppleEventHandler>;

/// A handler of a table, where there is one.
pub open spec fn handler_at(handlers: AppleEventMap, key: (bool, u32, u32)) -> Option<
    ProcessAppleEventHandler,
> {
    if handlers.dom().contains(key) {
        Some(handlers[key])
    } else {
        None
    }
}

/// The handler of one table for an event: exact, for every ID, for every
/// class, or for every event, in that order.
pub open spec fn table_handler(
    handlers: AppleEventMap,
    system: bool,
    event_class: u32,
    event_id: u32,
    wildcard: u32,
) -> Option<ProcessAppleEventHandler> {
    if handlers.dom().contains((system, event_class, event_id)) {
        Some(handlers[(system, event_class, event_id)])
    } else if handlers.dom().contains((system, event_class, wildcard)) {
        Some(handlers[(system, event_class, wildcard)])
    } else if handlers.dom().contains((system, wildcard, event_id)) {
        Some(handlers[(system, wildcard, event_id)])
    } else {
        handler_at(handlers, (system, wildcard, wildcard))
    }
}

/// The handler for an event: the application's where it has one, else the
/// system's.
pub open spec fn dispatched_handler(
    handlers: AppleEventMap,
    event_class: u32,
    event_id: u32,
    wildcard: u32,
) -> Option<ProcessAppleEventHandler> {
    match table_handler(handlers, false, event_class, event_id, wildcard) {
        Some(handler) => Some(handler),
        None => table_handler(handlers, true, event_class, event_id, wildcard),
    }
}

fn find_handler(handlers: &AppleEventTable, key: (bool, u32, u32)) -> (handler: Option<
    ProcessAppleEventHandler,
>)
    ensures
        handler == handler_at(handlers@, key),
{
    match handlers.get(&key) {
        Some(handler) => Some(*handler),
        None => None,
    }
}

fn find_in_table(
    handlers: &AppleEventTable,
    system: bool,
    event_class: u32,
    event_id: u32,
    wildcard: u32,
) -> (handler: Option<ProcessAppleEventHandler>)
    ensures
        handler == table_handler(handlers@, system, event_class, event_id, wildcard),
{
    let exact = find_handler(handlers, (system, event_class, event_id));
    if exact.is_some() {
        return exact;
    }
    let any_id = find_handler(handlers, (system, event_class, wildcard));
    if any_id.is_some() {
        return any_id;
    }
    let any_class = find_handler(handlers, (system, wildcard, event_id));
    if any_class.is_some() {
        return any_class;
    }
    find_handler(handlers, (system, wildcard, wildcard))
}

/// The dispatch tables of a process.
pub struct SharedProcessAppleEventHandlers {
    pub cell: SharedProcessValue<AppleEventTable>,
}

impl SharedProcessAppleEventHandlers {
    pub open spec fn id(&self) -> int {
        self.cell.id()
    }

    /// The handle names a cell of the store.
    pub open spec fn valid(&self, cells: &SharedCells<AppleEventTable>) -> bool {
        self.cell.valid(cells@)
    }

    /// What the cell holds.
    pub open spec fn value(&self, cells: &SharedCells<AppleEventTable>) -> AppleEventTable {
        cells@[self.cell.id()]
    }

    /// A value that an attachment may replace.
    pub open spec fn pristine(value: AppleEventTable) -> bool {
        value@ == AppleEventMap::empty()
    }

    pub fn from_value(cells: &mut SharedCells<AppleEventTable>, value: AppleEventTable) -> (handle: Self)
        ensures
            handle.id() == old(cells)@.len(),
            final(cells)@ == old(cells)@.push(value),
    {
        SharedProcessAppleEventHandlers { cell: cells.allocate(value) }
    }

    /// A handle to empty tables of its own.
    pub fn new(cells: &mut SharedCells<AppleEventTable>) -> (handle: Self)
        ensures
            handle.id() == old(cells)@.len(),
            crate::cells::cells_extend(old(cells)@, final(cells)@),
            final(cells)@.len() == old(cells)@.len() + 1,
            handle.handlers(final(cells)) == AppleEventMap::empty(),
    {
        SharedProcessAppleEventHandlers { cell: cells.allocate(AssocMap::new()) }
    }

    /// Another handle to the same cell.
    pub fn shared_handle(&self) -> (handle: Self)
        ensures
            handle.id() == self.id(),
    {
        SharedProcessAppleEventHandlers { cell: self.cell.shared_handle() }
    }

    /// Whether two handles name one cell.
    pub fn ptr_eq(&self, other: &Self) -> (same: bool)
        ensures
            same == (self.id() == other.id()),
    {
        self.cell.ptr_eq(&other.cell)
    }

    /// A copy in a cell of its own.
    pub fn detached_clone(&self, cells: &mut SharedCells<AppleEventTable>) -> (copy: Self)
        requires
            self.valid(old(cells)),
        ensures
            copy.id() == old(cells)@.len(),
            crate::cells::cells_extend(old(cells)@, final(cells)@),
            final(cells)@.len() == old(cells)@.len() + 1,
            self.value(old(cells)).same(&final(cells)@[copy.id()]),
    {
        SharedProcessAppleEventHandlers { cell: self.cell.detached_clone(cells) }
    }

    /// Share the process's cell, which takes this one's contents over where
    /// it has none. At most one of the two may have contents.
    pub fn attach_to(&mut self, cells: &mut SharedCells<AppleEventTable>, process_handlers: &Self)
        requires
            old(self).valid(old(cells)),
            process_handlers.valid(old(cells)),
            crate::cells::attachable(
                old(cells)@,
                old(self).id(),
                process_handlers.id(),
                |value: AppleEventTable| SharedProcessAppleEventHandlers::pristine(value),
            ),
        ensures
            final(self).id() == process_handlers.id(),
            crate::cells::joined(
                old(cells)@,
                final(cells)@,
                old(self).id(),
                process_handlers.id(),
                SharedProcessAppleEventHandlers::pristine(process_handlers.value(old(cells))),
            ),
    {
        let is_pristine = |value: &AppleEventTable| -> (pristine: bool)
            ensures
                pristine == SharedProcessAppleEventHandlers::pristine(*value),
            { value.is_empty() };
        self.cell.attach_to(cells, &process_handlers.cell, is_pristine);
    }

    pub fn is_pristine(&self, cells: &SharedCells<AppleEventTable>) -> (pristine: bool)
        requires
            self.valid(cells),
        ensures
            pristine == SharedProcessAppleEventHandlers::pristine(self.value(cells)),
    {
        let value = cells.get(&self.cell);
        value.is_empty()
    }
}

impl SharedProcessAppleEventHandlers {
    /// The handlers of both tables.
    pub open spec fn handlers(&self, cells: &SharedCells<AppleEventTable>) -> AppleEventMap {
        self.value(cells)@
    }

    /// Install a handler in place of the one with the same key.
    pub fn install(
        &self,
        cells: &mut SharedCells<AppleEventTable>,
        is_system_handler: bool,
        event_class: u32,
        event_id: u32,
        handler: ProcessAppleEventHandler,
    )
        requires
            self.valid(old(cells)),
        ensures
            crate::cells::only_cell_changed(old(cells)@, final(cells)@, self.id()),
            self.handlers(final(cells)) == self.handlers(old(cells)).insert(
                (is_system_handler, event_class, event_id),
                handler,
            ),
    {
        let _ = cells.get_mut(&self.cell).insert((is_system_handler, event_class, event_id), handler);
    }

    /// The handler with exactly this key.
    pub fn get(
        &self,
        cells: &SharedCells<AppleEventTable>,
        is_system_handler: bool,
        event_class: u32,
        event_id: u32,
    ) -> (handler: Option<ProcessAppleEventHandler>)
        requires
            self.valid(cells),
        ensures
            handler == handler_at(
                self.handlers(cells),
                (is_system_handler, event_class, event_id),
            ),
    {
        find_handler(cells.get(&self.cell), (is_system_handler, event_class, event_id))
    }

    /// Remove the handler with exactly this key, where its procedure is the
    /// one named; zero names any. The result tells whether it was removed.
    pub fn remove(
        &self,
        cells: &mut SharedCells<AppleEventTable>,
        is_system_handler: bool,
        event_class: u32,
        event_id: u32,
        procedure: u32,
    ) -> (removed: bool)
        requires
            self.valid(old(cells)),
        ensures
            crate::cells::only_cell_changed(old(cells)@, final(cells)@, self.id()),
            removed == (match handler_at(
                self.handlers(old(cells)),
                (is_system_handler, event_class, event_id),
            ) {
                Some(handler) => procedure == 0 || handler.procedure.original_pointer == procedure,
                None => false,
            }),
            self.handlers(final(cells)) == (if removed {
                self.handlers(old(cells)).remove((is_system_handler, event_class, event_id))
            } else {
                self.handlers(old(cells))
            }),
    {
        let key = (is_system_handler, event_class, event_id);
        let found = match find_handler(cells.get(&self.cell), key) {
            Some(handler) => procedure == 0 || handler.procedure.original_pointer == procedure,
            None => false,
        };
        if found {
            let _ = cells.get_mut(&self.cell).remove(&key);
        }
        found
    }

    /// The handler for an event.
    pub fn handler_for(
        &self,
        cells: &SharedCells<AppleEventTable>,
        event_class: u32,
        event_id: u32,
        wildcard: u32,
    ) -> (handler: Option<ProcessAppleEventHandler>)
        requires
            self.valid(cells),
        ensures
            handler == dispatched_handler(self.handlers(cells), event_class, event_id, wildcard),
    {
        let handlers = cells.get(&self.cell);
        let application = find_in_table(handlers, false, event_class, event_id, wildcard);
        if application.is_some() {
            return application;
        }
        find_in_table(handlers, true, event_class, event_id, wildcard)
    }

    /// The number of handlers in both tables.
    pub fn len(&self, cells: &SharedCells<AppleEventTable>) -> (count: usize)
        requires
            self.valid(cells),
        ensures
            count == self.handlers(cells).dom().len(),
    {
        cells.get(&self.cell).len()
    }
}

/// A handler that was installed for exactly one event is what that event is
/// dispatched to, whatever the wildcards and the system's table hold.
pub proof fn exact_application_handler_wins(
    handlers: AppleEventMap,
    event_class: u32,
    event_id: u32,
    wildcard: u32,
    handler: ProcessAppleEventHandler,
)
    ensures
        dispatched_handler(
            handlers.insert((false, event_class, event_id), handler),
            event_class,
            event_id,
            wildcard,
        ) == Some(handler),
{
}

/// The system's table is consulted only for events that no handler of the
/// application matches.
pub proof fn system_table_is_the_fallback(
    handlers: AppleEventMap,
    other: AppleEventMap,
    event_class: u32,
    event_id: u32,
    wildcard: u32,
)
    requires
        table_handler(handlers, false, event_class, event_id, wildcard) is Some,
        forall|class: u32, id: u32|
            #![trigger handler_at(other, (false, class, id))]
            handler_at(other, (false, class, id)) == handler_at(handlers, (false, class, id)),
    ensures
        dispatched_handler(other, event_class, event_id, wildcard) == dispatched_handler(
            handlers,
            event_class,
            event_id,
            wildcard,
        ),
{
    assert(handler_at(other, (false, event_class, event_id)) == handler_at(
        handlers,
        (false, event_class, event_id),
    ));
    assert(handler_at(other, (false, event_class, wildcard)) == handler_at(
        handlers,
        (false, event_class, wildcard),
    ));
    assert(handler_at(other, (false, wildcard, event_id)) == handler_at(
        handlers,
        (false, wildcard, event_id),
    ));
    assert(handler_at(other, (false, wildcard, wildcard)) == handler_at(
        handlers,
        (false, wildcard, wildcard),
    ));
}

/// What a process has done about its first Apple event.
#[derive(Clone, Copy, Debug, PartialEq, Eq, Structural)]
pub struct ProcessAppleEventLaunchState {
    pub high_level_event_aware: bool,
    pub open_application_event_sent: bool,
    pub open_application_event_delivered: bool,
    pub outstanding_open_application_event: bool,
}

/// The launch state of a process.
pub struct SharedProcessAppleEventLaunchState {
    pub cell: SharedProcessValue<ProcessAppleEventLaunchState>,
}

impl SharedProcessAppleEventLaunchState {
    pub open spec fn id(&self) -> int {
        self.cell.id()
    }

    /// The handle names a cell of the store.
    pub open spec fn valid(&self, cells: &SharedCells<ProcessAppleEventLaunchState>) -> bool {
        self.cell.valid(cells@)
    }

    /// What the cell holds.
    pub open spec fn value(&self, cells: &SharedCells<ProcessAppleEventLaunchState>) -> ProcessAppleEventLaunchState {
        cells@[self.cell.id()]
    }

    /// A value that an attachment may replace.
    pub open spec fn pristine(value: ProcessAppleEventLaunchState) -> bool {
        !value.high_level_event_aware && !value.open_application_event_sent
            && !value.open_application_event_delivered && !value.outstanding_open_application_event
    }

    pub fn from_value(cells: &mut SharedCells<ProcessAppleEventLaunchState>, value: ProcessAppleEventLaunchState) -> (handle: Self)
        ensures
            handle.id() == old(cells)@.len(),
            final(cells)@ == old(cells)@.push(value),
    {
        SharedProcessAppleEventLaunchState { cell: cells.allocate(value) }
    }

    /// A handle to the state before a launch.
    pub fn new(cells: &mut SharedCells<ProcessAppleEventLaunchState>) -> (handle: Self)
        ensures
            handle.id() == old(cells)@.len(),
            crate::cells::cells_extend(old(cells)@, final(cells)@),
            final(cells)@.len() == old(cells)@.len() + 1,
            SharedProcessAppleEventLaunchState::pristine(handle.value(final(cells))),
    {
        SharedProcessAppleEventLaunchState { cell: cells.allocate(
            ProcessAppleEventLaunchState {
                high_level_event_aware: false,
                open_application_event_sent: false,
                open_application_event_delivered: false,
                outstanding_open_application_event: false,
            },
        ) }
    }

    /// Another handle to the same cell.
    pub fn shared_handle(&self) -> (handle: Self)
        ensures
            handle.id() == self.id(),
    {
        SharedProcessAppleEventLaunchState { cell: self.cell.shared_handle() }
    }

    /// Whether two handles name one cell.
    pub fn ptr_eq(&self, other: &Self) -> (same: bool)
        ensures
            same == (self.id() == other.id()),
    {
        self.cell.ptr_eq(&other.cell)
    }

    /// A copy in a cell of its own.
    pub fn detached_clone(&self, cells: &mut SharedCells<ProcessAppleEventLaunchState>) -> (copy: Self)
        requires
            self.valid(old(cells)),
        ensures
            copy.id() == old(cells)@.len(),
            final(cells)@ == old(cells)@.push(self.value(old(cells))),
    {
        let value = *cells.get(&self.cell);
        SharedProcessAppleEventLaunchState { cell: cells.allocate(value) }
    }

    /// Share the process's cell. Where only this one is no longer pristine,
    /// the process takes its value over; two such values have to agree.
    pub fn attach_to(&mut self, cells: &mut SharedCells<ProcessAppleEventLaunchState>, process_state: &Self)
        requires
            old(self).valid(old(cells)),
            process_state.valid(old(cells)),
            crate::cells::copies_attachable(
                old(cells)@,
                old(self).id(),
                process_state.id(),
                |value: ProcessAppleEventLaunchState| SharedProcessAppleEventLaunchState::pristine(value),
            ),
        ensures
            final(self).id() == process_state.id(),
            final(cells)@ == crate::cells::copies_joined(
                old(cells)@,
                old(self).id(),
                process_state.id(),
                |value: ProcessAppleEventLaunchState| SharedProcessAppleEventLaunchState::pristine(value),
            ),
    {
        let is_pristine = |value: &ProcessAppleEventLaunchState| -> (pristine: bool)
            ensures
                pristine == SharedProcessAppleEventLaunchState::pristine(*value),
            { !value.high_level_event_aware && !value.open_application_event_sent
            && !value.open_application_event_delivered && !value.outstanding_open_application_event };
        self.cell.attach_copy_to(cells, &process_state.cell, is_pristine);
    }

    pub fn is_pristine(&self, cells: &SharedCells<ProcessAppleEventLaunchState>) -> (pristine: bool)
        requires
            self.valid(cells),
        ensures
            pristine == SharedProcessAppleEventLaunchState::pristine(self.value(cells)),
    {
        let value = cells.get(&self.cell);
        !value.high_level_event_aware && !value.open_application_event_sent
            && !value.open_application_event_delivered && !value.outstanding_open_application_event
    }
}

impl SharedProcessAppleEventLaunchState {
    pub fn is_high_level_event_aware(&self, cells: &SharedCells<ProcessAppleEventLaunchState>) -> (result: bool)
        requires
            self.valid(cells),
        ensures
            result == self.value(cells).high_level_event_aware,
    {
        cells.get(&self.cell).high_level_event_aware
    }

    pub fn set_high_level_event_aware(&self, cells: &mut SharedCells<ProcessAppleEventLaunchState>, aware: bool)
        requires
            self.valid(old(cells)),
        ensures
            final(cells)@ == old(cells)@.update(self.id(), (ProcessAppleEventLaunchState {
                    high_level_event_aware: aware,
                    ..self.value(old(cells))
                })),
    {
        cells.get_mut(&self.cell).high_level_event_aware = aware;
    }

    pub fn is_open_application_event_sent(&self, cells: &SharedCells<ProcessAppleEventLaunchState>) -> (result: bool)
        requires
            self.valid(cells),
        ensures
            result == self.value(cells).open_application_event_sent,
    {
        cells.get(&self.cell).open_application_event_sent
    }

    pub fn set_open_application_event_sent(&self, cells: &mut SharedCells<ProcessAppleEventLaunchState>, sent: bool)
        requires
            self.valid(old(cells)),
        ensures
            final(cells)@ == old(cells)@.update(self.id(), (ProcessAppleEventLaunchState {
                    open_application_event_sent: sent,
                    ..self.value(old(cells))
                })),
    {
        cells.get_mut(&self.cell).open_application_event_sent = sent;
    }

    /// Forget the events of an earlier launch.
    pub fn reset_for_launch(&self, cells: &mut SharedCells<ProcessAppleEventLaunchState>, high_level_event_aware: bool)
        requires
            self.valid(old(cells)),
        ensures
            final(cells)@ == old(cells)@.update(self.id(), (ProcessAppleEventLaunchState {
                    high_level_event_aware,
                    open_application_event_sent: false,
                    open_application_event_delivered: false,
                    outstanding_open_application_event: false,
                })),
    {
        cells.set(
            &self.cell,
            ProcessAppleEventLaunchState {
                high_level_event_aware,
                open_application_event_sent: false,
                open_application_event_delivered: false,
                outstanding_open_application_event: false,
            },
        );
    }

    pub fn note_open_application_event_delivered(&self, cells: &mut SharedCells<ProcessAppleEventLaunchState>)
        requires
            self.valid(old(cells)),
        ensures
            final(cells)@ == old(cells)@.update(self.id(), (ProcessAppleEventLaunchState {
                    open_application_event_delivered: true,
                    outstanding_open_application_event: true,
                    ..self.value(old(cells))
                })),
    {
        let mut state = *cells.get(&self.cell);
        state.open_application_event_delivered = true;
        state.outstanding_open_application_event = true;
        cells.set(&self.cell, state);
    }

    pub fn is_open_application_event_delivered(&self, cells: &SharedCells<ProcessAppleEventLaunchState>) -> (result: bool)
        requires
            self.valid(cells),
        ensures
            result == self.value(cells).open_application_event_delivered,
    {
        cells.get(&self.cell).open_application_event_delivered
    }

    /// Whether a delivered event was outstanding; it no longer is.
    pub fn accept_open_application_event(&self, cells: &mut SharedCells<ProcessAppleEventLaunchState>) -> (result: bool)
        requires
            self.valid(old(cells)),
        ensures
            final(cells)@ == old(cells)@.update(self.id(), (ProcessAppleEventLaunchState {
                    outstanding_open_application_event: false,
                    ..self.value(old(cells))
                })),
            result == self.value(old(cells)).outstanding_open_application_event,
    {
        let mut state = *cells.get(&self.cell);
        let outstanding = state.outstanding_open_application_event;
        state.outstanding_open_application_event = false;
        cells.set(&self.cell, state);
        outstanding
    }

    /// Claim the one event that opens the application: only a process that
    /// understands such events gets it, and only once per launch.
    pub fn claim_open_application_event(&self, cells: &mut SharedCells<ProcessAppleEventLaunchState>) -> (
    claimed: bool)
        requires
            self.valid(old(cells)),
        ensures
            claimed == (self.value(old(cells)).high_level_event_aware && !self.value(
                old(cells),
            ).open_application_event_sent),
            final(cells)@ == (if claimed {
                old(cells)@.update(
                    self.id(),
                    (ProcessAppleEventLaunchState {
                        open_application_event_sent: true,
                        ..self.value(old(cells))
                    }),
                )
            } else {
                old(cells)@
            }),
    {
        let mut state = *cells.get(&self.cell);
        if !state.high_level_event_aware || state.open_application_event_sent {
            return false;
        }
        state.open_application_event_sent = true;
        cells.set(&self.cell, state);
        true
    }
}

/// The contents of a descriptor: plain data, named fields of a record, or
/// keyed items of a list.
#[derive(Debug)]
pub struct ProcessAeDescriptor {
    pub desc_type: u32,
    pub data: Vec<u8>,
    pub fields: ProcessAeFields,
    pub items: Vec<(u32, ProcessAeDescriptor)>,
}

/// Named parts of a record or an event, one per key.
#[derive(Debug)]
pub struct ProcessAeFields {
    list: Vec<(u32, ProcessAeDescriptor)>,
}

impl View for ProcessAeFields {
    type V = Map<u32, ProcessAeDescriptor>;

    closed spec fn view(&self) -> Map<u32, ProcessAeDescriptor> {
        crate::assoc::entries_map(self.list@)
    }
}

impl ProcessAeFields {
    #[verifier::type_invariant]
    spec fn one_part_per_key(self) -> bool {
        crate::assoc::distinct_keys(self.list@)
    }

    /// No parts.
    pub fn new() -> (fields: Self)
        ensures
            fields@ == Map::<u32, ProcessAeDescriptor>::empty(),
    {
        let fields = ProcessAeFields { list: Vec::new() };
        assert(fields@ =~= Map::<u32, ProcessAeDescriptor>::empty());
        fields
    }

    /// The number of parts.
    pub fn len(&self) -> (n: usize)
        ensures
            n == self@.dom().len(),
            self@.dom().finite(),
    {
        proof {
            use_type_invariant(self);
            crate::assoc::lemma_map_len(self.list@);
        }
        self.list.len()
    }

    fn position(&self, key: u32) -> (found: Option<usize>)
        ensures
            match found {
                Some(i) => i < self.list@.len() && self.list@[i as int].0 == key,
                None => forall|i: int|
                    0 <= i < self.list@.len() ==> (#[trigger] self.list@[i]).0 != key,
            },
    {
        let count: usize = self.list.len();
        let mut i: usize = 0;
        while i < count
            invariant
                i <= count,
                count == self.list@.len(),
                forall|j: int| 0 <= j < i ==> (#[trigger] self.list@[j]).0 != key,
            decreases count - i,
        {
            if self.list[i].0 == key {
                return Some(i);
            }
            i += 1;
        }
        None
    }

    /// The part of a key.
    pub fn get(&self, key: u32) -> (part: Option<&ProcessAeDescriptor>)
        ensures
            match part {
                Some(part) => self@.dom().contains(key) && *part == self@[key],
                None => !self@.dom().contains(key),
            },
    {
        proof {
            use_type_invariant(self);
            crate::assoc::lemma_entries_map(self.list@);
        }
        match self.position(key) {
            Some(i) => Some(&self.list[i].1),
            None => None,
        }
    }

    /// Insert or replace; the part that the key had before is handed back.
    pub fn insert(&mut self, key: u32, part: ProcessAeDescriptor) -> (previous: Option<
        ProcessAeDescriptor,
    >)
        ensures
            final(self)@ == old(self)@.insert(key, part),
            match previous {
                Some(previous) => old(self)@.dom().contains(key) && previous == old(self)@[key],
                None => !old(self)@.dom().contains(key),
            },
    {
        proof {
            use_type_invariant(&*self);
            crate::assoc::lemma_entries_map(self.list@);
        }
        let ghost before = self.list@;
        let ghost expected = self@.insert(key, part);
        let found = self.position(key);
        let mut list: Vec<(u32, ProcessAeDescriptor)> = Vec::new();
        core::mem::swap(&mut list, &mut self.list);
        let mut previous: Option<ProcessAeDescriptor> = None;
        list.push((key, part));
        if let Some(i) = found {
            let (_, replaced) = list.swap_remove(i);
            previous = Some(replaced);
        }
        proof {
            let place = match found {
                Some(i) => i as int,
                None => before.len() as int,
            };
            assert forall|j: int| 0 <= j < list@.len() implies list@[j] == (if j == place {
                (key, part)
            } else {
                before[j]
            }) by {}
            assert forall|a: int, b: int| 0 <= a < b < list@.len() implies (
            #[trigger] list@[a]).0 != (#[trigger] list@[b]).0 by {
                if a != place && b != place {
                    assert(crate::assoc::distinct_keys(before));
                    assert(before[a].0 != before[b].0);
                } else if a == place {
                    assert(before[b].0 != key) by {
                        if found is Some {
                            assert(before[place].0 != before[b].0);
                        }
                    }
                } else {
                    assert(before[a].0 != key) by {
                        if found is Some {
                            assert(before[a].0 != before[place].0);
                        }
                    }
                }
            }
            assert forall|k: u32| #[trigger] expected.dom().contains(k) implies exists|j: int|
                0 <= j < list@.len() && (#[trigger] list@[j]).0 == k by {
                if k == key {
                    assert(list@[place].0 == k);
                } else {
                    let p = crate::assoc::key_position(before, k);
                    assert(list@[p].0 == k);
                }
            }
            assert forall|j: int| 0 <= j < list@.len() implies expected.dom().contains(
                (#[trigger] list@[j]).0,
            ) && expected[list@[j].0] == list@[j].1 by {
                if j != place {
                    assert(list@[j] == before[j]);
                    assert(list@[j].0 != list@[place].0);
                }
            }
            crate::assoc::lemma_same_map(list@, expected);
        }
        self.list = list;
        previous
    }
}

/// Two descriptors have the same contents. Fields are compared by their keys.
pub open spec fn same_descriptor(a: ProcessAeDescriptor, b: ProcessAeDescriptor) -> bool
    decreases a,
{
    &&& a.desc_type == b.desc_type
    &&& a.data@ == b.data@
    &&& a.fields@.dom() == b.fields@.dom()
    &&& forall|key: u32| #[trigger]
        a.fields@.dom().contains(key) ==> decreases_to!(a => a.fields@[key]) && same_descriptor(
            a.fields@[key],
            b.fields@[key],
        )
    &&& a.items@.len() == b.items@.len()
    &&& forall|i: int|
        #![trigger a.items@[i]]
        0 <= i < a.items@.len() ==> a.items@[i].0 == b.items@[i].0 && same_descriptor(
            a.items@[i].1,
            b.items@[i].1,
        )
}

/// Two tables of fields have the same contents.
pub open spec fn same_fields(
    a: Map<u32, ProcessAeDescriptor>,
    b: Map<u32, ProcessAeDescriptor>,
) -> bool {
    &&& a.dom() == b.dom()
    &&& forall|key: u32| #[trigger] a.dom().contains(key) ==> same_descriptor(a[key], b[key])
}

/// Two keyed lists have the same contents.
pub open spec fn same_parts(
    a: Seq<(u32, ProcessAeDescriptor)>,
    b: Seq<(u32, ProcessAeDescriptor)>,
) -> bool {
    &&& a.len() == b.len()
    &&& forall|i: int|
        #![trigger a[i]]
        0 <= i < a.len() ==> a[i].0 == b[i].0 && same_descriptor(a[i].1, b[i].1)
}

/// Descriptors are the same exactly where their parts are.
pub proof fn descriptors_are_compared_by_parts(a: ProcessAeDescriptor, b: ProcessAeDescriptor)
    ensures
        same_descriptor(a, b) == (a.desc_type == b.desc_type && a.data@ == b.data@ && same_fields(
            a.fields@,
            b.fields@,
        ) && same_parts(a.items@, b.items@)),
{
    assert forall|key: u32| #[trigger] a.fields@.dom().contains(key) implies decreases_to!(
        a => a.fields@[key]
    ) by {
        let position = crate::assoc::key_position(a.fields.list@, key);
        crate::assoc::lemma_key_position(a.fields.list@, key);
        assert(decreases_to!(a => a.fields.list@[position].1));
    }
}

fn copy_parts(parts: &Vec<(u32, ProcessAeDescriptor)>) -> (copy: Vec<(u32, ProcessAeDescriptor)>)
    ensures
        same_parts(parts@, copy@),
    decreases parts,
{
    let mut copy: Vec<(u32, ProcessAeDescriptor)> = Vec::new();
    let count: usize = parts.len();
    let mut i: usize = 0;
    while i < count
        invariant
            i <= count,
            count == parts@.len(),
            copy@.len() == i,
            forall|j: int|
                #![trigger parts@[j]]
                0 <= j < i ==> parts@[j].0 == copy@[j].0 && same_descriptor(
                    parts@[j].1,
                    copy@[j].1,
                ),
        decreases count - i,
    {
        assert(decreases_to!(parts => parts@[i as int].1));
        let part = copy_descriptor(&parts[i].1);
        copy.push((parts[i].0, part));
        i += 1;
    }
    copy
}

fn copy_fields(fields: &ProcessAeFields) -> (copy: ProcessAeFields)
    ensures
        same_fields(fields@, copy@),
    decreases fields,
{
    proof {
        use_type_invariant(fields);
        crate::assoc::lemma_entries_map(fields.list@);
    }
    let mut copy = ProcessAeFields::new();
    let count: usize = fields.list.len();
    let mut i: usize = 0;
    while i < count
        invariant
            i <= count,
            count == fields.list@.len(),
            crate::assoc::distinct_keys(fields.list@),
            forall|j: int| 0 <= j < i ==> copy@.dom().contains((#[trigger] fields.list@[j]).0),
            forall|key: u32| #[trigger]
                copy@.dom().contains(key) ==> fields@.dom().contains(key) && same_descriptor(
                    fields@[key],
                    copy@[key],
                ),
        decreases count - i,
    {
        proof {
            crate::assoc::lemma_entries_map(fields.list@);
            assert(fields@.dom().contains(fields.list@[i as int].0));
            assert(decreases_to!(fields => fields.list@[i as int].1));
        }
        let part = copy_descriptor(&fields.list[i].1);
        let _ = copy.insert(fields.list[i].0, part);
        i += 1;
    }
    proof {
        assert forall|key: u32| fields@.dom().contains(key) implies copy@.dom().contains(key) by {
            let j = crate::assoc::key_position(fields.list@, key);
            crate::assoc::lemma_key_position(fields.list@, key);
            assert(copy@.dom().contains(fields.list@[j].0));
        }
        assert(copy@.dom() =~= fields@.dom());
    }
    copy
}

/// A copy of a descriptor with everything in it.
pub fn copy_descriptor(descriptor: &ProcessAeDescriptor) -> (copy: ProcessAeDescriptor)
    ensures
        same_descriptor(*descriptor, copy),
    decreases descriptor,
{
    let data = copy_bytes(&descriptor.data);
    let fields = copy_fields(&descriptor.fields);
    let items = copy_parts(&descriptor.items);
    let copy = ProcessAeDescriptor { desc_type: descriptor.desc_type, data, fields, items };
    proof {
        descriptors_are_compared_by_parts(*descriptor, copy);
    }
    copy
}

fn bytes_agree(a: &Vec<u8>, b: &Vec<u8>) -> (agree: bool)
    ensures
        agree == (a@ == b@),
{
    if a.len() != b.len() {
        return false;
    }
    let count: usize = a.len();
    let mut i: usize = 0;
    while i < count
        invariant
            i <= count,
            count == a@.len(),
            count == b@.len(),
            forall|j: int| 0 <= j < i ==> #[trigger] a@[j] == b@[j],
        decreases count - i,
    {
        if a[i] != b[i] {
            return false;
        }
        i += 1;
    }
    assert(a@ =~= b@);
    true
}

fn parts_agree(
    a: &Vec<(u32, ProcessAeDescriptor)>,
    b: &Vec<(u32, ProcessAeDescriptor)>,
) -> (agree: bool)
    ensures
        agree == same_parts(a@, b@),
    decreases a,
{
    if a.len() != b.len() {
        return false;
    }
    let count: usize = a.len();
    let mut i: usize = 0;
    while i < count
        invariant
            i <= count,
            count == a@.len(),
            count == b@.len(),
            forall|j: int|
                #![trigger a@[j]]
                0 <= j < i ==> a@[j].0 == b@[j].0 && same_descriptor(a@[j].1, b@[j].1),
        decreases count - i,
    {
        assert(decreases_to!(a => a@[i as int].1));
        if a[i].0 != b[i].0 || !descriptors_agree(&a[i].1, &b[i].1) {
            assert(!same_parts(a@, b@)) by {
                let part = a@[i as int];
            }
            return false;
        }
        i += 1;
    }
    true
}

fn fields_agree(a: &ProcessAeFields, b: &ProcessAeFields) -> (agree: bool)
    ensures
        agree == same_fields(a@, b@),
    decreases a,
{
    proof {
        use_type_invariant(a);
        use_type_invariant(b);
        crate::assoc::lemma_entries_map(a.list@);
        crate::assoc::lemma_entries_map(b.list@);
    }
    let count: usize = a.list.len();
    let mut i: usize = 0;
    while i < count
        invariant
            i <= count,
            count == a.list@.len(),
            crate::assoc::distinct_keys(a.list@),
            forall|j: int|
                0 <= j < i ==> b@.dom().contains((#[trigger] a.list@[j]).0) && same_descriptor(
                    a.list@[j].1,
                    b@[a.list@[j].0],
                ),
        decreases count - i,
    {
        proof {
            crate::assoc::lemma_entries_map(a.list@);
            assert(a@.dom().contains(a.list@[i as int].0));
            assert(decreases_to!(a => a.list@[i as int].1));
        }
        match b.get(a.list[i].0) {
            None => {
                return false;
            },
            Some(other) => {
                if !descriptors_agree(&a.list[i].1, other) {
                    return false;
                }
            },
        }
        i += 1;
    }
    let other_count: usize = b.list.len();
    let mut k: usize = 0;
    while k < other_count
        invariant
            k <= other_count,
            other_count == b.list@.len(),
            crate::assoc::distinct_keys(b.list@),
            forall|j: int| 0 <= j < k ==> a@.dom().contains((#[trigger] b.list@[j]).0),
        decreases other_count - k,
    {
        if a.get(b.list[k].0).is_none() {
            proof {
                crate::assoc::lemma_entries_map(b.list@);
                assert(b@.dom().contains(b.list@[k as int].0));
            }
            return false;
        }
        k += 1;
    }
    proof {
        assert forall|key: u32| #[trigger] a@.dom().contains(key) implies b@.dom().contains(key)
            && same_descriptor(a@[key], b@[key]) by {
            let j = crate::assoc::key_position(a.list@, key);
            crate::assoc::lemma_key_position(a.list@, key);
            assert(b@.dom().contains(a.list@[j].0));
        }
        assert forall|key: u32| b@.dom().contains(key) implies a@.dom().contains(key) by {
            let j = crate::assoc::key_position(b.list@, key);
            crate::assoc::lemma_key_position(b.list@, key);
            assert(a@.dom().contains(b.list@[j].0));
        }
        assert(a@.dom() =~= b@.dom());
    }
    true
}

/// Whether two descriptors have the same contents.
pub fn descriptors_agree(a: &ProcessAeDescriptor, b: &ProcessAeDescriptor) -> (agree: bool)
    ensures
        agree == same_descriptor(*a, *b),
    decreases a,
{
    proof {
        descriptors_are_compared_by_parts(*a, *b);
    }
    a.desc_type == b.desc_type && bytes_agree(&a.data, &b.data) && fields_agree(
        &a.fields,
        &b.fields,
    ) && parts_agree(&a.items, &b.items)
}

impl PartialEq for ProcessAeDescriptor {
    fn eq(&self, other: &Self) -> (equal: bool) {
        descriptors_agree(self, other)
    }
}

impl Eq for ProcessAeDescriptor {

}

impl vstd::std_specs::cmp::PartialEqSpecImpl for ProcessAeDescriptor {
    open spec fn obeys_eq_spec() -> bool {
        true
    }

    open spec fn eq_spec(&self, other: &Self) -> bool {
        same_descriptor(*self, *other)
    }
}

/// An event that the process made itself.
#[derive(Debug)]
pub struct ProcessSyntheticAppleEvent {
    pub event_class: u32,
    pub event_id: u32,
    pub params: ProcessAeFields,
    pub items: Vec<(u32, ProcessAeDescriptor)>,
}

/// Two events have the same contents. Parameters are compared by their keys.
pub open spec fn same_event(a: ProcessSyntheticAppleEvent, b: ProcessSyntheticAppleEvent) -> bool {
    &&& a.event_class == b.event_class
    &&& a.event_id == b.event_id
    &&& same_fields(a.params@, b.params@)
    &&& same_parts(a.items@, b.items@)
}

impl PartialEq for ProcessSyntheticAppleEvent {
    fn eq(&self, other: &Self) -> (equal: bool) {
        self.event_class == other.event_class && self.event_id == other.event_id && fields_agree(
            &self.params,
            &other.params,
        ) && parts_agree(&self.items, &other.items)
    }
}

impl Eq for ProcessSyntheticAppleEvent {

}

impl vstd::std_specs::cmp::PartialEqSpecImpl for ProcessSyntheticAppleEvent {
    open spec fn obeys_eq_spec() -> bool {
        true
    }

    open spec fn eq_spec(&self, other: &Self) -> bool {
        same_event(*self, *other)
    }
}

impl CellDefault for ProcessAeDescriptor {
    open spec fn is_default(&self) -> bool {
        &&& self.desc_type == 0
        &&& self.data@.len() == 0
        &&& self.fields@ == Map::<u32, ProcessAeDescriptor>::empty()
        &&& self.items@.len() == 0
    }

    fn default_value() -> (value: Self) {
        ProcessAeDescriptor {
            desc_type: 0,
            data: Vec::new(),
            fields: ProcessAeFields::new(),
            items: Vec::new(),
        }
    }
}

impl CellValue for ProcessAeDescriptor {
    open spec fn same(&self, other: &Self) -> bool {
        same_descriptor(*self, *other)
    }

    fn copy_value(&self) -> (copy: Self) {
        copy_descriptor(self)
    }
}

impl CellDefault for ProcessSyntheticAppleEvent {
    open spec fn is_default(&self) -> bool {
        &&& self.event_class == 0
        &&& self.event_id == 0
        &&& self.params@ == Map::<u32, ProcessAeDescriptor>::empty()
        &&& self.items@.len() == 0
    }

    fn default_value() -> (value: Self) {
        ProcessSyntheticAppleEvent {
            event_class: 0,
            event_id: 0,
            params: ProcessAeFields::new(),
            items: Vec::new(),
        }
    }
}

impl CellValue for ProcessSyntheticAppleEvent {
    open spec fn same(&self, other: &Self) -> bool {
        same_event(*self, *other)
    }

    fn copy_value(&self) -> (copy: Self) {
        ProcessSyntheticAppleEvent {
            event_class: self.event_class,
            event_id: self.event_id,
            params: copy_fields(&self.params),
            items: copy_parts(&self.items),
        }
    }
}

/// The descriptors of one process. Records are found by their address;
/// contents by the data handle, which copies of a record share.
pub struct ProcessAppleEventDescriptors {
    pub events: AssocMap<u32, ProcessSyntheticAppleEvent>,
    pub descriptors: AssocMap<u32, ProcessAeDescriptor>,
    pub backing: AssocMap<u32, ProcessAeDescriptor>,
}

impl ProcessAppleEventDescriptors {
    pub open spec fn pristine(&self) -> bool {
        &&& self.events@ == Map::<u32, ProcessSyntheticAppleEvent>::empty()
        &&& self.descriptors@ == Map::<u32, ProcessAeDescriptor>::empty()
        &&& self.backing@ == Map::<u32, ProcessAeDescriptor>::empty()
    }

    pub fn new() -> (state: Self)
        ensures
            state.pristine(),
    {
        ProcessAppleEventDescriptors {
            events: AssocMap::new(),
            descriptors: AssocMap::new(),
            backing: AssocMap::new(),
        }
    }

    pub fn is_pristine(&self) -> (pristine: bool)
        ensures
            pristine == self.pristine(),
    {
        self.events.is_empty() && self.descriptors.is_empty() && self.backing.is_empty()
    }
}

impl CellDefault for ProcessAppleEventDescriptors {
    open spec fn is_default(&self) -> bool {
        self.pristine()
    }

    fn default_value() -> (value: Self) {
        ProcessAppleEventDescriptors::new()
    }
}

impl CellValue for ProcessAppleEventDescriptors {
    open spec fn same(&self, other: &Self) -> bool {
        &&& self.events.same(&other.events)
        &&& self.descriptors.same(&other.descriptors)
        &&& self.backing.same(&other.backing)
    }

    fn copy_value(&self) -> (copy: Self) {
        ProcessAppleEventDescriptors {
            events: self.events.copy_value(),
            descriptors: self.descriptors.copy_value(),
            backing: self.backing.copy_value(),
        }
    }
}

/// The descriptors of a process.
pub struct SharedProcessAppleEventDescriptors {
    pub cell: SharedProcessValue<ProcessAppleEventDescriptors>,
}

impl SharedProcessAppleEventDescriptors {
    pub open spec fn id(&self) -> int {
        self.cell.id()
    }

    /// The handle names a cell of the store.
    pub open spec fn valid(&self, cells: &SharedCells<ProcessAppleEventDescriptors>) -> bool {
        self.cell.valid(cells@)
    }

    /// What the cell holds.
    pub open spec fn value(&self, cells: &SharedCells<ProcessAppleEventDescriptors>) -> ProcessAppleEventDescriptors {
        cells@[self.cell.id()]
    }

    /// A value that an attachment may replace.
    pub open spec fn pristine(value: ProcessAppleEventDescriptors) -> bool {
        value.pristine()
    }

    pub fn from_value(cells: &mut SharedCells<ProcessAppleEventDescriptors>, value: ProcessAppleEventDescriptors) -> (handle: Self)
        ensures
            handle.id() == old(cells)@.len(),
            final(cells)@ == old(cells)@.push(value),
    {
        SharedProcessAppleEventDescriptors { cell: cells.allocate(value) }
    }

    /// A handle to empty tables of its own.
    pub fn new(cells: &mut SharedCells<ProcessAppleEventDescriptors>) -> (handle: Self)
        ensures
            handle.id() == old(cells)@.len(),
            crate::cells::cells_extend(old(cells)@, final(cells)@),
            final(cells)@.len() == old(cells)@.len() + 1,
            handle.value(final(cells)).pristine(),
    {
        SharedProcessAppleEventDescriptors { cell: cells.allocate(ProcessAppleEventDescriptors::new()) }
    }

    /// Another handle to the same cell.
    pub fn shared_handle(&self) -> (handle: Self)
        ensures
            handle.id() == self.id(),
    {
        SharedProcessAppleEventDescriptors { cell: self.cell.shared_handle() }
    }

    /// Whether two handles name one cell.
    pub fn ptr_eq(&self, other: &Self) -> (same: bool)
        ensures
            same == (self.id() == other.id()),
    {
        self.cell.ptr_eq(&other.cell)
    }

    /// A copy in a cell of its own.
    pub fn detached_clone(&self, cells: &mut SharedCells<ProcessAppleEventDescriptors>) -> (copy: Self)
        requires
            self.valid(old(cells)),
        ensures
            copy.id() == old(cells)@.len(),
            crate::cells::cells_extend(old(cells)@, final(cells)@),
            final(cells)@.len() == old(cells)@.len() + 1,
            self.value(old(cells)).same(&final(cells)@[copy.id()]),
    {
        SharedProcessAppleEventDescriptors { cell: self.cell.detached_clone(cells) }
    }

    /// Share the process's cell, which takes this one's contents over where
    /// it has none. At most one of the two may have contents.
    pub fn attach_to(&mut self, cells: &mut SharedCells<ProcessAppleEventDescriptors>, process_state: &Self)
        requires
            old(self).valid(old(cells)),
            process_state.valid(old(cells)),
            crate::cells::attachable(
                old(cells)@,
                old(self).id(),
                process_state.id(),
                |value: ProcessAppleEventDescriptors| SharedProcessAppleEventDescriptors::pristine(value),
            ),
        ensures
            final(self).id() == process_state.id(),
            crate::cells::joined(
                old(cells)@,
                final(cells)@,
                old(self).id(),
                process_state.id(),
                SharedProcessAppleEventDescriptors::pristine(process_state.value(old(cells))),
            ),
    {
        let is_pristine = |value: &ProcessAppleEventDescriptors| -> (pristine: bool)
            ensures
                pristine == SharedProcessAppleEventDescriptors::pristine(*value),
            { value.is_pristine() };
        self.cell.attach_to(cells, &process_state.cell, is_pristine);
    }

    pub fn is_pristine(&self, cells: &SharedCells<ProcessAppleEventDescriptors>) -> (pristine: bool)
        requires
            self.valid(cells),
        ensures
            pristine == SharedProcessAppleEventDescriptors::pristine(self.value(cells)),
    {
        let value = cells.get(&self.cell);
        value.is_pristine()
    }
}

impl SharedProcessAppleEventDescriptors {
    /// A copy of the descriptors.
    pub fn snapshot(&self, cells: &SharedCells<ProcessAppleEventDescriptors>) -> (state:
        ProcessAppleEventDescriptors)
        requires
            self.valid(cells),
        ensures
            self.value(cells).same(&state),
    {
        cells.get(&self.cell).copy_value()
    }
}

} // verus!
