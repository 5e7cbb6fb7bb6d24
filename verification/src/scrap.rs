//! The desk scrap that the adapters of a process share.

use crate::cells::{CellDefault, CellValue, SharedCells, SharedProcessValue};
use vstd::prelude::*;

verus! {

/// The entries of a scrap: a flavor and its data each.
pub type ScrapEntries = Vec<([u8; 4], Vec<u8>)>;

/// The desk scrap of one process.
pub struct ProcessScrapState {
    pub entries: ScrapEntries,
    /// Changes whenever the scrap is emptied.
    pub count: i16,
    pub initialized: bool,
    pub in_memory: bool,
    pub clipboard_writable: bool,
    pub handle: Option<u32>,
    pub handle_dirty: bool,
    pub stuff_ptr: Option<u32>,
}

/// What `InfoScrap` reports.
#[derive(Clone, Copy, Debug, PartialEq, Eq, Structural)]
pub struct ProcessScrapSummary {
    pub serialized_size: u32,
    pub count: i16,
    pub initialized: bool,
    pub in_memory: bool,
    pub handle_dirty: bool,
}

/// The data of a flavor and where it stands.
#[derive(Debug, PartialEq, Eq)]
pub struct ProcessScrapFlavor {
    pub data: Vec<u8>,
    pub serialized_offset: u32,
    pub payload_offset: u32,
}

/// An entry as a flavor and its data.
pub type ScrapEntryModel = (Seq<u8>, Seq<u8>);

/// The entries as flavors and data.
pub open spec fn scrap_model(entries: Seq<([u8; 4], Vec<u8>)>) -> Seq<ScrapEntryModel> {
    Seq::new(entries.len(), |i: int| (entries[i].0@, entries[i].1@))
}

/// A length rounded up to an even number.
pub open spec fn even_length(length: nat) -> nat {
    ((length + 1) / 2 * 2) as nat
}

/// The size of the serialized entries: type, length and padded data each.
pub open spec fn scrap_size(entries: Seq<ScrapEntryModel>) -> nat
    decreases entries.len(),
{
    if entries.len() == 0 {
        0
    } else {
        scrap_size(entries.drop_last()) + 8 + even_length(entries.last().1.len())
    }
}

/// The size of the data of the entries alone.
pub open spec fn scrap_payload(entries: Seq<ScrapEntryModel>) -> nat
    decreases entries.len(),
{
    if entries.len() == 0 {
        0
    } else {
        scrap_payload(entries.drop_last()) + entries.last().1.len()
    }
}

/// Every length fits its field.
pub open spec fn scrap_lengths_fit(entries: Seq<ScrapEntryModel>) -> bool {
    forall|i: int| 0 <= i < entries.len() ==> (#[trigger] entries[i]).1.len() < u32::MAX
}

/// A number as four bytes, the highest first.
pub open spec fn length_bytes(length: int) -> Seq<u8> {
    seq![
        (length / 0x100_0000 % 256) as u8,
        (length / 0x1_0000 % 256) as u8,
        (length / 0x100 % 256) as u8,
        (length % 256) as u8,
    ]
}

/// One entry with its length and its padding.
pub open spec fn entry_bytes(entry: ScrapEntryModel) -> Seq<u8> {
    entry.0 + length_bytes(entry.1.len() as int) + entry.1 + (if entry.1.len() % 2 == 0 {
        Seq::<u8>::empty()
    } else {
        seq![0u8]
    })
}

/// The entries as the scrap handle holds them.
pub open spec fn scrap_bytes(entries: Seq<ScrapEntryModel>) -> Seq<u8>
    decreases entries.len(),
{
    if entries.len() == 0 {
        Seq::empty()
    } else {
        scrap_bytes(entries.drop_last()) + entry_bytes(entries.last())
    }
}

/// The first entry of a flavor, or the number of entries where there is none.
pub open spec fn flavor_position(entries: Seq<ScrapEntryModel>, flavor: Seq<u8>) -> int
    decreases entries.len(),
{
    if entries.len() == 0 || entries[0].0 == flavor {
        0
    } else {
        1 + flavor_position(entries.skip(1), flavor)
    }
}

/// A number kept within an unsigned word.
pub open spec fn capped_word(value: int) -> u32 {
    if value > u32::MAX {
        u32::MAX
    } else {
        value as u32
    }
}

pub proof fn lemma_flavor_position(entries: Seq<ScrapEntryModel>, flavor: Seq<u8>)
    ensures
        0 <= flavor_position(entries, flavor) <= entries.len(),
        flavor_position(entries, flavor) < entries.len() ==> entries[flavor_position(
            entries,
            flavor,
        )].0 == flavor,
        forall|i: int|
            0 <= i < flavor_position(entries, flavor) ==> (#[trigger] entries[i]).0 != flavor,
    decreases entries.len(),
{
    if entries.len() > 0 && entries[0].0 != flavor {
        let rest = entries.skip(1);
        lemma_flavor_position(rest, flavor);
        assert forall|i: int| 0 <= i < flavor_position(entries, flavor) implies (
        #[trigger] entries[i]).0 != flavor by {
            if i > 0 {
                assert(rest[i - 1] == entries[i]);
            }
        }
        if flavor_position(entries, flavor) < entries.len() {
            assert(rest[flavor_position(entries, flavor) - 1] == entries[flavor_position(
                entries,
                flavor,
            )]);
        }
    }
}

proof fn lemma_flavor_at(entries: Seq<ScrapEntryModel>, flavor: Seq<u8>, at: int)
    requires
        0 <= at <= entries.len(),
        at < entries.len() ==> entries[at].0 == flavor,
        forall|i: int| 0 <= i < at ==> (#[trigger] entries[i]).0 != flavor,
    ensures
        flavor_position(entries, flavor) == at,
{
    lemma_flavor_position(entries, flavor);
    let position = flavor_position(entries, flavor);
    if position < at {
        assert(entries[position].0 != flavor);
    } else if at < position {
        assert(entries[at].0 != flavor);
    }
}

proof fn lemma_size_grows(entries: Seq<ScrapEntryModel>, count: int)
    requires
        0 <= count <= entries.len(),
    ensures
        scrap_size(entries.take(count)) <= scrap_size(entries),
    decreases entries.len() - count,
{
    if count < entries.len() {
        assert(entries.take(count + 1).drop_last() =~= entries.take(count));
        lemma_size_grows(entries, count + 1);
    } else {
        assert(entries.take(count) =~= entries);
    }
}

proof fn lemma_model_take(entries: Seq<([u8; 4], Vec<u8>)>, count: int)
    requires
        0 <= count < entries.len(),
    ensures
        scrap_model(entries).take(count + 1).drop_last() == scrap_model(entries).take(count),
        scrap_model(entries).take(count + 1).last() == (entries[count].0@, entries[count].1@),
{
    assert(scrap_model(entries).take(count + 1).drop_last() =~= scrap_model(entries).take(count));
}

fn same_flavor(a: &[u8; 4], b: &[u8; 4]) -> (same: bool)
    ensures
        same == (a@ == b@),
{
    let same = a[0] == b[0] && a[1] == b[1] && a[2] == b[2] && a[3] == b[3];
    proof {
        if same {
            assert(a@ =~= b@);
        } else {
            assert(a@[0] != b@[0] || a@[1] != b@[1] || a@[2] != b@[2] || a@[3] != b@[3]);
        }
    }
    same
}

fn copy_data(data: &Vec<u8>) -> (copy: Vec<u8>)
    ensures
        copy@ == data@,
{
    let mut copy: Vec<u8> = Vec::new();
    append_data(&mut copy, data);
    assert(copy@ =~= data@);
    copy
}

fn append_data(bytes: &mut Vec<u8>, data: &Vec<u8>)
    ensures
        final(bytes)@ == old(bytes)@ + data@,
{
    let ghost before = bytes@;
    let count: usize = data.len();
    let mut i: usize = 0;
    while i < count
        invariant
            i <= count,
            count == data@.len(),
            bytes@ == before + data@.take(i as int),
        decreases count - i,
    {
        assert(data@.take(i + 1) =~= data@.take(i as int).push(data@[i as int]));
        bytes.push(data[i]);
        assert(bytes@ =~= before + data@.take(i + 1));
        i += 1;
    }
    assert(data@.take(count as int) =~= data@);
}

fn append_entry_bytes(bytes: &mut Vec<u8>, entry: &([u8; 4], Vec<u8>))
    requires
        entry.1@.len() < u32::MAX,
    ensures
        final(bytes)@ == old(bytes)@ + entry_bytes((entry.0@, entry.1@)),
{
    let ghost before = bytes@;
    let ghost flavor = entry.0@;
    let length: u32 = entry.1.len() as u32;
    bytes.push(entry.0[0]);
    bytes.push(entry.0[1]);
    bytes.push(entry.0[2]);
    bytes.push(entry.0[3]);
    bytes.push((length / 0x100_0000 % 256) as u8);
    bytes.push((length / 0x1_0000 % 256) as u8);
    bytes.push((length / 0x100 % 256) as u8);
    bytes.push((length % 256) as u8);
    assert(bytes@ =~= before + flavor + length_bytes(length as int));
    append_data(bytes, &entry.1);
    if entry.1.len() % 2 != 0 {
        bytes.push(0);
    }
    assert(bytes@ =~= before + entry_bytes((flavor, entry.1@)));
}

impl ProcessScrapState {
    /// The entries as flavors and data.
    pub open spec fn model(&self) -> Seq<ScrapEntryModel> {
        scrap_model(self.entries@)
    }

    /// The scrap that no one has used.
    pub open spec fn pristine(&self) -> bool {
        &&& self.entries@.len() == 0
        &&& self.count == 0
        &&& !self.initialized
        &&& self.in_memory
        &&& !self.clipboard_writable
        &&& self.handle is None
        &&& !self.handle_dirty
        &&& self.stuff_ptr is None
    }

    pub fn new() -> (state: Self)
        ensures
            state.pristine(),
    {
        ProcessScrapState {
            entries: Vec::new(),
            count: 0,
            initialized: false,
            in_memory: true,
            clipboard_writable: false,
            handle: None,
            handle_dirty: false,
            stuff_ptr: None,
        }
    }

    pub fn is_pristine(&self) -> (pristine: bool)
        ensures
            pristine == self.pristine(),
    {
        self.entries.len() == 0 && self.count == 0 && !self.initialized && self.in_memory
            && !self.clipboard_writable && self.handle.is_none() && !self.handle_dirty
            && self.stuff_ptr.is_none()
    }

    /// Add an entry behind the others.
    pub fn append_entry(&mut self, flavor: [u8; 4], data: Vec<u8>)
        ensures
            final(self).entries@ == old(self).entries@.push((flavor, data)),
            *final(self) == (ProcessScrapState {
                entries: final(self).entries,
                handle_dirty: true,
                ..*old(self)
            }),
    {
        self.entries.push((flavor, data));
        self.handle_dirty = true;
    }

    /// Size and state of the scrap.
    pub fn summary(&self) -> (summary: ProcessScrapSummary)
        requires
            scrap_size(self.model()) <= u32::MAX,
        ensures
            summary.serialized_size == scrap_size(self.model()),
            summary.count == self.count,
            summary.initialized == self.initialized,
            summary.in_memory == self.in_memory,
            summary.handle_dirty == self.handle_dirty,
    {
        let mut serialized_size: u32 = 0;
        let count: usize = self.entries.len();
        let mut i: usize = 0;
        while i < count
            invariant
                i <= count,
                count == self.entries@.len(),
                scrap_size(self.model()) <= u32::MAX,
                serialized_size == scrap_size(self.model().take(i as int)),
            decreases count - i,
        {
            proof {
                lemma_model_take(self.entries@, i as int);
                lemma_size_grows(self.model(), i + 1);
            }
            let length: u32 = self.entries[i].1.len() as u32;
            serialized_size = serialized_size + 8 + (length + 1) / 2 * 2;
            i += 1;
        }
        assert(self.model().take(count as int) =~= self.model());
        ProcessScrapSummary {
            serialized_size,
            count: self.count,
            initialized: self.initialized,
            in_memory: self.in_memory,
            handle_dirty: self.handle_dirty,
        }
    }

    /// The entries as the scrap handle holds them.
    pub fn serialized_entries(&self) -> (bytes: Vec<u8>)
        requires
            scrap_size(self.model()) <= u32::MAX,
        ensures
            bytes@ == scrap_bytes(self.model()),
    {
        let mut bytes: Vec<u8> = Vec::new();
        let count: usize = self.entries.len();
        let mut i: usize = 0;
        while i < count
            invariant
                i <= count,
                count == self.entries@.len(),
                scrap_size(self.model()) <= u32::MAX,
                bytes@ == scrap_bytes(self.model().take(i as int)),
            decreases count - i,
        {
            proof {
                lemma_model_take(self.entries@, i as int);
                lemma_size_grows(self.model(), i + 1);
            }
            append_entry_bytes(&mut bytes, &self.entries[i]);
            i += 1;
        }
        assert(self.model().take(count as int) =~= self.model());
        bytes
    }

    /// The first entry of a flavor, with the place of its data among the
    /// serialized entries and among the data alone.
    pub fn flavor(&self, requested: [u8; 4]) -> (found: Option<ProcessScrapFlavor>)
        requires
            scrap_lengths_fit(self.model()),
        ensures
            ({
                let position = flavor_position(self.model(), requested@);
                match found {
                    Some(flavor) => {
                        &&& position < self.model().len()
                        &&& flavor.data@ == self.model()[position].1
                        &&& flavor.serialized_offset == capped_word(
                            scrap_size(self.model().take(position)) as int + 8,
                        )
                        &&& flavor.payload_offset == capped_word(
                            scrap_payload(self.model().take(position)) as int,
                        )
                    },
                    None => position == self.model().len(),
                }
            }),
    {
        let mut serialized_offset: u32 = 0;
        let mut payload_offset: u32 = 0;
        let count: usize = self.entries.len();
        let mut i: usize = 0;
        while i < count
            invariant
                i <= count,
                count == self.entries@.len(),
                scrap_lengths_fit(self.model()),
                serialized_offset == capped_word(scrap_size(self.model().take(i as int)) as int),
                payload_offset == capped_word(scrap_payload(self.model().take(i as int)) as int),
                forall|j: int| 0 <= j < i ==> (#[trigger] self.model()[j]).0 != requested@,
            decreases count - i,
        {
            let entry = &self.entries[i];
            proof {
                lemma_model_take(self.entries@, i as int);
                assert(self.model()[i as int] == (entry.0@, entry.1@));
            }
            if same_flavor(&entry.0, &requested) {
                proof {
                    lemma_flavor_at(self.model(), requested@, i as int);
                }
                return Some(
                    ProcessScrapFlavor {
                        data: copy_data(&entry.1),
                        serialized_offset: serialized_offset.saturating_add(8),
                        payload_offset,
                    },
                );
            }
            let length: u32 = entry.1.len() as u32;
            serialized_offset = serialized_offset.saturating_add(8).saturating_add(
                (length + 1) / 2 * 2,
            );
            payload_offset = payload_offset.saturating_add(length);
            i += 1;
        }
        proof {
            lemma_flavor_at(self.model(), requested@, count as int);
        }
        None
    }

    /// Note the scrap as used and add an entry.
    pub fn initialize_and_append_entry(&mut self, flavor: [u8; 4], data: Vec<u8>)
        ensures
            final(self).entries@ == old(self).entries@.push((flavor, data)),
            *final(self) == (ProcessScrapState {
                entries: final(self).entries,
                handle_dirty: true,
                initialized: true,
                ..*old(self)
            }),
    {
        self.initialized = true;
        self.append_entry(flavor, data);
    }

    /// Empty the scrap.
    pub fn zero(&mut self)
        ensures
            final(self).entries@.len() == 0,
            *final(self) == (ProcessScrapState {
                entries: final(self).entries,
                count: final(self).count,
                initialized: true,
                in_memory: true,
                handle_dirty: true,
                ..*old(self)
            }),
            final(self).count == (if old(self).count == i16::MAX {
                i16::MIN as int
            } else {
                old(self).count + 1
            }),
    {
        self.initialized = true;
        self.entries.clear();
        self.count = self.count.wrapping_add(1);
        self.in_memory = true;
        self.handle_dirty = true;
    }

    /// Bring the scrap into memory.
    pub fn load(&mut self)
        ensures
            *final(self) == (ProcessScrapState {
                initialized: true,
                in_memory: true,
                handle_dirty: old(self).handle_dirty || !old(self).in_memory,
                ..*old(self)
            }),
    {
        self.initialized = true;
        if !self.in_memory {
            self.in_memory = true;
            self.handle_dirty = true;
        }
    }

    /// Move the scrap out of memory. The result is the handle to release; a
    /// scrap in memory without a place to write it is refused.
    pub fn unload(&mut self) -> (released: Result<Option<u32>, ()>)
        ensures
            match released {
                Ok(handle) => {
                    &&& !old(self).in_memory || old(self).clipboard_writable
                    &&& old(self).in_memory ==> handle == old(self).handle && *final(self) == (
                    ProcessScrapState {
                        in_memory: false,
                        handle_dirty: true,
                        handle: None,
                        ..*old(self)
                    })
                    &&& !old(self).in_memory ==> handle is None && *final(self) == *old(self)
                },
                Err(_) => {
                    &&& old(self).in_memory && !old(self).clipboard_writable
                    &&& *final(self) == *old(self)
                },
            },
    {
        if self.in_memory && !self.clipboard_writable {
            return Err(());
        }
        if !self.in_memory {
            return Ok(None);
        }
        self.in_memory = false;
        self.handle_dirty = true;
        let handle = self.handle;
        self.handle = None;
        Ok(handle)
    }

    /// The scrap handle, allocated where there is none.
    pub fn ensure_handle(&mut self, allocate: impl FnOnce() -> u32) -> (handle: u32)
        requires
            old(self).handle is None ==> call_requires(allocate, ()),
        ensures
            match old(self).handle {
                Some(known) => handle == known,
                None => call_ensures(allocate, (), handle),
            },
            *final(self) == (ProcessScrapState { handle: Some(handle), ..*old(self) }),
    {
        match self.handle {
            Some(handle) => handle,
            None => {
                let handle: u32 = allocate();
                self.handle = Some(handle);
                handle
            },
        }
    }

    pub fn mark_handle_clean(&mut self)
        ensures
            *final(self) == (ProcessScrapState { handle_dirty: false, ..*old(self) }),
    {
        self.handle_dirty = false;
    }

    /// The scrap information record, allocated where there is none.
    pub fn ensure_stuff_ptr(&mut self, allocate: impl FnOnce() -> u32) -> (ptr: u32)
        requires
            old(self).stuff_ptr is None ==> call_requires(allocate, ()),
        ensures
            match old(self).stuff_ptr {
                Some(known) => ptr == known,
                None => call_ensures(allocate, (), ptr),
            },
            *final(self) == (ProcessScrapState { stuff_ptr: Some(ptr), ..*old(self) }),
    {
        match self.stuff_ptr {
            Some(ptr) => ptr,
            None => {
                let ptr: u32 = allocate();
                self.stuff_ptr = Some(ptr);
                ptr
            },
        }
    }

    pub fn set_clipboard_writable(&mut self, writable: bool)
        ensures
            *final(self) == (ProcessScrapState { clipboard_writable: writable, ..*old(self) }),
    {
        self.clipboard_writable = writable;
    }
}

impl CellDefault for ProcessScrapState {
    open spec fn is_default(&self) -> bool {
        self.pristine()
    }

    fn default_value() -> (value: Self) {
        ProcessScrapState::new()
    }
}

impl CellValue for ProcessScrapState {
    open spec fn same(&self, other: &Self) -> bool {
        &&& self.model() == other.model()
        &&& *other == (ProcessScrapState { entries: other.entries, ..*self })
    }

    fn copy_value(&self) -> (copy: Self) {
        let mut entries: ScrapEntries = Vec::new();
        let count: usize = self.entries.len();
        let mut i: usize = 0;
        while i < count
            invariant
                i <= count,
                count == self.entries@.len(),
                entries@.len() == i,
                forall|j: int|
                    0 <= j < i ==> (#[trigger] entries@[j]).0 == self.entries@[j].0
                        && entries@[j].1@ == self.entries@[j].1@,
            decreases count - i,
        {
            let data = copy_data(&self.entries[i].1);
            entries.push((self.entries[i].0, data));
            i += 1;
        }
        assert(scrap_model(entries@) =~= self.model());
        ProcessScrapState {
            entries,
            count: self.count,
            initialized: self.initialized,
            in_memory: self.in_memory,
            clipboard_writable: self.clipboard_writable,
            handle: self.handle,
            handle_dirty: self.handle_dirty,
            stuff_ptr: self.stuff_ptr,
        }
    }
}

/// The desk scrap of a process.
pub struct SharedProcessScrapState {
    pub cell: SharedProcessValue<ProcessScrapState>,
}

impl SharedProcessScrapState {
    pub open spec fn id(&self) -> int {
        self.cell.id()
    }

    /// The handle names a cell of the store.
    pub open spec fn valid(&self, cells: &SharedCells<ProcessScrapState>) -> bool {
        self.cell.valid(cells@)
    }

    /// What the cell holds.
    pub open spec fn value(&self, cells: &SharedCells<ProcessScrapState>) -> ProcessScrapState {
        cells@[self.cell.id()]
    }

    /// A value that an attachment may replace.
    pub open spec fn pristine(value: ProcessScrapState) -> bool {
        value.pristine()
    }

    pub fn from_value(cells: &mut SharedCells<ProcessScrapState>, value: ProcessScrapState) -> (handle: Self)
        ensures
            handle.id() == old(cells)@.len(),
            final(cells)@ == old(cells)@.push(value),
    {
        SharedProcessScrapState { cell: cells.allocate(value) }
    }

    /// A handle to an unused scrap of its own.
    pub fn new(cells: &mut SharedCells<ProcessScrapState>) -> (handle: Self)
        ensures
            handle.id() == old(cells)@.len(),
            crate::cells::cells_extend(old(cells)@, final(cells)@),
            final(cells)@.len() == old(cells)@.len() + 1,
            handle.value(final(cells)).pristine(),
    {
        SharedProcessScrapState { cell: cells.allocate(ProcessScrapState::new()) }
    }

    /// Another handle to the same cell.
    pub fn shared_handle(&self) -> (handle: Self)
        ensures
            handle.id() == self.id(),
    {
        SharedProcessScrapState { cell: self.cell.shared_handle() }
    }

    /// Whether two handles name one cell.
    pub fn ptr_eq(&self, other: &Self) -> (same: bool)
        ensures
            same == (self.id() == other.id()),
    {
        self.cell.ptr_eq(&other.cell)
    }

    /// A copy in a cell of its own.
    pub fn detached_clone(&self, cells: &mut SharedCells<ProcessScrapState>) -> (copy: Self)
        requires
            self.valid(old(cells)),
        ensures
            copy.id() == old(cells)@.len(),
            crate::cells::cells_extend(old(cells)@, final(cells)@),
            final(cells)@.len() == old(cells)@.len() + 1,
            self.value(old(cells)).same(&final(cells)@[copy.id()]),
    {
        SharedProcessScrapState { cell: self.cell.detached_clone(cells) }
    }

    /// Share the process's cell, which takes this one's contents over where
    /// it has none. At most one of the two may have contents.
    pub fn attach_to(&mut self, cells: &mut SharedCells<ProcessScrapState>, process_state: &Self)
        requires
            old(self).valid(old(cells)),
            process_state.valid(old(cells)),
            crate::cells::attachable(
                old(cells)@,
                old(self).id(),
                process_state.id(),
                |value: ProcessScrapState| SharedProcessScrapState::pristine(value),
            ),
        ensures
            final(self).id() == process_state.id(),
            crate::cells::joined(
                old(cells)@,
                final(cells)@,
                old(self).id(),
                process_state.id(),
                SharedProcessScrapState::pristine(process_state.value(old(cells))),
            ),
    {
        let is_pristine = |value: &ProcessScrapState| -> (pristine: bool)
            ensures
                pristine == SharedProcessScrapState::pristine(*value),
            { value.is_pristine() };
        self.cell.attach_to(cells, &process_state.cell, is_pristine);
    }

    pub fn is_pristine(&self, cells: &SharedCells<ProcessScrapState>) -> (pristine: bool)
        requires
            self.valid(cells),
        ensures
            pristine == SharedProcessScrapState::pristine(self.value(cells)),
    {
        let value = cells.get(&self.cell);
        value.is_pristine()
    }
}

impl SharedProcessScrapState {
    /// Size and state of the scrap.
    pub fn summary(&self, cells: &SharedCells<ProcessScrapState>) -> (summary: ProcessScrapSummary)
        requires
            self.valid(cells),
            scrap_size(self.value(cells).model()) <= u32::MAX,
        ensures
            summary.serialized_size == scrap_size(self.value(cells).model()),
            summary.count == self.value(cells).count,
            summary.initialized == self.value(cells).initialized,
            summary.in_memory == self.value(cells).in_memory,
            summary.handle_dirty == self.value(cells).handle_dirty,
    {
        cells.get(&self.cell).summary()
    }

    /// The entries as the scrap handle holds them.
    pub fn serialized_entries(&self, cells: &SharedCells<ProcessScrapState>) -> (bytes: Vec<u8>)
        requires
            self.valid(cells),
            scrap_size(self.value(cells).model()) <= u32::MAX,
        ensures
            bytes@ == scrap_bytes(self.value(cells).model()),
    {
        cells.get(&self.cell).serialized_entries()
    }

    /// The first entry of a flavor, with the place of its data.
    pub fn flavor(&self, cells: &SharedCells<ProcessScrapState>, requested: [u8; 4]) -> (found: Option<
        ProcessScrapFlavor,
    >)
        requires
            self.valid(cells),
            scrap_lengths_fit(self.value(cells).model()),
        ensures
            ({
                let model = self.value(cells).model();
                let position = flavor_position(model, requested@);
                match found {
                    Some(flavor) => {
                        &&& position < model.len()
                        &&& flavor.data@ == model[position].1
                        &&& flavor.serialized_offset == capped_word(
                            scrap_size(model.take(position)) as int + 8,
                        )
                        &&& flavor.payload_offset == capped_word(
                            scrap_payload(model.take(position)) as int,
                        )
                    },
                    None => position == model.len(),
                }
            }),
    {
        cells.get(&self.cell).flavor(requested)
    }

    /// Add an entry behind the others.
    pub fn append_entry(&self, cells: &mut SharedCells<ProcessScrapState>, flavor: [u8; 4], data: Vec<u8>)
        requires
            self.valid(old(cells)),
        ensures
            crate::cells::only_cell_changed(old(cells)@, final(cells)@, self.id()),
            self.value(final(cells)).entries@ == self.value(old(cells)).entries@.push((flavor, data)),
            self.value(final(cells)) == (ProcessScrapState {
                entries: self.value(final(cells)).entries,
                handle_dirty: true,
                ..self.value(old(cells))
            }),
    {
        cells.get_mut(&self.cell).append_entry(flavor, data);
    }

    /// Note the scrap as used and add an entry.
    pub fn initialize_and_append_entry(&self, cells: &mut SharedCells<ProcessScrapState>, flavor: [u8; 4], data: Vec<u8>)
        requires
            self.valid(old(cells)),
        ensures
            crate::cells::only_cell_changed(old(cells)@, final(cells)@, self.id()),
            self.value(final(cells)).entries@ == self.value(old(cells)).entries@.push((flavor, data)),
            self.value(final(cells)) == (ProcessScrapState {
                entries: self.value(final(cells)).entries,
                handle_dirty: true,
                initialized: true,
                ..self.value(old(cells))
            }),
    {
        cells.get_mut(&self.cell).initialize_and_append_entry(flavor, data);
    }

    /// Empty the scrap.
    pub fn zero(&self, cells: &mut SharedCells<ProcessScrapState>)
        requires
            self.valid(old(cells)),
        ensures
            crate::cells::only_cell_changed(old(cells)@, final(cells)@, self.id()),
            self.value(final(cells)).entries@.len() == 0,
            self.value(final(cells)).count == (if self.value(old(cells)).count == i16::MAX {
                i16::MIN as int
            } else {
                self.value(old(cells)).count + 1
            }),
            self.value(final(cells)) == (ProcessScrapState {
                entries: self.value(final(cells)).entries,
                count: self.value(final(cells)).count,
                initialized: true,
                in_memory: true,
                handle_dirty: true,
                ..self.value(old(cells))
            }),
    {
        cells.get_mut(&self.cell).zero();
    }

    /// Bring the scrap into memory.
    pub fn load(&self, cells: &mut SharedCells<ProcessScrapState>)
        requires
            self.valid(old(cells)),
        ensures
            crate::cells::only_cell_changed(old(cells)@, final(cells)@, self.id()),
            self.value(final(cells)) == (ProcessScrapState {
                initialized: true,
                in_memory: true,
                handle_dirty: self.value(old(cells)).handle_dirty || !self.value(old(cells)).in_memory,
                ..self.value(old(cells))
            }),
    {
        cells.get_mut(&self.cell).load();
    }

    /// Move the scrap out of memory. The result is the handle to release; a
    /// scrap in memory without a place to write it is refused.
    pub fn unload(&self, cells: &mut SharedCells<ProcessScrapState>) -> (released: Result<
        Option<u32>,
        (),
    >)
        requires
            self.valid(old(cells)),
        ensures
            crate::cells::only_cell_changed(old(cells)@, final(cells)@, self.id()),
            match released {
                Ok(handle) => {
                    &&& !self.value(old(cells)).in_memory || self.value(
                        old(cells),
                    ).clipboard_writable
                    &&& self.value(old(cells)).in_memory ==> handle == self.value(
                        old(cells),
                    ).handle && self.value(final(cells)) == (ProcessScrapState {
                        in_memory: false,
                        handle_dirty: true,
                        handle: None,
                        ..self.value(old(cells))
                    })
                    &&& !self.value(old(cells)).in_memory ==> handle is None && self.value(
                        final(cells),
                    ) == self.value(old(cells))
                },
                Err(_) => {
                    &&& self.value(old(cells)).in_memory && !self.value(
                        old(cells),
                    ).clipboard_writable
                    &&& self.value(final(cells)) == self.value(old(cells))
                },
            },
    {
        cells.get_mut(&self.cell).unload()
    }

    /// The scrap handle, allocated where there is none.
    pub fn ensure_handle(
        &self,
        cells: &mut SharedCells<ProcessScrapState>,
        allocate: impl FnOnce() -> u32,
    ) -> (handle: u32)
        requires
            self.valid(old(cells)),
            self.value(old(cells)).handle is None ==> call_requires(allocate, ()),
        ensures
            crate::cells::only_cell_changed(old(cells)@, final(cells)@, self.id()),
            match self.value(old(cells)).handle {
                Some(known) => handle == known,
                None => call_ensures(allocate, (), handle),
            },
            self.value(final(cells)) == (ProcessScrapState {
                handle: Some(handle),
                ..self.value(old(cells))
            }),
    {
        cells.get_mut(&self.cell).ensure_handle(allocate)
    }

    /// The scrap information record, allocated where there is none.
    pub fn ensure_stuff_ptr(
        &self,
        cells: &mut SharedCells<ProcessScrapState>,
        allocate: impl FnOnce() -> u32,
    ) -> (ptr: u32)
        requires
            self.valid(old(cells)),
            self.value(old(cells)).stuff_ptr is None ==> call_requires(allocate, ()),
        ensures
            crate::cells::only_cell_changed(old(cells)@, final(cells)@, self.id()),
            match self.value(old(cells)).stuff_ptr {
                Some(known) => ptr == known,
                None => call_ensures(allocate, (), ptr),
            },
            self.value(final(cells)) == (ProcessScrapState {
                stuff_ptr: Some(ptr),
                ..self.value(old(cells))
            }),
    {
        cells.get_mut(&self.cell).ensure_stuff_ptr(allocate)
    }

    pub fn mark_handle_clean(&self, cells: &mut SharedCells<ProcessScrapState>)
        requires
            self.valid(old(cells)),
        ensures
            crate::cells::only_cell_changed(old(cells)@, final(cells)@, self.id()),
            self.value(final(cells)) == (ProcessScrapState {
                handle_dirty: false,
                ..self.value(old(cells))
            }),
    {
        cells.get_mut(&self.cell).mark_handle_clean();
    }

    pub fn set_clipboard_writable(&self, cells: &mut SharedCells<ProcessScrapState>, writable: bool)
        requires
            self.valid(old(cells)),
        ensures
            crate::cells::only_cell_changed(old(cells)@, final(cells)@, self.id()),
            self.value(final(cells)) == (ProcessScrapState {
                clipboard_writable: writable,
                ..self.value(old(cells))
            }),
    {
        cells.get_mut(&self.cell).set_clipboard_writable(writable);
    }

}

/// The summary reports the exact number of serialized bytes.
pub proof fn serialized_size_is_exact(entries: Seq<ScrapEntryModel>)
    requires
        forall|i: int| 0 <= i < entries.len() ==> (#[trigger] entries[i]).0.len() == 4,
    ensures
        scrap_bytes(entries).len() == scrap_size(entries),
    decreases entries.len(),
{
    if entries.len() > 0 {
        let shorter = entries.drop_last();
        assert forall|i: int| 0 <= i < shorter.len() implies (#[trigger] shorter[i]).0.len() == 4 by {
            assert(shorter[i] == entries[i]);
        }
        assert(entries[entries.len() - 1].0.len() == 4);
        serialized_size_is_exact(shorter);
    }
}

/// The offset that goes with an entry leads to its data among the serialized
/// bytes.
pub proof fn flavor_offset_leads_to_its_data(entries: Seq<ScrapEntryModel>, position: int)
    requires
        0 <= position < entries.len(),
        forall|i: int| 0 <= i < entries.len() ==> (#[trigger] entries[i]).0.len() == 4,
    ensures
        ({
            let offset = scrap_size(entries.take(position)) as int + 8;
            let data = entries[position].1;
            &&& offset + data.len() <= scrap_bytes(entries).len()
            &&& scrap_bytes(entries).subrange(offset, offset + data.len()) == data
        }),
    decreases entries.len(),
{
    let offset = scrap_size(entries.take(position)) as int + 8;
    let data = entries[position].1;
    let shorter = entries.drop_last();
    assert forall|i: int| 0 <= i < shorter.len() implies (#[trigger] shorter[i]).0.len() == 4 by {
        assert(shorter[i] == entries[i]);
    }
    serialized_size_is_exact(shorter);
    if position == entries.len() - 1 {
        assert(entries.take(position) =~= shorter);
        assert(entries[position].0.len() == 4);
        assert(scrap_bytes(entries).subrange(offset, offset + data.len()) =~= data);
    } else {
        assert(shorter.take(position) =~= entries.take(position));
        assert(shorter[position] == entries[position]);
        flavor_offset_leads_to_its_data(shorter, position);
        assert(scrap_bytes(entries).subrange(offset, offset + data.len()) =~= scrap_bytes(
            shorter,
        ).subrange(offset, offset + data.len()));
    }
}

/// The serialized scrap can be read entry by entry: where one starts stand its
/// four type bytes, its length as a big-endian number and its data, then a zero
/// where the length is odd, and the next one starts right behind. The first
/// starts at the front, and behind the last nothing follows.
pub proof fn serialized_scrap_can_be_read(entries: Seq<ScrapEntryModel>, position: int)
    requires
        0 <= position < entries.len(),
        forall|i: int| 0 <= i < entries.len() ==> (#[trigger] entries[i]).0.len() == 4,
        entries[position].1.len() <= u32::MAX,
    ensures
        ({
            let bytes = scrap_bytes(entries);
            let start = scrap_size(entries.take(position)) as int;
            let next = scrap_size(entries.take(position + 1)) as int;
            let (flavor, data) = entries[position];
            &&& position == 0 ==> start == 0
            &&& position == entries.len() - 1 ==> next == bytes.len()
            &&& next == start + 8 + data.len() + data.len() % 2
            &&& next <= bytes.len()
            &&& bytes.subrange(start, start + 4) == flavor
            &&& bytes[start + 4] * 0x100_0000 + bytes[start + 5] * 0x1_0000 + bytes[start + 6]
                * 0x100 + bytes[start + 7] == data.len()
            &&& bytes.subrange(start + 8, start + 8 + data.len()) == data
            &&& data.len() % 2 == 1 ==> bytes[next - 1] == 0
        }),
    decreases entries.len(),
{
    let start = scrap_size(entries.take(position)) as int;
    let (flavor, data) = entries[position];
    let shorter = entries.drop_last();
    assert forall|i: int| 0 <= i < shorter.len() implies (#[trigger] shorter[i]).0.len() == 4 by {
        assert(shorter[i] == entries[i]);
    }
    serialized_size_is_exact(shorter);
    serialized_size_is_exact(entries);
    assert(entries.take(position + 1).drop_last() =~= entries.take(position));
    assert(entries.take(0) =~= Seq::empty());
    if position == entries.len() - 1 {
        assert(entries.take(position) =~= shorter);
        assert(entries.take(position + 1) =~= entries);
        let bytes = scrap_bytes(entries);
        let entry = entry_bytes(entries[position]);
        assert(bytes.subrange(start, start + 4) =~= flavor);
        assert(bytes.subrange(start + 8, start + 8 + data.len()) =~= data);
        let length = data.len() as int;
        assert(length / 0x100_0000 % 256 * 0x100_0000 + length / 0x1_0000 % 256 * 0x1_0000 + length
            / 0x100 % 256 * 0x100 + length % 256 == length);
        assert(bytes[start + 4] == length_bytes(length)[0]);
        assert(bytes[start + 5] == length_bytes(length)[1]);
        assert(bytes[start + 6] == length_bytes(length)[2]);
        assert(bytes[start + 7] == length_bytes(length)[3]);
    } else {
        assert(shorter.take(position) =~= entries.take(position));
        assert(shorter.take(position + 1) =~= entries.take(position + 1));
        assert(shorter[position] == entries[position]);
        serialized_scrap_can_be_read(shorter, position);
        let bytes = scrap_bytes(entries);
        let front = scrap_bytes(shorter);
        assert(bytes.subrange(start, start + 4) =~= front.subrange(start, start + 4));
        assert(bytes.subrange(start + 8, start + 8 + data.len()) =~= front.subrange(
            start + 8,
            start + 8 + data.len(),
        ));
    }
}

/// Two scraps with the same serialized bytes and the same number of entries
/// hold the same flavors and data.
pub proof fn serialized_scrap_tells_the_entries(
    entries: Seq<ScrapEntryModel>,
    others: Seq<ScrapEntryModel>,
    position: int,
)
    requires
        entries.len() == others.len(),
        forall|i: int| 0 <= i < entries.len() ==> (#[trigger] entries[i]).0.len() == 4,
        forall|i: int| 0 <= i < others.len() ==> (#[trigger] others[i]).0.len() == 4,
        forall|i: int| 0 <= i < entries.len() ==> (#[trigger] entries[i]).1.len() <= u32::MAX,
        forall|i: int| 0 <= i < others.len() ==> (#[trigger] others[i]).1.len() <= u32::MAX,
        scrap_bytes(entries) == scrap_bytes(others),
        0 <= position <= entries.len(),
    ensures
        entries.take(position) == others.take(position),
    decreases position,
{
    if position > 0 {
        let last = position - 1;
        serialized_scrap_tells_the_entries(entries, others, last);
        serialized_scrap_can_be_read(entries, last);
        serialized_scrap_can_be_read(others, last);
        assert(entries[last].0 == others[last].0);
        assert(entries[last].1.len() == others[last].1.len());
        assert(entries[last].1 == others[last].1);
        assert(entries.take(position) =~= entries.take(last).push(entries[last]));
        assert(others.take(position) =~= others.take(last).push(others[last]));
    } else {
        assert(entries.take(0) =~= others.take(0));
    }
}

/// The data of scraps that follow one another add up, and an entry counts with
/// the length of its data.
pub proof fn payload_adds_up(
    entries: Seq<ScrapEntryModel>,
    others: Seq<ScrapEntryModel>,
    entry: ScrapEntryModel,
)
    ensures
        scrap_payload(entries + others) == scrap_payload(entries) + scrap_payload(others),
        scrap_payload(seq![entry]) == entry.1.len(),
    decreases others.len(),
{
    if others.len() == 0 {
        assert(entries + others =~= entries);
    } else {
        assert((entries + others).drop_last() =~= entries + others.drop_last());
        payload_adds_up(entries, others.drop_last(), entry);
    }
    reveal_with_fuel(scrap_payload, 2);
    assert(seq![entry].drop_last() =~= Seq::empty());
}

/// A flavor is found where any entry has it, and the first such entry answers.
pub proof fn first_entry_of_a_flavor_answers(
    entries: Seq<ScrapEntryModel>,
    flavor: Seq<u8>,
    index: int,
)
    requires
        0 <= index < entries.len(),
        entries[index].0 == flavor,
        forall|i: int| 0 <= i < index ==> (#[trigger] entries[i]).0 != flavor,
    ensures
        flavor_position(entries, flavor) == index,
{
    lemma_flavor_at(entries, flavor, index);
}

/// A word that is large enough for a number is the number, and one that is not
/// is the largest word.
pub proof fn capped_word_is_the_nearest(value: int)
    requires
        0 <= value,
    ensures
        value <= u32::MAX ==> capped_word(value) == value,
        value > u32::MAX ==> capped_word(value) == u32::MAX,
{
}

} // verus!
