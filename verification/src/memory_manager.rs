//! The Memory Manager of one process: handle indexes, the native heap and the
//! attached classic heap.

use crate::assoc::{AssocMap, KeySet};
use crate::cells::{SharedCells, SharedProcessValue};
use crate::classic_heap::ClassicHeapAllocatorState;
use crate::guest_memory::GuestAddressSpace;
use crate::memory_model::{
    ManagerModel, LOCKED_BIT, MEM_PUR_ERR, NIL_HANDLE_ERR, NO_ERR, PURGEABLE_BIT, RESOURCE_BIT,
};
use crate::native_heap::{
    find_handle, ProcessHandleRecord, ProcessHandleStateRecord, ProcessNativeAllocatorState,
    ProcessPtrRecord,
};
use crate::process_map::SharedProcessMap;
use vstd::prelude::*;

verus! {

/// A handle to a classic heap that several buses of one process use.
pub struct SharedClassicHeapAllocator {
    pub cell: SharedProcessValue<ClassicHeapAllocatorState>,
}

/// The cells that Memory Managers and buses share.
pub struct ManagerCells {
    /// One cell per manager; its identity marks the heaps that it claims.
    pub owners: SharedCells<()>,
    pub heaps: SharedCells<ClassicHeapAllocatorState>,
    pub handles: SharedCells<AssocMap<u32, u32>>,
    pub states: SharedCells<AssocMap<u32, u8>>,
    pub flags: SharedCells<AssocMap<u32, bool>>,
}

impl ManagerCells {
    /// The sizes of every heap's live blocks are in range.
    pub open spec fn sized(&self) -> bool {
        forall|i: int| 0 <= i < self.heaps@.len() ==> (#[trigger] self.heaps@[i])@.sized()
    }

    /// No store holds a cell.
    pub open spec fn without_cells(&self) -> bool {
        &&& self.owners@.len() == 0
        &&& self.heaps@.len() == 0
        &&& self.handles@.len() == 0
        &&& self.states@.len() == 0
        &&& self.flags@.len() == 0
    }

    /// Stores without cells.
    pub fn new() -> (cells: Self)
        ensures
            cells.sized(),
            cells.without_cells(),
    {
        ManagerCells {
            owners: SharedCells::new(),
            heaps: SharedCells::new(),
            handles: SharedCells::new(),
            states: SharedCells::new(),
            flags: SharedCells::new(),
        }
    }
}

/// Allocation state that native imports use directly.
pub struct ProcessNativeMemoryManager {
    pub classic_owner: SharedProcessValue<()>,
    pub classic_allocator: Option<SharedClassicHeapAllocator>,
    /// Upper bound of classic allocations in this process.
    pub classic_heap_limit: Option<u32>,
    pub ptr_to_handle: SharedProcessMap<u32>,
    pub handle_state_bits: SharedProcessMap<u8>,
    pub handle_high_locked: SharedProcessMap<bool>,
    pub native_handle_ptrs: KeySet<u32>,
    pub native_handles: KeySet<u32>,
    pub native_allocations: Vec<ProcessHandleRecord>,
    pub native_allocator: Option<ProcessNativeAllocatorState>,
    pub native_allocator_dirty: bool,
    /// Application heap boundary, apart from the native heap's ceiling.
    pub application_heap_limit: Option<u32>,
}

/// The cells outside a manager's own stay as they are.
pub open spec fn cells_step(
    manager: &ProcessNativeMemoryManager,
    before: &ManagerCells,
    after: &ManagerCells,
) -> bool {
    &&& after.owners@ == before.owners@
    &&& crate::cells::only_cell_changed(before.handles@, after.handles@, manager.ptr_to_handle.id())
    &&& crate::cells::only_cell_changed(before.states@, after.states@, manager.handle_state_bits.id())
    &&& crate::cells::only_cell_changed(before.flags@, after.flags@, manager.handle_high_locked.id())
    &&& match manager.classic_allocator {
        Some(heap) => crate::cells::only_cell_changed(before.heaps@, after.heaps@, heap.cell.id()),
        None => after.heaps@ == before.heaps@,
    }
}

impl ProcessNativeMemoryManager {
    /// What the manager holds.
    pub open spec fn model(&self, cells: &ManagerCells) -> ManagerModel {
        ManagerModel {
            owner: self.classic_owner.id(),
            classic: match self.classic_allocator {
                Some(heap) => Some(cells.heaps@[heap.cell.id()]@),
                None => None,
            },
            classic_limit: self.classic_heap_limit,
            ptr_to_handle: self.ptr_to_handle.entries(&cells.handles),
            states: self.handle_state_bits.entries(&cells.states),
            high: self.handle_high_locked.entries(&cells.flags),
            native_ptrs: self.native_handle_ptrs@,
            native_handles: self.native_handles@,
            records: self.native_allocations@,
            native: match self.native_allocator {
                Some(native) => Some(native@),
                None => None,
            },
            dirty: self.native_allocator_dirty,
            application_limit: self.application_heap_limit,
        }
    }

    /// The manager's cells exist.
    pub open spec fn valid(&self, cells: &ManagerCells) -> bool {
        &&& cells.sized()
        &&& self.classic_owner.valid(cells.owners@)
        &&& self.ptr_to_handle.valid(&cells.handles)
        &&& self.handle_state_bits.valid(&cells.states)
        &&& self.handle_high_locked.valid(&cells.flags)
        &&& match self.classic_allocator {
            Some(heap) => heap.cell.valid(cells.heaps@) && self.classic_heap_limit is Some,
            None => true,
        }
    }

    /// Two managers use the same cells.
    pub open spec fn same_cells(&self, other: &Self) -> bool {
        &&& self.classic_owner.id() == other.classic_owner.id()
        &&& self.ptr_to_handle.id() == other.ptr_to_handle.id()
        &&& self.handle_state_bits.id() == other.handle_state_bits.id()
        &&& self.handle_high_locked.id() == other.handle_high_locked.id()
        &&& match (self.classic_allocator, other.classic_allocator) {
            (Some(a), Some(b)) => a.cell.id() == b.cell.id(),
            (None, None) => true,
            _ => false,
        }
    }

    /// From here to `after` the manager kept its cells and changed no others.
    pub open spec fn step(&self, before: &ManagerCells, after: &Self, cells: &ManagerCells) -> bool {
        &&& after.valid(cells)
        &&& after.same_cells(self)
        &&& cells_step(self, before, cells)
    }

    /// A manager without allocations, with cells of its own.
    pub fn new(cells: &mut ManagerCells) -> (manager: Self)
        requires
            old(cells).sized(),
        ensures
            manager.valid(final(cells)),
            manager.classic_owner.id() == old(cells).owners@.len(),
            manager.ptr_to_handle.id() == old(cells).handles@.len(),
            manager.handle_state_bits.id() == old(cells).states@.len(),
            manager.handle_high_locked.id() == old(cells).flags@.len(),
            manager.model(final(cells)) == (ManagerModel {
                owner: old(cells).owners@.len() as int,
                classic: None,
                classic_limit: None,
                ptr_to_handle: Map::empty(),
                states: Map::empty(),
                high: Map::empty(),
                native_ptrs: Set::empty(),
                native_handles: Set::empty(),
                records: Seq::empty(),
                native: None,
                dirty: false,
                application_limit: None,
            }),
            final(cells).heaps@ == old(cells).heaps@,
            old(cells).handles@ == final(cells).handles@.take(old(cells).handles@.len() as int),
            old(cells).states@ == final(cells).states@.take(old(cells).states@.len() as int),
            old(cells).flags@ == final(cells).flags@.take(old(cells).flags@.len() as int),
            old(cells).owners@ == final(cells).owners@.take(old(cells).owners@.len() as int),
    {
        ProcessNativeMemoryManager {
            classic_owner: cells.owners.allocate(()),
            classic_allocator: None,
            classic_heap_limit: None,
            ptr_to_handle: SharedProcessMap::new(&mut cells.handles),
            handle_state_bits: SharedProcessMap::new(&mut cells.states),
            handle_high_locked: SharedProcessMap::new(&mut cells.flags),
            native_handle_ptrs: KeySet::new(),
            native_handles: KeySet::new(),
            native_allocations: Vec::new(),
            native_allocator: None,
            native_allocator_dirty: false,
            application_heap_limit: None,
        }
    }

    /// Report an error code in the native heap.
    pub fn set_native_mem_error(&mut self, cells: &ManagerCells, error: i16)
        requires
            old(self).valid(cells),
        ensures
            old(self).step(cells, final(self), cells),
            final(self).model(cells) == old(self).model(cells).mem_error(error),
    {
        match &mut self.native_allocator {
            Some(allocator) => {
                allocator.heap.last_mem_error = error;
                self.native_allocator_dirty = true;
            },
            None => {},
        }
    }

    /// The native record of a handle.
    pub fn native_allocation(&self, cells: &ManagerCells, handle: u32) -> (record: Option<
        ProcessHandleRecord,
    >)
        ensures
            record == self.model(cells).record(handle),
            record matches Some(record) ==> record.handle == handle,
    {
        match find_handle(&self.native_allocations, handle) {
            Some(i) => Some(self.native_allocations[i]),
            None => None,
        }
    }

    /// Native relocatable blocks in allocation order.
    pub fn native_handle_records(&self) -> (records: &[ProcessHandleRecord])
        ensures
            records@ == self.native_allocations@,
    {
        self.native_allocations.as_slice()
    }

    /// Replace the record of a handle, or add one.
    pub fn set_native_allocation_record(
        &mut self,
        cells: &ManagerCells,
        record: ProcessHandleRecord,
    )
        requires
            old(self).valid(cells),
        ensures
            old(self).step(cells, final(self), cells),
            final(self).model(cells) == old(self).model(cells).put_record(record),
    {
        match find_handle(&self.native_allocations, record.handle) {
            Some(i) => {
                self.native_allocations.set(i, record);
            },
            None => {
                self.native_allocations.push(record);
            },
        }
    }

    /// The state byte of a handle that the manager knows.
    pub fn state_for_handle(&self, cells: &ManagerCells, handle: u32) -> (state: Option<u8>)
        requires
            self.valid(cells),
        ensures
            state == self.model(cells).state(handle),
    {
        match self.handle_state_bits.get(&cells.states, handle) {
            Some(state) => Some(state),
            None => if self.native_handles.contains(&handle) {
                Some(0)
            } else {
                None
            },
        }
    }

    /// The state byte of a handle; zero where the manager knows none.
    pub fn handle_state(&self, cells: &ManagerCells, handle: u32) -> (state: u8)
        requires
            self.valid(cells),
        ensures
            state == self.model(cells).state_or_clear(handle),
    {
        match self.state_for_handle(cells, handle) {
            Some(state) => state,
            None => 0,
        }
    }

    /// Set the state byte of a handle.
    pub fn set_state_for_handle(&mut self, cells: &mut ManagerCells, handle: u32, state: u8)
        requires
            old(self).valid(old(cells)),
        ensures
            old(self).step(old(cells), final(self), final(cells)),
            final(self).model(final(cells)) == old(self).model(old(cells)).set_state(handle, state),
    {
        if handle != 0 {
            self.handle_state_bits.insert(&mut cells.states, handle, state);
            if state & LOCKED_BIT == 0 {
                self.handle_high_locked.remove(&mut cells.flags, handle);
            }
        }
    }

    /// Lock a relocatable block, optionally high in the heap.
    pub fn lock_process_handle(&mut self, cells: &mut ManagerCells, handle: u32, high: bool)
        requires
            old(self).valid(old(cells)),
        ensures
            old(self).step(old(cells), final(self), final(cells)),
            final(self).model(final(cells)) == old(self).model(old(cells)).lock(handle, high),
    {
        if handle == 0 {
            return;
        }
        let state: u8 = self.handle_state(cells, handle) | LOCKED_BIT;
        self.set_state_for_handle(cells, handle, state);
        if high {
            self.handle_high_locked.insert(&mut cells.flags, handle, true);
        }
    }

    /// Unlock a relocatable block and drop its request for a high place.
    pub fn unlock_process_handle(&mut self, cells: &mut ManagerCells, handle: u32)
        requires
            old(self).valid(old(cells)),
        ensures
            old(self).step(old(cells), final(self), final(cells)),
            final(self).model(final(cells)) == old(self).model(old(cells)).unlock(handle),
    {
        if handle == 0 {
            return;
        }
        let state: u8 = self.handle_state(cells, handle) & !LOCKED_BIT;
        self.set_state_for_handle(cells, handle, state);
    }

    /// Change whether a relocatable block may be purged.
    pub fn set_process_handle_purgeable(
        &mut self,
        cells: &mut ManagerCells,
        handle: u32,
        purgeable: bool,
    )
        requires
            old(self).valid(old(cells)),
        ensures
            old(self).step(old(cells), final(self), final(cells)),
            final(self).model(final(cells)) == old(self).model(old(cells)).set_purgeable(
                handle,
                purgeable,
            ),
    {
        if handle == 0 {
            return;
        }
        let state: u8 = self.handle_state(cells, handle);
        let state: u8 = if purgeable {
            state | PURGEABLE_BIT
        } else {
            state & !PURGEABLE_BIT
        };
        self.set_state_for_handle(cells, handle, state);
    }

    /// Restore lock and purge properties; the resource property stays.
    pub fn restore_process_handle_state(&mut self, cells: &mut ManagerCells, handle: u32, state: u8)
        requires
            old(self).valid(old(cells)),
        ensures
            old(self).step(old(cells), final(self), final(cells)),
            final(self).model(final(cells)) == old(self).model(old(cells)).restore_state(
                handle,
                state,
            ),
    {
        if handle == 0 {
            return;
        }
        let resource: u8 = self.handle_state(cells, handle) & RESOURCE_BIT;
        self.set_state_for_handle(cells, handle, resource | (state & 0xC0));
    }

    /// Change the resource property of a relocatable block.
    pub fn set_process_handle_resource(
        &mut self,
        cells: &mut ManagerCells,
        handle: u32,
        resource: bool,
    )
        requires
            old(self).valid(old(cells)),
        ensures
            old(self).step(old(cells), final(self), final(cells)),
            final(self).model(final(cells)) == old(self).model(old(cells)).set_resource(
                handle,
                resource,
            ),
    {
        if handle == 0 {
            return;
        }
        let state: u8 = self.handle_state(cells, handle);
        let state: u8 = if resource {
            state | RESOURCE_BIT
        } else {
            state & !RESOURCE_BIT
        };
        self.set_state_for_handle(cells, handle, state);
    }

    /// The properties of a handle. An unknown handle reads as purgeable.
    pub fn native_handle_state(&self, cells: &ManagerCells, handle: u32) -> (record:
        ProcessHandleStateRecord)
        requires
            self.valid(cells),
        ensures
            record == self.model(cells).handle_state(handle),
    {
        let bits: u8 = match self.state_for_handle(cells, handle) {
            Some(bits) => bits,
            None => PURGEABLE_BIT,
        };
        let locked = bits & LOCKED_BIT != 0;
        let high = match self.handle_high_locked.get(&cells.flags, handle) {
            Some(high) => high,
            None => false,
        };
        ProcessHandleStateRecord {
            handle,
            locked,
            high_locked: locked && high,
            no_purge: bits & PURGEABLE_BIT == 0,
            resource: bits & RESOURCE_BIT != 0,
        }
    }

    /// Commit the process-visible part of a handle allocation.
    pub fn commit_new_handle_record(
        &mut self,
        cells: &mut ManagerCells,
        record: ProcessHandleRecord,
        native: bool,
    )
        requires
            old(self).valid(old(cells)),
        ensures
            old(self).step(old(cells), final(self), final(cells)),
            final(self).model(final(cells)) == old(self).model(old(cells)).commit_new_handle(
                record,
                native,
            ),
    {
        if record.handle == 0 {
            return;
        }
        if record.ptr != 0 {
            self.ptr_to_handle.insert(&mut cells.handles, record.ptr, record.handle);
        }
        self.handle_state_bits.insert(&mut cells.states, record.handle, 0);
        if native {
            self.set_native_allocation_record(cells, record);
            if record.ptr != 0 {
                self.native_handle_ptrs.insert(record.ptr);
            }
            self.native_handles.insert(record.handle);
        }
    }

    pub(crate) fn commit_empty_native_handle(
        &mut self,
        cells: &mut ManagerCells,
        record: ProcessHandleRecord,
    )
        requires
            old(self).valid(old(cells)),
        ensures
            old(self).step(old(cells), final(self), final(cells)),
            final(self).model(final(cells)) == old(self).model(old(cells)).commit_empty(record),
    {
        if record.ptr != 0 {
            self.ptr_to_handle.remove(&mut cells.handles, record.ptr);
            self.native_handle_ptrs.remove(&record.ptr);
        }
        self.set_native_allocation_record(
            cells,
            ProcessHandleRecord { handle: record.handle, ptr: 0, size: 0, capacity: 0 },
        );
        match &mut self.native_allocator {
            Some(allocator) => {
                if record.ptr != 0 {
                    allocator.free_ptr_blocks.push(
                        ProcessPtrRecord { ptr: record.ptr, size: record.capacity },
                    );
                }
                allocator.heap.last_mem_error = NO_ERR;
                self.native_allocator_dirty = true;
            },
            None => {},
        }
    }

    /// Give up the block of an unlocked native handle; the handle stays.
    pub fn empty_native_handle(
        &mut self,
        cells: &mut ManagerCells,
        memory: &mut GuestAddressSpace,
        handle: u32,
    ) -> (error: i16)
        requires
            old(self).valid(old(cells)),
        ensures
            old(self).step(old(cells), final(self), final(cells)),
            (final(self).model(final(cells)), final(memory)@, error) == old(self).model(
                old(cells),
            ).empty_native(old(memory)@, handle),
    {
        let record = match self.native_allocation(cells, handle) {
            Some(record) => record,
            None => {
                self.set_native_mem_error(cells, NIL_HANDLE_ERR);
                return NIL_HANDLE_ERR;
            },
        };
        if self.handle_state(cells, handle) & LOCKED_BIT != 0 {
            self.set_native_mem_error(cells, MEM_PUR_ERR);
            return MEM_PUR_ERR;
        }
        let points_to_block = match memory.read_u32_be(handle) {
            Some(ptr) => ptr == record.ptr,
            None => false,
        };
        if !points_to_block || memory.write_u32_be(handle, 0).is_none() {
            self.set_native_mem_error(cells, NIL_HANDLE_ERR);
            return NIL_HANDLE_ERR;
        }
        self.commit_empty_native_handle(cells, record);
        NO_ERR
    }

    pub(crate) fn commit_dispose_native_handle(
        &mut self,
        cells: &mut ManagerCells,
        index: usize,
        record: ProcessHandleRecord,
    )
        requires
            old(self).valid(old(cells)),
            index < old(self).native_allocations@.len(),
        ensures
            old(self).step(old(cells), final(self), final(cells)),
            final(self).model(final(cells)) == old(self).model(old(cells)).commit_dispose(
                index as int,
                record,
            ),
    {
        self.native_allocations.remove(index);
        if record.ptr != 0 {
            self.ptr_to_handle.remove(&mut cells.handles, record.ptr);
            self.native_handle_ptrs.remove(&record.ptr);
        }
        self.handle_state_bits.remove(&mut cells.states, record.handle);
        self.handle_high_locked.remove(&mut cells.flags, record.handle);
        self.native_handles.remove(&record.handle);
        match &mut self.native_allocator {
            Some(allocator) => {
                allocator.free_handle_blocks.push(record);
                allocator.heap.last_mem_error = NO_ERR;
                self.native_allocator_dirty = true;
            },
            None => {},
        }
    }

    /// Dispose of a native handle and its block.
    pub fn dispose_native_handle(
        &mut self,
        cells: &mut ManagerCells,
        memory: &mut GuestAddressSpace,
        handle: u32,
    ) -> (disposed: Option<ProcessHandleRecord>)
        requires
            old(self).valid(old(cells)),
        ensures
            old(self).step(old(cells), final(self), final(cells)),
            (final(self).model(final(cells)), final(memory)@, disposed) == old(self).model(
                old(cells),
            ).dispose_native_handle(old(memory)@, handle),
    {
        let index: usize = match find_handle(&self.native_allocations, handle) {
            Some(index) => index,
            None => {
                self.set_native_mem_error(cells, NO_ERR);
                return None;
            },
        };
        let record = self.native_allocations[index];
        if memory.write_u32_be(handle, 0).is_none() {
            self.set_native_mem_error(cells, NIL_HANDLE_ERR);
            return None;
        }
        self.commit_dispose_native_handle(cells, index, record);
        Some(record)
    }
}

} // verus!
