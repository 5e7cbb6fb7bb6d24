//! Memory Manager operations of native imports on blocks of either heap.

use crate::cells::CellValue;
use crate::classic_heap::ClassicHeapAllocatorState;
use crate::guest_memory::{to_word_bytes, GuestAddressSpace};
use crate::memory_manager::{ManagerCells, ProcessNativeMemoryManager};
use crate::memory_model::{
    LOCKED_BIT, MEM_FULL_ERR, MEM_PUR_ERR, MEM_WZ_ERR, NIL_HANDLE_ERR, NO_ERR, PARAM_ERR,
    RESOURCE_BIT,
};
use crate::memory_native::zero_bytes;
use vstd::prelude::*;

verus! {

impl ProcessNativeMemoryManager {
    /// Logical size of a relocatable block, by its handle and the address in
    /// its master pointer.
    pub fn process_handle_size_from_master_pointer(
        &mut self,
        cells: &ManagerCells,
        handle: u32,
        ptr: u32,
    ) -> (size: Option<u32>)
        requires
            old(self).valid(cells),
        ensures
            old(self).step(cells, final(self), cells),
            (final(self).model(cells), size) == old(self).model(cells).size_by_master(handle, ptr),
    {
        let size: Option<u32> = if handle == 0 || ptr == 0 {
            None
        } else {
            let native: Option<u32> = match self.native_allocation(cells, handle) {
                Some(record) => if record.ptr == ptr {
                    Some(record.size)
                } else {
                    None
                },
                None => None,
            };
            if native.is_some() {
                native
            } else if self.classic_allocator.is_some() && self.is_classic_master(cells, handle) {
                self.classic_allocation_size(cells, ptr)
            } else {
                None
            }
        };
        self.set_native_mem_error(
            cells,
            if size.is_some() {
                NO_ERR
            } else {
                NIL_HANDLE_ERR
            },
        );
        size
    }

    /// Logical size of a fixed block of either heap.
    pub fn process_ptr_size_for_native_import(&mut self, cells: &ManagerCells, ptr: u32) -> (size:
        u32)
        requires
            old(self).valid(cells),
        ensures
            old(self).step(cells, final(self), cells),
            (final(self).model(cells), size) == old(self).model(cells).import_ptr_size(ptr),
    {
        if let Some(record) = self.native_ptr(cells, ptr) {
            self.set_native_mem_error(
                cells,
                if record.size == 0 {
                    PARAM_ERR
                } else {
                    NO_ERR
                },
            );
            return record.size;
        }
        if self.classic_allocator.is_some() {
            if let Some(size) = self.classic_allocation_size(cells, ptr) {
                self.set_native_mem_error(cells, NO_ERR);
                return size;
            }
        }
        self.set_native_mem_error(cells, PARAM_ERR);
        0
    }

    fn copy_bytes_to_new_classic_handle_from_native_import(
        &mut self,
        cells: &mut ManagerCells,
        memory: &mut GuestAddressSpace,
        bytes: &[u8],
    ) -> (result: Result<u32, i16>)
        requires
            old(self).valid(old(cells)),
        ensures
            old(self).step(old(cells), final(self), final(cells)),
            (final(self).model(final(cells)), final(memory)@, result) == old(self).model(
                old(cells),
            ).import_copy_to_classic(old(memory)@, bytes@),
    {
        let allocator = match &self.classic_allocator {
            Some(allocator) => allocator.shared_handle(),
            None => {
                self.set_native_mem_error(cells, MEM_FULL_ERR);
                return Err(MEM_FULL_ERR);
            },
        };
        if bytes.len() as u64 > 0xffff_ffff {
            self.set_native_mem_error(cells, MEM_FULL_ERR);
            return Err(MEM_FULL_ERR);
        }
        let size: u32 = bytes.len() as u32;
        let heap_before = cells.heaps.get(&allocator.cell).copy_value();
        let ceiling: u32 = self.classic_heap_ceiling(cells);
        let ptr: u32 = self.heap_allocate(cells, size, ceiling);
        if ptr == 0 && size > 0 {
            self.set_native_mem_error(cells, MEM_FULL_ERR);
            return Err(MEM_FULL_ERR);
        }
        let handle: u32 = self.heap_allocate(cells, 4, ceiling);
        let error: i16 = if handle == 0 {
            MEM_FULL_ERR
        } else if (size > 0 && !memory.preflight_writable_range(ptr, size))
            || !memory.preflight_writable_range(handle, 4) {
            PARAM_ERR
        } else {
            NO_ERR
        };
        if error != NO_ERR {
            cells.heaps.set(&allocator.cell, heap_before);
            self.set_native_mem_error(cells, error);
            return Err(error);
        }
        let ghost before = memory@;
        if size > 0 {
            memory.write_bytes(ptr, bytes);
        } else {
            assert(memory@.store(ptr as int, bytes@) =~= memory@);
        }
        let master = to_word_bytes(ptr);
        memory.write_bytes(handle, master.as_slice());
        self.ptr_to_handle.insert(&mut cells.handles, ptr, handle);
        self.set_state_for_handle(cells, handle, 0);
        self.set_native_mem_error(cells, NO_ERR);
        Ok(handle)
    }

    fn native_import_source(&self, cells: &ManagerCells, memory: &GuestAddressSpace, handle: u32) -> (
    source: Result<(u32, u32, bool), i16>)
        requires
            self.valid(cells),
        ensures
            source == self.model(cells).import_source(memory@, handle),
    {
        if handle == 0 {
            return Err(NIL_HANDLE_ERR);
        }
        if let Some(record) = self.native_allocation(cells, handle) {
            let master_ptr: u32 = match memory.read_u32_be(handle) {
                Some(master_ptr) => master_ptr,
                None => 0,
            };
            if master_ptr == 0 {
                return Err(NIL_HANDLE_ERR);
            }
            if master_ptr != record.ptr || !self.tracks(cells, master_ptr, handle) || record.size
                > record.capacity {
                return Err(MEM_WZ_ERR);
            }
            return Ok((master_ptr, record.size, true));
        }
        if self.classic_allocator.is_none() || !self.is_classic_master(cells, handle) {
            return Err(NIL_HANDLE_ERR);
        }
        let master_ptr: u32 = match memory.read_u32_be(handle) {
            Some(master_ptr) => master_ptr,
            None => 0,
        };
        if master_ptr == 0 {
            return Err(NIL_HANDLE_ERR);
        }
        match self.classic_allocation_size(cells, master_ptr) {
            Some(size) => if self.is_mismatched(cells, handle, master_ptr) {
                Err(MEM_WZ_ERR)
            } else {
                Ok((master_ptr, size, false))
            },
            None => Err(MEM_WZ_ERR),
        }
    }

    fn tracks(&self, cells: &ManagerCells, ptr: u32, handle: u32) -> (known: bool)
        requires
            self.valid(cells),
        ensures
            known == (crate::process_map::map_get(self.model(cells).ptr_to_handle, ptr) == Some(handle)),
    {
        match self.ptr_to_handle.get(&cells.handles, ptr) {
            Some(mapped) => mapped == handle,
            None => false,
        }
    }

    /// Whether a live classic block does not belong to a handle.
    fn is_mismatched(&self, cells: &ManagerCells, handle: u32, ptr: u32) -> (mismatched: bool)
        requires
            self.valid(cells),
            self.classic_allocator is Some,
            self.model(cells).classic->0.size_of(ptr) is Some,
        ensures
            mismatched == self.model(cells).mismatched(handle, ptr),
    {
        let size: u32 = match self.classic_allocation_size(cells, ptr) {
            Some(size) => size,
            None => 0,
        };
        let capacity: u32 = match self.classic_capacity(cells, ptr) {
            Some(capacity) => capacity,
            None => 0,
        };
        !self.tracks(cells, ptr, handle) || size > capacity || ptr == handle || (handle <= u32::MAX
            - 4 && ptr < handle + 4 && handle < ptr.saturating_add(capacity))
    }

    /// Copy a relocatable block into a new handle of the heap that it came
    /// from. The copy is unlocked, unpurgeable and no resource.
    pub fn copy_process_handle_from_native_import(
        &mut self,
        cells: &mut ManagerCells,
        memory: &mut GuestAddressSpace,
        handle: u32,
    ) -> (result: Result<u32, i16>)
        requires
            old(self).valid(old(cells)),
            old(self).model(old(cells)).import_source(old(memory)@, handle) matches Ok(
                (ptr, size, native),
            ) ==> native ==> old(self).model(old(cells)).copy_to_native_fits(
                old(memory)@,
                old(memory)@.load(ptr as int, size as nat),
            ),
        ensures
            old(self).step(old(cells), final(self), final(cells)),
            (final(self).model(final(cells)), final(memory)@, result) == old(self).model(
                old(cells),
            ).import_copy(old(memory)@, handle),
    {
        let (ptr, size, native) = match self.native_import_source(cells, memory, handle) {
            Ok(source) => source,
            Err(error) => {
                self.set_native_mem_error(cells, error);
                return Err(error);
            },
        };
        let bytes = match memory.read_bytes(ptr, size as usize) {
            Some(bytes) => bytes,
            None => {
                self.set_native_mem_error(cells, PARAM_ERR);
                return Err(PARAM_ERR);
            },
        };
        if native {
            let copy: u32 = self.copy_bytes_to_new_native_handle(cells, memory, bytes.as_slice());
            if copy == 0 {
                return Err(
                    match self.native_heap_state() {
                        Some(heap) => heap.last_mem_error,
                        None => MEM_FULL_ERR,
                    },
                );
            }
            self.set_native_mem_error(cells, NO_ERR);
            return Ok(copy);
        }
        let copy = self.copy_bytes_to_new_classic_handle_from_native_import(
            cells,
            memory,
            bytes.as_slice(),
        );
        if copy.is_ok() {
            self.set_native_mem_error(cells, NO_ERR);
        }
        copy
    }

    /// Change the logical size of a fixed block of either heap in place.
    pub fn set_process_ptr_size_for_native_import(
        &mut self,
        cells: &mut ManagerCells,
        memory: &mut GuestAddressSpace,
        ptr: u32,
        new_size: u32,
    ) -> (error: i16)
        requires
            old(self).valid(old(cells)),
        ensures
            old(self).step(old(cells), final(self), final(cells)),
            (final(self).model(final(cells)), final(memory)@, error) == old(self).model(
                old(cells),
            ).import_set_ptr_size(old(memory)@, ptr, new_size),
    {
        if self.native_ptr(cells, ptr).is_some() {
            return self.set_native_ptr_size(cells, memory, ptr, new_size);
        }
        if self.classic_allocator.is_none() {
            self.set_native_mem_error(cells, MEM_WZ_ERR);
            return MEM_WZ_ERR;
        }
        let (old_size, capacity) = match (
            self.classic_allocation_size(cells, ptr),
            self.classic_capacity(cells, ptr),
        ) {
            (Some(size), Some(capacity)) => (size, capacity),
            _ => {
                self.set_native_mem_error(cells, MEM_WZ_ERR);
                return MEM_WZ_ERR;
            },
        };
        if new_size > u32::MAX - 3 || ClassicHeapAllocatorState::allocation_bucket_size(new_size)
            > capacity {
            self.set_native_mem_error(cells, MEM_FULL_ERR);
            return MEM_FULL_ERR;
        }
        if new_size < old_size {
            let blank = zero_bytes((old_size - new_size) as usize);
            if new_size > u32::MAX - ptr || memory.write_bytes(
                ptr + new_size,
                blank.as_slice(),
            ).is_none() {
                self.set_native_mem_error(cells, PARAM_ERR);
                return PARAM_ERR;
            }
        }
        self.heap_resize(cells, ptr, new_size);
        self.set_native_mem_error(cells, NO_ERR);
        NO_ERR
    }

    /// Release a fixed classic block.
    pub fn dispose_classic_ptr_from_native_import(&mut self, cells: &mut ManagerCells, ptr: u32) -> (
    disposed: bool)
        requires
            old(self).valid(old(cells)),
        ensures
            old(self).step(old(cells), final(self), final(cells)),
            (final(self).model(final(cells)), disposed) == old(self).model(
                old(cells),
            ).import_dispose_ptr(ptr),
    {
        if self.classic_allocator.is_none() || self.classic_allocation_size(cells, ptr).is_none() {
            return false;
        }
        self.heap_release(cells, ptr);
        self.set_native_mem_error(cells, NO_ERR);
        true
    }

    /// Give up the block of an unlocked handle of either heap.
    pub fn empty_process_handle_from_native_import(
        &mut self,
        cells: &mut ManagerCells,
        memory: &mut GuestAddressSpace,
        handle: u32,
    ) -> (error: i16)
        requires
            old(self).valid(old(cells)),
        ensures
            old(self).step(old(cells), final(self), final(cells)),
            (final(self).model(final(cells)), final(memory)@, error) == old(self).model(
                old(cells),
            ).import_empty(old(memory)@, handle),
    {
        if self.native_allocation(cells, handle).is_some() {
            return self.empty_native_handle(cells, memory, handle);
        }
        if handle == 0 || self.classic_allocator.is_none() || !self.is_classic_master(cells, handle) {
            self.set_native_mem_error(cells, NIL_HANDLE_ERR);
            return NIL_HANDLE_ERR;
        }
        let state: u8 = self.handle_state(cells, handle);
        if state & RESOURCE_BIT != 0 {
            self.set_native_mem_error(cells, NIL_HANDLE_ERR);
            return NIL_HANDLE_ERR;
        }
        if state & LOCKED_BIT != 0 {
            self.set_native_mem_error(cells, MEM_PUR_ERR);
            return MEM_PUR_ERR;
        }
        let ptr: u32 = match memory.read_u32_be(handle) {
            Some(ptr) => ptr,
            None => {
                self.set_native_mem_error(cells, MEM_WZ_ERR);
                return MEM_WZ_ERR;
            },
        };
        if ptr != 0 && self.classic_allocation_size(cells, ptr).is_none() {
            self.set_native_mem_error(cells, MEM_WZ_ERR);
            return MEM_WZ_ERR;
        }
        if memory.write_u32_be(handle, 0).is_none() {
            self.set_native_mem_error(cells, NIL_HANDLE_ERR);
            return NIL_HANDLE_ERR;
        }
        if ptr != 0 {
            self.heap_release(cells, ptr);
            self.ptr_to_handle.remove(&mut cells.handles, ptr);
        }
        self.set_native_mem_error(cells, NO_ERR);
        NO_ERR
    }

    /// Dispose of a handle of either heap.
    pub fn dispose_process_handle_from_native_import(
        &mut self,
        cells: &mut ManagerCells,
        memory: &mut GuestAddressSpace,
        handle: u32,
    ) -> (disposed: bool)
        requires
            old(self).valid(old(cells)),
        ensures
            old(self).step(old(cells), final(self), final(cells)),
            (final(self).model(final(cells)), final(memory)@, disposed) == old(self).model(
                old(cells),
            ).import_dispose(old(memory)@, handle),
    {
        if self.native_allocation(cells, handle).is_some() {
            return self.dispose_native_handle(cells, memory, handle).is_some();
        }
        if handle == 0 || self.classic_allocator.is_none() || !self.is_classic_master(cells, handle)
            || self.handle_state(cells, handle) & RESOURCE_BIT != 0 {
            self.set_native_mem_error(cells, NO_ERR);
            return false;
        }
        let ptr: u32 = match memory.read_u32_be(handle) {
            Some(ptr) => ptr,
            None => {
                self.set_native_mem_error(cells, MEM_WZ_ERR);
                return false;
            },
        };
        if ptr != 0 && self.classic_allocation_size(cells, ptr).is_none() {
            self.set_native_mem_error(cells, MEM_WZ_ERR);
            return false;
        }
        self.heap_release(cells, ptr);
        self.heap_release(cells, handle);
        self.handle_state_bits.remove(&mut cells.states, handle);
        self.handle_high_locked.remove(&mut cells.flags, handle);
        self.set_native_mem_error(cells, NO_ERR);
        true
    }

    /// Change the logical size of a relocatable block of either heap. A
    /// classic block keeps its place while its capacity holds the request;
    /// a locked one does not move. Resources are refused.
    pub fn set_process_handle_size_from_native_import(
        &mut self,
        cells: &mut ManagerCells,
        memory: &mut GuestAddressSpace,
        handle: u32,
        new_size: u32,
    ) -> (error: i16)
        requires
            old(self).valid(old(cells)),
        ensures
            old(self).step(old(cells), final(self), final(cells)),
            (final(self).model(final(cells)), final(memory)@, error) == old(self).model(
                old(cells),
            ).import_set_handle_size(old(memory)@, handle, new_size),
    {
        if self.native_allocation(cells, handle).is_some() {
            return self.set_native_handle_size(cells, memory, handle, new_size);
        }
        if handle == 0 || self.classic_allocator.is_none() || !self.is_classic_master(cells, handle) {
            self.set_native_mem_error(cells, NIL_HANDLE_ERR);
            return NIL_HANDLE_ERR;
        }
        let state: u8 = self.handle_state(cells, handle);
        if state & RESOURCE_BIT != 0 {
            self.set_native_mem_error(cells, NIL_HANDLE_ERR);
            return NIL_HANDLE_ERR;
        }
        let master_ptr: u32 = match memory.read_u32_be(handle) {
            Some(master_ptr) => master_ptr,
            None => {
                self.set_native_mem_error(cells, NIL_HANDLE_ERR);
                return NIL_HANDLE_ERR;
            },
        };
        let (old_size, old_capacity) = match self.classic_extent(cells, master_ptr) {
            Some(extent) => extent,
            None => {
                self.set_native_mem_error(cells, MEM_WZ_ERR);
                return MEM_WZ_ERR;
            },
        };
        if master_ptr != 0 && (self.is_mismatched(cells, handle, master_ptr) || old_capacity
            > u32::MAX - master_ptr) {
            self.set_native_mem_error(cells, MEM_WZ_ERR);
            return MEM_WZ_ERR;
        }
        let new_capacity: u32 = match ClassicHeapAllocatorState::checked_allocation_bucket_size(
            new_size,
        ) {
            Some(new_capacity) => new_capacity,
            None => {
                self.set_native_mem_error(cells, MEM_FULL_ERR);
                return MEM_FULL_ERR;
            },
        };
        // The master pointer has to accept writes even where it stays.
        if !memory.preflight_writable_range(handle, 4) {
            self.set_native_mem_error(cells, NIL_HANDLE_ERR);
            return NIL_HANDLE_ERR;
        }
        if master_ptr == 0 && new_size == 0 {
            self.set_native_mem_error(cells, NO_ERR);
            return NO_ERR;
        }
        if master_ptr != 0 && new_capacity <= old_capacity {
            return self.resize_in_place_from_native_import(
                cells,
                memory,
                master_ptr,
                old_size,
                new_size,
                new_capacity,
            );
        }
        if state & LOCKED_BIT != 0 {
            self.set_native_mem_error(cells, MEM_FULL_ERR);
            return MEM_FULL_ERR;
        }
        self.move_from_native_import(cells, memory, handle, master_ptr, new_size)
    }

    /// Size and capacity of a live classic block; an empty handle has neither.
    fn classic_extent(&self, cells: &ManagerCells, ptr: u32) -> (extent: Option<(u32, u32)>)
        requires
            self.valid(cells),
            self.classic_allocator is Some,
        ensures
            extent == (if ptr != 0 && self.model(cells).classic->0.size_of(ptr) is None {
                None
            } else {
                Some(self.model(cells).block_extent(ptr))
            }),
    {
        if ptr == 0 {
            return Some((0, 0));
        }
        match (self.classic_allocation_size(cells, ptr), self.classic_capacity(cells, ptr)) {
            (Some(size), Some(capacity)) => Some((size, capacity)),
            _ => None,
        }
    }

    fn resize_in_place_from_native_import(
        &mut self,
        cells: &mut ManagerCells,
        memory: &mut GuestAddressSpace,
        ptr: u32,
        old_size: u32,
        new_size: u32,
        new_capacity: u32,
    ) -> (error: i16)
        requires
            old(self).valid(old(cells)),
            old(self).classic_allocator is Some,
            new_size <= u32::MAX - 3,
            new_capacity == crate::classic_heap::bucket_size(new_size as int),
            new_capacity <= u32::MAX - ptr,
        ensures
            old(self).step(old(cells), final(self), final(cells)),
            (final(self).model(final(cells)), final(memory)@, error) == old(self).model(
                old(cells),
            ).import_resize_in_place(old(memory)@, ptr, old_size, new_size),
    {
        proof {
            crate::classic_heap::lemma_round_up(new_size as int, 4);
        }
        let fits = memory.preflight_writable_range(ptr, new_capacity);
        if !fits || (new_size < old_size && !memory.preflight_writable_range(
            ptr + new_size,
            old_size - new_size,
        )) {
            self.set_native_mem_error(cells, PARAM_ERR);
            return PARAM_ERR;
        }
        if new_size < old_size {
            let blank = zero_bytes((old_size - new_size) as usize);
            memory.write_bytes(ptr + new_size, blank.as_slice());
        }
        self.heap_resize(cells, ptr, new_size);
        self.set_native_mem_error(cells, NO_ERR);
        NO_ERR
    }

    fn move_from_native_import(
        &mut self,
        cells: &mut ManagerCells,
        memory: &mut GuestAddressSpace,
        handle: u32,
        ptr: u32,
        new_size: u32,
    ) -> (error: i16)
        requires
            old(self).valid(old(cells)),
            old(self).classic_allocator is Some,
            new_size <= u32::MAX - 3,
            old(memory)@.accepts(handle as int, 4),
            ptr != 0 ==> old(self).model(old(cells)).classic->0.size_of(ptr) is Some && crate::process_map::map_get(
                old(self).model(old(cells)).ptr_to_handle,
                ptr,
            ) == Some(handle),
            ptr + old(self).model(old(cells)).block_extent(ptr).1 <= u32::MAX,
        ensures
            old(self).step(old(cells), final(self), final(cells)),
            (final(self).model(final(cells)), final(memory)@, error) == old(self).model(
                old(cells),
            ).import_move(old(memory)@, handle, ptr, new_size),
    {
        let allocator = match &self.classic_allocator {
            Some(allocator) => allocator.shared_handle(),
            None => {
                return MEM_FULL_ERR;
            },
        };
        let (old_size, old_capacity) = match self.classic_extent(cells, ptr) {
            Some(extent) => extent,
            None => (0, 0),
        };
        let ceiling: u32 = self.classic_heap_ceiling(cells);
        let plan = match allocator.allocation_plan(cells, new_size, 4, ceiling) {
            Some(plan) => plan,
            None => {
                self.set_native_mem_error(cells, MEM_FULL_ERR);
                return MEM_FULL_ERR;
            },
        };
        let ghost before = self.model(cells);
        proof {
            crate::heap_laws::planned_block_is_placed(before.classic->0, new_size, 4, ceiling);
        }
        let new_ptr: u32 = plan.address;
        let new_capacity: u32 = plan.capacity();
        let elsewhere = match self.ptr_to_handle.get(&cells.handles, new_ptr) {
            Some(mapped_handle) => mapped_handle != handle,
            None => false,
        };
        if new_ptr == handle || (new_ptr < ptr + old_capacity && ptr < new_ptr + new_capacity)
            || allocator.allocation_size(cells, new_ptr).is_some() || elsewhere {
            self.set_native_mem_error(cells, MEM_FULL_ERR);
            return MEM_FULL_ERR;
        }
        let kept: u32 = if old_size < new_size {
            old_size
        } else {
            new_size
        };
        let prefix = match memory.read_bytes(ptr, kept as usize) {
            Some(prefix) => prefix,
            None => {
                self.set_native_mem_error(cells, PARAM_ERR);
                return PARAM_ERR;
            },
        };
        if !memory.preflight_writable_range(new_ptr, new_capacity) {
            self.set_native_mem_error(cells, PARAM_ERR);
            return PARAM_ERR;
        }
        memory.write_bytes(new_ptr, prefix.as_slice());
        let master = to_word_bytes(new_ptr);
        memory.write_bytes(handle, master.as_slice());
        allocator.commit_allocation_plan(cells, plan);
        if ptr != 0 {
            self.heap_release(cells, ptr);
            self.ptr_to_handle.remove(&mut cells.handles, ptr);
        }
        self.ptr_to_handle.insert(&mut cells.handles, new_ptr, handle);
        self.set_native_mem_error(cells, NO_ERR);
        NO_ERR
    }
}

} // verus!
