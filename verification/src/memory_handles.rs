//! Native relocatable blocks: allocation, resizing, resources and the heap
//! tail.

use crate::guest_memory::GuestAddressSpace;
use crate::memory_manager::{ManagerCells, ProcessNativeMemoryManager};
use crate::memory_model::{
    ManagerModel, ProcessHandleHeap, ProcessNewHandleRequest, ProcessNewHandleResult, LOCKED_BIT,
    MEM_FULL_ERR, NIL_HANDLE_ERR, NO_ERR, PARAM_ERR, PURGEABLE_BIT, RESOURCE_BIT,
};
use crate::memory_native::prepare_native_allocation;
use crate::native_heap::{
    copy_handle_records, copy_ptr_records, find_chosen_handle, find_ptr, native_allocation_bounds,
    native_allocation_size, NativeModel, ProcessHandleRecord, ProcessHandleStateRecord,
    ProcessNativeAllocatorState, ProcessNativeHeapState, ProcessPtrRecord,
};
use vstd::prelude::*;

verus! {

impl ProcessNativeMemoryManager {
    /// Choose the record of a new handle and the storage that it takes.
    fn find_new_handle(
        &self,
        cells: &ManagerCells,
        memory: &GuestAddressSpace,
        size: u32,
        required: u32,
    ) -> (chosen: Option<(ProcessHandleRecord, Option<usize>, Option<usize>, u32)>)
        requires
            self.native_allocator is Some,
        ensures
            match (
                chosen,
                self.model(cells).choose_handle(
                    self.model(cells).native->0,
                    memory@.exclusions,
                    size,
                    required,
                ),
            ) {
                (
                    Some((record, reused, block, cursor)),
                    Some((spec_record, spec_reused, spec_block, spec_cursor)),
                ) => {
                    &&& record == spec_record
                    &&& cursor == spec_cursor
                    &&& match reused {
                        Some(index) => index == spec_reused && index < self.model(
                            cells,
                        ).native->0.free_handles.len(),
                        None => spec_reused == -1,
                    }
                    &&& match block {
                        Some(index) => index == spec_block && index < self.model(
                            cells,
                        ).native->0.free_ptrs.len(),
                        None => spec_block == -1,
                    }
                },
                (None, None) => true,
                _ => false,
            },
    {
        let allocator = match &self.native_allocator {
            Some(allocator) => allocator,
            None => {
                return None;
            },
        };
        let limit: u32 = self.native_allocation_limit(cells, allocator.heap.heap_limit);
        match find_chosen_handle(&allocator.free_handle_blocks, required, limit) {
            Some(index) => {
                let free = allocator.free_handle_blocks[index];
                if free.ptr == 0 {
                    match self.find_block(cells, memory, limit, required, None) {
                        Some((ptr, block, cursor)) => Some(
                            (
                                ProcessHandleRecord {
                                    handle: free.handle,
                                    ptr,
                                    size,
                                    capacity: size,
                                },
                                Some(index),
                                block,
                                cursor,
                            ),
                        ),
                        None => None,
                    }
                } else {
                    Some(
                        (
                            ProcessHandleRecord {
                                handle: free.handle,
                                ptr: free.ptr,
                                size,
                                capacity: free.capacity,
                            },
                            Some(index),
                            None,
                            allocator.heap.heap_cursor,
                        ),
                    )
                }
            },
            None => match native_allocation_bounds(
                memory.allocation_exclusions(),
                allocator.heap.heap_cursor,
                limit,
                16,
            ) {
                Some((handle, after_handle)) => match native_allocation_bounds(
                    memory.allocation_exclusions(),
                    after_handle,
                    limit,
                    required,
                ) {
                    Some((ptr, after_ptr)) => Some(
                        (
                            ProcessHandleRecord { handle, ptr, size, capacity: size },
                            None,
                            None,
                            after_ptr,
                        ),
                    ),
                    None => None,
                },
                None => None,
            },
        }
    }

    /// Allocate a relocatable block and its master pointer; zero where they
    /// cannot be had.
    pub fn allocate_native_handle(
        &mut self,
        cells: &mut ManagerCells,
        memory: &mut GuestAddressSpace,
        size: u32,
        clear: bool,
    ) -> (handle: u32)
        requires
            old(self).valid(old(cells)),
        ensures
            old(self).step(old(cells), final(self), final(cells)),
            (final(self).model(final(cells)), final(memory)@, handle) == old(self).model(
                old(cells),
            ).allocate_native_handle(old(memory)@, size, clear),
    {
        let required: u32 = match native_allocation_size(size) {
            Some(required) => required,
            None => {
                self.set_native_mem_error(cells, MEM_FULL_ERR);
                return 0;
            },
        };
        if self.native_allocator.is_none() {
            return 0;
        }
        let (record, reused, block, cursor) = match self.find_new_handle(
            cells,
            memory,
            size,
            required,
        ) {
            Some(chosen) => chosen,
            None => {
                self.set_native_mem_error(cells, MEM_FULL_ERR);
                return 0;
            },
        };
        if !prepare_native_allocation(memory, record.handle, 16, true)
            || !prepare_native_allocation(memory, record.ptr, required, clear)
            || memory.write_u32_be(record.handle, record.ptr).is_none() {
            self.set_native_mem_error(cells, MEM_FULL_ERR);
            return 0;
        }
        self.take_block(cells, block, cursor);
        match &mut self.native_allocator {
            Some(allocator) => {
                if let Some(index) = reused {
                    let ghost before = allocator.free_handle_blocks@;
                    allocator.free_handle_blocks.swap_remove(index);
                    assert(allocator.free_handle_blocks@ =~= crate::classic_heap::swap_removed(before, index as int));
                }
            },
            None => {},
        }
        self.set_native_mem_error(cells, NO_ERR);
        self.commit_new_handle_record(cells, record, true);
        record.handle
    }

    /// Serve a handle request from the native heap.
    pub fn new_handle_native(
        &mut self,
        cells: &mut ManagerCells,
        request: ProcessNewHandleRequest,
        memory: &mut GuestAddressSpace,
    ) -> (result: ProcessNewHandleResult)
        requires
            old(self).valid(old(cells)),
            request.heap is Current,
        ensures
            old(self).step(old(cells), final(self), final(cells)),
            (final(self).model(final(cells)), final(memory)@, result) == old(self).model(
                old(cells),
            ).new_handle_native(old(memory)@, request),
    {
        if request.logical_size < 0 {
            self.set_native_mem_error(cells, MEM_FULL_ERR);
            return ProcessNewHandleResult::failure(MEM_FULL_ERR);
        }
        let size: u32 = request.logical_size as u32;
        let handle: u32 = self.allocate_native_handle(cells, memory, size, request.clear);
        let result = if handle == 0 {
            match self.native_heap_state() {
                Some(heap) => ProcessNewHandleResult::failure(heap.last_mem_error),
                None => ProcessNewHandleResult::failure(MEM_FULL_ERR),
            }
        } else {
            match self.native_allocation(cells, handle) {
                Some(record) => ProcessNewHandleResult::success(record.handle, record.ptr),
                None => ProcessNewHandleResult::failure(NIL_HANDLE_ERR),
            }
        };
        self.set_native_mem_error(cells, result.error);
        result
    }

    /// Allocate a relocatable block; zero where none can be had.
    pub fn new_native_handle(
        &mut self,
        cells: &mut ManagerCells,
        memory: &mut GuestAddressSpace,
        size: u32,
        clear: bool,
    ) -> (handle: u32)
        requires
            old(self).valid(old(cells)),
        ensures
            old(self).step(old(cells), final(self), final(cells)),
            (final(self).model(final(cells)), final(memory)@, handle) == old(self).model(
                old(cells),
            ).new_native_handle(old(memory)@, size, clear),
    {
        match ProcessNewHandleRequest::from_unsigned(size, clear, ProcessHandleHeap::Current) {
            Some(request) => self.new_handle_native(cells, request, memory).handle,
            None => {
                self.set_native_mem_error(cells, MEM_FULL_ERR);
                0
            },
        }
    }

    /// Allocate a relocatable block that holds a copy of bytes.
    pub fn copy_bytes_to_new_native_handle(
        &mut self,
        cells: &mut ManagerCells,
        memory: &mut GuestAddressSpace,
        bytes: &[u8],
    ) -> (handle: u32)
        requires
            old(self).valid(old(cells)),
            old(self).model(old(cells)).copy_to_native_fits(old(memory)@, bytes@),
        ensures
            old(self).step(old(cells), final(self), final(cells)),
            (final(self).model(final(cells)), final(memory)@, handle) == old(self).model(
                old(cells),
            ).copy_to_native(old(memory)@, bytes@),
    {
        if bytes.len() as u64 > 0xffff_ffff {
            self.set_native_mem_error(cells, MEM_FULL_ERR);
            return 0;
        }
        let size: u32 = bytes.len() as u32;
        let handle: u32 = self.new_native_handle(cells, memory, size, false);
        match self.native_allocation(cells, handle) {
            Some(record) => {
                let _ = memory.write_bytes(record.ptr, bytes);
                self.set_state_for_handle(cells, handle, 0);
                handle
            },
            None => 0,
        }
    }

    /// Mark a handle as a purgeable resource.
    fn mark_resource(&mut self, cells: &mut ManagerCells, handle: u32)
        requires
            old(self).valid(old(cells)),
        ensures
            old(self).step(old(cells), final(self), final(cells)),
            final(self).model(final(cells)) == old(self).model(old(cells)).mark_resource(handle),
    {
        self.set_process_handle_purgeable(cells, handle, true);
        self.set_process_handle_resource(cells, handle, true);
    }

    /// Allocate a resource handle; without bytes its block stays empty.
    pub fn new_native_resource_handle(
        &mut self,
        cells: &mut ManagerCells,
        memory: &mut GuestAddressSpace,
        bytes: Option<&[u8]>,
    ) -> (handle: u32)
        requires
            old(self).valid(old(cells)),
            bytes matches Some(bytes) ==> old(self).model(old(cells)).copy_to_native_fits(
                old(memory)@,
                bytes@,
            ),
        ensures
            old(self).step(old(cells), final(self), final(cells)),
            (final(self).model(final(cells)), final(memory)@, handle) == old(self).model(
                old(cells),
            ).new_native_resource(
                old(memory)@,
                match bytes {
                    Some(bytes) => Some(bytes@),
                    None => None,
                },
            ),
    {
        let handle: u32 = match bytes {
            Some(bytes) => self.copy_bytes_to_new_native_handle(cells, memory, bytes),
            None => {
                let handle: u32 = self.new_native_handle(cells, memory, 0, true);
                if handle != 0 && self.empty_native_handle(cells, memory, handle) != NO_ERR {
                    let _ = self.dispose_native_handle(cells, memory, handle);
                    return 0;
                }
                handle
            },
        };
        if handle != 0 {
            self.mark_resource(cells, handle);
        }
        handle
    }

    fn fill_empty_handle(
        &mut self,
        cells: &mut ManagerCells,
        memory: &mut GuestAddressSpace,
        record: ProcessHandleRecord,
        size: u32,
    ) -> (error: i16)
        requires
            old(self).valid(old(cells)),
        ensures
            old(self).step(old(cells), final(self), final(cells)),
            (final(self).model(final(cells)), final(memory)@, error) == old(self).model(
                old(cells),
            ).fill_empty_handle(old(memory)@, record, size),
    {
        let required: u32 = match native_allocation_size(size) {
            Some(required) => required,
            None => {
                self.set_native_mem_error(cells, MEM_FULL_ERR);
                return MEM_FULL_ERR;
            },
        };
        let heap = match self.native_heap_state() {
            Some(heap) => heap,
            None => {
                return MEM_FULL_ERR;
            },
        };
        let limit: u32 = self.native_allocation_limit(cells, heap.heap_limit);
        let (ptr, reused, cursor) = match self.find_block(cells, memory, limit, required, None) {
            Some(placed) => placed,
            None => {
                self.set_native_mem_error(cells, MEM_FULL_ERR);
                return MEM_FULL_ERR;
            },
        };
        if !prepare_native_allocation(memory, ptr, required, true) || memory.write_u32_be(
            record.handle,
            ptr,
        ).is_none() {
            self.set_native_mem_error(cells, PARAM_ERR);
            return PARAM_ERR;
        }
        self.set_native_allocation_record(
            cells,
            ProcessHandleRecord { handle: record.handle, ptr, size, capacity: size },
        );
        self.ptr_to_handle.insert(&mut cells.handles, ptr, record.handle);
        self.native_handle_ptrs.insert(ptr);
        self.take_block(cells, reused, cursor);
        self.set_native_mem_error(cells, NO_ERR);
        NO_ERR
    }

    pub(crate) fn find_grown_block(
        &self,
        cells: &ManagerCells,
        exclusions: &Vec<(u32, u32)>,
        ptr: u32,
        old_aligned: u32,
        new_aligned: u32,
    ) -> (placed: Option<(u32, u32)>)
        requires
            self.native_allocator is Some,
        ensures
            placed == self.model(cells).grown_block(
                self.model(cells).native->0,
                exclusions@,
                ptr,
                old_aligned,
                new_aligned,
            ),
    {
        let allocator = match &self.native_allocator {
            Some(allocator) => allocator,
            None => {
                return None;
            },
        };
        let limit: u32 = self.native_allocation_limit(cells, allocator.heap.heap_limit);
        let is_last = match ptr.checked_add(old_aligned) {
            Some(end) => end == allocator.heap.heap_cursor,
            None => false,
        };
        if is_last {
            if let Some((start, end)) = native_allocation_bounds(
                exclusions,
                ptr,
                limit,
                new_aligned,
            ) {
                if start == ptr {
                    return Some((start, end));
                }
            }
        }
        native_allocation_bounds(exclusions, allocator.heap.heap_cursor, limit, new_aligned)
    }

    /// Point a handle's indexes at the block it moved to.
    pub(crate) fn move_block(
        &mut self,
        cells: &mut ManagerCells,
        old_ptr: u32,
        record: ProcessHandleRecord,
    )
        requires
            old(self).valid(old(cells)),
        ensures
            old(self).step(old(cells), final(self), final(cells)),
            final(self).model(final(cells)) == old(self).model(old(cells)).move_block(
                old_ptr,
                record,
            ),
    {
        self.ptr_to_handle.remove(&mut cells.handles, old_ptr);
        self.native_handle_ptrs.remove(&old_ptr);
        self.set_native_allocation_record(cells, record);
        self.ptr_to_handle.insert(&mut cells.handles, record.ptr, record.handle);
        self.native_handle_ptrs.insert(record.ptr);
    }

    fn grow_native_handle(
        &mut self,
        cells: &mut ManagerCells,
        memory: &mut GuestAddressSpace,
        record: ProcessHandleRecord,
        size: u32,
    ) -> (error: i16)
        requires
            old(self).valid(old(cells)),
        ensures
            old(self).step(old(cells), final(self), final(cells)),
            (final(self).model(final(cells)), final(memory)@, error) == old(self).model(
                old(cells),
            ).grow_native_handle(old(memory)@, record, size),
    {
        let old_aligned: u32 = match native_allocation_size(record.size) {
            Some(aligned) => aligned,
            None => {
                self.set_native_mem_error(cells, PARAM_ERR);
                return PARAM_ERR;
            },
        };
        let new_aligned: u32 = match native_allocation_size(size) {
            Some(aligned) => aligned,
            None => {
                self.set_native_mem_error(cells, MEM_FULL_ERR);
                return MEM_FULL_ERR;
            },
        };
        if self.native_allocator.is_none() {
            return MEM_FULL_ERR;
        }
        let (ptr, cursor) = match self.find_grown_block(
            cells,
            memory.allocation_exclusions(),
            record.ptr,
            old_aligned,
            new_aligned,
        ) {
            Some(placed) => placed,
            None => {
                self.set_native_mem_error(cells, MEM_FULL_ERR);
                return MEM_FULL_ERR;
            },
        };
        let bytes = match memory.read_bytes(record.ptr, record.size as usize) {
            Some(bytes) => bytes,
            None => {
                self.set_native_mem_error(cells, PARAM_ERR);
                return PARAM_ERR;
            },
        };
        if !prepare_native_allocation(memory, ptr, new_aligned, true)
            || !memory.write_until_refused(ptr, bytes.as_slice()) || (ptr != record.ptr
            && memory.write_u32_be(record.handle, ptr).is_none()) {
            self.set_native_mem_error(cells, PARAM_ERR);
            return PARAM_ERR;
        }
        self.move_block(
            cells,
            record.ptr,
            ProcessHandleRecord { handle: record.handle, ptr, size, capacity: size },
        );
        self.take_block(cells, None, cursor);
        self.set_native_mem_error(cells, NO_ERR);
        NO_ERR
    }

    /// Change the logical size of a native relocatable block. The handle
    /// stays; a block that outgrows its capacity moves or extends.
    pub fn set_native_handle_size(
        &mut self,
        cells: &mut ManagerCells,
        memory: &mut GuestAddressSpace,
        handle: u32,
        size: u32,
    ) -> (error: i16)
        requires
            old(self).valid(old(cells)),
        ensures
            old(self).step(old(cells), final(self), final(cells)),
            (final(self).model(final(cells)), final(memory)@, error) == old(self).model(
                old(cells),
            ).set_native_handle_size(old(memory)@, handle, size),
    {
        let record = match self.native_allocation(cells, handle) {
            Some(record) => record,
            None => {
                self.set_native_mem_error(cells, NIL_HANDLE_ERR);
                return NIL_HANDLE_ERR;
            },
        };
        let points_to_block = match memory.read_u32_be(handle) {
            Some(ptr) => ptr == record.ptr,
            None => false,
        };
        if !points_to_block {
            self.set_native_mem_error(cells, NIL_HANDLE_ERR);
            return NIL_HANDLE_ERR;
        }
        if size <= record.capacity {
            self.set_native_allocation_record(
                cells,
                ProcessHandleRecord {
                    handle: record.handle,
                    ptr: record.ptr,
                    size,
                    capacity: record.capacity,
                },
            );
            self.set_native_mem_error(cells, NO_ERR);
            return NO_ERR;
        }
        if record.ptr == 0 {
            self.fill_empty_handle(cells, memory, record, size)
        } else {
            self.grow_native_handle(cells, memory, record, size)
        }
    }

    /// Put bytes into an empty resource handle; one that has a block keeps it.
    pub fn load_native_resource_handle(
        &mut self,
        cells: &mut ManagerCells,
        memory: &mut GuestAddressSpace,
        handle: u32,
        bytes: &[u8],
    ) -> (error: i16)
        requires
            old(self).valid(old(cells)),
        ensures
            old(self).step(old(cells), final(self), final(cells)),
            (final(self).model(final(cells)), final(memory)@, error) == old(self).model(
                old(cells),
            ).load_native_resource(old(memory)@, handle, bytes@),
    {
        let record = match self.native_allocation(cells, handle) {
            Some(record) => record,
            None => {
                self.set_native_mem_error(cells, NIL_HANDLE_ERR);
                return NIL_HANDLE_ERR;
            },
        };
        if record.ptr != 0 {
            self.mark_resource(cells, handle);
            self.set_native_mem_error(cells, NO_ERR);
            return NO_ERR;
        }
        if bytes.len() as u64 > 0xffff_ffff {
            self.set_native_mem_error(cells, MEM_FULL_ERR);
            return MEM_FULL_ERR;
        }
        let size: u32 = bytes.len() as u32;
        let error: i16 = self.set_native_handle_size(cells, memory, handle, size);
        if error != NO_ERR {
            return error;
        }
        let updated = match self.native_allocation(cells, handle) {
            Some(updated) => updated,
            None => {
                self.set_native_mem_error(cells, NIL_HANDLE_ERR);
                return NIL_HANDLE_ERR;
            },
        };
        if !memory.write_until_refused(updated.ptr, bytes) {
            self.set_native_mem_error(cells, PARAM_ERR);
            return PARAM_ERR;
        }
        self.mark_resource(cells, handle);
        self.set_native_mem_error(cells, NO_ERR);
        NO_ERR
    }

    /// Publish a resource block whose master pointer lies outside the heap.
    pub fn publish_external_native_resource_handle(
        &mut self,
        cells: &mut ManagerCells,
        handle: u32,
        ptr: u32,
        heap_cursor: u32,
    )
        requires
            old(self).valid(old(cells)),
        ensures
            old(self).step(old(cells), final(self), final(cells)),
            final(self).model(final(cells)) == old(self).model(old(cells)).publish_external(
                handle,
                ptr,
                heap_cursor,
            ),
    {
        if handle == 0 {
            return;
        }
        if ptr != 0 {
            self.ptr_to_handle.insert(&mut cells.handles, ptr, handle);
        }
        self.mark_resource(cells, handle);
        match &mut self.native_allocator {
            Some(allocator) => {
                allocator.heap.heap_cursor = heap_cursor;
                allocator.heap.last_mem_error = NO_ERR;
                self.native_allocator_dirty = true;
            },
            None => {},
        }
    }

    /// Append bytes to a native relocatable block.
    pub fn append_bytes_to_native_handle(
        &mut self,
        cells: &mut ManagerCells,
        memory: &mut GuestAddressSpace,
        handle: u32,
        bytes: &[u8],
    ) -> (error: i16)
        requires
            old(self).valid(old(cells)),
        ensures
            old(self).step(old(cells), final(self), final(cells)),
            (final(self).model(final(cells)), final(memory)@, error) == old(self).model(
                old(cells),
            ).append_to_native(old(memory)@, handle, bytes@),
    {
        let record = match self.native_allocation(cells, handle) {
            Some(record) => record,
            None => {
                self.set_native_mem_error(cells, NIL_HANDLE_ERR);
                return NIL_HANDLE_ERR;
            },
        };
        if bytes.len() as u64 > 0xffff_ffff - record.size as u64 {
            self.set_native_mem_error(cells, MEM_FULL_ERR);
            return MEM_FULL_ERR;
        }
        let new_size: u32 = record.size + bytes.len() as u32;
        let error: i16 = self.set_native_handle_size(cells, memory, handle, new_size);
        if error != NO_ERR {
            return error;
        }
        proof {
            lemma_resized_record(old(self).model(old(cells)), old(memory)@, handle, new_size);
        }
        let ptr: u32 = match self.native_allocation(cells, handle) {
            Some(destination) => destination.ptr,
            None => 0,
        };
        let complete = match ptr.checked_add(record.size) {
            Some(end) => memory.write_until_refused(end, bytes),
            None => {
                proof {
                    memory.lemma_bounds();
                    lemma_refused_run(memory@, ptr + record.size, bytes@);
                }
                bytes.len() == 0
            },
        };
        if !complete {
            self.set_native_mem_error(cells, PARAM_ERR);
            return PARAM_ERR;
        }
        NO_ERR
    }

    /// The handle whose block starts at an address.
    pub fn handle_for_ptr(&self, cells: &ManagerCells, ptr: u32) -> (handle: Option<u32>)
        requires
            self.valid(cells),
        ensures
            handle == crate::process_map::map_get(self.model(cells).ptr_to_handle, ptr),
    {
        self.ptr_to_handle.get(&cells.handles, ptr)
    }

    /// The handle whose block starts at an address.
    pub fn recover_handle(&self, cells: &ManagerCells, ptr: u32) -> (handle: Option<u32>)
        requires
            self.valid(cells),
        ensures
            handle == crate::process_map::map_get(self.model(cells).ptr_to_handle, ptr),
    {
        self.ptr_to_handle.get(&cells.handles, ptr)
    }

    /// Remember which handle a block belongs to.
    pub fn track_handle_ptr(&mut self, cells: &mut ManagerCells, ptr: u32, handle: u32) -> (previous:
        Option<u32>)
        requires
            old(self).valid(old(cells)),
        ensures
            old(self).step(old(cells), final(self), final(cells)),
            final(self).model(final(cells)) == (ManagerModel {
                ptr_to_handle: old(self).model(old(cells)).ptr_to_handle.insert(ptr, handle),
                ..old(self).model(old(cells))
            }),
            previous == crate::process_map::map_get(old(self).model(old(cells)).ptr_to_handle, ptr),
    {
        self.ptr_to_handle.insert(&mut cells.handles, ptr, handle)
    }

    /// Recover a handle only while its master pointer still names the block;
    /// an entry that no longer holds is dropped.
    pub fn recover_handle_from_master_pointer(
        &self,
        cells: &mut ManagerCells,
        ptr: u32,
        read_master_pointer: impl FnOnce(u32) -> Option<u32>,
    ) -> (recovered: Option<u32>)
        requires
            self.valid(old(cells)),
            forall|handle: u32| call_requires(read_master_pointer, (handle,)),
        ensures
            self.step(old(cells), self, final(cells)),
            match crate::process_map::map_get(self.model(old(cells)).ptr_to_handle, ptr) {
                None => recovered is None && self.model(final(cells)) == self.model(old(cells)),
                Some(handle) => exists|master: Option<u32>|
                    call_ensures(read_master_pointer, (handle,), master) && if master == Some(ptr) {
                        recovered == Some(handle) && self.model(final(cells)) == self.model(
                            old(cells),
                        )
                    } else {
                        recovered is None && self.model(final(cells)) == (ManagerModel {
                            ptr_to_handle: self.model(old(cells)).ptr_to_handle.remove(ptr),
                            ..self.model(old(cells))
                        })
                    },
            },
    {
        let handle: u32 = match self.ptr_to_handle.get(&cells.handles, ptr) {
            Some(handle) => handle,
            None => {
                return None;
            },
        };
        let master = read_master_pointer(handle);
        let live = match master {
            Some(named) => named == ptr,
            None => false,
        };
        if live {
            return Some(handle);
        }
        self.ptr_to_handle.remove(&mut cells.handles, ptr);
        None
    }

    /// Publish the native heap's bookkeeping.
    pub fn publish_native_allocator(
        &mut self,
        cells: &ManagerCells,
        heap: ProcessNativeHeapState,
        ptrs: &[ProcessPtrRecord],
        free_ptr_blocks: &[ProcessPtrRecord],
        free_handle_blocks: &[ProcessHandleRecord],
    )
        requires
            old(self).valid(cells),
        ensures
            old(self).step(cells, final(self), cells),
            final(self).model(cells) == (ManagerModel {
                native: Some(
                    NativeModel {
                        initial_heap: match old(self).model(cells).native {
                            Some(native) => native.initial_heap,
                            None => heap,
                        },
                        heap,
                        ptrs: ptrs@,
                        free_ptrs: free_ptr_blocks@,
                        free_handles: free_handle_blocks@,
                    },
                ),
                dirty: false,
                ..old(self).model(cells)
            }),
    {
        let initial_heap = match &self.native_allocator {
            Some(allocator) => allocator.initial_heap,
            None => heap,
        };
        self.native_allocator = Some(
            ProcessNativeAllocatorState {
                initial_heap,
                heap,
                ptrs: copy_ptr_records(ptrs),
                free_ptr_blocks: copy_ptr_records(free_ptr_blocks),
                free_handle_blocks: copy_handle_records(free_handle_blocks),
            },
        );
        self.native_allocator_dirty = false;
    }

    /// Set the properties of a handle.
    pub fn set_native_handle_state(
        &mut self,
        cells: &mut ManagerCells,
        state: ProcessHandleStateRecord,
    )
        requires
            old(self).valid(old(cells)),
        ensures
            old(self).step(old(cells), final(self), final(cells)),
            final(self).model(final(cells)) == ({
                let bits = state_bits(state);
                let set = old(self).model(old(cells)).set_state(state.handle, bits);
                if state.locked && state.high_locked {
                    ManagerModel { high: set.high.insert(state.handle, true), ..set }
                } else {
                    set
                }
            }),
    {
        let mut bits: u8 = 0;
        if state.locked {
            bits = bits | LOCKED_BIT;
        }
        if !state.no_purge {
            bits = bits | PURGEABLE_BIT;
        }
        if state.resource {
            bits = bits | RESOURCE_BIT;
        }
        self.set_state_for_handle(cells, state.handle, bits);
        if state.locked && state.high_locked {
            self.handle_high_locked.insert(&mut cells.flags, state.handle, true);
        }
    }

    /// Forget every native handle.
    fn forget_native_handles(&mut self, cells: &mut ManagerCells)
        requires
            old(self).valid(old(cells)),
        ensures
            old(self).step(old(cells), final(self), final(cells)),
            final(self).model(final(cells)) == old(self).model(old(cells)).without_native_handles(),
    {
        let ghost all_ptrs = self.native_handle_ptrs@;
        let ghost all_handles = self.native_handles@;
        let ghost start = self.model(cells);
        let ghost mut removed: Set<u32> = Set::empty();
        let mut more: bool = true;
        proof {
            assert(start.ptr_to_handle.remove_keys(removed) =~= start.ptr_to_handle);
            assert(self.native_handle_ptrs@.union(removed) =~= all_ptrs);
        }
        let n: usize = self.native_handle_ptrs.len();
        while more
            invariant
                old(self).step(old(cells), self, cells),
                self.native_handle_ptrs@.finite(),
                self.native_handle_ptrs@.union(removed) == all_ptrs,
                !more ==> self.native_handle_ptrs@ == Set::<u32>::empty(),
                self.native_handles@ == all_handles,
                self.model(cells) == (ManagerModel {
                    ptr_to_handle: start.ptr_to_handle.remove_keys(removed),
                    native_ptrs: self.native_handle_ptrs@,
                    ..start
                }),
            decreases
                self.native_handle_ptrs@.len(),
                (if more {
                    1int
                } else {
                    0int
                }),
        {
            match self.native_handle_ptrs.take_one() {
                Some(ptr) => {
                    self.ptr_to_handle.remove(&mut cells.handles, ptr);
                    proof {
                        let next = removed.insert(ptr);
                        assert(self.native_handle_ptrs@.union(next) =~= all_ptrs);
                        assert(start.ptr_to_handle.remove_keys(removed).remove(ptr)
                            =~= start.ptr_to_handle.remove_keys(next));
                        removed = next;
                    }
                },
                None => {
                    more = false;
                },
            }
        }
        assert(removed =~= all_ptrs);
        let ghost middle = self.model(cells);
        let ghost mut cleared: Set<u32> = Set::empty();
        let mut left: bool = true;
        proof {
            assert(middle.states.remove_keys(cleared) =~= middle.states);
            assert(middle.high.remove_keys(cleared) =~= middle.high);
            assert(self.native_handles@.union(cleared) =~= all_handles);
        }
        let m: usize = self.native_handles.len();
        while left
            invariant
                old(self).step(old(cells), self, cells),
                self.native_handles@.finite(),
                self.native_handles@.union(cleared) == all_handles,
                !left ==> self.native_handles@ == Set::<u32>::empty(),
                self.model(cells) == (ManagerModel {
                    states: middle.states.remove_keys(cleared),
                    high: middle.high.remove_keys(cleared),
                    native_handles: self.native_handles@,
                    ..middle
                }),
            decreases
                self.native_handles@.len(),
                (if left {
                    1int
                } else {
                    0int
                }),
        {
            match self.native_handles.take_one() {
                Some(handle) => {
                    self.handle_state_bits.remove(&mut cells.states, handle);
                    self.handle_high_locked.remove(&mut cells.flags, handle);
                    proof {
                        let next = cleared.insert(handle);
                        assert(self.native_handles@.union(next) =~= all_handles);
                        assert(middle.states.remove_keys(cleared).remove(handle)
                            =~= middle.states.remove_keys(next));
                        assert(middle.high.remove_keys(cleared).remove(handle)
                            =~= middle.high.remove_keys(next));
                        cleared = next;
                    }
                },
                None => {
                    left = false;
                },
            }
        }
        assert(cleared =~= all_handles);
        self.native_allocations.clear();
    }

    /// Replace the native handles by the given records and state bytes. A
    /// record without a handle is left out.
    pub fn register_native_handle_records(
        &mut self,
        cells: &mut ManagerCells,
        handles: &[(ProcessHandleRecord, u8)],
    )
        requires
            old(self).valid(old(cells)),
        ensures
            old(self).step(old(cells), final(self), final(cells)),
            final(self).model(final(cells)) == crate::memory_model::registered(
                old(self).model(old(cells)).without_native_handles(),
                handles@,
            ),
    {
        self.forget_native_handles(cells);
        let ghost start = self.model(cells);
        let mut i: usize = 0;
        assert(handles@.take(0) =~= Seq::empty());
        while i < handles.len()
            invariant
                i <= handles@.len(),
                old(self).step(old(cells), self, cells),
                self.model(cells) == crate::memory_model::registered(start, handles@.take(i as int)),
            decreases handles@.len() - i,
        {
            let (record, state) = handles[i];
            assert(handles@.take(i + 1).drop_last() =~= handles@.take(i as int));
            if record.handle != 0 {
                if record.ptr != 0 {
                    self.ptr_to_handle.insert(&mut cells.handles, record.ptr, record.handle);
                    self.native_handle_ptrs.insert(record.ptr);
                }
                self.handle_state_bits.insert(&mut cells.states, record.handle, state);
                self.native_handles.insert(record.handle);
                self.native_allocations.push(record);
            }
            i += 1;
        }
        assert(handles@.take(i as int) =~= handles@);
    }

    fn block_crosses(base: u32, ptr: u32, size: u32) -> (result: bool)
        ensures
            result == crate::memory_model::crosses(base, ptr, size),
    {
        if ptr >= base {
            return false;
        }
        match native_allocation_size(size) {
            Some(capacity) => match ptr.checked_add(capacity) {
                Some(end) => end > base,
                None => false,
            },
            None => false,
        }
    }

    fn can_reclaim_tail(
        &self,
        cells: &ManagerCells,
        reclaim_base: u32,
        disposed_ptrs: &[u32],
        disposed_handle: Option<u32>,
    ) -> (result: bool)
        ensures
            result == self.model(cells).tail_reclaimable(
                reclaim_base,
                disposed_ptrs@,
                disposed_handle,
            ),
    {
        let allocator = match &self.native_allocator {
            Some(allocator) => allocator,
            None => {
                return false;
            },
        };
        if reclaim_base < allocator.heap.heap_base || reclaim_base > allocator.heap.heap_cursor {
            return false;
        }
        let ghost native = self.model(cells).native->0;
        let mut i: usize = 0;
        while i < disposed_ptrs.len()
            invariant
                i <= disposed_ptrs@.len(),
                native == allocator@,
                self.model(cells).native == Some(native),
                forall|j: int|
                    0 <= j < i ==> crate::native_heap::ptr_index(native.ptrs, #[trigger] disposed_ptrs@[j]) >= 0,
            decreases disposed_ptrs@.len() - i,
        {
            if find_ptr(&allocator.ptrs, disposed_ptrs[i]).is_none() {
                return false;
            }
            i += 1;
        }
        let mut p: usize = 0;
        while p < allocator.ptrs.len()
            invariant
                p <= allocator.ptrs@.len(),
                native == allocator@,
                self.model(cells).native == Some(native),
                forall|j: int|
                    0 <= j < p ==> {
                        let record = #[trigger] native.ptrs[j];
                        (record.ptr < reclaim_base || disposed_ptrs@.contains(record.ptr))
                            && !crate::memory_model::crosses(reclaim_base, record.ptr, record.size)
                    },
            decreases allocator.ptrs@.len() - p,
        {
            let record = allocator.ptrs[p];
            if (record.ptr >= reclaim_base && !list_contains(disposed_ptrs, record.ptr))
                || Self::block_crosses(reclaim_base, record.ptr, record.size) {
                assert(native.ptrs[p as int] == record);
                return false;
            }
            p += 1;
        }
        let mut f: usize = 0;
        while f < allocator.free_ptr_blocks.len()
            invariant
                f <= allocator.free_ptr_blocks@.len(),
                native == allocator@,
                self.model(cells).native == Some(native),
                forall|j: int|
                    0 <= j < f ==> !crate::memory_model::crosses(
                        reclaim_base,
                        (#[trigger] native.free_ptrs[j]).ptr,
                        native.free_ptrs[j].size,
                    ),
            decreases allocator.free_ptr_blocks@.len() - f,
        {
            let record = allocator.free_ptr_blocks[f];
            if Self::block_crosses(reclaim_base, record.ptr, record.size) {
                assert(native.free_ptrs[f as int] == record);
                return false;
            }
            f += 1;
        }
        let mut r: usize = 0;
        while r < self.native_allocations.len()
            invariant
                r <= self.native_allocations@.len(),
                self.model(cells).native == Some(native),
                forall|j: int|
                    0 <= j < r ==> {
                        let record = #[trigger] self.model(cells).records[j];
                        record.handle < reclaim_base && record.ptr < reclaim_base && !crate::memory_model::crosses(
                            reclaim_base,
                            record.handle,
                            4,
                        ) && !crate::memory_model::crosses(reclaim_base, record.ptr, record.capacity)
                    },
            decreases self.native_allocations@.len() - r,
        {
            let record = self.native_allocations[r];
            if record.handle >= reclaim_base || record.ptr >= reclaim_base || Self::block_crosses(
                reclaim_base,
                record.handle,
                4,
            ) || Self::block_crosses(reclaim_base, record.ptr, record.capacity) {
                assert(self.model(cells).records[r as int] == record);
                return false;
            }
            r += 1;
        }
        match disposed_handle {
            Some(handle) => {
                let found = has_handle(&allocator.free_handle_blocks, handle);
                assert(native.free_handles == allocator.free_handle_blocks@);
                assert(found == exists|i: int|
                    0 <= i < native.free_handles.len() && (#[trigger] native.free_handles[i]).handle
                        == handle);
                found
            },
            None => true,
        }
    }

    /// Take a contiguous tail of the native heap back. Where anything but the
    /// disposed blocks still uses it, nothing changes.
    pub fn reclaim_native_heap_tail(
        &mut self,
        cells: &ManagerCells,
        reclaim_base: u32,
        disposed_ptrs: &[u32],
        disposed_handle: Option<u32>,
    ) -> (reclaimed: bool)
        requires
            old(self).valid(cells),
        ensures
            old(self).step(cells, final(self), cells),
            reclaimed == old(self).model(cells).tail_reclaimable(
                reclaim_base,
                disposed_ptrs@,
                disposed_handle,
            ),
            final(self).model(cells) == (if reclaimed {
                old(self).model(cells).reclaim_tail(reclaim_base, disposed_ptrs@)
            } else {
                old(self).model(cells)
            }),
    {
        if !self.can_reclaim_tail(cells, reclaim_base, disposed_ptrs, disposed_handle) {
            return false;
        }
        match &mut self.native_allocator {
            Some(allocator) => {
                allocator.ptrs = ptrs_without(&allocator.ptrs, disposed_ptrs);
                allocator.free_ptr_blocks = ptrs_below(&allocator.free_ptr_blocks, reclaim_base);
                allocator.free_handle_blocks = handles_below(
                    &allocator.free_handle_blocks,
                    reclaim_base,
                );
                allocator.heap.heap_cursor = reclaim_base;
                allocator.heap.last_mem_error = NO_ERR;
                self.native_allocator_dirty = true;
            },
            None => {},
        }
        true
    }
}

/// The state byte of a set of properties.
pub open spec fn state_bits(state: ProcessHandleStateRecord) -> u8 {
    let bits = if state.locked {
        0u8 | LOCKED_BIT
    } else {
        0u8
    };
    let bits = if !state.no_purge {
        bits | PURGEABLE_BIT
    } else {
        bits
    };
    if state.resource {
        bits | RESOURCE_BIT
    } else {
        bits
    }
}

/// A handle that was resized without error still has a record.
pub proof fn lemma_resized_record(
    manager: ManagerModel,
    space: crate::guest_memory::SpaceModel,
    handle: u32,
    size: u32,
)
    requires
        manager.set_native_handle_size(space, handle, size).2 == NO_ERR,
    ensures
        manager.set_native_handle_size(space, handle, size).0.record(handle) is Some,
        manager.set_native_handle_size(space, handle, size).0.record(handle)->0.handle == handle,
        manager.set_native_handle_size(space, handle, size).0.record(handle)->0.size == size,
{
    crate::native_heap::lemma_handle_index(manager.records, handle);
    let index = crate::native_heap::handle_index(manager.records, handle);
    let result = manager.set_native_handle_size(space, handle, size).0;
    assert(result.records == manager.records.update(index, result.records[index]));
    assert(result.records[index].handle == handle);
    lemma_updated_handle_index(manager.records, index, result.records[index]);
}

/// Replacing a record by one of the same handle moves no handle's position.
pub proof fn lemma_updated_handle_index(
    records: Seq<ProcessHandleRecord>,
    index: int,
    record: ProcessHandleRecord,
)
    requires
        0 <= index < records.len(),
        records[index].handle == record.handle,
    ensures
        forall|handle: u32| #[trigger]
            crate::native_heap::handle_index(records.update(index, record), handle) == crate::native_heap::handle_index(records, handle),
    decreases records.len(),
{
    let updated = records.update(index, record);
    if index == records.len() - 1 {
        assert(updated.drop_last() =~= records.drop_last());
    } else {
        lemma_updated_handle_index(records.drop_last(), index, record);
        assert(updated.drop_last() =~= records.drop_last().update(index, record));
    }
    assert forall|handle: u32| #[trigger] crate::native_heap::handle_index(updated, handle) == crate::native_heap::handle_index(
        records,
        handle,
    ) by {
        assert(crate::native_heap::handle_index(updated.drop_last(), handle) == crate::native_heap::handle_index(
            records.drop_last(),
            handle,
        ));
    }
}

proof fn lemma_refused_run(
    space: crate::guest_memory::SpaceModel,
    address: int,
    data: Seq<u8>,
)
    requires
        crate::guest_memory::space_bounds(space),
        address > u32::MAX,
    ensures
        crate::guest_memory::write_run(space, address, data) == (space, data.len() == 0),
{
    assert(!space.writable.contains(address));
    assert(space.store(address, data.take(0)).bytes =~= space.bytes);
    assert(space.store(address, data.take(0)) =~= space);
}

pub(crate) fn list_contains(list: &[u32], element: u32) -> (found: bool)
    ensures
        found == list@.contains(element),
{
    let mut i: usize = 0;
    while i < list.len()
        invariant
            i <= list@.len(),
            forall|j: int| 0 <= j < i ==> list@[j] != element,
        decreases list@.len() - i,
    {
        if list[i] == element {
            assert(list@[i as int] == element);
            return true;
        }
        i += 1;
    }
    false
}

fn has_handle(records: &Vec<ProcessHandleRecord>, handle: u32) -> (found: bool)
    ensures
        found == exists|i: int|
            0 <= i < records@.len() && (#[trigger] records@[i]).handle == handle,
{
    let mut i: usize = 0;
    while i < records.len()
        invariant
            i <= records@.len(),
            forall|j: int| 0 <= j < i ==> (#[trigger] records@[j]).handle != handle,
        decreases records@.len() - i,
    {
        if records[i].handle == handle {
            assert(records@[i as int].handle == handle);
            return true;
        }
        i += 1;
    }
    false
}

fn ptrs_without(records: &Vec<ProcessPtrRecord>, disposed: &[u32]) -> (kept: Vec<ProcessPtrRecord>)
    ensures
        kept@ == records@.filter(|record: ProcessPtrRecord| !disposed@.contains(record.ptr)),
{
    let mut kept: Vec<ProcessPtrRecord> = Vec::new();
    let mut i: usize = 0;
    let ghost keep = |record: ProcessPtrRecord| !disposed@.contains(record.ptr);
    proof {
        reveal(Seq::filter);
        assert(records@.take(0).filter(keep) =~= Seq::empty());
    }
    while i < records.len()
        invariant
            i <= records@.len(),
            keep == (|record: ProcessPtrRecord| !disposed@.contains(record.ptr)),
            kept@ == records@.take(i as int).filter(keep),
        decreases records@.len() - i,
    {
        proof {
            reveal(Seq::filter);
            assert(records@.take(i + 1).drop_last() =~= records@.take(i as int));
        }
        if !list_contains(disposed, records[i].ptr) {
            kept.push(records[i]);
        }
        i += 1;
    }
    assert(records@.take(i as int) =~= records@);
    kept
}

fn ptrs_below(records: &Vec<ProcessPtrRecord>, base: u32) -> (kept: Vec<ProcessPtrRecord>)
    ensures
        kept@ == records@.filter(|record: ProcessPtrRecord| record.ptr < base),
{
    let mut kept: Vec<ProcessPtrRecord> = Vec::new();
    let mut i: usize = 0;
    let ghost keep = |record: ProcessPtrRecord| record.ptr < base;
    proof {
        reveal(Seq::filter);
        assert(records@.take(0).filter(keep) =~= Seq::empty());
    }
    while i < records.len()
        invariant
            i <= records@.len(),
            keep == (|record: ProcessPtrRecord| record.ptr < base),
            kept@ == records@.take(i as int).filter(keep),
        decreases records@.len() - i,
    {
        proof {
            reveal(Seq::filter);
            assert(records@.take(i + 1).drop_last() =~= records@.take(i as int));
        }
        if records[i].ptr < base {
            kept.push(records[i]);
        }
        i += 1;
    }
    assert(records@.take(i as int) =~= records@);
    kept
}

fn handles_below(records: &Vec<ProcessHandleRecord>, base: u32) -> (kept: Vec<ProcessHandleRecord>)
    ensures
        kept@ == crate::memory_model::reclaimed_handles(records@, base),
{
    let mut kept: Vec<ProcessHandleRecord> = Vec::new();
    let mut i: usize = 0;
    assert(records@.take(0) =~= Seq::empty());
    while i < records.len()
        invariant
            i <= records@.len(),
            kept@ == crate::memory_model::reclaimed_handles(records@.take(i as int), base),
        decreases records@.len() - i,
    {
        assert(records@.take(i + 1).drop_last() =~= records@.take(i as int));
        let record = records[i];
        if record.handle < base {
            if record.ptr >= base {
                kept.push(
                    ProcessHandleRecord { handle: record.handle, ptr: 0, size: 0, capacity: 0 },
                );
            } else {
                kept.push(record);
            }
        }
        i += 1;
    }
    assert(records@.take(i as int) =~= records@);
    kept
}

} // verus!
