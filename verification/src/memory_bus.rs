//! Memory Manager operations that reach guest memory through a classic bus.

use crate::bus::MacMemoryBus;
use crate::cells::SharedCells;
use crate::classic_heap::{ClassicHeapAllocatorState, CLASSIC_HEAP_BASE};
use crate::guest_memory::{to_word_bytes, GuestAddressSpace};
use crate::memory_manager::{ManagerCells, ProcessNativeMemoryManager};
use crate::memory_model::{
    ProcessHandleHeap, ProcessNewHandleRequest, ProcessNewHandleResult, LOCKED_BIT, MEM_FULL_ERR,
    MEM_PUR_ERR, MEM_WZ_ERR, NIL_HANDLE_ERR, NO_ERR, PARAM_ERR,
};
use crate::memory_native::zero_bytes;
use crate::native_heap::{
    find_handle, native_allocation_size, ProcessHandleRecord, ProcessPtrRecord,
};
use vstd::prelude::*;

verus! {

fn repeat_byte(value: u8, count: u32) -> (bytes: Vec<u8>)
    ensures
        bytes@ == crate::bus::repeated(value, count as nat),
{
    let bytes = vec![value; count as usize];
    assert(bytes@ =~= crate::bus::repeated(value, count as nat));
    bytes
}

impl ProcessNativeMemoryManager {
    /// The manager and the bus use one classic heap.
    pub open spec fn attached(&self, bus: &MacMemoryBus) -> bool {
        self.classic_allocator matches Some(heap) && heap.id() == bus.allocator.id()
    }

    /// Upper bound of classic allocations.
    pub(crate) fn classic_heap_ceiling(&self, cells: &ManagerCells) -> (ceiling: u32)
        requires
            self.valid(cells),
            self.classic_allocator is Some,
        ensures
            Some(ceiling) == self.model(cells).classic_limit,
    {
        match self.classic_heap_limit {
            Some(limit) => limit,
            None => 0,
        }
    }

    pub(crate) fn heap_allocate(&self, cells: &mut ManagerCells, size: u32, limit: u32) -> (address:
        u32)
        requires
            self.valid(old(cells)),
            self.classic_allocator is Some,
        ensures
            self.step(old(cells), self, final(cells)),
            ({
                let (heap, placed) = self.model(old(cells)).classic->0.allocate(size, 4, limit);
                address == placed && self.model(final(cells)) == self.model(old(cells)).with_heap(
                    heap,
                )
            }),
    {
        match &self.classic_allocator {
            Some(heap) => heap.allocate(cells, size, 4, limit),
            None => 0,
        }
    }

    pub(crate) fn heap_release(&self, cells: &mut ManagerCells, address: u32)
        requires
            self.valid(old(cells)),
            self.classic_allocator is Some,
        ensures
            self.step(old(cells), self, final(cells)),
            self.model(final(cells)) == self.model(old(cells)).with_heap(
                self.model(old(cells)).classic->0.release(address),
            ),
    {
        match &self.classic_allocator {
            Some(heap) => heap.free(cells, address),
            None => {},
        }
    }

    pub(crate) fn heap_resize(&self, cells: &mut ManagerCells, address: u32, size: u32)
        requires
            self.valid(old(cells)),
            self.classic_allocator is Some,
            size <= u32::MAX - 3,
        ensures
            self.step(old(cells), self, final(cells)),
            self.model(final(cells)) == self.model(old(cells)).with_heap(
                self.model(old(cells)).classic->0.resize(address, size),
            ),
    {
        match &self.classic_allocator {
            Some(heap) => heap.set_allocation_size(cells, address, size),
            None => {},
        }
    }

    /// Logical size of a live classic block.
    pub fn classic_allocation_size(&self, cells: &ManagerCells, address: u32) -> (size: Option<u32>)
        requires
            self.valid(cells),
            self.classic_allocator is Some,
        ensures
            size == self.model(cells).classic->0.size_of(address),
            size matches Some(size) ==> size <= u32::MAX - 3,
    {
        match &self.classic_allocator {
            Some(heap) => heap.allocation_size(cells, address),
            None => None,
        }
    }

    pub(crate) fn classic_capacity(&self, cells: &ManagerCells, address: u32) -> (capacity: Option<
        u32,
    >)
        requires
            self.valid(cells),
            self.classic_allocator is Some,
        ensures
            capacity == self.model(cells).classic->0.capacity_of(address),
    {
        match &self.classic_allocator {
            Some(heap) => heap.allocation_capacity(cells, address),
            None => None,
        }
    }

    /// Cursor of the classic heap.
    pub fn classic_heap_bump_ptr(&self, cells: &ManagerCells) -> (cursor: u32)
        requires
            self.valid(cells),
            self.classic_allocator is Some,
        ensures
            cursor == self.model(cells).classic->0.heap_ptr,
    {
        match &self.classic_allocator {
            Some(heap) => heap.heap_bump_ptr(cells),
            None => 0,
        }
    }

    /// Keep the first bytes of the classic heap clear.
    pub fn reserve_classic_heap(&mut self, cells: &mut ManagerCells, size: u32)
        requires
            old(self).valid(old(cells)),
            old(self).classic_allocator is Some,
            CLASSIC_HEAP_BASE + crate::classic_heap::round_up(size as int, 4) + 3 <= u32::MAX,
        ensures
            old(self).step(old(cells), final(self), final(cells)),
            final(self).model(final(cells)) == old(self).model(old(cells)).with_heap(
                old(self).model(old(cells)).classic->0.reserve_until(
                    (CLASSIC_HEAP_BASE + crate::classic_heap::round_up(size as int, 4)) as u32,
                ),
            ),
    {
        proof {
            crate::classic_heap::lemma_round_up(size as int, 4);
        }
        let end: u32 = CLASSIC_HEAP_BASE + (size + 3) / 4 * 4;
        match &self.classic_allocator {
            Some(heap) => heap.reserve_until(cells, end),
            None => {},
        }
    }

    /// Keep a span out of later classic allocations.
    pub fn reserve_classic_heap_range(
        &mut self,
        cells: &mut ManagerCells,
        start_addr: u32,
        end_addr: u32,
    )
        requires
            old(self).valid(old(cells)),
            old(self).classic_allocator is Some,
        ensures
            old(self).step(old(cells), final(self), final(cells)),
            final(self).model(final(cells)) == old(self).model(old(cells)).with_heap(
                old(self).model(old(cells)).classic->0.reserve_range(start_addr, end_addr),
            ),
    {
        match &self.classic_allocator {
            Some(heap) => heap.reserve_range(cells, start_addr, end_addr),
            None => {},
        }
    }

    /// Allocate a fixed classic block; zero where none can be had.
    pub fn new_classic_ptr(&mut self, cells: &mut ManagerCells, bus: &MacMemoryBus, size: u32) -> (
    address: u32)
        requires
            old(self).valid(old(cells)),
            old(self).attached(bus),
        ensures
            old(self).step(old(cells), final(self), final(cells)),
            (final(self).model(final(cells)), address) == old(self).model(
                old(cells),
            ).new_classic_ptr(size, old(self).model(old(cells)).classic_limit->0),
    {
        let ceiling: u32 = self.classic_heap_ceiling(cells);
        self.new_classic_ptr_below(cells, bus, size, ceiling)
    }

    /// Allocate a fixed classic block below an upper bound.
    pub fn new_classic_ptr_below(
        &mut self,
        cells: &mut ManagerCells,
        bus: &MacMemoryBus,
        size: u32,
        upper_bound: u32,
    ) -> (address: u32)
        requires
            old(self).valid(old(cells)),
            old(self).attached(bus),
        ensures
            old(self).step(old(cells), final(self), final(cells)),
            (final(self).model(final(cells)), address) == old(self).model(
                old(cells),
            ).new_classic_ptr(size, upper_bound),
    {
        let process_ceiling: u32 = self.classic_heap_ceiling(cells);
        let heap_floor: u32 = self.classic_heap_bump_ptr(cells);
        let ceiling: u32 = if upper_bound > heap_floor && upper_bound < process_ceiling {
            upper_bound
        } else {
            process_ceiling
        };
        self.heap_allocate(cells, size, ceiling)
    }

    /// Release a fixed block, native or classic.
    pub fn dispose_process_ptr(&mut self, cells: &mut ManagerCells, bus: &MacMemoryBus, ptr: u32) -> (
    disposed: Option<ProcessPtrRecord>)
        requires
            old(self).valid(old(cells)),
            old(self).attached(bus),
        ensures
            old(self).step(old(cells), final(self), final(cells)),
            (final(self).model(final(cells)), disposed) == old(self).model(old(cells)).dispose_ptr(
                ptr,
            ),
    {
        if self.native_ptr(cells, ptr).is_some() {
            self.dispose_native_ptr(cells, ptr)
        } else {
            self.heap_release(cells, ptr);
            None
        }
    }

    fn allocate_classic_handle(
        &mut self,
        cells: &mut ManagerCells,
        spaces: &mut SharedCells<GuestAddressSpace>,
        bus: &mut MacMemoryBus,
        size: u32,
        clear: bool,
    ) -> (result: Result<ProcessHandleRecord, i16>)
        requires
            old(self).valid(old(cells)),
            old(self).attached(old(bus)),
            old(bus).reaches(old(spaces)),
        ensures
            old(self).step(old(cells), final(self), final(cells)),
            old(bus).step(old(spaces), final(bus), final(spaces)),
            (final(self).model(final(cells)), final(bus).model(final(spaces)), result) == old(
                self,
            ).model(old(cells)).allocate_classic(old(bus).model(old(spaces)), size, clear),
    {
        let ceiling: u32 = self.classic_heap_ceiling(cells);
        let ptr: u32 = self.heap_allocate(cells, size, ceiling);
        if ptr == 0 && size > 0 {
            return Err(MEM_FULL_ERR);
        }
        assert(size <= u32::MAX - 3);
        let handle: u32 = self.heap_allocate(cells, 4, ceiling);
        if handle == 0 {
            self.heap_release(cells, ptr);
            return Err(MEM_FULL_ERR);
        }
        let capacity: u32 = match self.classic_capacity(cells, ptr) {
            Some(capacity) => capacity,
            None => ClassicHeapAllocatorState::allocation_bucket_size(size),
        };
        bus.write_long(spaces, handle, ptr);
        if clear && size > 0 {
            bus.fill_zeros(spaces, ptr, size);
        }
        let record = ProcessHandleRecord { handle, ptr, size, capacity };
        self.commit_new_handle_record(cells, record, false);
        Ok(record)
    }

    /// Serve a handle request from the classic heap.
    pub fn new_handle_classic(
        &mut self,
        cells: &mut ManagerCells,
        spaces: &mut SharedCells<GuestAddressSpace>,
        request: ProcessNewHandleRequest,
        bus: &mut MacMemoryBus,
    ) -> (result: ProcessNewHandleResult)
        requires
            old(self).valid(old(cells)),
            old(self).attached(old(bus)),
            old(bus).reaches(old(spaces)),
        ensures
            old(self).step(old(cells), final(self), final(cells)),
            old(bus).step(old(spaces), final(bus), final(spaces)),
            (final(self).model(final(cells)), final(bus).model(final(spaces)), result) == old(
                self,
            ).model(old(cells)).new_handle_classic(old(bus).model(old(spaces)), request),
    {
        if request.logical_size < 0 {
            self.set_native_mem_error(cells, MEM_FULL_ERR);
            return ProcessNewHandleResult::failure(MEM_FULL_ERR);
        }
        let size: u32 = request.logical_size as u32;
        let result = match self.allocate_classic_handle(cells, spaces, bus, size, request.clear) {
            Ok(record) => ProcessNewHandleResult::success(record.handle, record.ptr),
            Err(error) => ProcessNewHandleResult::failure(error),
        };
        self.set_native_mem_error(cells, result.error);
        result
    }

    /// Allocate a classic relocatable block: the handle and the block.
    pub fn new_classic_handle(
        &mut self,
        cells: &mut ManagerCells,
        spaces: &mut SharedCells<GuestAddressSpace>,
        bus: &mut MacMemoryBus,
        size: u32,
    ) -> (result: Result<(u32, u32), i16>)
        requires
            old(self).valid(old(cells)),
            old(self).attached(old(bus)),
            old(bus).reaches(old(spaces)),
        ensures
            old(self).step(old(cells), final(self), final(cells)),
            old(bus).step(old(spaces), final(bus), final(spaces)),
            (final(self).model(final(cells)), final(bus).model(final(spaces)), result) == old(
                self,
            ).model(old(cells)).new_classic_handle(old(bus).model(old(spaces)), size),
    {
        match ProcessNewHandleRequest::from_unsigned(size, false, ProcessHandleHeap::Current) {
            Some(request) => {
                let result = self.new_handle_classic(cells, spaces, request, bus);
                if result.error == NO_ERR {
                    Ok((result.handle, result.data_ptr))
                } else {
                    Err(result.error)
                }
            },
            None => {
                self.set_native_mem_error(cells, MEM_FULL_ERR);
                Err(MEM_FULL_ERR)
            },
        }
    }

    /// Allocate a classic relocatable block that holds a copy of bytes.
    pub fn copy_bytes_to_new_classic_handle(
        &mut self,
        cells: &mut ManagerCells,
        spaces: &mut SharedCells<GuestAddressSpace>,
        bus: &mut MacMemoryBus,
        bytes: &[u8],
    ) -> (result: Result<(u32, u32), i16>)
        requires
            old(self).valid(old(cells)),
            old(self).attached(old(bus)),
            old(bus).reaches(old(spaces)),
        ensures
            old(self).step(old(cells), final(self), final(cells)),
            old(bus).step(old(spaces), final(bus), final(spaces)),
            (final(self).model(final(cells)), final(bus).model(final(spaces)), result) == old(
                self,
            ).model(old(cells)).copy_to_classic(old(bus).model(old(spaces)), bytes@),
    {
        if bytes.len() as u64 > 0xffff_ffff {
            return Err(MEM_FULL_ERR);
        }
        let size: u32 = bytes.len() as u32;
        let result = self.new_classic_handle(cells, spaces, bus, size);
        match result {
            Ok((_, ptr)) => {
                bus.write_bytes(spaces, ptr, bytes);
            },
            Err(_) => {},
        }
        result
    }

    /// The bytes of a relocatable block, native or classic.
    pub fn process_handle_bytes(
        &self,
        cells: &ManagerCells,
        spaces: &SharedCells<GuestAddressSpace>,
        bus: &MacMemoryBus,
        handle: u32,
    ) -> (result: Result<Vec<u8>, i16>)
        requires
            self.valid(cells),
            self.attached(bus),
            bus.reaches(spaces),
        ensures
            match (result, self.model(cells).handle_bytes(bus.model(spaces), handle)) {
                (Ok(bytes), Ok(expected)) => bytes@ == expected,
                (Err(error), Err(expected)) => error == expected,
                _ => false,
            },
    {
        if handle == 0 {
            return Err(NIL_HANDLE_ERR);
        }
        let ptr: u32 = bus.read_long(spaces, handle);
        if ptr == 0 {
            return Err(NIL_HANDLE_ERR);
        }
        if let Some(record) = self.native_allocation(cells, handle) {
            if record.ptr != ptr {
                return Err(NIL_HANDLE_ERR);
            }
            return Ok(bus.read_bytes(spaces, ptr, record.size));
        }
        if !self.is_classic_master(cells, handle) {
            return Err(MEM_WZ_ERR);
        }
        match self.classic_allocation_size(cells, ptr) {
            Some(size) => Ok(bus.read_bytes(spaces, ptr, size)),
            None => Err(MEM_WZ_ERR),
        }
    }

    pub(crate) fn is_classic_master(&self, cells: &ManagerCells, handle: u32) -> (result: bool)
        requires
            self.valid(cells),
            self.classic_allocator is Some,
        ensures
            result == (self.model(cells).classic->0.size_of(handle) == Some(4u32)),
    {
        match self.classic_allocation_size(cells, handle) {
            Some(size) => size == 4,
            None => false,
        }
    }

    /// Copy a relocatable block into a new handle of its own kind.
    pub fn copy_process_handle(
        &mut self,
        cells: &mut ManagerCells,
        spaces: &mut SharedCells<GuestAddressSpace>,
        bus: &mut MacMemoryBus,
        handle: u32,
    ) -> (result: Result<(u32, u32), i16>)
        requires
            old(self).valid(old(cells)),
            old(self).attached(old(bus)),
            old(bus).reaches(old(spaces)),
            old(self).model(old(cells)).record(handle) is Some ==> (old(bus).model(
                old(spaces),
            ).foreign matches Some(space) ==> (old(self).model(old(cells)).handle_bytes(
                old(bus).model(old(spaces)),
                handle,
            ) matches Ok(bytes) ==> old(self).model(old(cells)).copy_to_native_fits(space, bytes))),
        ensures
            old(self).step(old(cells), final(self), final(cells)),
            old(bus).step(old(spaces), final(bus), final(spaces)),
            (final(self).model(final(cells)), final(bus).model(final(spaces)), result) == old(
                self,
            ).model(old(cells)).copy_handle(old(bus).model(old(spaces)), handle),
    {
        let bytes = match self.process_handle_bytes(cells, spaces, bus, handle) {
            Ok(bytes) => bytes,
            Err(error) => {
                return Err(error);
            },
        };
        if self.native_allocation(cells, handle).is_some() {
            let copy: u32 = match &bus.foreign {
                Some(space) => {
                    self.copy_bytes_to_new_native_handle(
                        cells,
                        spaces.get_mut(space),
                        bytes.as_slice(),
                    )
                },
                None => {
                    return Err(PARAM_ERR);
                },
            };
            if copy == 0 {
                return Err(
                    match self.native_heap_state() {
                        Some(heap) => heap.last_mem_error,
                        None => MEM_FULL_ERR,
                    },
                );
            }
            let ptr: u32 = bus.read_long(spaces, copy);
            return Ok((copy, ptr));
        }
        self.copy_bytes_to_new_classic_handle(cells, spaces, bus, bytes.as_slice())
    }

    fn find_relocation(
        &self,
        cells: &ManagerCells,
        exclusions: &Vec<(u32, u32)>,
        record: ProcessHandleRecord,
        size: u32,
        aligned: u32,
        force: bool,
    ) -> (placed: Option<(u32, Option<usize>, u32, u32)>)
        requires
            self.native_allocator is Some,
        ensures
            match (
                placed,
                self.model(cells).relocation(
                    self.model(cells).native->0,
                    exclusions@,
                    record,
                    size,
                    aligned,
                    force,
                ),
            ) {
                (
                    Some((ptr, reused, cursor, capacity)),
                    Some((spec_ptr, spec_reused, spec_cursor, spec_capacity)),
                ) => {
                    &&& ptr == spec_ptr
                    &&& cursor == spec_cursor
                    &&& capacity == spec_capacity
                    &&& match reused {
                        Some(index) => index == spec_reused && index < self.model(
                            cells,
                        ).native->0.free_ptrs.len(),
                        None => spec_reused == -1,
                    }
                },
                (None, None) => true,
                _ => false,
            },
    {
        let heap = match self.native_heap_state() {
            Some(heap) => heap,
            None => {
                return None;
            },
        };
        let limit: u32 = self.native_allocation_limit(cells, heap.heap_limit);
        if force {
            match self.find_block_around(cells, exclusions, limit, aligned, Some(record.ptr)) {
                Some((ptr, reused, cursor)) => Some((ptr, reused, cursor, size)),
                None => None,
            }
        } else if size > record.capacity {
            match native_allocation_size(record.capacity) {
                Some(old_aligned) => match self.find_grown_block(
                    cells,
                    exclusions,
                    record.ptr,
                    old_aligned,
                    aligned,
                ) {
                    Some((ptr, cursor)) => Some((ptr, None, cursor, size)),
                    None => None,
                },
                None => None,
            }
        } else {
            Some((record.ptr, None, heap.heap_cursor, record.capacity))
        }
    }

    /// Replace the bytes of a native block that is where the caller expects
    /// it: the old and the new block.
    pub fn replace_native_handle_bytes(
        &mut self,
        cells: &mut ManagerCells,
        spaces: &mut SharedCells<GuestAddressSpace>,
        bus: &mut MacMemoryBus,
        handle: u32,
        expected_ptr: u32,
        bytes: &[u8],
    ) -> (result: Result<(u32, u32), i16>)
        requires
            old(self).valid(old(cells)),
            old(bus).reaches(old(spaces)),
        ensures
            old(self).step(old(cells), final(self), final(cells)),
            old(bus).step(old(spaces), final(bus), final(spaces)),
            (final(self).model(final(cells)), final(bus).model(final(spaces)), result) == old(
                self,
            ).model(old(cells)).relocate(
                old(bus).model(old(spaces)),
                handle,
                expected_ptr,
                bytes@,
                false,
            ),
    {
        self.replace_native_handle_bytes_with_relocation(
            cells,
            spaces,
            bus,
            handle,
            expected_ptr,
            bytes,
            false,
        )
    }

    fn replace_native_handle_bytes_with_relocation(
        &mut self,
        cells: &mut ManagerCells,
        spaces: &mut SharedCells<GuestAddressSpace>,
        bus: &mut MacMemoryBus,
        handle: u32,
        expected_ptr: u32,
        bytes: &[u8],
        force_relocation: bool,
    ) -> (result: Result<(u32, u32), i16>)
        requires
            old(self).valid(old(cells)),
            old(bus).reaches(old(spaces)),
        ensures
            old(self).step(old(cells), final(self), final(cells)),
            old(bus).step(old(spaces), final(bus), final(spaces)),
            (final(self).model(final(cells)), final(bus).model(final(spaces)), result) == old(
                self,
            ).model(old(cells)).relocate(
                old(bus).model(old(spaces)),
                handle,
                expected_ptr,
                bytes@,
                force_relocation,
            ),
    {
        let record = match self.native_allocation(cells, handle) {
            Some(record) => record,
            None => {
                self.set_native_mem_error(cells, NIL_HANDLE_ERR);
                return Err(NIL_HANDLE_ERR);
            },
        };
        let current_ptr: u32 = bus.read_long(spaces, handle);
        if current_ptr != expected_ptr || record.ptr != current_ptr || (current_ptr == 0
            && !force_relocation) {
            self.set_native_mem_error(cells, NIL_HANDLE_ERR);
            return Err(NIL_HANDLE_ERR);
        }
        if bytes.len() as u64 > 0xffff_ffff {
            self.set_native_mem_error(cells, MEM_FULL_ERR);
            return Err(MEM_FULL_ERR);
        }
        let size: u32 = bytes.len() as u32;
        let aligned: u32 = match native_allocation_size(size) {
            Some(aligned) => aligned,
            None => {
                self.set_native_mem_error(cells, MEM_FULL_ERR);
                return Err(MEM_FULL_ERR);
            },
        };
        if self.native_allocator.is_none() {
            return Err(NIL_HANDLE_ERR);
        }
        let exclusions = bus.foreign_exclusions(spaces);
        let (ptr, reused, cursor, capacity) = match self.find_relocation(
            cells,
            &exclusions,
            record,
            size,
            aligned,
            force_relocation,
        ) {
            Some(placed) => placed,
            None => {
                self.set_native_mem_error(cells, MEM_FULL_ERR);
                return Err(MEM_FULL_ERR);
            },
        };
        let master = to_word_bytes(ptr);
        if bus.write_foreign_bytes(spaces, ptr, bytes).is_none() || (ptr != current_ptr
            && bus.write_foreign_bytes(spaces, handle, master.as_slice()).is_none()) {
            self.set_native_mem_error(cells, NIL_HANDLE_ERR);
            return Err(NIL_HANDLE_ERR);
        }
        self.move_block(cells, current_ptr, ProcessHandleRecord { handle, ptr, size, capacity });
        self.take_block(cells, reused, cursor);
        match &mut self.native_allocator {
            Some(allocator) => {
                if ptr != current_ptr && current_ptr != 0 {
                    allocator.free_ptr_blocks.push(
                        ProcessPtrRecord { ptr: current_ptr, size: record.capacity },
                    );
                }
            },
            None => {},
        }
        self.set_native_mem_error(cells, NO_ERR);
        Ok((current_ptr, ptr))
    }

    fn resize_classic_in_place(
        &mut self,
        cells: &mut ManagerCells,
        spaces: &mut SharedCells<GuestAddressSpace>,
        bus: &mut MacMemoryBus,
        ptr: u32,
        old_size: u32,
        new_size: u32,
    )
        requires
            old(self).valid(old(cells)),
            old(self).classic_allocator is Some,
            old(bus).reaches(old(spaces)),
            new_size <= u32::MAX - 3,
            old_size == (match old(self).model(old(cells)).classic->0.size_of(ptr) {
                Some(size) => size,
                None => 0,
            }),
        ensures
            old(self).step(old(cells), final(self), final(cells)),
            old(bus).step(old(spaces), final(bus), final(spaces)),
            (final(self).model(final(cells)), final(bus).model(final(spaces))) == old(self).model(
                old(cells),
            ).resize_in_place(old(bus).model(old(spaces)), ptr, new_size),
    {
        if new_size < old_size {
            bus.fill_zeros(spaces, ptr.wrapping_add(new_size), old_size - new_size);
        }
        self.heap_resize(cells, ptr, new_size);
    }

    fn move_classic_block(
        &mut self,
        cells: &mut ManagerCells,
        spaces: &mut SharedCells<GuestAddressSpace>,
        bus: &mut MacMemoryBus,
        handle: u32,
        old_ptr: u32,
        old_size: u32,
        new_size: u32,
    ) -> (moved: Option<u32>)
        requires
            old(self).valid(old(cells)),
            old(self).classic_allocator is Some,
            old(bus).reaches(old(spaces)),
            old_size == (match old(self).model(old(cells)).classic->0.size_of(old_ptr) {
                Some(size) => size,
                None => 0,
            }),
        ensures
            old(self).step(old(cells), final(self), final(cells)),
            old(bus).step(old(spaces), final(bus), final(spaces)),
            (final(self).model(final(cells)), final(bus).model(final(spaces)), moved) == old(
                self,
            ).model(old(cells)).move_classic(
                old(bus).model(old(spaces)),
                handle,
                old_ptr,
                new_size,
            ),
    {
        let ceiling: u32 = self.classic_heap_ceiling(cells);
        let new_ptr: u32 = self.heap_allocate(cells, new_size, ceiling);
        if new_ptr == 0 && new_size > 0 {
            return None;
        }
        let kept: u32 = if old_size < new_size {
            old_size
        } else {
            new_size
        };
        let bytes = bus.read_bytes(spaces, old_ptr, kept);
        bus.write_bytes(spaces, new_ptr, bytes.as_slice());
        self.heap_release(cells, old_ptr);
        bus.write_long(spaces, handle, new_ptr);
        Some(new_ptr)
    }

    /// Change the logical size of a relocatable block, native or classic.
    pub fn set_process_handle_size(
        &mut self,
        cells: &mut ManagerCells,
        spaces: &mut SharedCells<GuestAddressSpace>,
        bus: &mut MacMemoryBus,
        handle: u32,
        new_size: u32,
    ) -> (error: i16)
        requires
            old(self).valid(old(cells)),
            old(self).attached(old(bus)),
            old(bus).reaches(old(spaces)),
        ensures
            old(self).step(old(cells), final(self), final(cells)),
            old(bus).step(old(spaces), final(bus), final(spaces)),
            (final(self).model(final(cells)), final(bus).model(final(spaces)), error) == old(
                self,
            ).model(old(cells)).set_handle_size(old(bus).model(old(spaces)), handle, new_size),
    {
        if handle == 0 {
            return NIL_HANDLE_ERR;
        }
        if let Some(record) = self.native_allocation(cells, handle) {
            let kept: u32 = if record.size < new_size {
                record.size
            } else {
                new_size
            };
            let mut bytes = bus.read_bytes(spaces, record.ptr, kept);
            let mut blank = zero_bytes((new_size - kept) as usize);
            bytes.append(&mut blank);
            return match self.replace_native_handle_bytes(
                cells,
                spaces,
                bus,
                handle,
                record.ptr,
                bytes.as_slice(),
            ) {
                Ok(_) => NO_ERR,
                Err(error) => error,
            };
        }
        let old_ptr: u32 = bus.read_long(spaces, handle);
        let old_size: u32 = match self.classic_allocation_size(cells, old_ptr) {
            Some(size) => size,
            None => 0,
        };
        if old_size == new_size || (old_ptr != 0 && new_size <= u32::MAX - 3
            && ClassicHeapAllocatorState::allocation_bucket_size(new_size)
            == ClassicHeapAllocatorState::allocation_bucket_size(old_size)) {
            self.resize_classic_in_place(cells, spaces, bus, old_ptr, old_size, new_size);
            return NO_ERR;
        }
        match self.move_classic_block(cells, spaces, bus, handle, old_ptr, old_size, new_size) {
            Some(new_ptr) => {
                self.ptr_to_handle.remove(&mut cells.handles, old_ptr);
                self.ptr_to_handle.insert(&mut cells.handles, new_ptr, handle);
                NO_ERR
            },
            None => MEM_FULL_ERR,
        }
    }

    /// Replace the bytes of a relocatable block, native or classic.
    pub fn replace_process_handle_bytes(
        &mut self,
        cells: &mut ManagerCells,
        spaces: &mut SharedCells<GuestAddressSpace>,
        bus: &mut MacMemoryBus,
        handle: u32,
        bytes: &[u8],
    ) -> (error: i16)
        requires
            old(self).valid(old(cells)),
            old(self).attached(old(bus)),
            old(bus).reaches(old(spaces)),
        ensures
            old(self).step(old(cells), final(self), final(cells)),
            old(bus).step(old(spaces), final(bus), final(spaces)),
            (final(self).model(final(cells)), final(bus).model(final(spaces)), error) == old(
                self,
            ).model(old(cells)).replace_handle_bytes(old(bus).model(old(spaces)), handle, bytes@),
    {
        if handle == 0 {
            return NIL_HANDLE_ERR;
        }
        if let Some(record) = self.native_allocation(cells, handle) {
            return match self.replace_native_handle_bytes(
                cells,
                spaces,
                bus,
                handle,
                record.ptr,
                bytes,
            ) {
                Ok(_) => NO_ERR,
                Err(error) => error,
            };
        }
        if !self.is_classic_master(cells, handle) {
            return MEM_WZ_ERR;
        }
        if bytes.len() as u64 > 0xffff_ffff {
            return MEM_FULL_ERR;
        }
        let size: u32 = bytes.len() as u32;
        let error: i16 = self.set_process_handle_size(cells, spaces, bus, handle, size);
        if error != NO_ERR {
            return error;
        }
        let ptr: u32 = bus.read_long(spaces, handle);
        bus.write_bytes(spaces, ptr, bytes);
        NO_ERR
    }

    /// Append bytes to a relocatable block, native or classic.
    pub fn append_bytes_to_process_handle(
        &mut self,
        cells: &mut ManagerCells,
        spaces: &mut SharedCells<GuestAddressSpace>,
        bus: &mut MacMemoryBus,
        handle: u32,
        bytes: &[u8],
    ) -> (error: i16)
        requires
            old(self).valid(old(cells)),
            old(self).attached(old(bus)),
            old(bus).reaches(old(spaces)),
        ensures
            old(self).step(old(cells), final(self), final(cells)),
            old(bus).step(old(spaces), final(bus), final(spaces)),
            (final(self).model(final(cells)), final(bus).model(final(spaces)), error) == old(
                self,
            ).model(old(cells)).append_to_handle(old(bus).model(old(spaces)), handle, bytes@),
    {
        let mut combined = match self.process_handle_bytes(cells, spaces, bus, handle) {
            Ok(present) => present,
            Err(error) => {
                return error;
            },
        };
        if bytes.len() > usize::MAX - combined.len() {
            return MEM_FULL_ERR;
        }
        let ghost present = combined@;
        combined.extend_from_slice(bytes);
        assert(combined@ =~= present + bytes@);
        self.replace_process_handle_bytes(cells, spaces, bus, handle, combined.as_slice())
    }

    /// Append one relocatable block to another; the source stays.
    pub fn append_process_handle(
        &mut self,
        cells: &mut ManagerCells,
        spaces: &mut SharedCells<GuestAddressSpace>,
        bus: &mut MacMemoryBus,
        source: u32,
        destination: u32,
    ) -> (error: i16)
        requires
            old(self).valid(old(cells)),
            old(self).attached(old(bus)),
            old(bus).reaches(old(spaces)),
        ensures
            old(self).step(old(cells), final(self), final(cells)),
            old(bus).step(old(spaces), final(bus), final(spaces)),
            (final(self).model(final(cells)), final(bus).model(final(spaces)), error) == ({
                let manager = old(self).model(old(cells));
                let before = old(bus).model(old(spaces));
                match manager.handle_bytes(before, source) {
                    Ok(bytes) => manager.append_to_handle(before, destination, bytes),
                    Err(error) => (manager, before, error),
                }
            }),
    {
        let bytes = match self.process_handle_bytes(cells, spaces, bus, source) {
            Ok(bytes) => bytes,
            Err(error) => {
                return error;
            },
        };
        self.append_bytes_to_process_handle(cells, spaces, bus, destination, bytes.as_slice())
    }

    /// Allocate a classic master pointer whose block is empty.
    pub fn new_empty_classic_handle(
        &mut self,
        cells: &mut ManagerCells,
        spaces: &mut SharedCells<GuestAddressSpace>,
        bus: &mut MacMemoryBus,
    ) -> (result: Result<u32, i16>)
        requires
            old(self).valid(old(cells)),
            old(self).attached(old(bus)),
            old(bus).reaches(old(spaces)),
        ensures
            old(self).step(old(cells), final(self), final(cells)),
            old(bus).step(old(spaces), final(bus), final(spaces)),
            (final(self).model(final(cells)), final(bus).model(final(spaces)), result) == old(
                self,
            ).model(old(cells)).new_empty_classic(old(bus).model(old(spaces))),
    {
        let ceiling: u32 = self.classic_heap_ceiling(cells);
        let handle: u32 = self.heap_allocate(cells, 4, ceiling);
        if handle == 0 {
            return Err(MEM_FULL_ERR);
        }
        bus.write_long(spaces, handle, 0);
        Ok(handle)
    }

    /// Dispose of a classic handle, with its block or without.
    pub fn dispose_classic_handle(
        &mut self,
        cells: &mut ManagerCells,
        spaces: &SharedCells<GuestAddressSpace>,
        bus: &MacMemoryBus,
        handle: u32,
        dispose_data: bool,
    )
        requires
            old(self).valid(old(cells)),
            old(self).attached(bus),
            bus.reaches(spaces),
        ensures
            old(self).step(old(cells), final(self), final(cells)),
            final(self).model(final(cells)) == old(self).model(old(cells)).dispose_classic(
                bus.model(spaces),
                handle,
                dispose_data,
            ),
    {
        if handle == 0 {
            return;
        }
        let ptr: u32 = bus.read_long(spaces, handle);
        if dispose_data {
            self.heap_release(cells, ptr);
        }
        self.heap_release(cells, handle);
        self.handle_state_bits.remove(&mut cells.states, handle);
        self.handle_high_locked.remove(&mut cells.flags, handle);
    }

    /// Dispose of a handle, native or classic.
    pub fn dispose_process_handle(
        &mut self,
        cells: &mut ManagerCells,
        spaces: &mut SharedCells<GuestAddressSpace>,
        bus: &mut MacMemoryBus,
        handle: u32,
        dispose_classic_data: bool,
    ) -> (result: Result<Option<ProcessHandleRecord>, i16>)
        requires
            old(self).valid(old(cells)),
            old(self).attached(old(bus)),
            old(bus).reaches(old(spaces)),
        ensures
            old(self).step(old(cells), final(self), final(cells)),
            old(bus).step(old(spaces), final(bus), final(spaces)),
            (final(self).model(final(cells)), final(bus).model(final(spaces)), result) == old(
                self,
            ).model(old(cells)).dispose_handle(
                old(bus).model(old(spaces)),
                handle,
                dispose_classic_data,
            ),
    {
        let index: usize = match find_handle(&self.native_allocations, handle) {
            Some(index) => index,
            None => {
                self.dispose_classic_handle(cells, spaces, bus, handle, dispose_classic_data);
                return Ok(None);
            },
        };
        let record = self.native_allocations[index];
        let blank = to_word_bytes(0);
        if bus.read_long(spaces, handle) != record.ptr || bus.write_foreign_bytes(
            spaces,
            handle,
            blank.as_slice(),
        ).is_none() {
            self.set_native_mem_error(cells, NIL_HANDLE_ERR);
            return Err(NIL_HANDLE_ERR);
        }
        self.commit_dispose_native_handle(cells, index, record);
        Ok(Some(record))
    }

    /// Logical size of a fixed block, native or classic.
    pub fn process_ptr_size(&self, cells: &ManagerCells, bus: &MacMemoryBus, ptr: u32) -> (size:
        Option<u32>)
        requires
            self.valid(cells),
            self.attached(bus),
        ensures
            size == self.model(cells).ptr_size(ptr),
    {
        match self.native_ptr(cells, ptr) {
            Some(record) => Some(record.size),
            None => self.classic_allocation_size(cells, ptr),
        }
    }

    /// Change the logical size of a fixed block without moving it.
    #[verifier::rlimit(40)]
    pub fn set_process_ptr_size(
        &mut self,
        cells: &mut ManagerCells,
        spaces: &mut SharedCells<GuestAddressSpace>,
        bus: &mut MacMemoryBus,
        ptr: u32,
        new_size: u32,
    ) -> (error: i16)
        requires
            old(self).valid(old(cells)),
            old(self).attached(old(bus)),
            old(bus).reaches(old(spaces)),
            old(self).model(old(cells)).native_ptr(ptr) matches Some(record) ==> record.size
                <= u32::MAX - 3,
        ensures
            old(self).step(old(cells), final(self), final(cells)),
            old(bus).step(old(spaces), final(bus), final(spaces)),
            (final(self).model(final(cells)), final(bus).model(final(spaces)), error) == old(
                self,
            ).model(old(cells)).set_ptr_size(old(bus).model(old(spaces)), ptr, new_size),
    {
        if ptr == 0 {
            self.set_native_mem_error(cells, NIL_HANDLE_ERR);
            return NIL_HANDLE_ERR;
        }
        let native = self.native_ptr(cells, ptr);
        let (old_size, capacity) = match native {
            Some(record) => (
                record.size,
                ClassicHeapAllocatorState::allocation_bucket_size(record.size),
            ),
            None => match (
                self.classic_allocation_size(cells, ptr),
                self.classic_capacity(cells, ptr),
            ) {
                (Some(size), Some(capacity)) => (size, capacity),
                _ => {
                    self.set_native_mem_error(cells, MEM_WZ_ERR);
                    return MEM_WZ_ERR;
                },
            },
        };
        if new_size > u32::MAX - 3 || ClassicHeapAllocatorState::allocation_bucket_size(new_size)
            > capacity {
            self.set_native_mem_error(cells, MEM_FULL_ERR);
            return MEM_FULL_ERR;
        }
        match native {
            Some(record) => {
                if new_size < old_size {
                    bus.fill_zeros(spaces, ptr.wrapping_add(new_size), old_size - new_size);
                }
                self.set_ptr_record_size(cells, ptr, new_size);
                self.native_allocator_dirty = true;
            },
            None => {
                self.resize_classic_in_place(cells, spaces, bus, ptr, old_size, new_size);
            },
        }
        self.set_native_mem_error(cells, NO_ERR);
        NO_ERR
    }

    /// Logical size of a relocatable block, native or classic.
    pub fn process_handle_size(
        &self,
        cells: &ManagerCells,
        spaces: &SharedCells<GuestAddressSpace>,
        bus: &MacMemoryBus,
        handle: u32,
    ) -> (size: Option<u32>)
        requires
            self.valid(cells),
            self.attached(bus),
            bus.reaches(spaces),
        ensures
            size == self.model(cells).handle_size(bus.model(spaces), handle),
    {
        match self.native_allocation(cells, handle) {
            Some(record) => Some(record.size),
            None => if handle == 0 {
                None
            } else {
                let ptr: u32 = bus.read_long(spaces, handle);
                self.classic_allocation_size(cells, ptr)
            },
        }
    }

    /// Resize a resource handle through the allocator that owns it: the old
    /// and the new block.
    pub fn resize_process_resource_handle(
        &mut self,
        cells: &mut ManagerCells,
        spaces: &mut SharedCells<GuestAddressSpace>,
        bus: &mut MacMemoryBus,
        handle: u32,
        backing_ptr: u32,
        new_size: u32,
    ) -> (result: Result<(u32, u32), i16>)
        requires
            old(self).valid(old(cells)),
            old(self).attached(old(bus)),
            old(bus).reaches(old(spaces)),
        ensures
            old(self).step(old(cells), final(self), final(cells)),
            old(bus).step(old(spaces), final(bus), final(spaces)),
            (final(self).model(final(cells)), final(bus).model(final(spaces)), result) == old(
                self,
            ).model(old(cells)).resize_resource(
                old(bus).model(old(spaces)),
                handle,
                backing_ptr,
                new_size,
            ),
    {
        if handle == 0 {
            return Err(NIL_HANDLE_ERR);
        }
        if let Some(record) = self.native_allocation(cells, handle) {
            if record.ptr == 0 {
                if new_size == 0 {
                    self.set_native_mem_error(cells, NO_ERR);
                    return Ok((0, 0));
                }
                let blank = zero_bytes(new_size as usize);
                return self.replace_native_handle_bytes_with_relocation(
                    cells,
                    spaces,
                    bus,
                    handle,
                    0,
                    blank.as_slice(),
                    true,
                );
            }
            if backing_ptr != 0 && backing_ptr != record.ptr {
                self.set_native_mem_error(cells, NIL_HANDLE_ERR);
                return Err(NIL_HANDLE_ERR);
            }
            let error: i16 = self.set_process_handle_size(cells, spaces, bus, handle, new_size);
            if error != NO_ERR {
                return Err(error);
            }
            return match self.native_allocation(cells, handle) {
                Some(updated) => Ok((record.ptr, updated.ptr)),
                None => Err(NIL_HANDLE_ERR),
            };
        }
        self.resize_classic_resource(cells, spaces, bus, handle, backing_ptr, new_size)
    }

    fn resize_classic_resource(
        &mut self,
        cells: &mut ManagerCells,
        spaces: &mut SharedCells<GuestAddressSpace>,
        bus: &mut MacMemoryBus,
        handle: u32,
        backing_ptr: u32,
        new_size: u32,
    ) -> (result: Result<(u32, u32), i16>)
        requires
            old(self).valid(old(cells)),
            old(self).attached(old(bus)),
            old(bus).reaches(old(spaces)),
        ensures
            old(self).step(old(cells), final(self), final(cells)),
            old(bus).step(old(spaces), final(bus), final(spaces)),
            (final(self).model(final(cells)), final(bus).model(final(spaces)), result) == old(
                self,
            ).model(old(cells)).resize_classic_resource(
                old(bus).model(old(spaces)),
                handle,
                backing_ptr,
                new_size,
            ),
    {
        if !self.is_classic_master(cells, handle) {
            return Err(MEM_WZ_ERR);
        }
        let live_ptr: u32 = bus.read_long(spaces, handle);
        let old_ptr: u32 = if live_ptr != 0 {
            live_ptr
        } else {
            backing_ptr
        };
        if old_ptr == 0 && new_size == 0 {
            return Ok((0, 0));
        }
        let old_size: u32 = match self.classic_allocation_size(cells, old_ptr) {
            Some(size) => size,
            None => 0,
        };
        if old_ptr != 0 && new_size <= u32::MAX - 3
            && ClassicHeapAllocatorState::allocation_bucket_size(new_size)
            <= ClassicHeapAllocatorState::allocation_bucket_size(old_size) {
            self.resize_classic_in_place(cells, spaces, bus, old_ptr, old_size, new_size);
            return Ok((old_ptr, old_ptr));
        }
        match self.move_classic_block(cells, spaces, bus, handle, old_ptr, old_size, new_size) {
            Some(new_ptr) => {
                if old_ptr != 0 {
                    self.ptr_to_handle.remove(&mut cells.handles, old_ptr);
                }
                if new_ptr != 0 {
                    self.ptr_to_handle.insert(&mut cells.handles, new_ptr, handle);
                }
                Ok((old_ptr, new_ptr))
            },
            None => Err(MEM_FULL_ERR),
        }
    }

    /// Leave a replaced block unlocked and unpurgeable.
    fn clear_properties(&mut self, cells: &mut ManagerCells, handle: u32)
        requires
            old(self).valid(old(cells)),
        ensures
            old(self).step(old(cells), final(self), final(cells)),
            final(self).model(final(cells)) == old(self).model(old(cells)).clear_properties(handle),
    {
        let state: u8 = (match self.handle_state_bits.get(&cells.states, handle) {
            Some(state) => state,
            None => 0,
        }) & !0xC0u8;
        if state != 0 {
            self.handle_state_bits.insert(&mut cells.states, handle, state);
        } else {
            self.handle_state_bits.remove(&mut cells.states, handle);
        }
        self.handle_high_locked.remove(&mut cells.flags, handle);
    }

    /// Replace a relocatable block without changing its handle: the old and
    /// the new block. Where no block can be had, everything stays.
    pub fn reallocate_process_handle(
        &mut self,
        cells: &mut ManagerCells,
        spaces: &mut SharedCells<GuestAddressSpace>,
        bus: &mut MacMemoryBus,
        handle: u32,
        size: u32,
    ) -> (result: Result<(u32, u32), i16>)
        requires
            old(self).valid(old(cells)),
            old(self).attached(old(bus)),
            old(bus).reaches(old(spaces)),
        ensures
            old(self).step(old(cells), final(self), final(cells)),
            old(bus).step(old(spaces), final(bus), final(spaces)),
            (final(self).model(final(cells)), final(bus).model(final(spaces)), result) == old(
                self,
            ).model(old(cells)).reallocate(old(bus).model(old(spaces)), handle, size),
    {
        if size > 0x7fff_ffff {
            self.set_native_mem_error(cells, MEM_FULL_ERR);
            return Err(MEM_FULL_ERR);
        }
        if let Some(record) = self.native_allocation(cells, handle) {
            let required: u32 = match native_allocation_size(size) {
                Some(required) => required,
                None => {
                    self.set_native_mem_error(cells, MEM_FULL_ERR);
                    return Err(MEM_FULL_ERR);
                },
            };
            let heap = match self.native_heap_state() {
                Some(heap) => heap,
                None => {
                    return Err(MEM_FULL_ERR);
                },
            };
            let limit: u32 = self.native_allocation_limit(cells, heap.heap_limit);
            let exclusions = bus.foreign_exclusions(spaces);
            if self.find_block_around(
                cells,
                &exclusions,
                limit,
                required,
                Some(record.ptr),
            ).is_none() {
                self.set_native_mem_error(cells, MEM_FULL_ERR);
                return Err(MEM_FULL_ERR);
            }
            let contents = repeat_byte(0xA5, size);
            let result = self.replace_native_handle_bytes_with_relocation(
                cells,
                spaces,
                bus,
                handle,
                record.ptr,
                contents.as_slice(),
                true,
            );
            if result.is_ok() {
                self.clear_properties(cells, handle);
            }
            return result;
        }
        if handle == 0 || !self.is_classic_master(cells, handle) {
            return Err(MEM_WZ_ERR);
        }
        let ceiling: u32 = self.classic_heap_ceiling(cells);
        let new_ptr: u32 = self.heap_allocate(cells, size, ceiling);
        if new_ptr == 0 && size > 0 {
            return Err(MEM_FULL_ERR);
        }
        bus.fill_bytes(spaces, new_ptr, size, 0xA5);
        let old_ptr: u32 = bus.read_long(spaces, handle);
        self.heap_release(cells, old_ptr);
        bus.write_long(spaces, handle, new_ptr);
        self.ptr_to_handle.remove(&mut cells.handles, old_ptr);
        self.ptr_to_handle.insert(&mut cells.handles, new_ptr, handle);
        self.clear_properties(cells, handle);
        Ok((old_ptr, new_ptr))
    }

    /// Give up the block of an unlocked handle, native or classic.
    pub fn empty_process_handle(
        &mut self,
        cells: &mut ManagerCells,
        spaces: &mut SharedCells<GuestAddressSpace>,
        bus: &mut MacMemoryBus,
        handle: u32,
    ) -> (error: i16)
        requires
            old(self).valid(old(cells)),
            old(self).attached(old(bus)),
            old(bus).reaches(old(spaces)),
        ensures
            old(self).step(old(cells), final(self), final(cells)),
            old(bus).step(old(spaces), final(bus), final(spaces)),
            (final(self).model(final(cells)), final(bus).model(final(spaces)), error) == old(
                self,
            ).model(old(cells)).empty_handle(old(bus).model(old(spaces)), handle),
    {
        if let Some(record) = self.native_allocation(cells, handle) {
            if self.handle_state(cells, handle) & LOCKED_BIT != 0 {
                self.set_native_mem_error(cells, MEM_PUR_ERR);
                return MEM_PUR_ERR;
            }
            let blank = to_word_bytes(0);
            if bus.read_long(spaces, handle) != record.ptr || bus.write_foreign_bytes(
                spaces,
                handle,
                blank.as_slice(),
            ).is_none() {
                self.set_native_mem_error(cells, NIL_HANDLE_ERR);
                return NIL_HANDLE_ERR;
            }
            self.commit_empty_native_handle(cells, record);
            return NO_ERR;
        }
        if handle == 0 || !self.is_classic_master(cells, handle) {
            return MEM_WZ_ERR;
        }
        if self.handle_state(cells, handle) & LOCKED_BIT != 0 {
            return MEM_PUR_ERR;
        }
        let ptr: u32 = bus.read_long(spaces, handle);
        if ptr != 0 {
            self.heap_release(cells, ptr);
            self.ptr_to_handle.remove(&mut cells.handles, ptr);
        }
        bus.write_long(spaces, handle, 0);
        NO_ERR
    }
}

} // verus!
