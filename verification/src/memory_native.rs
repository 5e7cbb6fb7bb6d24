//! Native Memory Manager operations on fixed and relocatable blocks.

use crate::guest_memory::GuestAddressSpace;
use crate::memory_manager::{ManagerCells, ProcessNativeMemoryManager};
use crate::memory_model::{ManagerModel, MEM_FULL_ERR, MEM_WZ_ERR, NO_ERR, PARAM_ERR};
use crate::native_heap::{
    copy_ptr_records, find_best_ptr, find_ptr, native_allocation_bounds, native_allocation_size,
    NativeModel, ProcessNativeAllocatorState, ProcessNativeHeapState, ProcessPtrRecord,
};
use vstd::prelude::*;

verus! {

pub(crate) fn zero_bytes(count: usize) -> (bytes: Vec<u8>)
    ensures
        bytes@ == crate::guest_memory::zeros(count as nat),
{
    let mut bytes: Vec<u8> = Vec::new();
    let mut i: usize = 0;
    while i < count
        invariant
            i <= count,
            bytes@ == crate::guest_memory::zeros(i as nat),
        decreases count - i,
    {
        bytes.push(0);
        assert(bytes@ =~= crate::guest_memory::zeros((i + 1) as nat));
        i += 1;
    }
    bytes
}

/// Make a block ready for use. A block that is not mapped throughout gets a
/// region; a mapped block must accept writes.
pub fn prepare_native_allocation(
    memory: &mut GuestAddressSpace,
    ptr: u32,
    required: u32,
    clear: bool,
) -> (ready: bool)
    ensures
        ready == (crate::memory_model::prepared(old(memory)@, ptr, required, clear) is Some),
        final(memory)@ == (if ready {
            crate::memory_model::prepared(old(memory)@, ptr, required, clear)->0
        } else {
            old(memory)@
        }),
{
    if !memory.is_mapped(ptr, required) {
        memory.add_region(ptr, zero_bytes(required as usize));
        return true;
    }
    if !memory.preflight_writable_range(ptr, required) {
        return false;
    }
    if clear {
        let blank = zero_bytes(required as usize);
        let _ = memory.write_bytes(ptr, blank.as_slice());
    }
    true
}

fn smaller(a: u32, b: u32) -> (least: u32)
    ensures
        least == (if a < b {
            a
        } else {
            b
        }),
{
    if a < b {
        a
    } else {
        b
    }
}

impl ProcessNativeMemoryManager {
    /// The application heap limit, or a fallback where none was set.
    pub fn application_heap_limit(&self, fallback: u32) -> (limit: u32)
        ensures
            limit == (match self.application_heap_limit {
                Some(limit) => limit,
                None => fallback,
            }),
    {
        match self.application_heap_limit {
            Some(limit) => limit,
            None => fallback,
        }
    }

    pub fn application_heap_limit_is_set(&self) -> (set: bool)
        ensures
            set == (self.application_heap_limit is Some),
    {
        self.application_heap_limit.is_some()
    }

    /// Set the application heap limit; the native heap's ceiling stays.
    pub fn set_application_heap_limit(&mut self, cells: &ManagerCells, heap_limit: u32)
        requires
            old(self).valid(cells),
        ensures
            old(self).step(cells, final(self), cells),
            final(self).model(cells) == (ManagerModel {
                application_limit: Some(heap_limit),
                ..old(self).model(cells)
            }),
    {
        self.application_heap_limit = Some(heap_limit);
    }

    /// The boundary that native blocks must stay below: the lower of the
    /// heap's ceiling and the application heap limit.
    pub fn native_allocation_limit(&self, cells: &ManagerCells, native_heap_limit: u32) -> (limit:
        u32)
        ensures
            limit == self.model(cells).allocation_limit(native_heap_limit),
    {
        smaller(self.application_heap_limit(native_heap_limit), native_heap_limit)
    }

    /// Raise the native heap's ceiling.
    pub fn grow_native_heap_limit(&mut self, cells: &ManagerCells, heap_limit: u32)
        requires
            old(self).valid(cells),
        ensures
            old(self).step(cells, final(self), cells),
            final(self).model(cells) == (match old(self).model(cells).native {
                Some(native) => ManagerModel {
                    native: Some(
                        NativeModel {
                            heap: ProcessNativeHeapState {
                                heap_limit: if native.heap.heap_limit < heap_limit {
                                    heap_limit
                                } else {
                                    native.heap.heap_limit
                                },
                                ..native.heap
                            },
                            ..native
                        },
                    ),
                    dirty: true,
                    ..old(self).model(cells)
                },
                None => old(self).model(cells),
            }),
    {
        match &mut self.native_allocator {
            Some(allocator) => {
                if allocator.heap.heap_limit < heap_limit {
                    allocator.heap.heap_limit = heap_limit;
                }
                self.native_allocator_dirty = true;
            },
            None => {},
        }
    }

    /// Set the native heap's ceiling.
    pub fn set_native_heap_limit(&mut self, cells: &ManagerCells, heap_limit: u32)
        requires
            old(self).valid(cells),
        ensures
            old(self).step(cells, final(self), cells),
            final(self).model(cells) == (match old(self).model(cells).native {
                Some(native) => ManagerModel {
                    native: Some(
                        NativeModel {
                            heap: ProcessNativeHeapState { heap_limit, ..native.heap },
                            ..native
                        },
                    ),
                    dirty: true,
                    ..old(self).model(cells)
                },
                None => old(self).model(cells),
            }),
    {
        match &mut self.native_allocator {
            Some(allocator) => {
                allocator.heap.heap_limit = heap_limit;
                self.native_allocator_dirty = true;
            },
            None => {},
        }
    }

    /// Record that the application heap was expanded to its limit.
    pub fn maximize_native_heap(&mut self, cells: &ManagerCells)
        requires
            old(self).valid(cells),
        ensures
            old(self).step(cells, final(self), cells),
            final(self).model(cells) == (match old(self).model(cells).native {
                Some(native) => ManagerModel {
                    native: Some(
                        NativeModel {
                            heap: ProcessNativeHeapState { heap_maximized: true, ..native.heap },
                            ..native
                        },
                    ),
                    ..old(self).model(cells)
                }.mem_error(NO_ERR),
                None => old(self).model(cells),
            }),
    {
        match &mut self.native_allocator {
            Some(allocator) => {
                allocator.heap.heap_maximized = true;
                allocator.heap.last_mem_error = NO_ERR;
                self.native_allocator_dirty = true;
            },
            None => {},
        }
    }

    /// Record one request for another block of master pointers.
    pub fn request_native_master_pointers(&mut self, cells: &ManagerCells)
        requires
            old(self).valid(cells),
        ensures
            old(self).step(cells, final(self), cells),
            final(self).model(cells) == (match old(self).model(cells).native {
                Some(native) => ManagerModel {
                    native: Some(
                        NativeModel {
                            heap: ProcessNativeHeapState {
                                master_pointer_blocks_requested:
                                    if native.heap.master_pointer_blocks_requested == u32::MAX {
                                    u32::MAX
                                } else {
                                    (native.heap.master_pointer_blocks_requested + 1) as u32
                                },
                                ..native.heap
                            },
                            ..native
                        },
                    ),
                    ..old(self).model(cells)
                }.mem_error(NO_ERR),
                None => old(self).model(cells),
            }),
    {
        match &mut self.native_allocator {
            Some(allocator) => {
                allocator.heap.master_pointer_blocks_requested =
                    allocator.heap.master_pointer_blocks_requested.saturating_add(1);
                allocator.heap.last_mem_error = NO_ERR;
                self.native_allocator_dirty = true;
            },
            None => {},
        }
    }

    /// Bounds and error state of the native heap.
    pub fn native_heap_state(&self) -> (heap: Option<ProcessNativeHeapState>)
        ensures
            heap == (match self.native_allocator {
                Some(native) => Some(native@.heap),
                None => None::<ProcessNativeHeapState>,
            }),
    {
        match &self.native_allocator {
            Some(allocator) => Some(allocator.heap),
            None => None,
        }
    }

    /// Fixed native blocks.
    pub fn native_ptr_records(&self) -> (records: Vec<ProcessPtrRecord>)
        ensures
            records@ == (match self.native_allocator {
                Some(native) => native@.ptrs,
                None => Seq::<ProcessPtrRecord>::empty(),
            }),
    {
        match &self.native_allocator {
            Some(allocator) => copy_ptr_records(allocator.ptrs.as_slice()),
            None => Vec::new(),
        }
    }

    /// Free native blocks.
    pub fn native_free_ptr_blocks(&self) -> (records: Vec<ProcessPtrRecord>)
        ensures
            records@ == (match self.native_allocator {
                Some(native) => native@.free_ptrs,
                None => Seq::<ProcessPtrRecord>::empty(),
            }),
    {
        match &self.native_allocator {
            Some(allocator) => copy_ptr_records(allocator.free_ptr_blocks.as_slice()),
            None => Vec::new(),
        }
    }

    /// A copy of the native heap's bookkeeping.
    pub fn native_allocator_snapshot(&self) -> (snapshot: Option<ProcessNativeAllocatorState>)
        ensures
            match (snapshot, self.native_allocator) {
                (Some(snapshot), Some(native)) => snapshot@ == native@,
                (None, None) => true,
                _ => false,
            },
    {
        match &self.native_allocator {
            Some(allocator) => Some(allocator.snapshot()),
            None => None,
        }
    }

    /// A copy of the native heap's bookkeeping, where it changed since it was
    /// last published.
    pub fn native_allocator_update(&self) -> (update: Option<ProcessNativeAllocatorState>)
        ensures
            match (update, self.native_allocator) {
                (Some(update), Some(native)) => self.native_allocator_dirty && update@ == native@,
                (None, Some(_)) => !self.native_allocator_dirty,
                (None, None) => true,
                (Some(_), None) => false,
            },
    {
        if self.native_allocator_dirty {
            self.native_allocator_snapshot()
        } else {
            None
        }
    }

    /// Reserve heap bytes that no caller can dispose of.
    pub fn reserve_native_bytes(
        &mut self,
        cells: &ManagerCells,
        memory: &mut GuestAddressSpace,
        size: u32,
        clear: bool,
    ) -> (ptr: u32)
        requires
            old(self).valid(cells),
        ensures
            old(self).step(cells, final(self), cells),
            (final(self).model(cells), final(memory)@, ptr) == old(self).model(cells).reserve_bytes(
                old(memory)@,
                size,
                clear,
                true,
            ),
    {
        let required: u32 = match native_allocation_size(size) {
            Some(required) => required,
            None => {
                return 0;
            },
        };
        let heap = match self.native_heap_state() {
            Some(heap) => heap,
            None => {
                return 0;
            },
        };
        let limit: u32 = self.native_allocation_limit(cells, heap.heap_limit);
        let (ptr, next) = match native_allocation_bounds(
            memory.allocation_exclusions(),
            heap.heap_cursor,
            limit,
            required,
        ) {
            Some(placed) => placed,
            None => {
                return 0;
            },
        };
        if !prepare_native_allocation(memory, ptr, required, clear) {
            return 0;
        }
        match &mut self.native_allocator {
            Some(allocator) => {
                allocator.heap.heap_cursor = next;
            },
            None => {},
        }
        self.native_allocator_dirty = true;
        ptr
    }

    /// Make tail space ready for a scratch buffer; the cursor stays.
    pub fn native_scratch_bytes(
        &mut self,
        cells: &ManagerCells,
        memory: &mut GuestAddressSpace,
        size: u32,
        clear: bool,
    ) -> (ptr: u32)
        requires
            old(self).valid(cells),
        ensures
            old(self).step(cells, final(self), cells),
            (final(self).model(cells), final(memory)@, ptr) == old(self).model(cells).reserve_bytes(
                old(memory)@,
                size,
                clear,
                false,
            ),
    {
        let required: u32 = match native_allocation_size(size) {
            Some(required) => required,
            None => {
                return 0;
            },
        };
        let heap = match self.native_heap_state() {
            Some(heap) => heap,
            None => {
                return 0;
            },
        };
        let limit: u32 = self.native_allocation_limit(cells, heap.heap_limit);
        match native_allocation_bounds(
            memory.allocation_exclusions(),
            heap.heap_cursor,
            limit,
            required,
        ) {
            Some((ptr, _)) => if prepare_native_allocation(memory, ptr, required, clear) {
                ptr
            } else {
                0
            },
            None => 0,
        }
    }

    /// Move the heap cursor once an outside commit succeeded. The commit runs
    /// only where the cursor is the expected one and the new cursor lies
    /// between it and the ceiling.
    pub fn commit_native_heap_cursor_with(
        &mut self,
        cells: &ManagerCells,
        expected_cursor: u32,
        heap_cursor: u32,
        commit: impl FnOnce() -> bool,
    ) -> (committed: bool)
        requires
            old(self).valid(cells),
            call_requires(commit, ()),
        ensures
            old(self).step(cells, final(self), cells),
            committed ==> call_ensures(commit, (), true) && old(self).model(
                cells,
            ).cursor_may_move(expected_cursor, heap_cursor) && final(self).model(cells) == old(
                self,
            ).model(cells).with_cursor(heap_cursor),
            !committed ==> final(self).model(cells) == old(self).model(cells) && (old(self).model(
                cells,
            ).cursor_may_move(expected_cursor, heap_cursor) ==> call_ensures(commit, (), false)),
    {
        match &mut self.native_allocator {
            Some(allocator) => {
                if expected_cursor != allocator.heap.heap_cursor || heap_cursor < expected_cursor
                    || heap_cursor >= allocator.heap.heap_limit {
                    return false;
                }
                if !commit() {
                    return false;
                }
                allocator.heap.heap_cursor = heap_cursor;
                self.native_allocator_dirty = true;
                true
            },
            None => false,
        }
    }

    /// Allocate a fixed block; zero where none can be had.
    pub fn new_native_ptr(
        &mut self,
        cells: &ManagerCells,
        memory: &mut GuestAddressSpace,
        size: u32,
        clear: bool,
    ) -> (ptr: u32)
        requires
            old(self).valid(cells),
        ensures
            old(self).step(cells, final(self), cells),
            (final(self).model(cells), final(memory)@, ptr) == old(self).model(cells).new_native_ptr(
                old(memory)@,
                size,
                clear,
            ),
    {
        let required: u32 = match native_allocation_size(size) {
            Some(required) => required,
            None => {
                self.set_native_mem_error(cells, MEM_FULL_ERR);
                return 0;
            },
        };
        let heap = match self.native_heap_state() {
            Some(heap) => heap,
            None => {
                return 0;
            },
        };
        let limit: u32 = self.native_allocation_limit(cells, heap.heap_limit);
        let (ptr, reused, cursor) = match self.find_block(cells, memory, limit, required, None) {
            Some(placed) => placed,
            None => {
                self.set_native_mem_error(cells, MEM_FULL_ERR);
                return 0;
            },
        };
        if !prepare_native_allocation(memory, ptr, required, clear) {
            self.set_native_mem_error(cells, MEM_FULL_ERR);
            return 0;
        }
        self.take_block(cells, reused, cursor);
        match &mut self.native_allocator {
            Some(allocator) => {
                allocator.ptrs.push(ProcessPtrRecord { ptr, size });
            },
            None => {},
        }
        self.set_native_mem_error(cells, NO_ERR);
        ptr
    }

    /// Choose a free block, or room at the cursor.
    pub(crate) fn find_block(
        &self,
        cells: &ManagerCells,
        memory: &GuestAddressSpace,
        limit: u32,
        required: u32,
        avoid: Option<u32>,
    ) -> (placed: Option<(u32, Option<usize>, u32)>)
        requires
            self.native_allocator is Some,
        ensures
            match (
                placed,
                crate::memory_model::place_block(
                    self.model(cells).native->0,
                    memory@.exclusions,
                    limit,
                    required,
                    avoid,
                ),
            ) {
                (Some((ptr, reused, cursor)), Some((spec_ptr, spec_reused, spec_cursor))) => {
                    &&& ptr == spec_ptr
                    &&& cursor == spec_cursor
                    &&& match reused {
                        Some(index) => index == spec_reused && index < self.model(
                            cells,
                        ).native->0.free_ptrs.len(),
                        None => spec_reused == -1,
                    }
                },
                (None, None) => true,
                _ => false,
            },
    {
        self.find_block_around(cells, memory.allocation_exclusions(), limit, required, avoid)
    }

    pub(crate) fn find_block_around(
        &self,
        cells: &ManagerCells,
        exclusions: &Vec<(u32, u32)>,
        limit: u32,
        required: u32,
        avoid: Option<u32>,
    ) -> (placed: Option<(u32, Option<usize>, u32)>)
        requires
            self.native_allocator is Some,
        ensures
            match (
                placed,
                crate::memory_model::place_block(self.model(cells).native->0, exclusions@, limit, required, avoid),
            ) {
                (Some((ptr, reused, cursor)), Some((spec_ptr, spec_reused, spec_cursor))) => {
                    &&& ptr == spec_ptr
                    &&& cursor == spec_cursor
                    &&& match reused {
                        Some(index) => index == spec_reused && index < self.model(
                            cells,
                        ).native->0.free_ptrs.len(),
                        None => spec_reused == -1,
                    }
                },
                (None, None) => true,
                _ => false,
            },
    {
        match &self.native_allocator {
            Some(allocator) => match find_best_ptr(
                &allocator.free_ptr_blocks,
                required,
                limit,
                avoid,
            ) {
                Some(index) => Some(
                    (
                        allocator.free_ptr_blocks[index].ptr,
                        Some(index),
                        allocator.heap.heap_cursor,
                    ),
                ),
                None => match native_allocation_bounds(
                    exclusions,
                    allocator.heap.heap_cursor,
                    limit,
                    required,
                ) {
                    Some((ptr, next)) => Some((ptr, None, next)),
                    None => None,
                },
            },
            None => None,
        }
    }

    pub(crate) fn take_block(&mut self, cells: &ManagerCells, reused: Option<usize>, cursor: u32)
        requires
            old(self).valid(cells),
            old(self).native_allocator is Some,
            reused matches Some(index) ==> index < old(self).model(cells).native->0.free_ptrs.len(),
        ensures
            old(self).step(cells, final(self), cells),
            final(self).model(cells) == (ManagerModel {
                native: Some(
                    crate::memory_model::block_taken(
                        old(self).model(cells).native->0,
                        match reused {
                            Some(index) => index as int,
                            None => -1,
                        },
                        cursor,
                    ),
                ),
                ..old(self).model(cells)
            }),
    {
        match &mut self.native_allocator {
            Some(allocator) => {
                if let Some(index) = reused {
                    let ghost before = allocator.free_ptr_blocks@;
                    allocator.free_ptr_blocks.swap_remove(index);
                    assert(allocator.free_ptr_blocks@ =~= crate::classic_heap::swap_removed(before, index as int));
                }
                allocator.heap.heap_cursor = cursor;
            },
            None => {},
        }
    }

    /// Return a fixed block to the free blocks.
    pub fn dispose_native_ptr(&mut self, cells: &ManagerCells, ptr: u32) -> (disposed: Option<
        ProcessPtrRecord,
    >)
        requires
            old(self).valid(cells),
        ensures
            old(self).step(cells, final(self), cells),
            (final(self).model(cells), disposed) == old(self).model(cells).dispose_native_ptr(ptr),
    {
        match &mut self.native_allocator {
            Some(allocator) => {
                let disposed = match find_ptr(&allocator.ptrs, ptr) {
                    Some(index) => {
                        let record = allocator.ptrs.remove(index);
                        allocator.free_ptr_blocks.push(record);
                        Some(record)
                    },
                    None => None,
                };
                allocator.heap.last_mem_error = NO_ERR;
                self.native_allocator_dirty = true;
                disposed
            },
            None => None,
        }
    }

    /// Allocate scratch for the implementation; the error state stays.
    pub fn new_native_scratch(
        &mut self,
        cells: &ManagerCells,
        memory: &mut GuestAddressSpace,
        size: u32,
    ) -> (ptr: u32)
        requires
            old(self).valid(cells),
        ensures
            old(self).step(cells, final(self), cells),
            ({
                let (allocated, ready, block) = old(self).model(cells).new_native_ptr(
                    old(memory)@,
                    size,
                    true,
                );
                &&& ptr == block
                &&& final(memory)@ == ready
                &&& final(self).model(cells) == (match old(self).model(cells).native {
                    Some(native) => allocated.mem_error(native.heap.last_mem_error),
                    None => allocated,
                })
            }),
    {
        let heap = self.native_heap_state();
        let ptr: u32 = self.new_native_ptr(cells, memory, size, true);
        if let Some(heap) = heap {
            self.set_native_mem_error(cells, heap.last_mem_error);
        }
        ptr
    }

    /// Release scratch of the implementation; the error state stays.
    pub fn release_native_scratch(&mut self, cells: &ManagerCells, ptr: u32)
        requires
            old(self).valid(cells),
        ensures
            old(self).step(cells, final(self), cells),
            final(self).model(cells) == (match old(self).model(cells).native {
                Some(native) => old(self).model(cells).dispose_native_ptr(ptr).0.mem_error(
                    native.heap.last_mem_error,
                ),
                None => old(self).model(cells).dispose_native_ptr(ptr).0,
            }),
    {
        let heap = self.native_heap_state();
        let _ = self.dispose_native_ptr(cells, ptr);
        if let Some(heap) = heap {
            self.set_native_mem_error(cells, heap.last_mem_error);
        }
    }

    pub(crate) fn native_ptr(&self, cells: &ManagerCells, ptr: u32) -> (record: Option<ProcessPtrRecord>)
        ensures
            record == self.model(cells).native_ptr(ptr),
            record matches Some(record) ==> record.ptr == ptr && self.native_allocator is Some,
    {
        match &self.native_allocator {
            Some(allocator) => match find_ptr(&allocator.ptrs, ptr) {
                Some(index) => Some(allocator.ptrs[index]),
                None => None,
            },
            None => None,
        }
    }

    pub(crate) fn set_ptr_record_size(&mut self, cells: &ManagerCells, ptr: u32, size: u32)
        requires
            old(self).valid(cells),
            old(self).model(cells).native_ptr(ptr) is Some,
        ensures
            old(self).step(cells, final(self), cells),
            final(self).model(cells) == (ManagerModel {
                native: Some(
                    NativeModel {
                        ptrs: old(self).model(cells).native->0.ptrs.update(
                            crate::native_heap::ptr_index(old(self).model(cells).native->0.ptrs, ptr),
                            ProcessPtrRecord { ptr, size },
                        ),
                        ..old(self).model(cells).native->0
                    },
                ),
                ..old(self).model(cells)
            }),
    {
        match &mut self.native_allocator {
            Some(allocator) => {
                if let Some(index) = find_ptr(&allocator.ptrs, ptr) {
                    allocator.ptrs.set(index, ProcessPtrRecord { ptr, size });
                }
            },
            None => {},
        }
    }

    /// Replace a fixed block by one of another size with the same leading
    /// bytes; the old block lives until the replacement is complete.
    pub fn reallocate_native_ptr(
        &mut self,
        cells: &ManagerCells,
        memory: &mut GuestAddressSpace,
        ptr: u32,
        size: u32,
    ) -> (replacement: u32)
        requires
            old(self).valid(cells),
        ensures
            old(self).step(cells, final(self), cells),
            (final(self).model(cells), final(memory)@, replacement) == old(self).model(
                cells,
            ).reallocate_native_ptr(old(memory)@, ptr, size),
    {
        if ptr == 0 {
            return self.new_native_ptr(cells, memory, size, false);
        }
        let record = match self.native_ptr(cells, ptr) {
            Some(record) => record,
            None => {
                self.set_native_mem_error(cells, PARAM_ERR);
                return 0;
            },
        };
        if size == 0 {
            let _ = self.dispose_native_ptr(cells, ptr);
            return 0;
        }
        let kept: u32 = smaller(record.size, size);
        let bytes = match memory.read_bytes(ptr, kept as usize) {
            Some(bytes) => bytes,
            None => {
                self.set_native_mem_error(cells, PARAM_ERR);
                return 0;
            },
        };
        let snapshot = self.native_allocator_snapshot();
        let snapshot_dirty = self.native_allocator_dirty;
        let replacement: u32 = self.new_native_ptr(cells, memory, size, false);
        if replacement == 0 {
            return 0;
        }
        if memory.write_bytes(replacement, bytes.as_slice()).is_none() {
            self.native_allocator = snapshot;
            self.native_allocator_dirty = snapshot_dirty;
            assert(self.model(cells) == old(self).model(cells));
            self.set_native_mem_error(cells, PARAM_ERR);
            return 0;
        }
        let _ = self.dispose_native_ptr(cells, ptr);
        replacement
    }

    /// Change the size of a fixed block in place.
    pub fn set_native_ptr_size(
        &mut self,
        cells: &ManagerCells,
        memory: &mut GuestAddressSpace,
        ptr: u32,
        size: u32,
    ) -> (error: i16)
        requires
            old(self).valid(cells),
        ensures
            old(self).step(cells, final(self), cells),
            (final(self).model(cells), final(memory)@, error) == old(self).model(
                cells,
            ).set_native_ptr_size(old(memory)@, ptr, size),
    {
        let record = match self.native_ptr(cells, ptr) {
            Some(record) => record,
            None => {
                self.set_native_mem_error(cells, MEM_WZ_ERR);
                return MEM_WZ_ERR;
            },
        };
        if size <= record.size {
            self.set_ptr_record_size(cells, ptr, size);
            self.set_native_mem_error(cells, NO_ERR);
            return NO_ERR;
        }
        let old_capacity: u32 = match native_allocation_size(record.size) {
            Some(capacity) => capacity,
            None => {
                self.set_native_mem_error(cells, PARAM_ERR);
                return PARAM_ERR;
            },
        };
        let new_capacity: u32 = match native_allocation_size(size) {
            Some(capacity) => capacity,
            None => {
                self.set_native_mem_error(cells, MEM_FULL_ERR);
                return MEM_FULL_ERR;
            },
        };
        let heap = match self.native_heap_state() {
            Some(heap) => heap,
            None => {
                return MEM_FULL_ERR;
            },
        };
        let old_end: u32 = match ptr.checked_add(old_capacity) {
            Some(old_end) => old_end,
            None => {
                self.set_native_mem_error(cells, MEM_FULL_ERR);
                return MEM_FULL_ERR;
            },
        };
        if old_end != heap.heap_cursor {
            self.set_native_mem_error(cells, MEM_FULL_ERR);
            return MEM_FULL_ERR;
        }
        let limit: u32 = self.native_allocation_limit(cells, heap.heap_limit);
        let (start, new_end) = match native_allocation_bounds(
            memory.allocation_exclusions(),
            ptr,
            limit,
            new_capacity,
        ) {
            Some(placed) => placed,
            None => {
                self.set_native_mem_error(cells, MEM_FULL_ERR);
                return MEM_FULL_ERR;
            },
        };
        if start != ptr {
            self.set_native_mem_error(cells, MEM_FULL_ERR);
            return MEM_FULL_ERR;
        }
        proof {
            crate::classic_heap::lemma_round_up(ptr as int, 16);
            crate::native_heap::lemma_bounds_from(memory@.exclusions, crate::classic_heap::round_up(ptr as int, 16), limit, new_capacity);
            lemma_native_size_monotone(record.size, size);
        }
        let growth: u32 = new_end - old_end;
        if growth > 0 && memory.read_u8(old_end).is_none() {
            memory.add_region(old_end, zero_bytes(growth as usize));
        }
        let blank = zero_bytes(growth as usize);
        if !memory.write_until_refused(old_end, blank.as_slice()) {
            self.set_native_mem_error(cells, PARAM_ERR);
            return PARAM_ERR;
        }
        self.set_ptr_record_size(cells, ptr, size);
        self.take_block(cells, None, new_end);
        self.set_native_mem_error(cells, NO_ERR);
        NO_ERR
    }

    /// Logical size of a fixed native block.
    pub fn native_ptr_size(&mut self, cells: &ManagerCells, ptr: u32) -> (size: u32)
        requires
            old(self).valid(cells),
        ensures
            old(self).step(cells, final(self), cells),
            size == (match old(self).model(cells).native_ptr(ptr) {
                Some(record) => record.size,
                None => 0,
            }),
            final(self).model(cells) == old(self).model(cells).mem_error(
                if size == 0 {
                    PARAM_ERR
                } else {
                    NO_ERR
                },
            ),
    {
        let size: u32 = match self.native_ptr(cells, ptr) {
            Some(record) => record.size,
            None => 0,
        };
        self.set_native_mem_error(
            cells,
            if size == 0 {
                PARAM_ERR
            } else {
                NO_ERR
            },
        );
        size
    }
}

proof fn lemma_native_size_monotone(a: u32, b: u32)
    requires
        a <= b,
        crate::native_heap::native_size(a) is Some,
        crate::native_heap::native_size(b) is Some,
    ensures
        crate::native_heap::native_size(a)->0 <= crate::native_heap::native_size(b)->0,
{
    crate::native_heap::lemma_native_size(a);
    crate::native_heap::lemma_native_size(b);
}

} // verus!
