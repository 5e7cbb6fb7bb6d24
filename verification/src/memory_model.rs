//! What the Memory Manager of one process holds, and what its native
//! operations do to it, as mathematics.

use crate::classic_heap::HeapModel;
use crate::guest_memory::SpaceModel;
use crate::native_heap::{
    NativeModel, ProcessHandleRecord, ProcessHandleStateRecord, ProcessNativeHeapState,
    ProcessPtrRecord,
};
use vstd::prelude::*;

verus! {

pub const MEM_FULL_ERR: i16 = -108;

pub const NIL_HANDLE_ERR: i16 = -109;

pub const MEM_WZ_ERR: i16 = -111;

pub const MEM_PUR_ERR: i16 = -112;

pub const NO_ERR: i16 = 0;

pub const PARAM_ERR: i16 = -50;

/// Bit of the state byte that marks a locked block.
pub const LOCKED_BIT: u8 = 0x80;

/// Bit of the state byte that marks a purgeable block.
pub const PURGEABLE_BIT: u8 = 0x40;

/// Bit of the state byte that marks a resource.
pub const RESOURCE_BIT: u8 = 0x20;

/// What one process's Memory Manager holds.
#[verifier::ext_equal]
pub struct ManagerModel {
    /// Identity under which the manager claims classic heaps.
    pub owner: int,
    /// The attached classic heap.
    pub classic: Option<HeapModel>,
    pub classic_limit: Option<u32>,
    /// Which handle a relocatable block belongs to.
    pub ptr_to_handle: Map<u32, u32>,
    /// State byte of each handle.
    pub states: Map<u32, u8>,
    /// Handles that asked for a place high in the heap.
    pub high: Map<u32, bool>,
    pub native_ptrs: Set<u32>,
    pub native_handles: Set<u32>,
    /// Native relocatable blocks in allocation order.
    pub records: Seq<ProcessHandleRecord>,
    pub native: Option<NativeModel>,
    /// Whether the native heap changed since it was last published.
    pub dirty: bool,
    pub application_limit: Option<u32>,
}

impl ManagerModel {
    /// The native heap reports an error code.
    pub open spec fn mem_error(self, error: i16) -> ManagerModel {
        match self.native {
            Some(native) => ManagerModel {
                native: Some(
                    NativeModel {
                        heap: ProcessNativeHeapState { last_mem_error: error, ..native.heap },
                        ..native
                    },
                ),
                dirty: true,
                ..self
            },
            None => self,
        }
    }

    /// The native record of a handle.
    pub open spec fn record(self, handle: u32) -> Option<ProcessHandleRecord> {
        if crate::native_heap::handle_index(self.records, handle) >= 0 {
            Some(self.records[crate::native_heap::handle_index(self.records, handle)])
        } else {
            None
        }
    }

    /// The native records after one was replaced, or added where the handle
    /// had none.
    pub open spec fn put_record(self, record: ProcessHandleRecord) -> ManagerModel {
        let index = crate::native_heap::handle_index(self.records, record.handle);
        ManagerModel {
            records: if index >= 0 {
                self.records.update(index, record)
            } else {
                self.records.push(record)
            },
            ..self
        }
    }

    /// The state byte of a handle that the manager knows.
    pub open spec fn state(self, handle: u32) -> Option<u8> {
        if self.states.dom().contains(handle) {
            Some(self.states[handle])
        } else if self.native_handles.contains(handle) {
            Some(0)
        } else {
            None
        }
    }

    pub open spec fn state_or_clear(self, handle: u32) -> u8 {
        match self.state(handle) {
            Some(state) => state,
            None => 0,
        }
    }

    /// The manager after a handle got a state byte; unlocking a handle drops
    /// its request for a high place.
    pub open spec fn set_state(self, handle: u32, state: u8) -> ManagerModel {
        if handle == 0 {
            self
        } else {
            ManagerModel {
                states: self.states.insert(handle, state),
                high: if state & LOCKED_BIT == 0 {
                    self.high.remove(handle)
                } else {
                    self.high
                },
                ..self
            }
        }
    }

    pub open spec fn lock(self, handle: u32, high: bool) -> ManagerModel {
        if handle == 0 {
            self
        } else {
            let locked = self.set_state(handle, self.state_or_clear(handle) | LOCKED_BIT);
            if high {
                ManagerModel { high: locked.high.insert(handle, true), ..locked }
            } else {
                locked
            }
        }
    }

    pub open spec fn unlock(self, handle: u32) -> ManagerModel {
        self.set_state(handle, self.state_or_clear(handle) & !LOCKED_BIT)
    }

    pub open spec fn set_purgeable(self, handle: u32, purgeable: bool) -> ManagerModel {
        self.set_state(
            handle,
            if purgeable {
                self.state_or_clear(handle) | PURGEABLE_BIT
            } else {
                self.state_or_clear(handle) & !PURGEABLE_BIT
            },
        )
    }

    pub open spec fn set_resource(self, handle: u32, resource: bool) -> ManagerModel {
        self.set_state(
            handle,
            if resource {
                self.state_or_clear(handle) | RESOURCE_BIT
            } else {
                self.state_or_clear(handle) & !RESOURCE_BIT
            },
        )
    }

    /// The manager after the lock and purge properties were restored from a
    /// state byte; the resource property stays.
    pub open spec fn restore_state(self, handle: u32, state: u8) -> ManagerModel {
        self.set_state(
            handle,
            (self.state_or_clear(handle) & RESOURCE_BIT) | (state & 0xC0),
        )
    }

    pub open spec fn handle_state(self, handle: u32) -> ProcessHandleStateRecord {
        let bits = match self.state(handle) {
            Some(bits) => bits,
            None => PURGEABLE_BIT,
        };
        let locked = bits & LOCKED_BIT != 0;
        ProcessHandleStateRecord {
            handle,
            locked,
            high_locked: locked && crate::process_map::map_get(self.high, handle) == Some(true),
            no_purge: bits & PURGEABLE_BIT == 0,
            resource: bits & RESOURCE_BIT != 0,
        }
    }

    /// Addresses at or above this are out of bounds for native blocks.
    pub open spec fn allocation_limit(self, heap_limit: u32) -> u32 {
        match self.application_limit {
            Some(limit) => if limit < heap_limit {
                limit
            } else {
                heap_limit
            },
            None => heap_limit,
        }
    }

    /// The manager after a handle was allocated.
    pub open spec fn commit_new_handle(
        self,
        record: ProcessHandleRecord,
        native: bool,
    ) -> ManagerModel {
        if record.handle == 0 {
            self
        } else {
            let indexed = ManagerModel {
                ptr_to_handle: if record.ptr != 0 {
                    self.ptr_to_handle.insert(record.ptr, record.handle)
                } else {
                    self.ptr_to_handle
                },
                states: self.states.insert(record.handle, 0),
                ..self
            };
            if native {
                ManagerModel {
                    native_ptrs: if record.ptr != 0 {
                        self.native_ptrs.insert(record.ptr)
                    } else {
                        self.native_ptrs
                    },
                    native_handles: self.native_handles.insert(record.handle),
                    ..indexed.put_record(record)
                }
            } else {
                indexed
            }
        }
    }

    /// The manager after the block of a handle was given up; the handle stays.
    pub open spec fn commit_empty(self, record: ProcessHandleRecord) -> ManagerModel {
        let unindexed = if record.ptr != 0 {
            ManagerModel {
                ptr_to_handle: self.ptr_to_handle.remove(record.ptr),
                native_ptrs: self.native_ptrs.remove(record.ptr),
                ..self
            }
        } else {
            self
        };
        let emptied = unindexed.put_record(
            ProcessHandleRecord { handle: record.handle, ptr: 0, size: 0, capacity: 0 },
        );
        match emptied.native {
            Some(native) => ManagerModel {
                native: Some(
                    NativeModel {
                        free_ptrs: if record.ptr != 0 {
                            native.free_ptrs.push(
                                ProcessPtrRecord { ptr: record.ptr, size: record.capacity },
                            )
                        } else {
                            native.free_ptrs
                        },
                        ..native
                    },
                ),
                ..emptied
            }.mem_error(NO_ERR),
            None => emptied,
        }
    }

    /// A native handle is emptied through the address space.
    pub open spec fn empty_native(self, space: SpaceModel, handle: u32) -> (
        ManagerModel,
        SpaceModel,
        i16,
    ) {
        match self.record(handle) {
            None => (self.mem_error(NIL_HANDLE_ERR), space, NIL_HANDLE_ERR),
            Some(record) => if self.state_or_clear(handle) & LOCKED_BIT != 0 {
                (self.mem_error(MEM_PUR_ERR), space, MEM_PUR_ERR)
            } else if space.word(handle as int) != Some(record.ptr) || !space.accepts(
                handle as int,
                4,
            ) {
                (self.mem_error(NIL_HANDLE_ERR), space, NIL_HANDLE_ERR)
            } else {
                (self.commit_empty(record), space.store(handle as int, crate::guest_memory::word_bytes(0)), NO_ERR)
            },
        }
    }

    /// The manager after a native handle was disposed of.
    pub open spec fn commit_dispose(self, index: int, record: ProcessHandleRecord) -> ManagerModel {
        let forgotten = ManagerModel {
            records: self.records.remove(index),
            ptr_to_handle: if record.ptr != 0 {
                self.ptr_to_handle.remove(record.ptr)
            } else {
                self.ptr_to_handle
            },
            native_ptrs: if record.ptr != 0 {
                self.native_ptrs.remove(record.ptr)
            } else {
                self.native_ptrs
            },
            states: self.states.remove(record.handle),
            high: self.high.remove(record.handle),
            native_handles: self.native_handles.remove(record.handle),
            ..self
        };
        match forgotten.native {
            Some(native) => ManagerModel {
                native: Some(
                    NativeModel { free_handles: native.free_handles.push(record), ..native },
                ),
                ..forgotten
            }.mem_error(NO_ERR),
            None => forgotten,
        }
    }

    pub open spec fn dispose_native_handle(self, space: SpaceModel, handle: u32) -> (
        ManagerModel,
        SpaceModel,
        Option<ProcessHandleRecord>,
    ) {
        match self.record(handle) {
            None => (self.mem_error(NO_ERR), space, None),
            Some(record) => if !space.accepts(handle as int, 4) {
                (self.mem_error(NIL_HANDLE_ERR), space, None)
            } else {
                (
                    self.commit_dispose(crate::native_heap::handle_index(self.records, handle), record),
                    space.store(handle as int, crate::guest_memory::word_bytes(0)),
                    Some(record),
                )
            },
        }
    }
}

/// The address space after a block was made ready, or `None` where the block
/// refuses writes. A block that is not mapped throughout gets a region.
pub open spec fn prepared(space: SpaceModel, ptr: u32, required: u32, clear: bool) -> Option<
    SpaceModel,
> {
    if !space.mapped(ptr as int, required as int) {
        Some(space.map_region(ptr as int, crate::guest_memory::zeros(required as nat), true))
    } else if !space.accepts(ptr as int, required as int) {
        None
    } else if clear {
        Some(space.store(ptr as int, crate::guest_memory::zeros(required as nat)))
    } else {
        Some(space)
    }
}

/// Where a new native block goes: its address, the free block it takes or a
/// negative number, and the cursor after it.
pub open spec fn place_block(
    native: NativeModel,
    exclusions: Seq<(u32, u32)>,
    limit: u32,
    required: u32,
    avoid: Option<u32>,
) -> Option<(u32, int, u32)> {
    let reused = crate::native_heap::best_ptr(native.free_ptrs, required, limit, avoid);
    if reused >= 0 {
        Some((native.free_ptrs[reused].ptr, reused, native.heap.heap_cursor))
    } else {
        match crate::native_heap::native_bounds(exclusions, native.heap.heap_cursor, limit, required) {
            Some((ptr, next)) => Some((ptr, -1, next)),
            None => None,
        }
    }
}

/// The native heap after it gave a block out.
pub open spec fn block_taken(native: NativeModel, reused: int, cursor: u32) -> NativeModel {
    NativeModel {
        free_ptrs: if reused >= 0 {
            crate::classic_heap::swap_removed(native.free_ptrs, reused)
        } else {
            native.free_ptrs
        },
        heap: ProcessNativeHeapState { heap_cursor: cursor, ..native.heap },
        ..native
    }
}

impl ManagerModel {
    /// A fixed native block is requested.
    pub open spec fn new_native_ptr(self, space: SpaceModel, size: u32, clear: bool) -> (
        ManagerModel,
        SpaceModel,
        u32,
    ) {
        let refused = (self.mem_error(MEM_FULL_ERR), space, 0u32);
        match (crate::native_heap::native_size(size), self.native) {
            (Some(required), Some(native)) => {
                let limit = self.allocation_limit(native.heap.heap_limit);
                match place_block(native, space.exclusions, limit, required, None) {
                    Some((ptr, reused, cursor)) => match prepared(space, ptr, required, clear) {
                        Some(ready) => {
                            let taken = block_taken(native, reused, cursor);
                            (
                                ManagerModel {
                                    native: Some(
                                        NativeModel {
                                            ptrs: taken.ptrs.push(ProcessPtrRecord { ptr, size }),
                                            ..taken
                                        },
                                    ),
                                    ..self
                                }.mem_error(NO_ERR),
                                ready,
                                ptr,
                            )
                        },
                        None => refused,
                    },
                    None => refused,
                }
            },
            _ => refused,
        }
    }

    pub open spec fn dispose_native_ptr(self, ptr: u32) -> (ManagerModel, Option<ProcessPtrRecord>) {
        match self.native {
            Some(native) => {
                let index = crate::native_heap::ptr_index(native.ptrs, ptr);
                if index >= 0 {
                    (
                        ManagerModel {
                            native: Some(
                                NativeModel {
                                    ptrs: native.ptrs.remove(index),
                                    free_ptrs: native.free_ptrs.push(native.ptrs[index]),
                                    ..native
                                },
                            ),
                            ..self
                        }.mem_error(NO_ERR),
                        Some(native.ptrs[index]),
                    )
                } else {
                    (self.mem_error(NO_ERR), None)
                }
            },
            None => (self, None),
        }
    }

    /// The record of a fixed native block.
    pub open spec fn native_ptr(self, ptr: u32) -> Option<ProcessPtrRecord> {
        match self.native {
            Some(native) => if crate::native_heap::ptr_index(native.ptrs, ptr) >= 0 {
                Some(native.ptrs[crate::native_heap::ptr_index(native.ptrs, ptr)])
            } else {
                None
            },
            None => None,
        }
    }

    /// Heap bytes that no caller can dispose of are requested.
    pub open spec fn reserve_bytes(
        self,
        space: SpaceModel,
        size: u32,
        clear: bool,
        keep: bool,
    ) -> (ManagerModel, SpaceModel, u32) {
        match (crate::native_heap::native_size(size), self.native) {
            (Some(required), Some(native)) => {
                let limit = self.allocation_limit(native.heap.heap_limit);
                match crate::native_heap::native_bounds(
                    space.exclusions,
                    native.heap.heap_cursor,
                    limit,
                    required,
                ) {
                    Some((ptr, next)) => match prepared(space, ptr, required, clear) {
                        Some(ready) => (
                            if keep {
                                ManagerModel {
                                    native: Some(block_taken(native, -1, next)),
                                    dirty: true,
                                    ..self
                                }
                            } else {
                                self
                            },
                            ready,
                            ptr,
                        ),
                        None => (self, space, 0),
                    },
                    None => (self, space, 0),
                }
            },
            _ => (self, space, 0),
        }
    }

    /// A relocatable native block and its master pointer are chosen: the
    /// record, the free handle it takes, the free block it takes, and the
    /// cursor afterwards.
    pub open spec fn choose_handle(
        self,
        native: NativeModel,
        exclusions: Seq<(u32, u32)>,
        size: u32,
        required: u32,
    ) -> Option<(ProcessHandleRecord, int, int, u32)> {
        let limit = self.allocation_limit(native.heap.heap_limit);
        let reused = crate::native_heap::chosen_handle(native.free_handles, required, limit);
        if reused >= 0 {
            let record = native.free_handles[reused];
            if record.ptr == 0 {
                match place_block(native, exclusions, limit, required, None) {
                    Some((ptr, block, cursor)) => Some(
                        (
                            ProcessHandleRecord {
                                handle: record.handle,
                                ptr,
                                size,
                                capacity: size,
                            },
                            reused,
                            block,
                            cursor,
                        ),
                    ),
                    None => None,
                }
            } else {
                Some(
                    (
                        ProcessHandleRecord { size, ..record },
                        reused,
                        -1,
                        native.heap.heap_cursor,
                    ),
                )
            }
        } else {
            match crate::native_heap::native_bounds(exclusions, native.heap.heap_cursor, limit, 16) {
                Some((handle, after_handle)) => match crate::native_heap::native_bounds(
                    exclusions,
                    after_handle,
                    limit,
                    required,
                ) {
                    Some((ptr, after_ptr)) => Some(
                        (
                            ProcessHandleRecord { handle, ptr, size, capacity: size },
                            -1,
                            -1,
                            after_ptr,
                        ),
                    ),
                    None => None,
                },
                None => None,
            }
        }
    }

    /// A relocatable native block is requested. Where the block refuses
    /// writes, what was made ready for the master pointer stays ready.
    pub open spec fn allocate_native_handle(self, space: SpaceModel, size: u32, clear: bool) -> (
        ManagerModel,
        SpaceModel,
        u32,
    ) {
        let refuse = |space: SpaceModel| (self.mem_error(MEM_FULL_ERR), space, 0u32);
        match (crate::native_heap::native_size(size), self.native) {
            (Some(required), Some(native)) => {
                match self.choose_handle(native, space.exclusions, size, required) {
                    Some((record, reused, block, cursor)) => {
                        match prepared(space, record.handle, 16, true) {
                            None => refuse(space),
                            Some(master_ready) => match prepared(
                                master_ready,
                                record.ptr,
                                required,
                                clear,
                            ) {
                                None => refuse(master_ready),
                                Some(ready) => if !ready.accepts(record.handle as int, 4) {
                                    refuse(ready)
                                } else {
                                    let taken = block_taken(native, block, cursor);
                                    let kept = ManagerModel {
                                        native: Some(
                                            NativeModel {
                                                free_handles: if reused >= 0 {
                                                    crate::classic_heap::swap_removed(taken.free_handles, reused)
                                                } else {
                                                    taken.free_handles
                                                },
                                                ..taken
                                            },
                                        ),
                                        ..self
                                    };
                                    (
                                        kept.mem_error(NO_ERR).commit_new_handle(record, true),
                                        ready.store(
                                            record.handle as int,
                                            crate::guest_memory::word_bytes(record.ptr),
                                        ),
                                        record.handle,
                                    )
                                },
                            },
                        }
                    },
                    None => refuse(space),
                }
            },
            _ => refuse(space),
        }
    }
}


/// Heap that a handle request asks for.
#[derive(Debug, Clone, Copy, PartialEq, Eq, Structural)]
pub enum ProcessHandleHeap {
    Current,
    System,
}

/// A request for a relocatable block.
#[derive(Debug, Clone, Copy, PartialEq, Eq, Structural)]
pub struct ProcessNewHandleRequest {
    pub logical_size: i32,
    pub clear: bool,
    pub heap: ProcessHandleHeap,
}

impl ProcessNewHandleRequest {
    pub fn new(logical_size: i32, clear: bool, heap: ProcessHandleHeap) -> (request: Self)
        ensures
            request == (ProcessNewHandleRequest { logical_size, clear, heap }),
    {
        ProcessNewHandleRequest { logical_size, clear, heap }
    }

    /// The request for a size that fits in a signed word.
    pub fn from_unsigned(logical_size: u32, clear: bool, heap: ProcessHandleHeap) -> (request:
        Option<Self>)
        ensures
            request == (if logical_size <= i32::MAX {
                Some(ProcessNewHandleRequest { logical_size: logical_size as i32, clear, heap })
            } else {
                None::<ProcessNewHandleRequest>
            }),
    {
        if logical_size <= 0x7fff_ffff {
            Some(ProcessNewHandleRequest { logical_size: logical_size as i32, clear, heap })
        } else {
            None
        }
    }
}

/// Outcome of a handle request.
#[derive(Debug, Clone, Copy, PartialEq, Eq, Structural)]
pub struct ProcessNewHandleResult {
    pub handle: u32,
    pub data_ptr: u32,
    pub error: i16,
    pub state_bits: u8,
}

impl ProcessNewHandleResult {
    pub open spec fn spec_success(handle: u32, data_ptr: u32) -> Self {
        ProcessNewHandleResult { handle, data_ptr, error: 0, state_bits: 0 }
    }

    pub open spec fn spec_failure(error: i16) -> Self {
        ProcessNewHandleResult { handle: 0, data_ptr: 0, error, state_bits: 0 }
    }

    /// A new block is unlocked, unpurgeable and no resource.
    pub fn success(handle: u32, data_ptr: u32) -> (result: Self)
        ensures
            result == Self::spec_success(handle, data_ptr),
    {
        ProcessNewHandleResult { handle, data_ptr, error: 0, state_bits: 0 }
    }

    pub fn failure(error: i16) -> (result: Self)
        ensures
            result == Self::spec_failure(error),
    {
        ProcessNewHandleResult { handle: 0, data_ptr: 0, error, state_bits: 0 }
    }

    pub fn succeeded(self) -> (succeeded: bool)
        ensures
            succeeded == (self.error == 0 && self.handle != 0 && self.data_ptr != 0),
    {
        self.error == 0 && self.handle != 0 && self.data_ptr != 0
    }
}

impl ManagerModel {
    /// The error code that the native heap reports last.
    pub open spec fn last_error(self) -> i16 {
        match self.native {
            Some(native) => native.heap.last_mem_error,
            None => MEM_FULL_ERR,
        }
    }

    /// A handle request goes to the native heap.
    pub open spec fn new_handle_native(
        self,
        space: SpaceModel,
        request: ProcessNewHandleRequest,
    ) -> (ManagerModel, SpaceModel, ProcessNewHandleResult) {
        if request.logical_size < 0 {
            (
                self.mem_error(MEM_FULL_ERR),
                space,
                ProcessNewHandleResult::spec_failure(MEM_FULL_ERR),
            )
        } else {
            let (allocated, ready, handle) = self.allocate_native_handle(
                space,
                request.logical_size as u32,
                request.clear,
            );
            let result = if handle == 0 {
                ProcessNewHandleResult::spec_failure(allocated.last_error())
            } else {
                match allocated.record(handle) {
                    Some(record) => ProcessNewHandleResult::spec_success(record.handle, record.ptr),
                    None => ProcessNewHandleResult::spec_failure(NIL_HANDLE_ERR),
                }
            };
            (allocated.mem_error(result.error), ready, result)
        }
    }

    pub open spec fn new_native_handle(self, space: SpaceModel, size: u32, clear: bool) -> (
        ManagerModel,
        SpaceModel,
        u32,
    ) {
        if size > i32::MAX {
            (self.mem_error(MEM_FULL_ERR), space, 0)
        } else {
            let (manager, ready, result) = self.new_handle_native(
                space,
                ProcessNewHandleRequest {
                    logical_size: size as i32,
                    clear,
                    heap: ProcessHandleHeap::Current,
                },
            );
            (manager, ready, result.handle)
        }
    }

    /// A native handle is made for a copy of bytes.
    pub open spec fn copy_to_native(self, space: SpaceModel, bytes: Seq<u8>) -> (
        ManagerModel,
        SpaceModel,
        u32,
    ) {
        if bytes.len() > u32::MAX {
            (self.mem_error(MEM_FULL_ERR), space, 0)
        } else {
            let (manager, ready, handle) = self.new_native_handle(space, bytes.len() as u32, false);
            match manager.record(handle) {
                Some(record) => (
                    manager.set_state(handle, 0),
                    ready.store(record.ptr as int, bytes),
                    handle,
                ),
                None => (manager, ready, 0),
            }
        }
    }

    /// The block that a copy would get accepts the bytes.
    pub open spec fn copy_to_native_fits(self, space: SpaceModel, bytes: Seq<u8>) -> bool {
        bytes.len() <= u32::MAX ==> {
            let (manager, ready, handle) = self.new_native_handle(space, bytes.len() as u32, false);
            manager.record(handle) matches Some(record) ==> ready.accepts(
                record.ptr as int,
                bytes.len() as int,
            )
        }
    }

    pub open spec fn mark_resource(self, handle: u32) -> ManagerModel {
        self.set_purgeable(handle, true).set_resource(handle, true)
    }

    /// A native handle is made for a resource; without bytes its block stays
    /// empty.
    pub open spec fn new_native_resource(self, space: SpaceModel, bytes: Option<Seq<u8>>) -> (
        ManagerModel,
        SpaceModel,
        u32,
    ) {
        match bytes {
            Some(bytes) => {
                let (manager, ready, handle) = self.copy_to_native(space, bytes);
                (
                    if handle != 0 {
                        manager.mark_resource(handle)
                    } else {
                        manager
                    },
                    ready,
                    handle,
                )
            },
            None => {
                let (manager, ready, handle) = self.new_native_handle(space, 0, true);
                if handle == 0 {
                    (manager, ready, 0)
                } else {
                    let (emptied, cleared, error) = manager.empty_native(ready, handle);
                    if error != NO_ERR {
                        let (disposed, left, _) = emptied.dispose_native_handle(cleared, handle);
                        (disposed, left, 0)
                    } else {
                        (emptied.mark_resource(handle), cleared, handle)
                    }
                }
            },
        }
    }

    /// The manager after a handle's block moved from `old_ptr` to the block of
    /// the record.
    pub open spec fn move_block(self, old_ptr: u32, record: ProcessHandleRecord) -> ManagerModel {
        ManagerModel {
            ptr_to_handle: self.ptr_to_handle.remove(old_ptr).insert(record.ptr, record.handle),
            native_ptrs: self.native_ptrs.remove(old_ptr).insert(record.ptr),
            ..self
        }.put_record(record)
    }

    /// An empty native handle gets a block of `size` bytes.
    pub open spec fn fill_empty_handle(
        self,
        space: SpaceModel,
        record: ProcessHandleRecord,
        size: u32,
    ) -> (ManagerModel, SpaceModel, i16) {
        let full = (self.mem_error(MEM_FULL_ERR), space, MEM_FULL_ERR);
        let handle = record.handle;
        match (crate::native_heap::native_size(size), self.native) {
            (Some(required), Some(native)) => {
                let limit = self.allocation_limit(native.heap.heap_limit);
                match place_block(native, space.exclusions, limit, required, None) {
                    Some((ptr, reused, cursor)) => match prepared(space, ptr, required, true) {
                        None => (self.mem_error(PARAM_ERR), space, PARAM_ERR),
                        Some(ready) => if !ready.accepts(handle as int, 4) {
                            (self.mem_error(PARAM_ERR), ready, PARAM_ERR)
                        } else {
                            let indexed = ManagerModel {
                                ptr_to_handle: self.ptr_to_handle.insert(ptr, handle),
                                native_ptrs: self.native_ptrs.insert(ptr),
                                native: Some(block_taken(native, reused, cursor)),
                                ..self
                            }.put_record(ProcessHandleRecord { handle, ptr, size, capacity: size });
                            (
                                indexed.mem_error(NO_ERR),
                                ready.store(handle as int, crate::guest_memory::word_bytes(ptr)),
                                NO_ERR,
                            )
                        },
                    },
                    None => full,
                }
            },
            _ => full,
        }
    }

    /// Where a growing native block goes and the cursor after it: it extends
    /// in place where it is the last block and nothing excluded follows, else
    /// it moves to the cursor.
    pub open spec fn grown_block(
        self,
        native: NativeModel,
        exclusions: Seq<(u32, u32)>,
        ptr: u32,
        old_aligned: u32,
        new_aligned: u32,
    ) -> Option<(u32, u32)> {
        let limit = self.allocation_limit(native.heap.heap_limit);
        let in_place = crate::native_heap::native_bounds(exclusions, ptr, limit, new_aligned);
        if ptr + old_aligned == native.heap.heap_cursor && in_place is Some && (in_place->0).0
            == ptr {
            in_place
        } else {
            crate::native_heap::native_bounds(exclusions, native.heap.heap_cursor, limit, new_aligned)
        }
    }

    /// A native handle with a block grows beyond its capacity.
    pub open spec fn grow_native_handle(
        self,
        space: SpaceModel,
        record: ProcessHandleRecord,
        size: u32,
    ) -> (ManagerModel, SpaceModel, i16) {
        let handle = record.handle;
        let refuse = |space: SpaceModel, error: i16| (self.mem_error(error), space, error);
        if crate::native_heap::native_size(record.size) is None {
            refuse(space, PARAM_ERR)
        } else {
            match (crate::native_heap::native_size(size), self.native) {
                (Some(new_aligned), Some(native)) => {
                    match self.grown_block(
                        native,
                        space.exclusions,
                        record.ptr,
                        crate::native_heap::native_size(record.size)->0,
                        new_aligned,
                    ) {
                        None => refuse(space, MEM_FULL_ERR),
                        Some((ptr, cursor)) => if !space.mapped(
                            record.ptr as int,
                            record.size as int,
                        ) {
                            refuse(space, PARAM_ERR)
                        } else {
                            let bytes = space.load(record.ptr as int, record.size as nat);
                            match prepared(space, ptr, new_aligned, true) {
                                None => refuse(space, PARAM_ERR),
                                Some(ready) => {
                                    let (copied, complete) = crate::guest_memory::write_run(
                                        ready,
                                        ptr as int,
                                        bytes,
                                    );
                                    if !complete || (ptr != record.ptr && !copied.accepts(
                                        handle as int,
                                        4,
                                    )) {
                                        refuse(copied, PARAM_ERR)
                                    } else {
                                        let moved = self.move_block(
                                            record.ptr,
                                            ProcessHandleRecord { handle, ptr, size, capacity: size },
                                        );
                                        (
                                            ManagerModel {
                                                native: Some(block_taken(native, -1, cursor)),
                                                ..moved
                                            }.mem_error(NO_ERR),
                                            if ptr != record.ptr {
                                                copied.store(handle as int, crate::guest_memory::word_bytes(ptr))
                                            } else {
                                                copied
                                            },
                                            NO_ERR,
                                        )
                                    }
                                },
                            }
                        },
                    }
                },
                _ => refuse(space, MEM_FULL_ERR),
            }
        }
    }

    /// A native handle gets another logical size.
    pub open spec fn set_native_handle_size(self, space: SpaceModel, handle: u32, size: u32) -> (
        ManagerModel,
        SpaceModel,
        i16,
    ) {
        match self.record(handle) {
            None => (self.mem_error(NIL_HANDLE_ERR), space, NIL_HANDLE_ERR),
            Some(record) => if space.word(handle as int) != Some(record.ptr) {
                (self.mem_error(NIL_HANDLE_ERR), space, NIL_HANDLE_ERR)
            } else if size <= record.capacity {
                (
                    self.put_record(ProcessHandleRecord { size, ..record }).mem_error(NO_ERR),
                    space,
                    NO_ERR,
                )
            } else if record.ptr == 0 {
                self.fill_empty_handle(space, record, size)
            } else {
                self.grow_native_handle(space, record, size)
            },
        }
    }

    /// Bytes are put into an empty native resource handle.
    pub open spec fn load_native_resource(
        self,
        space: SpaceModel,
        handle: u32,
        bytes: Seq<u8>,
    ) -> (ManagerModel, SpaceModel, i16) {
        match self.record(handle) {
            None => (self.mem_error(NIL_HANDLE_ERR), space, NIL_HANDLE_ERR),
            Some(record) => if record.ptr != 0 {
                (self.mark_resource(handle).mem_error(NO_ERR), space, NO_ERR)
            } else if bytes.len() > u32::MAX {
                (self.mem_error(MEM_FULL_ERR), space, MEM_FULL_ERR)
            } else {
                let (sized, ready, error) = self.set_native_handle_size(
                    space,
                    handle,
                    bytes.len() as u32,
                );
                if error != NO_ERR {
                    (sized, ready, error)
                } else {
                    match sized.record(handle) {
                        None => (sized.mem_error(NIL_HANDLE_ERR), ready, NIL_HANDLE_ERR),
                        Some(updated) => {
                            let (written, complete) = crate::guest_memory::write_run(
                                ready,
                                updated.ptr as int,
                                bytes,
                            );
                            if complete {
                                (
                                    sized.mark_resource(handle).mem_error(NO_ERR),
                                    written,
                                    NO_ERR,
                                )
                            } else {
                                (sized.mem_error(PARAM_ERR), written, PARAM_ERR)
                            }
                        },
                    }
                }
            },
        }
    }

    /// Bytes are appended to a native handle.
    pub open spec fn append_to_native(self, space: SpaceModel, handle: u32, bytes: Seq<u8>) -> (
        ManagerModel,
        SpaceModel,
        i16,
    ) {
        match self.record(handle) {
            None => (self.mem_error(NIL_HANDLE_ERR), space, NIL_HANDLE_ERR),
            Some(record) => if record.size + bytes.len() > u32::MAX {
                (self.mem_error(MEM_FULL_ERR), space, MEM_FULL_ERR)
            } else {
                let (sized, ready, error) = self.set_native_handle_size(
                    space,
                    handle,
                    (record.size + bytes.len()) as u32,
                );
                if error != NO_ERR {
                    (sized, ready, error)
                } else {
                    let (written, complete) = crate::guest_memory::write_run(
                        ready,
                        sized.record(handle)->0.ptr + record.size,
                        bytes,
                    );
                    if complete {
                        (sized, written, NO_ERR)
                    } else {
                        (sized.mem_error(PARAM_ERR), written, PARAM_ERR)
                    }
                }
            },
        }
    }

    /// A fixed native block gets another logical size; it grows only as the
    /// last block of the heap.
    pub open spec fn set_native_ptr_size(self, space: SpaceModel, ptr: u32, size: u32) -> (
        ManagerModel,
        SpaceModel,
        i16,
    ) {
        let refuse = |space: SpaceModel, error: i16| (self.mem_error(error), space, error);
        match self.native_ptr(ptr) {
            None => refuse(space, MEM_WZ_ERR),
            Some(record) => {
                let native = self.native->0;
                let resized = NativeModel {
                    ptrs: native.ptrs.update(
                        crate::native_heap::ptr_index(native.ptrs, ptr),
                        ProcessPtrRecord { ptr, size },
                    ),
                    ..native
                };
                if size <= record.size {
                    (
                        ManagerModel { native: Some(resized), ..self }.mem_error(NO_ERR),
                        space,
                        NO_ERR,
                    )
                } else if crate::native_heap::native_size(record.size) is None {
                    refuse(space, PARAM_ERR)
                } else {
                    let old_end = ptr + crate::native_heap::native_size(record.size)->0;
                    let limit = self.allocation_limit(native.heap.heap_limit);
                    match crate::native_heap::native_size(size) {
                        None => refuse(space, MEM_FULL_ERR),
                        Some(capacity) => match crate::native_heap::native_bounds(
                            space.exclusions,
                            ptr,
                            limit,
                            capacity,
                        ) {
                            None => refuse(space, MEM_FULL_ERR),
                            Some((start, new_end)) => if old_end != native.heap.heap_cursor || start
                                != ptr {
                                refuse(space, MEM_FULL_ERR)
                            } else {
                                let growth = (new_end - old_end) as nat;
                                let ready = if growth > 0 && !space.bytes.dom().contains(old_end) {
                                    space.map_region(old_end, crate::guest_memory::zeros(growth), true)
                                } else {
                                    space
                                };
                                let (cleared, complete) = crate::guest_memory::write_run(
                                    ready,
                                    old_end,
                                    crate::guest_memory::zeros(growth),
                                );
                                if !complete {
                                    refuse(cleared, PARAM_ERR)
                                } else {
                                    (
                                        ManagerModel {
                                            native: Some(block_taken(resized, -1, new_end)),
                                            ..self
                                        }.mem_error(NO_ERR),
                                        cleared,
                                        NO_ERR,
                                    )
                                }
                            },
                        },
                    }
                }
            },
        }
    }

    /// A fixed native block is replaced by one of another size with the same
    /// leading bytes.
    pub open spec fn reallocate_native_ptr(self, space: SpaceModel, ptr: u32, size: u32) -> (
        ManagerModel,
        SpaceModel,
        u32,
    ) {
        if ptr == 0 {
            self.new_native_ptr(space, size, false)
        } else {
            match self.native_ptr(ptr) {
                None => (self.mem_error(PARAM_ERR), space, 0),
                Some(record) => if size == 0 {
                    (self.dispose_native_ptr(ptr).0, space, 0)
                } else {
                    let kept = if record.size < size { record.size } else { size };
                    if !space.mapped(ptr as int, kept as int) {
                        (self.mem_error(PARAM_ERR), space, 0)
                    } else {
                        let (allocated, ready, replacement) = self.new_native_ptr(
                            space,
                            size,
                            false,
                        );
                        if replacement == 0 {
                            (allocated, ready, 0)
                        } else if !ready.accepts(replacement as int, kept as int) {
                            (self.mem_error(PARAM_ERR), ready, 0)
                        } else {
                            (
                                allocated.dispose_native_ptr(ptr).0,
                                ready.store(
                                    replacement as int,
                                    space.load(ptr as int, kept as nat),
                                ),
                                replacement,
                            )
                        }
                    }
                },
            }
        }
    }
}

/// Whether a block starts below `base` and reaches past it.
pub open spec fn crosses(base: u32, ptr: u32, size: u32) -> bool {
    ptr < base && (crate::native_heap::native_size(size) matches Some(capacity) && ptr + capacity <= u32::MAX && ptr + capacity
        > base)
}

impl ManagerModel {
    /// Whether everything from `base` on is free or among the disposed blocks.
    pub open spec fn tail_reclaimable(
        self,
        base: u32,
        disposed_ptrs: Seq<u32>,
        disposed_handle: Option<u32>,
    ) -> bool {
        match self.native {
            None => false,
            Some(native) => {
                &&& native.heap.heap_base <= base <= native.heap.heap_cursor
                &&& forall|i: int|
                    0 <= i < disposed_ptrs.len() ==> crate::native_heap::ptr_index(
                        native.ptrs,
                        #[trigger] disposed_ptrs[i],
                    ) >= 0
                &&& forall|i: int|
                    0 <= i < native.ptrs.len() ==> {
                        let record = #[trigger] native.ptrs[i];
                        (record.ptr < base || disposed_ptrs.contains(record.ptr)) && !crosses(
                            base,
                            record.ptr,
                            record.size,
                        )
                    }
                &&& forall|i: int|
                    0 <= i < native.free_ptrs.len() ==> !crosses(
                        base,
                        (#[trigger] native.free_ptrs[i]).ptr,
                        native.free_ptrs[i].size,
                    )
                &&& forall|i: int|
                    0 <= i < self.records.len() ==> {
                        let record = #[trigger] self.records[i];
                        record.handle < base && record.ptr < base && !crosses(
                            base,
                            record.handle,
                            4,
                        ) && !crosses(base, record.ptr, record.capacity)
                    }
                &&& disposed_handle matches Some(handle) ==> exists|i: int|
                    0 <= i < native.free_handles.len() && (#[trigger] native.free_handles[i]).handle
                        == handle
            },
        }
    }

    /// The manager after the heap tail from `base` on was taken back.
    pub open spec fn reclaim_tail(self, base: u32, disposed_ptrs: Seq<u32>) -> ManagerModel {
        let native = self.native->0;
        ManagerModel {
            native: Some(
                NativeModel {
                    ptrs: native.ptrs.filter(
                        |record: ProcessPtrRecord| !disposed_ptrs.contains(record.ptr),
                    ),
                    free_ptrs: native.free_ptrs.filter(
                        |record: ProcessPtrRecord| record.ptr < base,
                    ),
                    free_handles: reclaimed_handles(native.free_handles, base),
                    heap: ProcessNativeHeapState { heap_cursor: base, ..native.heap },
                    ..native
                },
            ),
            ..self
        }.mem_error(NO_ERR)
    }
}

/// The free handles below `base`; one whose block lay in the tail is empty.
pub open spec fn reclaimed_handles(free: Seq<ProcessHandleRecord>, base: u32) -> Seq<
    ProcessHandleRecord,
>
    decreases free.len(),
{
    if free.len() == 0 {
        Seq::empty()
    } else {
        let rest = reclaimed_handles(free.drop_last(), base);
        let record = free.last();
        if record.handle >= base {
            rest
        } else if record.ptr >= base {
            rest.push(ProcessHandleRecord { handle: record.handle, ptr: 0, size: 0, capacity: 0 })
        } else {
            rest.push(record)
        }
    }
}


impl ManagerModel {
    /// Whether the heap cursor is the expected one and may move to another.
    pub open spec fn cursor_may_move(self, expected_cursor: u32, heap_cursor: u32) -> bool {
        match self.native {
            Some(native) => expected_cursor == native.heap.heap_cursor && expected_cursor
                <= heap_cursor < native.heap.heap_limit,
            None => false,
        }
    }

    pub open spec fn with_cursor(self, heap_cursor: u32) -> ManagerModel {
        ManagerModel {
            native: Some(block_taken(self.native->0, -1, heap_cursor)),
            dirty: true,
            ..self
        }
    }
}


impl ManagerModel {
    /// A resource block with an outside master pointer is published.
    pub open spec fn publish_external(self, handle: u32, ptr: u32, heap_cursor: u32) -> ManagerModel {
        if handle == 0 {
            self
        } else {
            let marked = ManagerModel {
                ptr_to_handle: if ptr != 0 {
                    self.ptr_to_handle.insert(ptr, handle)
                } else {
                    self.ptr_to_handle
                },
                ..self
            }.mark_resource(handle);
            match marked.native {
                Some(native) => ManagerModel {
                    native: Some(block_taken(native, -1, heap_cursor)),
                    ..marked
                }.mem_error(NO_ERR),
                None => marked,
            }
        }
    }

    /// The manager without native handles.
    pub open spec fn without_native_handles(self) -> ManagerModel {
        ManagerModel {
            ptr_to_handle: self.ptr_to_handle.remove_keys(self.native_ptrs),
            states: self.states.remove_keys(self.native_handles),
            high: self.high.remove_keys(self.native_handles),
            native_ptrs: Set::empty(),
            native_handles: Set::empty(),
            records: Seq::empty(),
            ..self
        }
    }
}

/// The manager after native handles were registered one after the other.
pub open spec fn registered(
    manager: ManagerModel,
    handles: Seq<(ProcessHandleRecord, u8)>,
) -> ManagerModel
    decreases handles.len(),
{
    if handles.len() == 0 {
        manager
    } else {
        let before = registered(manager, handles.drop_last());
        let (record, state) = handles.last();
        if record.handle == 0 {
            before
        } else {
            ManagerModel {
                ptr_to_handle: if record.ptr != 0 {
                    before.ptr_to_handle.insert(record.ptr, record.handle)
                } else {
                    before.ptr_to_handle
                },
                native_ptrs: if record.ptr != 0 {
                    before.native_ptrs.insert(record.ptr)
                } else {
                    before.native_ptrs
                },
                states: before.states.insert(record.handle, state),
                native_handles: before.native_handles.insert(record.handle),
                records: before.records.push(record),
                ..before
            }
        }
    }
}

} // verus!
