//! What Memory Manager operations that reach guest memory through a classic
//! bus do, as mathematics.

use crate::bus::BusModel;
use crate::classic_heap::HeapModel;
use crate::memory_model::{
    ManagerModel, ProcessNewHandleRequest, ProcessNewHandleResult, LOCKED_BIT, MEM_FULL_ERR,
    MEM_PUR_ERR, MEM_WZ_ERR, NIL_HANDLE_ERR, NO_ERR, PARAM_ERR,
};
use crate::native_heap::{NativeModel, ProcessHandleRecord, ProcessPtrRecord};
use vstd::prelude::*;

verus! {

/// Whether a request rounds up within the address range to the given capacity
/// at most.
pub open spec fn bucket_within(size: u32, capacity: int) -> bool {
    size <= u32::MAX - 3 && crate::classic_heap::bucket_size(size as int) <= capacity
}

impl ManagerModel {
    pub open spec fn with_heap(self, heap: HeapModel) -> ManagerModel {
        ManagerModel { classic: Some(heap), ..self }
    }

    /// A fixed classic block below an upper bound is requested. A bound
    /// outside the free part of the heap does not count.
    pub open spec fn new_classic_ptr(self, size: u32, upper_bound: u32) -> (ManagerModel, u32) {
        let heap = self.classic->0;
        let limit = self.classic_limit->0;
        let ceiling = if heap.heap_ptr < upper_bound < limit {
            upper_bound
        } else {
            limit
        };
        let (after, address) = heap.allocate(size, 4, ceiling);
        (self.with_heap(after), address)
    }

    /// A fixed block is released, native or classic.
    pub open spec fn dispose_ptr(self, ptr: u32) -> (ManagerModel, Option<ProcessPtrRecord>) {
        if self.native_ptr(ptr) is Some {
            self.dispose_native_ptr(ptr)
        } else {
            (self.with_heap(self.classic->0.release(ptr)), None)
        }
    }

    /// A classic relocatable block and its master pointer are allocated. A
    /// block without a master pointer is released again.
    pub open spec fn allocate_classic(self, bus: BusModel, size: u32, clear: bool) -> (
        ManagerModel,
        BusModel,
        Result<ProcessHandleRecord, i16>,
    ) {
        let limit = self.classic_limit->0;
        let (with_block, ptr) = self.classic->0.allocate(size, 4, limit);
        if ptr == 0 && size > 0 {
            (self.with_heap(with_block), bus, Err(MEM_FULL_ERR))
        } else {
            let (with_master, handle) = with_block.allocate(4, 4, limit);
            if handle == 0 {
                (self.with_heap(with_master.release(ptr)), bus, Err(MEM_FULL_ERR))
            } else {
                let record = ProcessHandleRecord {
                    handle,
                    ptr,
                    size,
                    capacity: match with_master.capacity_of(ptr) {
                        Some(capacity) => capacity,
                        None => crate::classic_heap::bucket_size(size as int) as u32,
                    },
                };
                let linked = bus.store(handle as int, crate::guest_memory::word_bytes(ptr));
                (
                    self.with_heap(with_master).commit_new_handle(record, false),
                    if clear && size > 0 {
                        linked.store(ptr as int, crate::guest_memory::zeros(size as nat))
                    } else {
                        linked
                    },
                    Ok(record),
                )
            }
        }
    }

    /// A handle request goes to the classic heap.
    pub open spec fn new_handle_classic(self, bus: BusModel, request: ProcessNewHandleRequest) -> (
        ManagerModel,
        BusModel,
        ProcessNewHandleResult,
    ) {
        if request.logical_size < 0 {
            (
                self.mem_error(MEM_FULL_ERR),
                bus,
                ProcessNewHandleResult::spec_failure(MEM_FULL_ERR),
            )
        } else {
            let (manager, after, allocated) = self.allocate_classic(
                bus,
                request.logical_size as u32,
                request.clear,
            );
            let result = match allocated {
                Ok(record) => ProcessNewHandleResult::spec_success(record.handle, record.ptr),
                Err(error) => ProcessNewHandleResult::spec_failure(error),
            };
            (manager.mem_error(result.error), after, result)
        }
    }

    pub open spec fn new_classic_handle(self, bus: BusModel, size: u32) -> (
        ManagerModel,
        BusModel,
        Result<(u32, u32), i16>,
    ) {
        if size > i32::MAX {
            (self.mem_error(MEM_FULL_ERR), bus, Err(MEM_FULL_ERR))
        } else {
            let (manager, after, result) = self.new_handle_classic(
                bus,
                ProcessNewHandleRequest {
                    logical_size: size as i32,
                    clear: false,
                    heap: crate::memory_model::ProcessHandleHeap::Current,
                },
            );
            (
                manager,
                after,
                if result.error == NO_ERR {
                    Ok((result.handle, result.data_ptr))
                } else {
                    Err(result.error)
                },
            )
        }
    }

    /// A classic handle is made for a copy of bytes.
    pub open spec fn copy_to_classic(self, bus: BusModel, bytes: Seq<u8>) -> (
        ManagerModel,
        BusModel,
        Result<(u32, u32), i16>,
    ) {
        if bytes.len() > u32::MAX {
            (self, bus, Err(MEM_FULL_ERR))
        } else {
            let (manager, after, result) = self.new_classic_handle(bus, bytes.len() as u32);
            match result {
                Ok((handle, ptr)) => (manager, after.store(ptr as int, bytes), result),
                Err(_) => (manager, after, result),
            }
        }
    }

    /// The bytes of a relocatable block.
    pub open spec fn handle_bytes(self, bus: BusModel, handle: u32) -> Result<Seq<u8>, i16> {
        let ptr = bus.long(handle as int);
        let heap = self.classic->0;
        if handle == 0 || ptr == 0 {
            Err(NIL_HANDLE_ERR)
        } else {
            match self.record(handle) {
                Some(record) => if record.ptr != ptr {
                    Err(NIL_HANDLE_ERR)
                } else {
                    Ok(bus.load(ptr as int, record.size as nat))
                },
                None => if heap.size_of(handle) != Some(4u32) {
                    Err(MEM_WZ_ERR)
                } else {
                    match heap.size_of(ptr) {
                        Some(size) => Ok(bus.load(ptr as int, size as nat)),
                        None => Err(MEM_WZ_ERR),
                    }
                },
            }
        }
    }

    /// A relocatable block is copied into a handle of its own kind.
    pub open spec fn copy_handle(self, bus: BusModel, handle: u32) -> (
        ManagerModel,
        BusModel,
        Result<(u32, u32), i16>,
    ) {
        match self.handle_bytes(bus, handle) {
            Err(error) => (self, bus, Err(error)),
            Ok(bytes) => if self.record(handle) is Some {
                match bus.foreign {
                    None => (self, bus, Err(PARAM_ERR)),
                    Some(space) => {
                        let (manager, after, copy) = self.copy_to_native(space, bytes);
                        let reached = BusModel { foreign: Some(after), ..bus };
                        (
                            manager,
                            reached,
                            if copy == 0 {
                                Err(manager.last_error())
                            } else {
                                Ok((copy, reached.long(copy as int)))
                            },
                        )
                    },
                }
            } else {
                self.copy_to_classic(bus, bytes)
            },
        }
    }

    /// Where the bytes of a native block go: the block, the free block it
    /// takes or a negative number, the cursor after it, and the capacity.
    pub open spec fn relocation(
        self,
        native: NativeModel,
        exclusions: Seq<(u32, u32)>,
        record: ProcessHandleRecord,
        size: u32,
        aligned: u32,
        force: bool,
    ) -> Option<(u32, int, u32, u32)> {
        let limit = self.allocation_limit(native.heap.heap_limit);
        if force {
            match crate::memory_model::place_block(native, exclusions, limit, aligned, Some(record.ptr)) {
                Some((ptr, reused, cursor)) => Some((ptr, reused, cursor, size)),
                None => None,
            }
        } else if size > record.capacity {
            match crate::native_heap::native_size(record.capacity) {
                None => None,
                Some(old_aligned) => match self.grown_block(
                    native,
                    exclusions,
                    record.ptr,
                    old_aligned,
                    aligned,
                ) {
                    Some((ptr, cursor)) => Some((ptr, -1, cursor, size)),
                    None => None,
                },
            }
        } else {
            Some((record.ptr, -1, native.heap.heap_cursor, record.capacity))
        }
    }

    /// The bytes of a native block are replaced; the block moves where it
    /// must, or where that is forced.
    pub open spec fn relocate(
        self,
        bus: BusModel,
        handle: u32,
        expected_ptr: u32,
        bytes: Seq<u8>,
        force: bool,
    ) -> (ManagerModel, BusModel, Result<(u32, u32), i16>) {
        let refuse = |bus: BusModel, error: i16|
            (self.mem_error(error), bus, Err::<(u32, u32), i16>(error));
        let current = bus.long(handle as int);
        match self.record(handle) {
            None => refuse(bus, NIL_HANDLE_ERR),
            Some(record) => if current != expected_ptr || record.ptr != current || (current == 0
                && !force) {
                refuse(bus, NIL_HANDLE_ERR)
            } else if bytes.len() > u32::MAX || crate::native_heap::native_size(bytes.len() as u32) is None {
                refuse(bus, MEM_FULL_ERR)
            } else {
                let size = bytes.len() as u32;
                match self.native {
                    None => (self, bus, Err(NIL_HANDLE_ERR)),
                    Some(native) => match self.relocation(
                        native,
                        bus.exclusions(),
                        record,
                        size,
                        crate::native_heap::native_size(size)->0,
                        force,
                    ) {
                        None => refuse(bus, MEM_FULL_ERR),
                        Some((ptr, reused, cursor, capacity)) => {
                            if !bus.foreign_accepts(ptr as int, bytes.len() as int) {
                                refuse(bus, NIL_HANDLE_ERR)
                            } else {
                                let written = bus.foreign_store(ptr as int, bytes);
                                if ptr != current && !written.foreign_accepts(handle as int, 4) {
                                    refuse(written, NIL_HANDLE_ERR)
                                } else {
                                    let taken = crate::memory_model::block_taken(native, reused, cursor);
                                    let moved = self.move_block(
                                        current,
                                        ProcessHandleRecord { handle, ptr, size, capacity },
                                    );
                                    (
                                        ManagerModel {
                                            native: Some(
                                                NativeModel {
                                                    free_ptrs: if ptr != current && current != 0 {
                                                        taken.free_ptrs.push(
                                                            ProcessPtrRecord {
                                                                ptr: current,
                                                                size: record.capacity,
                                                            },
                                                        )
                                                    } else {
                                                        taken.free_ptrs
                                                    },
                                                    ..taken
                                                },
                                            ),
                                            ..moved
                                        }.mem_error(NO_ERR),
                                        if ptr != current {
                                            written.foreign_store(handle as int, crate::guest_memory::word_bytes(ptr))
                                        } else {
                                            written
                                        },
                                        Ok((current, ptr)),
                                    )
                                }
                            }
                        },
                    },
                }
            },
        }
    }

    /// The manager after a classic block moved.
    pub open spec fn reindex(self, old_ptr: u32, new_ptr: u32, handle: u32) -> ManagerModel {
        ManagerModel {
            ptr_to_handle: self.ptr_to_handle.remove(old_ptr).insert(new_ptr, handle),
            ..self
        }
    }

    /// A classic block is moved to a new block of another size, which takes
    /// the leading bytes over.
    pub open spec fn move_classic(self, bus: BusModel, handle: u32, old_ptr: u32, new_size: u32) -> (
        ManagerModel,
        BusModel,
        Option<u32>,
    ) {
        let heap = self.classic->0;
        let old_size = match heap.size_of(old_ptr) {
            Some(size) => size,
            None => 0,
        };
        let (allocated, new_ptr) = heap.allocate(new_size, 4, self.classic_limit->0);
        if new_ptr == 0 && new_size > 0 {
            (self.with_heap(allocated), bus, None)
        } else {
            let kept = if old_size < new_size {
                old_size
            } else {
                new_size
            };
            let copied = bus.store(new_ptr as int, bus.load(old_ptr as int, kept as nat));
            (
                self.with_heap(allocated.release(old_ptr)),
                copied.store(handle as int, crate::guest_memory::word_bytes(new_ptr)),
                Some(new_ptr),
            )
        }
    }

    /// A classic block gets another logical size where it is.
    pub open spec fn resize_in_place(self, bus: BusModel, ptr: u32, new_size: u32) -> (
        ManagerModel,
        BusModel,
    ) {
        let heap = self.classic->0;
        let old_size = match heap.size_of(ptr) {
            Some(size) => size,
            None => 0,
        };
        (
            self.with_heap(heap.resize(ptr, new_size)),
            if new_size < old_size {
                bus.store(
                    (ptr + new_size) % 0x1_0000_0000,
                    crate::guest_memory::zeros((old_size - new_size) as nat),
                )
            } else {
                bus
            },
        )
    }

    /// A relocatable block gets another logical size.
    pub open spec fn set_handle_size(self, bus: BusModel, handle: u32, new_size: u32) -> (
        ManagerModel,
        BusModel,
        i16,
    ) {
        if handle == 0 {
            (self, bus, NIL_HANDLE_ERR)
        } else {
            match self.record(handle) {
                Some(record) => {
                    let kept = if record.size < new_size {
                        record.size
                    } else {
                        new_size
                    };
                    let bytes = bus.load(record.ptr as int, kept as nat) + crate::guest_memory::zeros(
                        (new_size - kept) as nat,
                    );
                    let (manager, after, result) = self.relocate(
                        bus,
                        handle,
                        record.ptr,
                        bytes,
                        false,
                    );
                    (
                        manager,
                        after,
                        match result {
                            Ok(_) => NO_ERR,
                            Err(error) => error,
                        },
                    )
                },
                None => {
                    let old_ptr = bus.long(handle as int);
                    let old_size = match self.classic->0.size_of(old_ptr) {
                        Some(size) => size,
                        None => 0,
                    };
                    if old_size == new_size || (old_ptr != 0 && new_size <= u32::MAX - 3
                        && crate::classic_heap::bucket_size(new_size as int) == crate::classic_heap::bucket_size(old_size as int)) {
                        let (manager, after) = self.resize_in_place(bus, old_ptr, new_size);
                        (manager, after, NO_ERR)
                    } else {
                        let (manager, after, moved) = self.move_classic(
                            bus,
                            handle,
                            old_ptr,
                            new_size,
                        );
                        match moved {
                            None => (manager, after, MEM_FULL_ERR),
                            Some(new_ptr) => (
                                manager.reindex(old_ptr, new_ptr, handle),
                                after,
                                NO_ERR,
                            ),
                        }
                    }
                },
            }
        }
    }

    /// A relocatable block's bytes are replaced.
    pub open spec fn replace_handle_bytes(self, bus: BusModel, handle: u32, bytes: Seq<u8>) -> (
        ManagerModel,
        BusModel,
        i16,
    ) {
        if handle == 0 {
            (self, bus, NIL_HANDLE_ERR)
        } else {
            match self.record(handle) {
                Some(record) => {
                    let (manager, after, result) = self.relocate(
                        bus,
                        handle,
                        record.ptr,
                        bytes,
                        false,
                    );
                    (
                        manager,
                        after,
                        match result {
                            Ok(_) => NO_ERR,
                            Err(error) => error,
                        },
                    )
                },
                None => if self.classic->0.size_of(handle) != Some(4u32) {
                    (self, bus, MEM_WZ_ERR)
                } else if bytes.len() > u32::MAX {
                    (self, bus, MEM_FULL_ERR)
                } else {
                    let (manager, after, error) = self.set_handle_size(
                        bus,
                        handle,
                        bytes.len() as u32,
                    );
                    if error != NO_ERR {
                        (manager, after, error)
                    } else {
                        (
                            manager,
                            after.store(after.long(handle as int) as int, bytes),
                            NO_ERR,
                        )
                    }
                },
            }
        }
    }

    /// Bytes are appended to a relocatable block.
    pub open spec fn append_to_handle(self, bus: BusModel, handle: u32, bytes: Seq<u8>) -> (
        ManagerModel,
        BusModel,
        i16,
    ) {
        match self.handle_bytes(bus, handle) {
            Err(error) => (self, bus, error),
            Ok(present) => if present.len() + bytes.len() > usize::MAX {
                (self, bus, MEM_FULL_ERR)
            } else {
                self.replace_handle_bytes(bus, handle, present + bytes)
            },
        }
    }

    /// A resource handle gets another logical size.
    pub open spec fn resize_resource(
        self,
        bus: BusModel,
        handle: u32,
        backing_ptr: u32,
        new_size: u32,
    ) -> (ManagerModel, BusModel, Result<(u32, u32), i16>) {
        if handle == 0 {
            (self, bus, Err(NIL_HANDLE_ERR))
        } else {
            match self.record(handle) {
                Some(record) => if record.ptr == 0 {
                    if new_size == 0 {
                        (self.mem_error(NO_ERR), bus, Ok((0u32, 0u32)))
                    } else {
                        self.relocate(bus, handle, 0, crate::guest_memory::zeros(new_size as nat), true)
                    }
                } else if backing_ptr != 0 && backing_ptr != record.ptr {
                    (self.mem_error(NIL_HANDLE_ERR), bus, Err(NIL_HANDLE_ERR))
                } else {
                    let (manager, after, error) = self.set_handle_size(bus, handle, new_size);
                    (
                        manager,
                        after,
                        if error != NO_ERR {
                            Err(error)
                        } else {
                            match manager.record(handle) {
                                Some(updated) => Ok((record.ptr, updated.ptr)),
                                None => Err(NIL_HANDLE_ERR),
                            }
                        },
                    )
                },
                None => self.resize_classic_resource(bus, handle, backing_ptr, new_size),
            }
        }
    }

    pub open spec fn resize_classic_resource(
        self,
        bus: BusModel,
        handle: u32,
        backing_ptr: u32,
        new_size: u32,
    ) -> (ManagerModel, BusModel, Result<(u32, u32), i16>) {
        let heap = self.classic->0;
        let live_ptr = bus.long(handle as int);
        let old_ptr = if live_ptr != 0 {
            live_ptr
        } else {
            backing_ptr
        };
        let old_size = match heap.size_of(old_ptr) {
            Some(size) => size,
            None => 0,
        };
        if heap.size_of(handle) != Some(4u32) {
            (self, bus, Err(MEM_WZ_ERR))
        } else if old_ptr == 0 && new_size == 0 {
            (self, bus, Ok((0u32, 0u32)))
        } else if old_ptr != 0 && bucket_within(new_size, crate::classic_heap::bucket_size(old_size as int)) {
            let (manager, after) = self.resize_in_place(bus, old_ptr, new_size);
            (manager, after, Ok((old_ptr, old_ptr)))
        } else {
            let (manager, after, moved) = self.move_classic(bus, handle, old_ptr, new_size);
            match moved {
                None => (manager, after, Err(MEM_FULL_ERR)),
                Some(new_ptr) => {
                    let removed = if old_ptr != 0 {
                        manager.ptr_to_handle.remove(old_ptr)
                    } else {
                        manager.ptr_to_handle
                    };
                    (
                        ManagerModel {
                            ptr_to_handle: if new_ptr != 0 {
                                removed.insert(new_ptr, handle)
                            } else {
                                removed
                            },
                            ..manager
                        },
                        after,
                        Ok((old_ptr, new_ptr)),
                    )
                },
            }
        }
    }

    /// The manager after a replaced block was left unlocked and unpurgeable.
    pub open spec fn clear_properties(self, handle: u32) -> ManagerModel {
        let state = (match crate::process_map::map_get(self.states, handle) {
            Some(state) => state,
            None => 0u8,
        }) & !0xC0u8;
        ManagerModel {
            states: if state != 0 {
                self.states.insert(handle, state)
            } else {
                self.states.remove(handle)
            },
            high: self.high.remove(handle),
            ..self
        }
    }

    /// A relocatable block is replaced by one with other contents.
    pub open spec fn reallocate(self, bus: BusModel, handle: u32, size: u32) -> (
        ManagerModel,
        BusModel,
        Result<(u32, u32), i16>,
    ) {
        let full = (self.mem_error(MEM_FULL_ERR), bus, Err::<(u32, u32), i16>(MEM_FULL_ERR));
        if size > i32::MAX {
            full
        } else {
            match self.record(handle) {
                Some(record) => match (crate::native_heap::native_size(size), self.native) {
                    (Some(required), Some(native)) => {
                        let limit = self.allocation_limit(native.heap.heap_limit);
                        if crate::memory_model::place_block(
                            native,
                            bus.exclusions(),
                            limit,
                            required,
                            Some(record.ptr),
                        ) is None {
                            full
                        } else {
                            let (manager, after, result) = self.relocate(
                                bus,
                                handle,
                                record.ptr,
                                crate::bus::repeated(0xA5, size as nat),
                                true,
                            );
                            (
                                if result is Ok {
                                    manager.clear_properties(handle)
                                } else {
                                    manager
                                },
                                after,
                                result,
                            )
                        }
                    },
                    _ => full,
                },
                None => {
                    let heap = self.classic->0;
                    if handle == 0 || heap.size_of(handle) != Some(4u32) {
                        (self, bus, Err(MEM_WZ_ERR))
                    } else {
                        let (allocated, new_ptr) = heap.allocate(size, 4, self.classic_limit->0);
                        if new_ptr == 0 && size > 0 {
                            (self.with_heap(allocated), bus, Err(MEM_FULL_ERR))
                        } else {
                            let filled = bus.store(new_ptr as int, crate::bus::repeated(0xA5, size as nat));
                            let old_ptr = filled.long(handle as int);
                            (
                                self.with_heap(allocated.release(old_ptr)).reindex(
                                    old_ptr,
                                    new_ptr,
                                    handle,
                                ).clear_properties(handle),
                                filled.store(handle as int, crate::guest_memory::word_bytes(new_ptr)),
                                Ok((old_ptr, new_ptr)),
                            )
                        }
                    }
                },
            }
        }
    }

    /// The block of an unlocked handle is given up; the handle stays.
    pub open spec fn empty_handle(self, bus: BusModel, handle: u32) -> (ManagerModel, BusModel, i16) {
        let locked = self.state_or_clear(handle) & LOCKED_BIT != 0;
        let ptr = bus.long(handle as int);
        match self.record(handle) {
            Some(record) => if locked {
                (self.mem_error(MEM_PUR_ERR), bus, MEM_PUR_ERR)
            } else if ptr != record.ptr || !bus.foreign_accepts(handle as int, 4) {
                (self.mem_error(NIL_HANDLE_ERR), bus, NIL_HANDLE_ERR)
            } else {
                (
                    self.commit_empty(record),
                    bus.foreign_store(handle as int, crate::guest_memory::word_bytes(0)),
                    NO_ERR,
                )
            },
            None => if handle == 0 || self.classic->0.size_of(handle) != Some(4u32) {
                (self, bus, MEM_WZ_ERR)
            } else if locked {
                (self, bus, MEM_PUR_ERR)
            } else {
                (
                    if ptr != 0 {
                        ManagerModel {
                            ptr_to_handle: self.ptr_to_handle.remove(ptr),
                            ..self.with_heap(self.classic->0.release(ptr))
                        }
                    } else {
                        self
                    },
                    bus.store(handle as int, crate::guest_memory::word_bytes(0)),
                    NO_ERR,
                )
            },
        }
    }

    /// A classic master pointer without a block is allocated.
    pub open spec fn new_empty_classic(self, bus: BusModel) -> (
        ManagerModel,
        BusModel,
        Result<u32, i16>,
    ) {
        let (heap, handle) = self.classic->0.allocate(4, 4, self.classic_limit->0);
        if handle == 0 {
            (self.with_heap(heap), bus, Err(MEM_FULL_ERR))
        } else {
            (self.with_heap(heap), bus.store(handle as int, crate::guest_memory::word_bytes(0)), Ok(handle))
        }
    }

    /// A classic handle is disposed of. The reverse entry of its block stays.
    pub open spec fn dispose_classic(self, bus: BusModel, handle: u32, dispose_data: bool) -> ManagerModel {
        if handle == 0 {
            self
        } else {
            let heap = if dispose_data {
                self.classic->0.release(bus.long(handle as int))
            } else {
                self.classic->0
            };
            ManagerModel {
                states: self.states.remove(handle),
                high: self.high.remove(handle),
                ..self.with_heap(heap.release(handle))
            }
        }
    }

    /// A handle is disposed of, native or classic.
    pub open spec fn dispose_handle(
        self,
        bus: BusModel,
        handle: u32,
        dispose_classic_data: bool,
    ) -> (ManagerModel, BusModel, Result<Option<ProcessHandleRecord>, i16>) {
        match self.record(handle) {
            None => (self.dispose_classic(bus, handle, dispose_classic_data), bus, Ok(None)),
            Some(record) => if bus.long(handle as int) != record.ptr || !bus.foreign_accepts(
                handle as int,
                4,
            ) {
                (self.mem_error(NIL_HANDLE_ERR), bus, Err(NIL_HANDLE_ERR))
            } else {
                (
                    self.commit_dispose(crate::native_heap::handle_index(self.records, handle), record),
                    bus.foreign_store(handle as int, crate::guest_memory::word_bytes(0)),
                    Ok(Some(record)),
                )
            },
        }
    }

    /// Logical size of a fixed block.
    pub open spec fn ptr_size(self, ptr: u32) -> Option<u32> {
        match self.native_ptr(ptr) {
            Some(record) => Some(record.size),
            None => self.classic->0.size_of(ptr),
        }
    }

    /// A fixed block gets another logical size where it is.
    pub open spec fn set_ptr_size(self, bus: BusModel, ptr: u32, new_size: u32) -> (
        ManagerModel,
        BusModel,
        i16,
    ) {
        if ptr == 0 {
            (self.mem_error(NIL_HANDLE_ERR), bus, NIL_HANDLE_ERR)
        } else {
            match self.native_ptr(ptr) {
                Some(record) => if !bucket_within(new_size, crate::classic_heap::bucket_size(record.size as int)) {
                    (self.mem_error(MEM_FULL_ERR), bus, MEM_FULL_ERR)
                } else {
                    let native = self.native->0;
                    (
                        ManagerModel {
                            native: Some(
                                NativeModel {
                                    ptrs: native.ptrs.update(
                                        crate::native_heap::ptr_index(native.ptrs, ptr),
                                        ProcessPtrRecord { ptr, size: new_size },
                                    ),
                                    ..native
                                },
                            ),
                            ..self
                        }.mem_error(NO_ERR),
                        if new_size < record.size {
                            bus.store(
                                (ptr + new_size) % 0x1_0000_0000,
                                crate::guest_memory::zeros((record.size - new_size) as nat),
                            )
                        } else {
                            bus
                        },
                        NO_ERR,
                    )
                },
                None => match self.classic->0.capacity_of(ptr) {
                    None => (self.mem_error(MEM_WZ_ERR), bus, MEM_WZ_ERR),
                    Some(capacity) => if !bucket_within(new_size, capacity as int) {
                        (self.mem_error(MEM_FULL_ERR), bus, MEM_FULL_ERR)
                    } else {
                        let (manager, after) = self.resize_in_place(bus, ptr, new_size);
                        (manager.mem_error(NO_ERR), after, NO_ERR)
                    },
                },
            }
        }
    }

    /// Logical size of a relocatable block.
    pub open spec fn handle_size(self, bus: BusModel, handle: u32) -> Option<u32> {
        match self.record(handle) {
            Some(record) => Some(record.size),
            None => if handle == 0 {
                None
            } else {
                self.classic->0.size_of(bus.long(handle as int))
            },
        }
    }
}

} // verus!
