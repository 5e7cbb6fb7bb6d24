//! What Memory Manager operations of native imports do to classic blocks, as
//! mathematics. Native imports reach guest memory through the process address
//! space, without a bus.

use crate::guest_memory::SpaceModel;
use crate::memory_model::{
    ManagerModel, LOCKED_BIT, MEM_FULL_ERR, MEM_PUR_ERR, MEM_WZ_ERR, NIL_HANDLE_ERR, NO_ERR,
    PARAM_ERR, RESOURCE_BIT,
};
use vstd::prelude::*;

verus! {

/// A block of `capacity` bytes covers a byte of the master pointer at
/// `handle`.
pub open spec fn covers_master(handle: u32, ptr: u32, capacity: u32) -> bool {
    &&& handle + 4 <= u32::MAX
    &&& ptr < handle + 4
    &&& handle < ptr + capacity
}

impl ManagerModel {
    /// Where a classic handle and its block do not belong together.
    pub open spec fn mismatched(self, handle: u32, ptr: u32) -> bool {
        let heap = self.classic->0;
        let size = heap.size_of(ptr)->0;
        let capacity = heap.capacity_of(ptr)->0;
        ||| crate::process_map::map_get(self.ptr_to_handle, ptr) != Some(handle)
        ||| size > capacity
        ||| ptr == handle
        ||| covers_master(handle, ptr, capacity)
    }

    /// Logical size of a block by its handle and its address.
    pub open spec fn size_by_master(self, handle: u32, ptr: u32) -> (ManagerModel, Option<u32>) {
        let size = if handle == 0 || ptr == 0 {
            None
        } else {
            match (self.record(handle), self.classic) {
                (Some(record), _) if record.ptr == ptr => Some(record.size),
                (_, Some(heap)) => if heap.size_of(handle) == Some(4u32) {
                    heap.size_of(ptr)
                } else {
                    None
                },
                _ => None,
            }
        };
        (
            self.mem_error(
                if size is Some {
                    NO_ERR
                } else {
                    NIL_HANDLE_ERR
                },
            ),
            size,
        )
    }

    /// Logical size of a fixed block; zero where there is none.
    pub open spec fn import_ptr_size(self, ptr: u32) -> (ManagerModel, u32) {
        match (self.native_ptr(ptr), self.classic) {
            (Some(record), _) => (
                self.mem_error(
                    if record.size == 0 {
                        PARAM_ERR
                    } else {
                        NO_ERR
                    },
                ),
                record.size,
            ),
            (None, Some(heap)) if heap.size_of(ptr) is Some => (
                self.mem_error(NO_ERR),
                heap.size_of(ptr)->0,
            ),
            _ => (self.mem_error(PARAM_ERR), 0),
        }
    }

    /// A classic handle is made for a copy of bytes. Where that fails,
    /// nothing but the error code changes, except that a heap which could not
    /// place the block stays as the refused request left it.
    pub open spec fn import_copy_to_classic(self, space: SpaceModel, bytes: Seq<u8>) -> (
        ManagerModel,
        SpaceModel,
        Result<u32, i16>,
    ) {
        let fail = |error: i16| (self.mem_error(error), space, Err::<u32, i16>(error));
        match self.classic {
            None => fail(MEM_FULL_ERR),
            Some(heap) => if bytes.len() > u32::MAX {
                fail(MEM_FULL_ERR)
            } else {
                let limit = self.classic_limit->0;
                let size = bytes.len() as u32;
                let (with_block, ptr) = heap.allocate(size, 4, limit);
                let (with_master, handle) = with_block.allocate(4, 4, limit);
                if ptr == 0 && size > 0 {
                    (self.with_heap(with_block).mem_error(MEM_FULL_ERR), space, Err(MEM_FULL_ERR))
                } else if handle == 0 {
                    fail(MEM_FULL_ERR)
                } else if (size > 0 && !space.accepts(ptr as int, size as int)) || !space.accepts(
                    handle as int,
                    4,
                ) {
                    fail(PARAM_ERR)
                } else {
                    (
                        ManagerModel {
                            ptr_to_handle: self.ptr_to_handle.insert(ptr, handle),
                            ..self.with_heap(with_master)
                        }.set_state(handle, 0).mem_error(NO_ERR),
                        space.store(ptr as int, bytes).store(handle as int, crate::guest_memory::word_bytes(ptr)),
                        Ok(handle),
                    )
                }
            },
        }
    }

    /// The block that a handle names: its address, its size, and whether it
    /// is native.
    pub open spec fn import_source(self, space: SpaceModel, handle: u32) -> Result<
        (u32, u32, bool),
        i16,
    > {
        let word = space.word(handle as int);
        if handle == 0 {
            Err(NIL_HANDLE_ERR)
        } else {
            match self.record(handle) {
                Some(record) => if word is None || word == Some(0u32) {
                    Err(NIL_HANDLE_ERR)
                } else if word != Some(record.ptr) || crate::process_map::map_get(self.ptr_to_handle, record.ptr)
                    != Some(handle) || record.size > record.capacity {
                    Err(MEM_WZ_ERR)
                } else {
                    Ok((record.ptr, record.size, true))
                },
                None => match self.classic {
                    None => Err(NIL_HANDLE_ERR),
                    Some(heap) => if heap.size_of(handle) != Some(4u32) || word is None || word
                        == Some(0u32) {
                        Err(NIL_HANDLE_ERR)
                    } else if heap.size_of(word->0) is None || self.mismatched(handle, word->0) {
                        Err(MEM_WZ_ERR)
                    } else {
                        Ok((word->0, heap.size_of(word->0)->0, false))
                    },
                },
            }
        }
    }

    /// A relocatable block is copied into a handle of its own kind.
    pub open spec fn import_copy(self, space: SpaceModel, handle: u32) -> (
        ManagerModel,
        SpaceModel,
        Result<u32, i16>,
    ) {
        match self.import_source(space, handle) {
            Err(error) => (self.mem_error(error), space, Err(error)),
            Ok((ptr, size, native)) => if !space.mapped(ptr as int, size as int) {
                (self.mem_error(PARAM_ERR), space, Err(PARAM_ERR))
            } else {
                let bytes = space.load(ptr as int, size as nat);
                if native {
                    let (manager, after, copy) = self.copy_to_native(space, bytes);
                    if copy == 0 {
                        (manager, after, Err(manager.last_error()))
                    } else {
                        (manager.mem_error(NO_ERR), after, Ok(copy))
                    }
                } else {
                    self.import_copy_to_classic(space, bytes)
                }
            },
        }
    }

    /// A fixed block gets another logical size where it is.
    pub open spec fn import_set_ptr_size(self, space: SpaceModel, ptr: u32, new_size: u32) -> (
        ManagerModel,
        SpaceModel,
        i16,
    ) {
        if self.native_ptr(ptr) is Some {
            self.set_native_ptr_size(space, ptr, new_size)
        } else {
            match self.classic {
                Some(heap) if heap.size_of(ptr) is Some => {
                    let old_size = heap.size_of(ptr)->0;
                    let tail = ptr + new_size;
                    if !crate::memory_bus_model::bucket_within(new_size, heap.capacity_of(ptr)->0 as int) {
                        (self.mem_error(MEM_FULL_ERR), space, MEM_FULL_ERR)
                    } else if new_size < old_size && (tail > u32::MAX || !space.accepts(
                        tail,
                        old_size - new_size,
                    )) {
                        (self.mem_error(PARAM_ERR), space, PARAM_ERR)
                    } else {
                        (
                            self.with_heap(heap.resize(ptr, new_size)).mem_error(NO_ERR),
                            if new_size < old_size {
                                space.store(tail, crate::guest_memory::zeros((old_size - new_size) as nat))
                            } else {
                                space
                            },
                            NO_ERR,
                        )
                    }
                },
                _ => (self.mem_error(MEM_WZ_ERR), space, MEM_WZ_ERR),
            }
        }
    }

    /// A fixed classic block is released.
    pub open spec fn import_dispose_ptr(self, ptr: u32) -> (ManagerModel, bool) {
        match self.classic {
            Some(heap) if heap.size_of(ptr) is Some => (
                self.with_heap(heap.release(ptr)).mem_error(NO_ERR),
                true,
            ),
            _ => (self, false),
        }
    }

    /// The block of an unlocked handle is given up; the handle stays.
    pub open spec fn import_empty(self, space: SpaceModel, handle: u32) -> (
        ManagerModel,
        SpaceModel,
        i16,
    ) {
        if self.record(handle) is Some {
            self.empty_native(space, handle)
        } else {
            let state = self.state_or_clear(handle);
            let word = space.word(handle as int);
            match self.classic {
                Some(heap) if handle != 0 && heap.size_of(handle) == Some(4u32) => {
                    if state & RESOURCE_BIT != 0 {
                        (self.mem_error(NIL_HANDLE_ERR), space, NIL_HANDLE_ERR)
                    } else if state & LOCKED_BIT != 0 {
                        (self.mem_error(MEM_PUR_ERR), space, MEM_PUR_ERR)
                    } else if word is None || (word != Some(0u32) && heap.size_of(word->0) is None) {
                        (self.mem_error(MEM_WZ_ERR), space, MEM_WZ_ERR)
                    } else if !space.accepts(handle as int, 4) {
                        (self.mem_error(NIL_HANDLE_ERR), space, NIL_HANDLE_ERR)
                    } else {
                        let ptr = word->0;
                        (
                            (if ptr != 0 {
                                ManagerModel {
                                    ptr_to_handle: self.ptr_to_handle.remove(ptr),
                                    ..self.with_heap(heap.release(ptr))
                                }
                            } else {
                                self
                            }).mem_error(NO_ERR),
                            space.store(handle as int, crate::guest_memory::word_bytes(0)),
                            NO_ERR,
                        )
                    }
                },
                _ => (self.mem_error(NIL_HANDLE_ERR), space, NIL_HANDLE_ERR),
            }
        }
    }

    /// A handle is disposed of. The bytes of a classic handle and the reverse
    /// entry of its block stay.
    pub open spec fn import_dispose(self, space: SpaceModel, handle: u32) -> (
        ManagerModel,
        SpaceModel,
        bool,
    ) {
        if self.record(handle) is Some {
            let (manager, after, disposed) = self.dispose_native_handle(space, handle);
            (manager, after, disposed is Some)
        } else {
            let word = space.word(handle as int);
            match self.classic {
                Some(heap) if handle != 0 && heap.size_of(handle) == Some(4u32)
                    && self.state_or_clear(handle) & RESOURCE_BIT == 0 => {
                    if word is None || (word != Some(0u32) && heap.size_of(word->0) is None) {
                        (self.mem_error(MEM_WZ_ERR), space, false)
                    } else {
                        (
                            ManagerModel {
                                states: self.states.remove(handle),
                                high: self.high.remove(handle),
                                ..self.with_heap(heap.release(word->0).release(handle))
                            }.mem_error(NO_ERR),
                            space,
                            true,
                        )
                    }
                },
                _ => (self.mem_error(NO_ERR), space, false),
            }
        }
    }

    /// Size and capacity of the block at a master pointer; an empty handle
    /// has neither.
    pub open spec fn block_extent(self, ptr: u32) -> (u32, u32) {
        if ptr == 0 {
            (0, 0)
        } else {
            (self.classic->0.size_of(ptr)->0, self.classic->0.capacity_of(ptr)->0)
        }
    }

    /// A relocatable block gets another logical size. Where that fails,
    /// nothing but the error code changes.
    pub open spec fn import_set_handle_size(
        self,
        space: SpaceModel,
        handle: u32,
        new_size: u32,
    ) -> (ManagerModel, SpaceModel, i16) {
        let fail = |error: i16| (self.mem_error(error), space, error);
        if self.record(handle) is Some {
            self.set_native_handle_size(space, handle, new_size)
        } else {
            match self.classic {
                Some(heap) if handle != 0 && heap.size_of(handle) == Some(4u32)
                    && self.state_or_clear(handle) & RESOURCE_BIT == 0 && space.word(
                    handle as int,
                ) is Some => {
                    let ptr = space.word(handle as int)->0;
                    let (old_size, old_capacity) = self.block_extent(ptr);
                    if ptr != 0 && (heap.size_of(ptr) is None || self.mismatched(handle, ptr) || ptr
                        + old_capacity > u32::MAX) {
                        fail(MEM_WZ_ERR)
                    } else if new_size > u32::MAX - 3 {
                        fail(MEM_FULL_ERR)
                    } else if !space.accepts(handle as int, 4) {
                        fail(NIL_HANDLE_ERR)
                    } else if ptr == 0 && new_size == 0 {
                        (self.mem_error(NO_ERR), space, NO_ERR)
                    } else if ptr != 0 && crate::classic_heap::bucket_size(new_size as int) <= old_capacity {
                        self.import_resize_in_place(space, ptr, old_size, new_size)
                    } else if self.state_or_clear(handle) & LOCKED_BIT != 0 {
                        fail(MEM_FULL_ERR)
                    } else {
                        self.import_move(space, handle, ptr, new_size)
                    }
                },
                _ => fail(NIL_HANDLE_ERR),
            }
        }
    }

    /// A classic block whose capacity holds the new size keeps its place.
    pub open spec fn import_resize_in_place(
        self,
        space: SpaceModel,
        ptr: u32,
        old_size: u32,
        new_size: u32,
    ) -> (ManagerModel, SpaceModel, i16) {
        let tail = ptr + new_size;
        if !space.accepts(ptr as int, crate::classic_heap::bucket_size(new_size as int)) || (new_size < old_size
            && !space.accepts(tail, old_size - new_size)) {
            (self.mem_error(PARAM_ERR), space, PARAM_ERR)
        } else {
            (
                self.with_heap(self.classic->0.resize(ptr, new_size)).mem_error(NO_ERR),
                if new_size < old_size {
                    space.store(tail, crate::guest_memory::zeros((old_size - new_size) as nat))
                } else {
                    space
                },
                NO_ERR,
            )
        }
    }

    /// A classic block moves to a new block that takes its leading bytes
    /// over.
    pub open spec fn import_move(self, space: SpaceModel, handle: u32, ptr: u32, new_size: u32) -> (
        ManagerModel,
        SpaceModel,
        i16,
    ) {
        let heap = self.classic->0;
        let (old_size, old_capacity) = self.block_extent(ptr);
        let kept = if old_size < new_size {
            old_size
        } else {
            new_size
        };
        match heap.plan(new_size, 4, self.classic_limit->0) {
            None => (self.mem_error(MEM_FULL_ERR), space, MEM_FULL_ERR),
            Some(plan) => {
                let new_ptr = plan.address;
                let capacity = plan.spec_capacity();
                let mapped_handle = crate::process_map::map_get(self.ptr_to_handle, new_ptr);
                if new_ptr == handle || (new_ptr < ptr + old_capacity && ptr < new_ptr + capacity)
                    || heap.size_of(new_ptr) is Some || (mapped_handle is Some && mapped_handle
                    != Some(handle)) {
                    (self.mem_error(MEM_FULL_ERR), space, MEM_FULL_ERR)
                } else if !space.mapped(ptr as int, kept as int) || !space.accepts(
                    new_ptr as int,
                    capacity as int,
                ) {
                    (self.mem_error(PARAM_ERR), space, PARAM_ERR)
                } else {
                    let placed = heap.commit(plan);
                    (
                        ManagerModel {
                            ptr_to_handle: (if ptr != 0 {
                                self.ptr_to_handle.remove(ptr)
                            } else {
                                self.ptr_to_handle
                            }).insert(new_ptr, handle),
                            ..self.with_heap(
                                if ptr != 0 {
                                    placed.release(ptr)
                                } else {
                                    placed
                                },
                            )
                        }.mem_error(NO_ERR),
                        space.store(new_ptr as int, space.load(ptr as int, kept as nat)).store(
                            handle as int,
                            crate::guest_memory::word_bytes(new_ptr),
                        ),
                        NO_ERR,
                    )
                }
            },
        }
    }
}

} // verus!
