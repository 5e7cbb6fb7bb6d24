//! Resizing native blocks keeps them apart.

use crate::guest_memory::SpaceModel;
use crate::memory_model::{
    ManagerModel, MEM_FULL_ERR, MEM_WZ_ERR, NIL_HANDLE_ERR, NO_ERR, PARAM_ERR,
};
use crate::native_heap::ProcessHandleRecord;
use vstd::prelude::*;

verus! {

/// A live handle and its place.
proof fn lemma_live_handle(manager: ManagerModel, handle: u32)
    requires
        crate::native_blocks::native_blocks_apart(manager),
        manager.record(handle) is Some,
    ensures
        ({
            let index = crate::native_heap::handle_index(manager.records, handle);
            &&& 0 <= index < manager.records.len()
            &&& manager.records[index].handle == handle
            &&& manager.record(handle) == Some(manager.records[index])
            &&& crate::native_blocks::fits_block(manager.records[index])
            &&& crate::native_blocks::has_block(manager, (2, index))
            &&& manager.records[index].ptr != 0 ==> crate::native_blocks::has_block(
                manager,
                (3, index),
            ) && crate::native_blocks::block_inside(manager, (3, index))
        }),
{
    crate::native_heap::lemma_handle_index(manager.records, handle);
}

/// A handle that gets another size within its capacity keeps the blocks apart.
proof fn lemma_resized_within_capacity(manager: ManagerModel, handle: u32, size: u32)
    requires
        crate::native_blocks::native_blocks_apart(manager),
        manager.record(handle) is Some,
        size <= manager.record(handle)->0.capacity,
    ensures
        crate::native_blocks::native_blocks_apart(
            manager.put_record(
                ProcessHandleRecord { size, ..manager.record(handle)->0 },
            ).mem_error(NO_ERR),
        ),
{
    lemma_live_handle(manager, handle);
    let index = crate::native_heap::handle_index(manager.records, handle);
    let record = manager.records[index];
    let after = manager.put_record(ProcessHandleRecord { size, ..record }).mem_error(NO_ERR);
    crate::native_blocks::lemma_occupied_grows(size, record.capacity);
    crate::native_blocks::lemma_refit(
        manager,
        after,
        |b: (int, int)| b,
        |b: (int, int)| false,
    );
}

/// An empty handle that gets a block keeps the blocks apart.
#[verifier::rlimit(30)]
proof fn lemma_filled(manager: ManagerModel, space: SpaceModel, record: ProcessHandleRecord, size: u32)
    requires
        crate::native_blocks::native_blocks_apart(manager),
        manager.record(record.handle) == Some(record),
        record.ptr == 0,
    ensures
        ({
            let (after, left, error) = manager.fill_empty_handle(space, record, size);
            &&& crate::native_blocks::native_blocks_apart(after)
            &&& error != 0 ==> after == manager.mem_error(error)
        }),
{
    let (after, left, error) = manager.fill_empty_handle(space, record, size);
    let native = manager.native->0;
    crate::native_blocks::reporting_keeps_native_blocks_apart(manager, MEM_FULL_ERR);
    crate::native_blocks::reporting_keeps_native_blocks_apart(manager, PARAM_ERR);
    lemma_live_handle(manager, record.handle);
    let index = crate::native_heap::handle_index(manager.records, record.handle);
    if let Some(required) = crate::native_heap::native_size(size) {
        let limit = manager.allocation_limit(native.heap.heap_limit);
        crate::native_heap::lemma_native_size(size);
        crate::native_heap::lemma_best_ptr(native.free_ptrs, required, limit, None);
        crate::native_blocks::lemma_bounds_after_cursor(
            space.exclusions,
            native.heap.heap_cursor,
            limit,
            required,
        );
        if let Some((ptr, reused, cursor)) = crate::memory_model::place_block(
            native,
            space.exclusions,
            limit,
            required,
            None,
        ) {
            if error == 0 {
                let frees = native.free_ptrs.len() as int;
                if reused >= 0 {
                    assert(crate::native_blocks::has_block(manager, (1, reused)));
                    assert(crate::native_blocks::block_inside(manager, (1, reused)));
                    crate::native_blocks::lemma_refit(
                        manager,
                        after,
                        |b: (int, int)|
                            if b == (3int, index) {
                                (1, reused)
                            } else if b.0 == 1 {
                                (1, crate::native_blocks::moved_from(b.1, reused, frees))
                            } else {
                                b
                            },
                        |b: (int, int)| false,
                    );
                } else {
                    crate::native_blocks::lemma_refit(
                        manager,
                        after,
                        |b: (int, int)| b,
                        |b: (int, int)| b == (3int, index),
                    );
                }
            }
        }
    }
}

/// A handle whose block grows keeps the blocks apart.
#[verifier::rlimit(30)]
proof fn lemma_grown(manager: ManagerModel, space: SpaceModel, record: ProcessHandleRecord, size: u32)
    requires
        crate::native_blocks::native_blocks_apart(manager),
        manager.record(record.handle) == Some(record),
        record.ptr != 0,
        size > record.capacity,
    ensures
        ({
            let (after, left, error) = manager.grow_native_handle(space, record, size);
            &&& crate::native_blocks::native_blocks_apart(after)
            &&& error != 0 ==> after == manager.mem_error(error)
        }),
{
    let (after, left, error) = manager.grow_native_handle(space, record, size);
    let native = manager.native->0;
    crate::native_blocks::reporting_keeps_native_blocks_apart(manager, MEM_FULL_ERR);
    crate::native_blocks::reporting_keeps_native_blocks_apart(manager, PARAM_ERR);
    lemma_live_handle(manager, record.handle);
    let index = crate::native_heap::handle_index(manager.records, record.handle);
    if error == 0 {
        let limit = manager.allocation_limit(native.heap.heap_limit);
        let old_aligned = crate::native_heap::native_size(record.size)->0;
        let new_aligned = crate::native_heap::native_size(size)->0;
        crate::native_heap::lemma_native_size(size);
        crate::native_blocks::lemma_occupied_grows(record.capacity, size);
        crate::native_blocks::lemma_bounds_after_cursor(
            space.exclusions,
            native.heap.heap_cursor,
            limit,
            new_aligned,
        );
        crate::native_blocks::lemma_bounds_after_cursor(
            space.exclusions,
            record.ptr,
            limit,
            new_aligned,
        );
        let (ptr, cursor) = manager.grown_block(
            native,
            space.exclusions,
            record.ptr,
            old_aligned,
            new_aligned,
        )->0;
        assert(after.records == manager.records.update(
            index,
            ProcessHandleRecord { handle: record.handle, ptr, size, capacity: size },
        ));
        if ptr == record.ptr {
            assert(crate::native_blocks::block_end(manager, (3, index))
                == native.heap.heap_cursor);
            crate::native_blocks::lemma_extend(manager, after, (3, index));
        } else {
            crate::native_blocks::lemma_refit(
                manager,
                after,
                |b: (int, int)| b,
                |b: (int, int)| b == (3int, index),
            );
        }
    }
}

/// Resizing a handle keeps the blocks apart. A refused request leaves the
/// manager as it was but for the error.
pub proof fn resize_native_handle_keeps_blocks_apart(
    manager: ManagerModel,
    space: SpaceModel,
    handle: u32,
    size: u32,
)
    requires
        crate::native_blocks::native_blocks_apart(manager),
    ensures
        ({
            let (after, left, error) = manager.set_native_handle_size(space, handle, size);
            &&& crate::native_blocks::native_blocks_apart(after)
            &&& error != 0 ==> after == manager.mem_error(error)
            &&& error == 0 ==> after.record(handle) is Some && (after.record(handle)->0).size
                == size
        }),
{
    let (after, left, error) = manager.set_native_handle_size(space, handle, size);
    crate::native_blocks::reporting_keeps_native_blocks_apart(manager, NIL_HANDLE_ERR);
    if let Some(record) = manager.record(handle) {
        lemma_live_handle(manager, handle);
        let index = crate::native_heap::handle_index(manager.records, handle);
        if size <= record.capacity {
            lemma_resized_within_capacity(manager, handle, size);
        } else if record.ptr == 0 {
            lemma_filled(manager, space, record, size);
        } else {
            lemma_grown(manager, space, record, size);
        }
        if error == 0 {
            assert(after.records[index].handle == handle);
            assert(after.records == manager.records.update(index, after.records[index]));
            crate::native_blocks::lemma_updated_record(
                manager.records,
                index,
                after.records[index],
            );
        }
    }
}

/// Resizing a fixed block keeps the blocks apart. A refused request leaves the
/// manager as it was but for the error.
pub proof fn resize_native_ptr_keeps_blocks_apart(
    manager: ManagerModel,
    space: SpaceModel,
    ptr: u32,
    size: u32,
)
    requires
        crate::native_blocks::native_blocks_apart(manager),
    ensures
        ({
            let (after, left, error) = manager.set_native_ptr_size(space, ptr, size);
            &&& crate::native_blocks::native_blocks_apart(after)
            &&& error != 0 ==> after == manager.mem_error(error)
        }),
{
    let (after, left, error) = manager.set_native_ptr_size(space, ptr, size);
    let native = manager.native->0;
    let index = crate::native_heap::ptr_index(native.ptrs, ptr);
    crate::native_heap::lemma_ptr_index(native.ptrs, ptr);
    crate::native_blocks::reporting_keeps_native_blocks_apart(manager, MEM_WZ_ERR);
    crate::native_blocks::reporting_keeps_native_blocks_apart(manager, MEM_FULL_ERR);
    crate::native_blocks::reporting_keeps_native_blocks_apart(manager, PARAM_ERR);
    if error == 0 {
        let record = native.ptrs[index];
        assert(crate::native_blocks::has_block(manager, (0, index)));
        assert(crate::native_blocks::block_inside(manager, (0, index)));
        if size <= record.size {
            crate::native_blocks::lemma_occupied_grows(size, record.size);
            crate::native_blocks::lemma_refit(
                manager,
                after,
                |b: (int, int)| b,
                |b: (int, int)| false,
            );
        } else {
            let limit = manager.allocation_limit(native.heap.heap_limit);
            let capacity = crate::native_heap::native_size(size)->0;
            crate::native_blocks::lemma_occupied_grows(record.size, size);
            crate::native_blocks::lemma_bounds_after_cursor(
                space.exclusions,
                ptr,
                limit,
                capacity,
            );
            crate::native_blocks::lemma_extend(manager, after, (0, index));
        }
    }
}

/// Reserving bytes keeps the blocks apart.
pub proof fn reserving_keeps_native_blocks_apart(
    manager: ManagerModel,
    space: SpaceModel,
    size: u32,
    clear: bool,
    keep: bool,
)
    requires
        crate::native_blocks::native_blocks_apart(manager),
    ensures
        crate::native_blocks::native_blocks_apart(manager.reserve_bytes(space, size, clear, keep).0),
{
    let after = manager.reserve_bytes(space, size, clear, keep).0;
    let native = manager.native->0;
    if let Some(required) = crate::native_heap::native_size(size) {
        crate::native_blocks::lemma_bounds_after_cursor(
            space.exclusions,
            native.heap.heap_cursor,
            manager.allocation_limit(native.heap.heap_limit),
            required,
        );
    }
    crate::native_blocks::lemma_refit(
        manager,
        after,
        |b: (int, int)| b,
        |b: (int, int)| false,
    );
}

/// Replacing a fixed block by one of another size keeps the blocks apart.
pub proof fn reallocate_native_ptr_keeps_blocks_apart(
    manager: ManagerModel,
    space: SpaceModel,
    ptr: u32,
    size: u32,
)
    requires
        crate::native_blocks::native_blocks_apart(manager),
    ensures
        crate::native_blocks::native_blocks_apart(
            manager.reallocate_native_ptr(space, ptr, size).0,
        ),
{
    crate::native_blocks::reporting_keeps_native_blocks_apart(manager, PARAM_ERR);
    crate::native_blocks::new_native_ptr_keeps_blocks_apart(manager, space, size, false);
    crate::native_blocks::dispose_native_ptr_keeps_blocks_apart(manager, ptr);
    crate::native_blocks::dispose_native_ptr_keeps_blocks_apart(
        manager.new_native_ptr(space, size, false).0,
        ptr,
    );
}

} // verus!
