//! When a native heap owes a handle, a size or a block back, and what its
//! operations leave behind.

use crate::guest_memory::SpaceModel;
use crate::memory_model::{
    ManagerModel, ProcessHandleHeap, ProcessNewHandleRequest, MEM_FULL_ERR, NIL_HANDLE_ERR,
    PARAM_ERR,
};
use crate::native_heap::{NativeModel, ProcessHandleRecord, ProcessPtrRecord};
use vstd::prelude::*;

verus! {

proof fn lemma_best_handle(free: Seq<ProcessHandleRecord>, required: u32, limit: u32)
    ensures
        ({
            let best = crate::native_heap::best_handle(free, required, limit);
            &&& -1 <= best < free.len()
            &&& best >= 0 ==> crate::native_heap::handle_fits(free[best], required, limit)
            &&& forall|i: int|
                0 <= i < free.len() && crate::native_heap::handle_fits(
                    #[trigger] free[i],
                    required,
                    limit,
                ) ==> best >= 0 && crate::native_heap::native_size(free[best].capacity)->0
                    <= crate::native_heap::native_size(free[i].capacity)->0
        }),
    decreases free.len(),
{
    if free.len() > 0 {
        let rest = free.drop_last();
        lemma_best_handle(rest, required, limit);
        assert forall|i: int|
            0 <= i < free.len() && crate::native_heap::handle_fits(
                #[trigger] free[i],
                required,
                limit,
            ) implies crate::native_heap::best_handle(free, required, limit) >= 0
            && crate::native_heap::native_size(
            free[crate::native_heap::best_handle(free, required, limit)].capacity,
        )->0 <= crate::native_heap::native_size(free[i].capacity)->0 by {
            if i < rest.len() {
                assert(rest[i] == free[i]);
            }
        }
    }
}

/// A handle that was disposed of serves a later request that its block holds:
/// some disposed handle is taken over with its block, the smallest that holds
/// the request, and no new heap is used.
pub proof fn disposed_handle_serves_again(
    manager: ManagerModel,
    native: NativeModel,
    exclusions: Seq<(u32, u32)>,
    size: u32,
    i: int,
)
    requires
        size <= u32::MAX - 15,
        0 <= i < native.free_handles.len(),
        native.free_handles[i].ptr != 0,
        native.free_handles[i].capacity <= u32::MAX - 15,
        crate::native_heap::native_size(size)->0 <= crate::native_heap::native_size(
            native.free_handles[i].capacity,
        )->0,
        native.free_handles[i].handle + 16 <= manager.allocation_limit(native.heap.heap_limit),
        native.free_handles[i].ptr + crate::native_heap::native_size(
            native.free_handles[i].capacity,
        )->0 <= manager.allocation_limit(native.heap.heap_limit),
    ensures
        ({
            let required = crate::native_heap::native_size(size)->0;
            let chosen = manager.choose_handle(native, exclusions, size, required);
            &&& chosen is Some
            &&& ({
                let (record, taken, block, cursor) = chosen->0;
                &&& cursor == native.heap.heap_cursor
                &&& block < 0
                &&& 0 <= taken < native.free_handles.len()
                &&& record.handle == native.free_handles[taken].handle
                &&& record.ptr == native.free_handles[taken].ptr
                &&& record.ptr != 0
                &&& record.capacity == native.free_handles[taken].capacity
                &&& record.size == size
                &&& required <= crate::native_heap::native_size(record.capacity)->0
                    <= crate::native_heap::native_size(native.free_handles[i].capacity)->0
            })
        }),
{
    let required = crate::native_heap::native_size(size)->0;
    let limit = manager.allocation_limit(native.heap.heap_limit);
    lemma_best_handle(native.free_handles, required, limit);
    assert(crate::native_heap::handle_fits(native.free_handles[i], required, limit));
}

/// Without disposed handles a new one is placed behind the last block, and its
/// block right behind it.
pub proof fn new_handle_lies_behind_the_last_block(
    manager: ManagerModel,
    native: NativeModel,
    exclusions: Seq<(u32, u32)>,
    size: u32,
)
    requires
        size <= u32::MAX - 15,
        native.free_handles.len() == 0,
    ensures
        ({
            let required = crate::native_heap::native_size(size)->0;
            let limit = manager.allocation_limit(native.heap.heap_limit);
            let chosen = manager.choose_handle(native, exclusions, size, required);
            let master = crate::native_heap::native_bounds(
                exclusions,
                native.heap.heap_cursor,
                limit,
                16,
            );
            let block = crate::native_heap::native_bounds(
                exclusions,
                (master->0).1,
                limit,
                required,
            );
            &&& chosen is Some <==> master is Some && block is Some
            &&& chosen is Some ==> {
                let (record, taken, reused, cursor) = chosen->0;
                &&& record.handle == (master->0).0
                &&& record.ptr == (block->0).0
                &&& record.size == size
                &&& record.capacity == size
                &&& record.handle + 16 <= record.ptr
                &&& cursor == record.ptr + required
                &&& taken < 0 && reused < 0
            }
        }),
{
    let required = crate::native_heap::native_size(size)->0;
    let limit = manager.allocation_limit(native.heap.heap_limit);
    lemma_best_handle(native.free_handles, required, limit);
    crate::native_heap::lemma_chosen_handle(native.free_handles, required, limit);
    crate::native_blocks::lemma_bounds_after_cursor(
        exclusions,
        native.heap.heap_cursor,
        limit,
        16,
    );
    if let Some((master, after)) = crate::native_heap::native_bounds(
        exclusions,
        native.heap.heap_cursor,
        limit,
        16,
    ) {
        crate::native_blocks::lemma_bounds_after_cursor(exclusions, after, limit, required);
    }
}

/// A writable native heap that has a place for a handle gives it: the handle
/// leads to a block of the size that was asked for, is unlocked, unpurgeable
/// and no resource, and the heap reports no error. A heap that has no place
/// reports that it is full and stays as it was.
pub proof fn native_heap_with_a_place_gives_a_handle(
    manager: ManagerModel,
    space: SpaceModel,
    size: u32,
    clear: bool,
)
    requires
        crate::native_blocks::native_blocks_apart(manager),
        crate::native_laws::writable_from(space, manager.native->0.heap.heap_base as int),
        size <= i32::MAX,
    ensures
        ({
            let place = manager.choose_handle(
                manager.native->0,
                space.exclusions,
                size,
                crate::native_heap::native_size(size)->0,
            );
            let (after, ready, handle) = manager.new_native_handle(space, size, clear);
            &&& handle != 0 <==> place is Some
            &&& place is None ==> after.last_error() == MEM_FULL_ERR && after.records
                == manager.records && ready == space
            &&& place is Some ==> {
                let record = after.record(handle)->0;
                &&& handle == (place->0).0.handle
                &&& after.record(handle) is Some
                &&& record.handle == handle
                &&& record.size == size
                &&& record.ptr == (place->0).0.ptr
                &&& ready.word(handle as int) == Some(record.ptr)
                &&& after.ptr_to_handle.dom().contains(record.ptr)
                &&& after.ptr_to_handle[record.ptr] == handle
                &&& after.native_handles.contains(handle)
                &&& after.native_ptrs.contains(record.ptr)
                &&& after.state(handle) == Some(0u8)
                &&& after.last_error() == 0
                &&& ready.accepts(record.ptr as int, size as int)
                &&& after.records.drop_last() == manager.records
            }
        }),
{
    let native = manager.native->0;
    let base = native.heap.heap_base as int;
    let required = crate::native_heap::native_size(size)->0;
    crate::supply_laws::native_blocks_come_in_units(size);
    crate::supply_laws::native_blocks_come_in_units(4);
    let place = manager.choose_handle(native, space.exclusions, size, required);
    let (allocated, made, given) = manager.allocate_native_handle(space, size, clear);
    crate::native_blocks::new_native_handle_keeps_blocks_apart(manager, space, size, clear);
    crate::native_laws::new_native_handle_leads_to_its_block(manager, space, size, clear, 0);
    if let Some((record, taken, block, cursor)) = place {
        crate::native_blocks::lemma_chosen_handle_keeps_blocks_apart(
            manager,
            space.exclusions,
            size,
            required,
        );
        let placed = crate::native_blocks::handle_taken(manager, record, taken, block, cursor);
        let index = placed.records.len() - 1;
        assert(crate::native_blocks::has_block(placed, (2, index)));
        assert(crate::native_blocks::block_inside(placed, (2, index)));
        assert(crate::native_blocks::has_block(placed, (3, index)));
        assert(crate::native_blocks::block_inside(placed, (3, index)));
        assert(crate::native_blocks::fits_block(placed.records[index]));
        crate::native_laws::lemma_prepared_writable(space, record.handle, 16, true, base);
        let master_ready = crate::memory_model::prepared(space, record.handle, 16, true)->0;
        crate::native_laws::lemma_prepared_writable(
            master_ready,
            record.ptr,
            required,
            clear,
            base,
        );
        let ready = crate::memory_model::prepared(master_ready, record.ptr, required, clear)->0;
        assert forall|a: int| record.handle <= a < record.handle + 4 implies #[trigger] ready.writable.contains(
            a,
        ) by {
            assert(master_ready.writable.contains(a));
            assert(master_ready.bytes.dom().contains(a) || !master_ready.bytes.dom().contains(a));
        }
        assert(given == record.handle);
    }
}

/// The answer to a request for a handle names the handle and its block, or the
/// error that the heap reports; a negative size is refused as too large.
pub proof fn answer_names_the_new_handle(
    manager: ManagerModel,
    space: SpaceModel,
    request: ProcessNewHandleRequest,
)
    requires
        crate::native_blocks::native_blocks_apart(manager),
    ensures
        ({
            let (after, ready, answer) = manager.new_handle_native(space, request);
            &&& after.last_error() == answer.error
            &&& answer.state_bits == 0
            &&& request.logical_size < 0 ==> answer.error == MEM_FULL_ERR && answer.handle == 0
                && ready == space && after.records == manager.records
            &&& answer.error == 0 ==> {
                &&& after.record(answer.handle) is Some
                &&& after.record(answer.handle)->0.ptr == answer.data_ptr
                &&& after.record(answer.handle)->0.size == request.logical_size
                &&& answer.handle != 0 && answer.data_ptr != 0
                &&& manager.record(answer.handle) is None
            }
            &&& answer.error != 0 ==> answer.handle == 0 && answer.data_ptr == 0
        }),
{
    if request.logical_size >= 0 {
        crate::native_blocks::new_native_handle_keeps_blocks_apart(
            manager,
            space,
            request.logical_size as u32,
            request.clear,
        );
    }
}

/// A fixed block that was disposed of is not recorded any more and is free;
/// the others stay. Disposing of what is no block changes nothing but the
/// error.
pub proof fn disposed_block_is_free(manager: ManagerModel, ptr: u32)
    requires
        manager.native is Some,
    ensures
        ({
            let (after, disposed) = manager.dispose_native_ptr(ptr);
            &&& disposed == manager.native_ptr(ptr)
            &&& after.last_error() == 0
            &&& disposed matches Some(record) ==> {
                &&& record.ptr == ptr
                &&& after.native->0.free_ptrs == manager.native->0.free_ptrs.push(record)
                &&& after.native->0.ptrs.len() == manager.native->0.ptrs.len() - 1
                &&& forall|i: int|
                    0 <= i < manager.native->0.ptrs.len() && (
                    #[trigger] manager.native->0.ptrs[i]).ptr != ptr
                        ==> after.native->0.ptrs.contains(manager.native->0.ptrs[i])
                &&& (forall|i: int, j: int|
                    0 <= i < j < manager.native->0.ptrs.len() ==> (
                    #[trigger] manager.native->0.ptrs[i]).ptr != (
                    #[trigger] manager.native->0.ptrs[j]).ptr) ==> after.native_ptr(ptr) is None
            }
            &&& disposed is None ==> after.native->0.ptrs == manager.native->0.ptrs
                && after.native->0.free_ptrs == manager.native->0.free_ptrs
            &&& after.native->0.heap.heap_cursor == manager.native->0.heap.heap_cursor
            &&& after.records == manager.records
        }),
{
    let native = manager.native->0;
    let index = crate::native_heap::ptr_index(native.ptrs, ptr);
    let (after, disposed) = manager.dispose_native_ptr(ptr);
    crate::native_heap::lemma_ptr_index(native.ptrs, ptr);
    crate::native_heap::lemma_ptr_index(after.native->0.ptrs, ptr);
    if index >= 0 {
        let left = after.native->0.ptrs;
        assert forall|i: int|
            0 <= i < native.ptrs.len() && (#[trigger] native.ptrs[i]).ptr
                != ptr implies left.contains(native.ptrs[i]) by {
            let at = if i < index {
                i
            } else {
                i - 1
            };
            assert(left[at] == native.ptrs[i]);
        }
        if forall|i: int, j: int|
            0 <= i < j < native.ptrs.len() ==> (#[trigger] native.ptrs[i]).ptr != (
            #[trigger] native.ptrs[j]).ptr {
            assert forall|k: int| 0 <= k < left.len() implies (#[trigger] left[k]).ptr != ptr by {
                let at = if k < index {
                    k
                } else {
                    k + 1
                };
                assert(left[k] == native.ptrs[at]);
                assert(native.ptrs[index].ptr == ptr);
            }
        }
    }
}

/// A free block serves a later request that it holds: the smallest such block
/// is taken and no new heap is used.
pub proof fn free_block_serves_again(
    native: NativeModel,
    exclusions: Seq<(u32, u32)>,
    limit: u32,
    size: u32,
    i: int,
)
    requires
        size <= u32::MAX - 15,
        0 <= i < native.free_ptrs.len(),
        native.free_ptrs[i].size <= u32::MAX - 15,
        crate::native_heap::native_size(size)->0 <= crate::native_heap::native_size(
            native.free_ptrs[i].size,
        )->0,
        native.free_ptrs[i].ptr + crate::native_heap::native_size(native.free_ptrs[i].size)->0
            <= limit,
    ensures
        ({
            let required = crate::native_heap::native_size(size)->0;
            let place = crate::memory_model::place_block(native, exclusions, limit, required, None);
            &&& place is Some
            &&& ({
                let (ptr, taken, cursor) = place->0;
                let left = crate::memory_model::block_taken(native, taken, cursor);
                &&& cursor == native.heap.heap_cursor
                &&& 0 <= taken < native.free_ptrs.len()
                &&& ptr == native.free_ptrs[taken].ptr
                &&& required <= crate::native_heap::native_size(native.free_ptrs[taken].size)->0
                    <= crate::native_heap::native_size(native.free_ptrs[i].size)->0
                &&& left.free_ptrs.len() == native.free_ptrs.len() - 1
                &&& left.heap == native.heap
                &&& forall|j: int|
                    0 <= j < native.free_ptrs.len() && j != taken ==> left.free_ptrs.contains(
                        #[trigger] native.free_ptrs[j],
                    )
            })
        }),
{
    let required = crate::native_heap::native_size(size)->0;
    crate::native_heap::lemma_best_ptr(native.free_ptrs, required, limit, None);
    assert(crate::native_heap::ptr_fits(native.free_ptrs[i], required, limit, None));
    let taken = crate::native_heap::best_ptr(native.free_ptrs, required, limit, None);
    let left = crate::classic_heap::swap_removed(native.free_ptrs, taken);
    assert forall|j: int| 0 <= j < native.free_ptrs.len() && j != taken implies left.contains(
        #[trigger] native.free_ptrs[j],
    ) by {
        if j == native.free_ptrs.len() - 1 {
            assert(left[taken] == native.free_ptrs[j]);
        } else {
            assert(left[j] == native.free_ptrs[j]);
        }
    }
}

/// A native handle takes every size up to its capacity where it is, and can be
/// brought back to its size with the same bytes.
pub proof fn native_handle_shrinks_and_grows_back(
    manager: ManagerModel,
    space: SpaceModel,
    handle: u32,
    size: u32,
)
    requires
        manager.record(handle) is Some,
        space.word(handle as int) == Some(manager.record(handle)->0.ptr),
        manager.record(handle)->0.size <= manager.record(handle)->0.capacity,
        size <= manager.record(handle)->0.capacity,
    ensures
        ({
            let record = manager.record(handle)->0;
            let (after, left, error) = manager.set_native_handle_size(space, handle, size);
            let (back, again, second) = after.set_native_handle_size(left, handle, record.size);
            &&& error == 0 && second == 0
            &&& left == space && again == space
            &&& after.record(handle) == Some(ProcessHandleRecord { size, ..record })
            &&& back.record(handle) == Some(record)
            &&& back.records == manager.records
        }),
{
    let record = manager.record(handle)->0;
    let index = crate::native_heap::handle_index(manager.records, handle);
    crate::native_heap::lemma_handle_index(manager.records, handle);
    let resized = ProcessHandleRecord { size, ..record };
    crate::native_blocks::lemma_updated_record(manager.records, index, resized);
    crate::native_blocks::lemma_updated_record(
        manager.records.update(index, resized),
        index,
        record,
    );
    let (after, left, error) = manager.set_native_handle_size(space, handle, size);
    assert(after.records == manager.records.update(index, resized));
    assert(manager.records.update(index, resized).update(index, record) =~= manager.records);
}

/// A handle that is not recorded, or whose master pointer does not lead to its
/// block, cannot be resized, and nothing changes but the error.
pub proof fn stray_handle_cannot_be_resized(
    manager: ManagerModel,
    space: SpaceModel,
    handle: u32,
    size: u32,
)
    requires
        manager.record(handle) is None || space.word(handle as int) != Some(
            manager.record(handle)->0.ptr,
        ),
    ensures
        ({
            let (after, left, error) = manager.set_native_handle_size(space, handle, size);
            &&& error == NIL_HANDLE_ERR
            &&& left == space
            &&& after.records == manager.records
            &&& manager.native is Some ==> after.last_error() == NIL_HANDLE_ERR
        }),
{
}

/// A fixed native block takes every size up to its own where it is. Only the
/// last block of the heap grows, up to the limit; the bytes that it gains read
/// as zero.
pub proof fn fixed_block_grows_only_at_the_end(
    manager: ManagerModel,
    space: SpaceModel,
    ptr: u32,
    size: u32,
)
    requires
        manager.native_ptr(ptr) is Some,
        manager.native_ptr(ptr)->0.size <= u32::MAX - 15,
    ensures
        ({
            let native = manager.native->0;
            let record = manager.native_ptr(ptr)->0;
            let old_end = ptr + crate::native_heap::native_size(record.size)->0;
            let (after, left, error) = manager.set_native_ptr_size(space, ptr, size);
            &&& size <= record.size ==> error == 0 && left == space
            &&& size > record.size && old_end != native.heap.heap_cursor ==> error != 0
            &&& size > record.size && size > u32::MAX - 15 ==> error == MEM_FULL_ERR
            &&& error != 0 ==> after.native->0.ptrs == native.ptrs && after.native->0.heap.heap_cursor
                == native.heap.heap_cursor
            &&& error == 0 ==> {
                &&& after.native_ptr(ptr) == Some(ProcessPtrRecord { ptr, size })
                &&& after.native->0.ptrs.len() == native.ptrs.len()
                &&& after.last_error() == 0
            }
            &&& error == 0 && size > record.size ==> {
                let new_end = after.native->0.heap.heap_cursor;
                &&& new_end == ptr + crate::native_heap::native_size(size)->0
                &&& new_end < manager.allocation_limit(native.heap.heap_limit)
                &&& forall|a: int|
                    old_end <= a < new_end ==> left.bytes.dom().contains(a)
                        && #[trigger] left.bytes[a] == 0
            }
            &&& error == 0 ==> forall|a: int|
                a < old_end && #[trigger] space.bytes.dom().contains(a)
                    ==> left.bytes.dom().contains(a) && left.bytes[a] == space.bytes[a]
        }),
{
    let native = manager.native->0;
    let record = manager.native_ptr(ptr)->0;
    let index = crate::native_heap::ptr_index(native.ptrs, ptr);
    crate::native_heap::lemma_ptr_index(native.ptrs, ptr);
    crate::supply_laws::native_blocks_come_in_units(record.size);
    crate::supply_laws::native_blocks_come_in_units(size);
    lemma_updated_ptr(native.ptrs, index, ProcessPtrRecord { ptr, size });
    let (after, left, error) = manager.set_native_ptr_size(space, ptr, size);
    let old_end = ptr + crate::native_heap::native_size(record.size)->0;
    if size > record.size && size <= u32::MAX - 15 {
        let limit = manager.allocation_limit(native.heap.heap_limit);
        let capacity = crate::native_heap::native_size(size)->0;
        crate::classic_heap::lemma_round_up(ptr as int, 16);
        crate::native_heap::lemma_bounds_from(
            space.exclusions,
            crate::classic_heap::round_up(ptr as int, 16),
            limit,
            capacity,
        );
        if error == 0 {
            let new_end = after.native->0.heap.heap_cursor;
            let growth = (new_end - old_end) as nat;
            let data = crate::guest_memory::zeros(growth);
            let ready = if growth > 0 && !space.bytes.dom().contains(old_end) {
                space.map_region(old_end, data, true)
            } else {
                space
            };
            assert(data.take(growth as int) =~= data);
            assert(left == ready.store(old_end, data));
        }
    }
}

pub(crate) proof fn lemma_updated_ptr(records: Seq<ProcessPtrRecord>, index: int, record: ProcessPtrRecord)
    requires
        index >= 0,
        index == crate::native_heap::ptr_index(records, record.ptr),
    ensures
        crate::native_heap::ptr_index(records.update(index, record), record.ptr) == index,
    decreases records.len(),
{
    crate::native_heap::lemma_ptr_index(records, record.ptr);
    let updated = records.update(index, record);
    if index == records.len() - 1 {
        assert(updated.drop_last() =~= records.drop_last());
    } else {
        assert(updated.drop_last() =~= records.drop_last().update(index, record));
        lemma_updated_ptr(records.drop_last(), index, record);
    }
}

/// Reallocating no block is a request for one, and reallocating a block to
/// nothing disposes of it; what is no block is refused.
pub proof fn reallocation_covers_requests_and_disposals(
    manager: ManagerModel,
    space: SpaceModel,
    ptr: u32,
    size: u32,
)
    requires
        manager.native is Some,
    ensures
        manager.reallocate_native_ptr(space, 0, size) == manager.new_native_ptr(space, size, false),
        ptr != 0 && manager.native_ptr(ptr) is Some ==> manager.reallocate_native_ptr(space, ptr, 0)
            == (manager.dispose_native_ptr(ptr).0, space, 0u32),
        ptr != 0 && manager.native_ptr(ptr) is None ==> {
            let (after, left, none) = manager.reallocate_native_ptr(space, ptr, size);
            &&& none == 0 && left == space && after.last_error() == PARAM_ERR
            &&& after.native->0.ptrs == manager.native->0.ptrs
        },
{
}

/// A reallocated block has the size that was asked for and the old one is
/// free; where that is refused, the old block stays.
pub proof fn reallocated_block_replaces_the_old_one(
    manager: ManagerModel,
    space: SpaceModel,
    ptr: u32,
    size: u32,
)
    requires
        crate::native_blocks::native_blocks_apart(manager),
        ptr != 0,
        size > 0,
        manager.native_ptr(ptr) is Some,
    ensures
        ({
            let native = manager.native->0;
            let record = manager.native_ptr(ptr)->0;
            let (after, left, replacement) = manager.reallocate_native_ptr(space, ptr, size);
            &&& replacement != 0 ==> {
                &&& after.native->0.ptrs.contains(ProcessPtrRecord { ptr: replacement, size })
                &&& after.native->0.free_ptrs.contains(record)
                &&& after.native->0.ptrs.len() == native.ptrs.len()
                &&& after.last_error() == 0
            }
            &&& replacement == 0 ==> after.native->0.ptrs == native.ptrs && after.last_error() != 0
        }),
{
    let native = manager.native->0;
    let record = manager.native_ptr(ptr)->0;
    let index = crate::native_heap::ptr_index(native.ptrs, ptr);
    crate::native_heap::lemma_ptr_index(native.ptrs, ptr);
    let (allocated, ready, replacement) = manager.new_native_ptr(space, size, false);
    crate::native_blocks::new_native_ptr_keeps_blocks_apart(manager, space, size, false);
    let (after, left, given) = manager.reallocate_native_ptr(space, ptr, size);
    if given != 0 {
        let grown = allocated.native->0.ptrs;
        let made = ProcessPtrRecord { ptr: replacement, size };
        assert(grown == native.ptrs.push(made));
        lemma_pushed_ptr(native.ptrs, made, ptr);
        assert(crate::native_heap::ptr_index(grown, ptr) == index);
        let kept = after.native->0.ptrs;
        assert(kept == grown.remove(index));
        assert(kept[kept.len() - 1] == made);
        assert(after.native->0.free_ptrs.last() == record);
        assert(after.native->0.free_ptrs[after.native->0.free_ptrs.len() - 1] == record);
    }
}

proof fn lemma_pushed_ptr(records: Seq<ProcessPtrRecord>, record: ProcessPtrRecord, ptr: u32)
    ensures
        crate::native_heap::ptr_index(records, ptr) >= 0 ==> crate::native_heap::ptr_index(
            records.push(record),
            ptr,
        ) == crate::native_heap::ptr_index(records, ptr),
{
    assert(records.push(record).drop_last() =~= records);
}

/// Bytes that are reserved lie behind the last block, below the limit; the
/// cursor passes them where they are to be kept.
pub proof fn reserved_bytes_lie_behind_the_last_block(
    manager: ManagerModel,
    space: SpaceModel,
    size: u32,
    clear: bool,
    keep: bool,
)
    requires
        manager.native is Some,
        manager.native->0.heap.heap_cursor > 0,
    ensures
        ({
            let native = manager.native->0;
            let limit = manager.allocation_limit(native.heap.heap_limit);
            let (after, ready, ptr) = manager.reserve_bytes(space, size, clear, keep);
            &&& ptr != 0 ==> {
                &&& native.heap.heap_cursor <= ptr
                &&& ptr % 16 == 0
                &&& ptr + size < limit
                &&& keep ==> after.native->0.heap.heap_cursor >= ptr + size && after.dirty
                &&& !keep ==> after == manager
            }
            &&& ptr == 0 ==> after == manager && ready == space
            &&& after.native->0.ptrs == native.ptrs && after.native->0.free_ptrs == native.free_ptrs
                && after.records == manager.records
        }),
{
    let native = manager.native->0;
    let limit = manager.allocation_limit(native.heap.heap_limit);
    if let Some(required) = crate::native_heap::native_size(size) {
        crate::supply_laws::native_blocks_come_in_units(size);
        crate::classic_heap::lemma_round_up(native.heap.heap_cursor as int, 16);
        crate::native_heap::lemma_bounds_from(
            space.exclusions,
            crate::classic_heap::round_up(native.heap.heap_cursor as int, 16),
            limit,
            required,
        );
    }
}

/// After the tail of the heap was taken back the cursor is where the tail
/// began, every block that is left lies below it, and the blocks below it are
/// left.
pub proof fn reclaimed_tail_is_empty(
    manager: ManagerModel,
    base: u32,
    disposed: Seq<u32>,
    disposed_handle: Option<u32>,
)
    requires
        manager.tail_reclaimable(base, disposed, disposed_handle),
    ensures
        ({
            let native = manager.native->0;
            let after = manager.reclaim_tail(base, disposed);
            let left = after.native->0;
            &&& left.heap.heap_cursor == base
            &&& base <= native.heap.heap_cursor
            &&& after.records == manager.records
            &&& after.last_error() == 0
            &&& forall|record: ProcessPtrRecord| #[trigger]
                left.ptrs.contains(record) <==> native.ptrs.contains(record)
                    && !disposed.contains(record.ptr)
            &&& forall|record: ProcessPtrRecord| #[trigger]
                left.ptrs.contains(record) ==> record.ptr < base
            &&& forall|record: ProcessPtrRecord| #[trigger]
                left.free_ptrs.contains(record) <==> native.free_ptrs.contains(record) && record.ptr
                    < base
            &&& forall|i: int|
                0 <= i < left.free_handles.len() ==> (#[trigger] left.free_handles[i]).handle < base
                    && left.free_handles[i].ptr < base
        }),
{
    let native = manager.native->0;
    let after = manager.reclaim_tail(base, disposed);
    let left = after.native->0;
    let stays = |record: ProcessPtrRecord| !disposed.contains(record.ptr);
    let below = |record: ProcessPtrRecord| record.ptr < base;
    assert forall|record: ProcessPtrRecord| #[trigger]
        left.ptrs.contains(record) <==> native.ptrs.contains(record) && !disposed.contains(
            record.ptr,
        ) by {
        crate::catalogue_laws::lemma_filter_contains(native.ptrs, stays, record);
    }
    assert forall|record: ProcessPtrRecord| #[trigger] left.ptrs.contains(record) implies record.ptr
        < base by {
        assert(native.ptrs.contains(record));
        let i = choose|i: int| 0 <= i < native.ptrs.len() && native.ptrs[i] == record;
        assert(native.ptrs[i].ptr < base || disposed.contains(native.ptrs[i].ptr));
    }
    assert forall|record: ProcessPtrRecord| #[trigger]
        left.free_ptrs.contains(record) <==> native.free_ptrs.contains(record) && record.ptr
            < base by {
        crate::catalogue_laws::lemma_filter_contains(native.free_ptrs, below, record);
    }
    lemma_reclaimed_handles(native.free_handles, base);
}

proof fn lemma_reclaimed_handles(free: Seq<ProcessHandleRecord>, base: u32)
    ensures
        ({
            let left = crate::memory_model::reclaimed_handles(free, base);
            &&& forall|i: int|
                0 <= i < left.len() ==> (#[trigger] left[i]).handle < base && (left[i].ptr < base
                    || left[i].ptr == 0)
        }),
    decreases free.len(),
{
    if free.len() > 0 {
        let rest = crate::memory_model::reclaimed_handles(free.drop_last(), base);
        let left = crate::memory_model::reclaimed_handles(free, base);
        lemma_reclaimed_handles(free.drop_last(), base);
        assert forall|i: int| 0 <= i < left.len() implies (#[trigger] left[i]).handle < base && (
        left[i].ptr < base || left[i].ptr == 0) by {
            if i < rest.len() {
                assert(left[i] == rest[i]);
            }
        }
    }
}

/// Free handles below the tail are kept; one whose block lay in the tail is
/// kept without it.
pub proof fn free_handles_below_the_tail_are_kept(free: Seq<ProcessHandleRecord>, base: u32, i: int)
    requires
        0 <= i < free.len(),
        free[i].handle < base,
    ensures
        crate::memory_model::reclaimed_handles(free, base).contains(
            if free[i].ptr >= base {
                ProcessHandleRecord { handle: free[i].handle, ptr: 0, size: 0, capacity: 0 }
            } else {
                free[i]
            },
        ),
    decreases free.len(),
{
    let left = crate::memory_model::reclaimed_handles(free, base);
    let wanted = if free[i].ptr >= base {
        ProcessHandleRecord { handle: free[i].handle, ptr: 0, size: 0, capacity: 0 }
    } else {
        free[i]
    };
    if i == free.len() - 1 {
        assert(left[left.len() - 1] == wanted);
    } else {
        let rest = crate::memory_model::reclaimed_handles(free.drop_last(), base);
        free_handles_below_the_tail_are_kept(free.drop_last(), base, i);
        let k = choose|k: int| 0 <= k < rest.len() && rest[k] == wanted;
        assert(left[k] == wanted);
    }
}

/// The heap may be taken back from an address only where no block that stays
/// reaches beyond it.
pub proof fn tail_with_a_live_block_is_kept(
    manager: ManagerModel,
    base: u32,
    disposed: Seq<u32>,
    disposed_handle: Option<u32>,
    i: int,
)
    requires
        manager.native is Some,
    ensures
        0 <= i < manager.native->0.ptrs.len() && manager.native->0.ptrs[i].ptr >= base
            && !disposed.contains(manager.native->0.ptrs[i].ptr) ==> !manager.tail_reclaimable(
            base,
            disposed,
            disposed_handle,
        ),
        0 <= i < manager.records.len() && (manager.records[i].handle >= base
            || manager.records[i].ptr >= base) ==> !manager.tail_reclaimable(
            base,
            disposed,
            disposed_handle,
        ),
        base < manager.native->0.heap.heap_base || base > manager.native->0.heap.heap_cursor
            ==> !manager.tail_reclaimable(base, disposed, disposed_handle),
        0 <= i < manager.native->0.ptrs.len() && manager.native->0.ptrs[i].ptr < base
            < manager.native->0.ptrs[i].ptr + manager.native->0.ptrs[i].size
            && manager.native->0.ptrs[i].ptr + manager.native->0.ptrs[i].size <= u32::MAX - 16
            ==> !manager.tail_reclaimable(base, disposed, disposed_handle),
{
    if 0 <= i < manager.native->0.ptrs.len() {
        crate::supply_laws::native_blocks_come_in_units(manager.native->0.ptrs[i].size);
    }
}

/// The cursor moves only forward, only from where it is expected and only below
/// the limit of the heap.
pub proof fn cursor_moves_forward(manager: ManagerModel, expected: u32, next: u32)
    ensures
        manager.cursor_may_move(expected, next) <==> manager.native is Some && expected
            == manager.native->0.heap.heap_cursor && expected <= next && next
            < manager.native->0.heap.heap_limit,
        manager.native is Some ==> {
            let after = manager.with_cursor(next);
            &&& after.native->0.heap.heap_cursor == next
            &&& after.native->0.heap.heap_limit == manager.native->0.heap.heap_limit
            &&& after.native->0.ptrs == manager.native->0.ptrs
            &&& after.native->0.free_ptrs == manager.native->0.free_ptrs
            &&& after.records == manager.records
            &&& after.dirty
        },
{
}

/// A published block leads to its handle, which is a purgeable resource, and
/// the heap continues at the cursor that was given.
pub proof fn published_block_leads_to_its_resource(
    manager: ManagerModel,
    handle: u32,
    ptr: u32,
    cursor: u32,
)
    requires
        handle != 0,
    ensures
        ({
            let after = manager.publish_external(handle, ptr, cursor);
            &&& ptr != 0 ==> after.ptr_to_handle.dom().contains(ptr) && after.ptr_to_handle[ptr]
                == handle
            &&& after.handle_state(handle).resource && !after.handle_state(handle).no_purge
            &&& manager.native is Some ==> after.native->0.heap.heap_cursor == cursor
                && after.last_error() == 0
            &&& after.records == manager.records
        }),
{
    let indexed = ManagerModel {
        ptr_to_handle: if ptr != 0 {
            manager.ptr_to_handle.insert(ptr, handle)
        } else {
            manager.ptr_to_handle
        },
        ..manager
    };
    crate::state_laws::marked_handle_is_a_purgeable_resource(indexed, handle);
    let after = manager.publish_external(handle, ptr, cursor);
    assert(after.handle_state(handle) == indexed.mark_resource(handle).handle_state(handle));
}

/// Handles that are registered are recorded in order, with their states, and
/// their blocks lead to them; a null handle is passed over.
pub proof fn registered_handles_are_recorded(
    manager: ManagerModel,
    handles: Seq<(ProcessHandleRecord, u8)>,
    i: int,
)
    requires
        0 <= i < handles.len(),
        handles[i].0.handle != 0,
        forall|j: int|
            0 <= j < handles.len() && j != i ==> (#[trigger] handles[j]).0.handle
                != handles[i].0.handle,
        forall|j: int|
            0 <= j < handles.len() && j != i ==> (#[trigger] handles[j]).0.ptr
                != handles[i].0.ptr,
    ensures
        ({
            let after = crate::memory_model::registered(manager, handles);
            let (record, state) = handles[i];
            &&& after.records.contains(record)
            &&& after.state(record.handle) == Some(state)
            &&& after.native_handles.contains(record.handle)
            &&& record.ptr != 0 ==> after.ptr_to_handle.dom().contains(record.ptr)
                && after.ptr_to_handle[record.ptr] == record.handle && after.native_ptrs.contains(
                record.ptr,
            )
            &&& after.native == manager.native && after.classic == manager.classic && after.high
                == manager.high
        }),
    decreases handles.len(),
{
    let after = crate::memory_model::registered(manager, handles);
    let shorter = handles.drop_last();
    let before = crate::memory_model::registered(manager, shorter);
    lemma_registered_rest(manager, shorter);
    if i == handles.len() - 1 {
        assert(after.records[after.records.len() - 1] == handles[i].0);
    } else {
        assert(shorter[i] == handles[i]);
        assert forall|j: int| 0 <= j < shorter.len() && j != i implies (
        #[trigger] shorter[j]).0.handle != shorter[i].0.handle && shorter[j].0.ptr
            != shorter[i].0.ptr by {
            assert(shorter[j] == handles[j]);
        }
        registered_handles_are_recorded(manager, shorter, i);
        let k = choose|k: int| 0 <= k < before.records.len() && before.records[k] == handles[i].0;
        assert(after.records[k] == handles[i].0);
        assert(handles[handles.len() - 1].0.handle != handles[i].0.handle);
        assert(handles[handles.len() - 1].0.ptr != handles[i].0.ptr);
    }
}

proof fn lemma_registered_rest(manager: ManagerModel, handles: Seq<(ProcessHandleRecord, u8)>)
    ensures
        crate::memory_model::registered(manager, handles).native == manager.native,
        crate::memory_model::registered(manager, handles).classic == manager.classic,
        crate::memory_model::registered(manager, handles).high == manager.high,
    decreases handles.len(),
{
    if handles.len() > 0 {
        lemma_registered_rest(manager, handles.drop_last());
    }
}

/// Without its native handles a manager has no native record, and what it
/// knows of other handles stays.
pub proof fn forgotten_native_handles_leave_the_others(manager: ManagerModel, handle: u32, ptr: u32)
    ensures
        ({
            let after = manager.without_native_handles();
            &&& after.records.len() == 0
            &&& after.record(handle) is None
            &&& !after.native_handles.contains(handle) && !after.native_ptrs.contains(ptr)
            &&& manager.native_handles.contains(handle) ==> after.state(handle) is None
                && !after.high.dom().contains(handle)
            &&& !manager.native_handles.contains(handle) ==> after.state(handle) == manager.state(
                handle,
            )
            &&& manager.native_ptrs.contains(ptr) ==> !after.ptr_to_handle.dom().contains(ptr)
            &&& !manager.native_ptrs.contains(ptr) ==> after.ptr_to_handle.dom().contains(ptr)
                == manager.ptr_to_handle.dom().contains(ptr)
            &&& after.classic == manager.classic && after.native == manager.native
        }),
{
}

/// Bytes that are put into an empty resource handle of a native heap are what
/// it holds, and it is a purgeable resource.
pub proof fn loaded_resource_holds_its_bytes(
    manager: ManagerModel,
    space: SpaceModel,
    handle: u32,
    bytes: Seq<u8>,
)
    requires
        manager.record(handle) is Some,
        manager.record(handle)->0.ptr == 0,
        handle != 0,
    ensures
        ({
            let (after, left, error) = manager.load_native_resource(space, handle, bytes);
            error == 0 ==> {
                &&& after.record(handle) is Some
                &&& after.record(handle)->0.size == bytes.len()
                &&& left.load(after.record(handle)->0.ptr as int, bytes.len()) == bytes
                &&& after.handle_state(handle).resource && !after.handle_state(handle).no_purge
            }
        }),
{
    let (after, left, error) = manager.load_native_resource(space, handle, bytes);
    let record = manager.record(handle)->0;
    let index = crate::native_heap::handle_index(manager.records, handle);
    crate::native_heap::lemma_handle_index(manager.records, handle);
    if error == 0 {
        let size = bytes.len() as u32;
        let (sized, ready, _) = manager.set_native_handle_size(space, handle, size);
        let placed = sized.record(handle)->0;
        crate::native_blocks::lemma_updated_record(
            manager.records,
            index,
            sized.records[index],
        );
        crate::state_laws::marked_handle_is_a_purgeable_resource(sized, handle);
        let marked = sized.mark_resource(handle);
        assert(after.handle_state(handle) == marked.handle_state(handle));
        assert(after.record(handle) == sized.record(handle));
        assert(bytes.take(bytes.len() as int) =~= bytes);
        assert(left == ready.store(placed.ptr as int, bytes));
        assert(left.load(placed.ptr as int, bytes.len()) =~= bytes);
    }
}

/// A request of the current heap and one of the system heap are served alike.
pub proof fn requests_are_served_alike(manager: ManagerModel, space: SpaceModel, size: i32, clear: bool)
    ensures
        manager.new_handle_native(
            space,
            ProcessNewHandleRequest { logical_size: size, clear, heap: ProcessHandleHeap::Current },
        ) == manager.new_handle_native(
            space,
            ProcessNewHandleRequest { logical_size: size, clear, heap: ProcessHandleHeap::System },
        ),
{
}

/// A handle that is made for a resource is a purgeable resource. It holds the
/// bytes where there are any, and has no block where there are none.
pub proof fn new_resource_handle_is_a_resource(
    manager: ManagerModel,
    space: SpaceModel,
    bytes: Option<Seq<u8>>,
)
    requires
        crate::native_blocks::native_blocks_apart(manager),
        bytes is Some ==> bytes->0.len() <= u32::MAX,
    ensures
        ({
            let (after, ready, handle) = manager.new_native_resource(space, bytes);
            let record = after.record(handle)->0;
            handle != 0 ==> {
                &&& after.record(handle) is Some
                &&& after.handle_state(handle).resource
                &&& !after.handle_state(handle).no_purge
                &&& bytes is Some ==> record.size == bytes->0.len() && ready.load(
                    record.ptr as int,
                    bytes->0.len(),
                ) == bytes->0
                &&& bytes is None ==> record.ptr == 0 && record.size == 0
            }
        }),
{
    let (after, ready, handle) = manager.new_native_resource(space, bytes);
    match bytes {
        Some(bytes) => {
            let (copied, left, made) = manager.copy_to_native(space, bytes);
            crate::native_laws::copied_handle_holds_its_bytes(manager, space, bytes);
            if made != 0 {
                crate::state_laws::marked_handle_is_a_purgeable_resource(copied, made);
                assert(after.record(made) == copied.record(made));
            }
        },
        None => {
            let (fresh, left, made) = manager.new_native_handle(space, 0, true);
            if handle != 0 {
                let (allocated, linked, allocated_handle) = manager.allocate_native_handle(
                    space,
                    0,
                    true,
                );
                crate::native_blocks::new_native_handle_keeps_blocks_apart(manager, space, 0, true);
                crate::native_blocks::reporting_keeps_native_blocks_apart(allocated, 0);
                let (emptied, cleared, error) = fresh.empty_native(left, made);
                crate::native_blocks::empty_native_keeps_blocks_apart(fresh, left, made);
                crate::state_laws::marked_handle_is_a_purgeable_resource(emptied, made);
                assert(after.record(made) == emptied.record(made));
            }
        },
    }
}

/// Of the free blocks that suit a request, the smallest is chosen, and of those
/// as small the first.
pub proof fn first_smallest_free_block_is_chosen(
    free: Seq<ProcessPtrRecord>,
    required: u32,
    limit: u32,
    avoid: Option<u32>,
    i: int,
)
    requires
        0 <= i < free.len(),
        crate::native_heap::ptr_fits(free[i], required, limit, avoid),
    ensures
        ({
            let chosen = crate::native_heap::best_ptr(free, required, limit, avoid);
            let size = crate::native_heap::native_size(free[chosen].size)->0;
            let other = crate::native_heap::native_size(free[i].size)->0;
            &&& 0 <= chosen < free.len()
            &&& size <= other
            &&& i < chosen ==> size < other
        }),
    decreases free.len(),
{
    let rest = free.drop_last();
    crate::native_heap::lemma_best_ptr(free, required, limit, avoid);
    crate::native_heap::lemma_best_ptr(rest, required, limit, avoid);
    if i < free.len() - 1 {
        assert(rest[i] == free[i]);
        first_smallest_free_block_is_chosen(rest, required, limit, avoid, i);
    }
}

/// Of the free handles whose blocks suit a request, the one with the smallest
/// block is chosen, and of those as small the first.
pub proof fn first_smallest_free_handle_is_chosen(
    free: Seq<ProcessHandleRecord>,
    required: u32,
    limit: u32,
    i: int,
)
    requires
        0 <= i < free.len(),
        crate::native_heap::handle_fits(free[i], required, limit),
    ensures
        ({
            let chosen = crate::native_heap::best_handle(free, required, limit);
            let size = crate::native_heap::native_size(free[chosen].capacity)->0;
            let other = crate::native_heap::native_size(free[i].capacity)->0;
            &&& 0 <= chosen < free.len()
            &&& chosen == crate::native_heap::chosen_handle(free, required, limit)
            &&& size <= other
            &&& i < chosen ==> size < other
        }),
    decreases free.len(),
{
    let rest = free.drop_last();
    let before = crate::native_heap::best_handle(rest, required, limit);
    lemma_best_handle_bound(rest, required, limit);
    if i < free.len() - 1 {
        assert(rest[i] == free[i]);
        first_smallest_free_handle_is_chosen(rest, required, limit, i);
    }
    if before >= 0 {
        assert(rest[before] == free[before]);
    }
}

proof fn lemma_best_handle_bound(free: Seq<ProcessHandleRecord>, required: u32, limit: u32)
    ensures
        -1 <= crate::native_heap::best_handle(free, required, limit) < free.len(),
    decreases free.len(),
{
    if free.len() > 0 {
        lemma_best_handle_bound(free.drop_last(), required, limit);
    }
}

} // verus!
